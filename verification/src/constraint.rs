//! What it means for a witness to satisfy a circuit, an executable test of it,
//! and the proof that the witness generator always produces a satisfying
//! assignment.

use crate::circuit::{
    circuit_model, compile_spec, gate_at, Gate, GateKind, GateKindModel, GateModel,
};
use crate::field::{fadd, fmul, fsub, modulus, FieldElement};
use crate::topology::{
    lemma_exposed_row_is_hidden, lemma_hidden_rows_are_layers, Layout, RowRole, TopologyPolicy,
};
use crate::witness::{
    cell_after, fill_spec, hidden_value, is_table, values_of, zero_table, Witness, COLUMNS,
    INPUT_COLUMN, TRANSFORM_COLUMN,
};
use vstd::prelude::*;

verus! {

/// The five coefficients of a generic constraint.
pub struct Coefficients {
    pub left: nat,
    pub right: nat,
    pub output: nat,
    pub product: nat,
    pub constant: nat,
}

/// A coefficient, or the default that stands in for a missing one.
pub open spec fn coeff_or(c: Option<nat>, default: nat) -> nat {
    match c {
        Some(v) => v,
        None => default,
    }
}

/// The canonical representative of minus one.
pub open spec fn minus_one() -> nat {
    (modulus() - 1) as nat
}

/// The coefficients that a gate kind stands for.
pub open spec fn coefficients(kind: GateKindModel) -> Coefficients {
    match kind {
        GateKindModel::PublicInput => Coefficients {
            left: 1,
            right: 0,
            output: 0,
            product: 0,
            constant: 0,
        },
        GateKindModel::LinearMul { mul_coeff, output_coeff } => Coefficients {
            left: 0,
            right: 0,
            output: coeff_or(output_coeff, minus_one()),
            product: coeff_or(mul_coeff, 1),
            constant: 0,
        },
        GateKindModel::LinearAdd { left_coeff, right_coeff, output_coeff } => Coefficients {
            left: coeff_or(left_coeff, 1),
            right: coeff_or(right_coeff, 1),
            output: coeff_or(output_coeff, minus_one()),
            product: 0,
            constant: 0,
        },
    }
}

/// The residual of a generic constraint on the registers `left`, `right` and
/// `out`: `left_c * left + right_c * right + output_c * out + product_c * left
/// * right + constant - public`, computed in the field.
pub open spec fn residual(k: Coefficients, left: nat, right: nat, out: nat, public: nat) -> nat {
    let sum = fadd(fadd(fmul(k.left, left), fmul(k.right, right)), fmul(k.output, out));
    let product = fmul(fmul(k.product, left), right);
    fsub(fadd(fadd(sum, product), k.constant), public)
}

/// The public value of a row: the public input of that index, and zero on
/// every row past the public inputs.
pub open spec fn public_at(public: Seq<nat>, row: nat) -> nat {
    if row < public.len() {
        public[row as int]
    } else {
        0
    }
}

/// The residual of a gate's primary constraint, read from the first three
/// columns of its row.
pub open spec fn primary_residual(gate: GateModel, table: Seq<Seq<nat>>, public: Seq<nat>) -> nat {
    let row = gate.row as int;
    residual(
        coefficients(gate.kind),
        table[0][row],
        table[1][row],
        table[2][row],
        public_at(public, gate.row),
    )
}

/// The residual of a gate's chained constraint, read from the next three
/// columns of its row; zero when nothing is chained.
pub open spec fn chained_residual(gate: GateModel, table: Seq<Seq<nat>>) -> nat {
    let row = gate.row as int;
    match gate.chained {
        Some(kind) => residual(coefficients(kind), table[3][row], table[4][row], table[5][row], 0),
        None => 0,
    }
}

/// A gate is satisfied when its row exists and both residuals vanish.
pub open spec fn gate_satisfied(gate: GateModel, table: Seq<Seq<nat>>, public: Seq<nat>) -> bool {
    &&& gate.row < table[0].len()
    &&& primary_residual(gate, table, public) == 0
    &&& chained_residual(gate, table) == 0
}

/// A table satisfies a circuit when it satisfies every gate.
pub open spec fn satisfies(
    circuit: Seq<GateModel>,
    table: Seq<Seq<nat>>,
    public: Seq<nat>,
) -> bool {
    forall|i: int| 0 <= i < circuit.len() ==> gate_satisfied(#[trigger] circuit[i], table, public)
}

/// The first gate that a witness leaves unsatisfied.
#[derive(Clone, Copy, Debug, PartialEq, Eq, Structural)]
pub struct ConstraintViolation {
    /// Position of that gate in the circuit.
    pub gate: usize,
}

/// The exec counterpart of [`coeff_or`].
fn coefficient_or(c: Option<FieldElement>, default: FieldElement) -> (r: FieldElement)
    ensures
        r@ == coeff_or(crate::circuit::coeff_model(c), default@),
{
    match c {
        Some(v) => v,
        None => default,
    }
}

/// Evaluates the residual of one constraint.
fn evaluate(
    kind: &GateKind,
    left: FieldElement,
    right: FieldElement,
    out: FieldElement,
    public: FieldElement,
) -> (r: FieldElement)
    ensures
        r@ == residual(coefficients(kind@), left@, right@, out@, public@),
{
    let zero = FieldElement::zero();
    let one = FieldElement::one();
    let (left_c, right_c, output_c, product_c) = match *kind {
        GateKind::PublicInput => (one, zero, zero, zero),
        GateKind::LinearMul { mul_coeff, output_coeff } => (
            zero,
            zero,
            coefficient_or(output_coeff, FieldElement::minus_one()),
            coefficient_or(mul_coeff, one),
        ),
        GateKind::LinearAdd { left_coeff, right_coeff, output_coeff } => (
            coefficient_or(left_coeff, one),
            coefficient_or(right_coeff, one),
            coefficient_or(output_coeff, FieldElement::minus_one()),
            zero,
        ),
    };
    let sum = left_c.mul(&left).add(&right_c.mul(&right)).add(&output_c.mul(&out));
    let product = product_c.mul(&left).mul(&right);
    sum.add(&product).add(&zero).sub(&public)
}

/// Whether the witness satisfies one gate.
fn gate_holds(gate: &Gate, witness: &Witness, public: &[FieldElement]) -> (ok: bool)
    ensures
        ok == gate_satisfied(gate@, witness@, values_of(public@)),
{
    let rows = witness.rows();
    if gate.row >= rows {
        return false;
    }
    let row = gate.row;
    let public_value = if row < public.len() {
        public[row]
    } else {
        FieldElement::zero()
    };
    let primary = evaluate(
        &gate.kind,
        witness.get(0, row),
        witness.get(1, row),
        witness.get(2, row),
        public_value,
    );
    if !primary.is_zero() {
        return false;
    }
    match gate.chained {
        Some(kind) => {
            let chained = evaluate(
                &kind,
                witness.get(3, row),
                witness.get(4, row),
                witness.get(5, row),
                FieldElement::zero(),
            );
            chained.is_zero()
        },
        None => true,
    }
}

/// Checks a witness against a circuit before any proof is attempted.
///
/// Succeeds exactly when the witness satisfies every gate; otherwise reports
/// the first gate that it leaves unsatisfied.
pub fn check_satisfiability(circuit: &[Gate], witness: &Witness, public: &[FieldElement]) -> (r:
    Result<(), ConstraintViolation>)
    ensures
        r is Ok <==> satisfies(circuit_model(circuit@), witness@, values_of(public@)),
        r matches Err(v) ==> {
            &&& v.gate < circuit@.len()
            &&& !gate_satisfied(circuit@[v.gate as int]@, witness@, values_of(public@))
            &&& forall|i: int|
                0 <= i < v.gate ==> gate_satisfied(
                    #[trigger] circuit_model(circuit@)[i],
                    witness@,
                    values_of(public@),
                )
        },
{
    let mut i: usize = 0;
    while i < circuit.len()
        invariant
            i <= circuit@.len(),
            forall|j: int|
                0 <= j < i ==> gate_satisfied(
                    #[trigger] circuit_model(circuit@)[j],
                    witness@,
                    values_of(public@),
                ),
        decreases circuit@.len() - i,
    {
        if !gate_holds(&circuit[i], witness, public) {
            assert(circuit_model(circuit@)[i as int] == circuit@[i as int]@);
            return Err(ConstraintViolation { gate: i });
        }
        assert(circuit_model(circuit@)[i as int] == circuit@[i as int]@);
        i = i + 1;
    }
    Ok(())
}

/// The column that the generator writes on a row of the given role.
pub open spec fn written_column(role: RowRole) -> int {
    match role {
        RowRole::Input => INPUT_COLUMN as int,
        RowRole::Output => INPUT_COLUMN as int,
        _ => TRANSFORM_COLUMN as int,
    }
}

/// Compiler and generator walk the same rows.
///
/// The circuit of a layout has exactly `row_count` gates, and the generator,
/// started at `start`, walks exactly the `row_count` rows from `start` on:
/// on the row of gate `i` it determines the one cell that the role of that
/// gate names, and it leaves every other cell of the table as it was.
pub proof fn lemma_generator_walks_the_compiled_rows(
    layout: Layout,
    public: Seq<nat>,
    before: Seq<Seq<nat>>,
    start: nat,
    rows: nat,
)
    requires
        is_table(before, rows),
        start + layout.row_count() <= rows,
    ensures
        compile_spec(layout).len() == layout.row_count(),
        is_table(fill_spec(layout, public, before, start), rows),
        forall|c: int, r: int|
            0 <= c < COLUMNS && 0 <= r < rows && !(start <= r < start + layout.row_count())
                ==> #[trigger] fill_spec(layout, public, before, start)[c][r] == before[c][r],
        forall|i: int, c: int|
            0 <= i < layout.row_count() && 0 <= c < COLUMNS && c != written_column(
                layout.role(i as nat),
            ) ==> #[trigger] fill_spec(layout, public, before, start)[c][start + i]
                == before[c][start + i],
        forall|i: int|
            0 <= i < layout.row_count() ==> (#[trigger] compile_spec(layout)[i]).row == i && {
                let c = written_column(layout.role(i as nat));
                fill_spec(layout, public, before, start)[c][start + i] == cell_after(
                    layout,
                    public,
                    before,
                    start,
                    c,
                    start + i,
                )
            },
{
}

/// A constraint whose registers are all zero has residual zero when nothing
/// is subtracted from it.
proof fn lemma_residual_of_zero_registers(k: Coefficients, right: nat)
    requires
        k.right == 0 || right == 0,
        k.constant == 0,
    ensures
        residual(k, 0, right, 0, 0) == 0,
{
    assert(k.left * 0 == 0);
    assert(k.output * 0 == 0);
    assert(k.product * 0 == 0);
    assert(k.right * right == 0) by (nonlinear_arith)
        requires
            k.right == 0 || right == 0,
    ;
    assert(0nat * right == 0);
}

/// The residual of a public-input gate is its first register less the public
/// value of the row.
proof fn lemma_public_input_residual(left: nat, right: nat, out: nat, public: nat)
    requires
        left < modulus(),
    ensures
        residual(coefficients(GateKindModel::PublicInput), left, right, out, public) == fsub(
            left,
            public,
        ),
{
    assert(1 * left == left);
    assert(0 * right == 0);
    assert(0 * out == 0);
    assert(0 * left == 0);
}

/// The final hidden value of a layout on an all-zero table: what every output
/// row exposes when the generator starts from zeros. A layout without hidden
/// rows exposes nothing, which counts as zero.
pub open spec fn final_hidden_value_on_zeros(layout: Layout) -> nat {
    if layout.hidden_rows() == 0 {
        0
    } else {
        hidden_value(layout, layout.exposed_role(), 0)
    }
}

/// On an all-zero table a clamp row holds zero and a linear row holds the
/// bias, so the final hidden value is zero in every
/// [`TopologyPolicy::LinearWithClamp`] layout and is the bias in a
/// [`TopologyPolicy::LinearOnly`] layout with hidden rows.
pub proof fn lemma_final_hidden_value_on_zeros(layout: Layout)
    ensures
        final_hidden_value_on_zeros(layout) < modulus(),
        final_hidden_value_on_zeros(layout) == if layout.hidden_rows() == 0 || layout.policy
            == TopologyPolicy::LinearWithClamp {
            0
        } else {
            layout.bias % modulus()
        },
{
    assert(0nat * layout.weight == 0);
    assert(0nat * 1nat == 0);
}

/// The witness generator produces a satisfying assignment exactly when the
/// value it exposes is zero.
///
/// Take any layout and any vector of `input_size` canonical public inputs,
/// and run the generator from row zero over an all-zero table of at least
/// `row_count` rows. Every input row and every hidden row of the result
/// satisfies its gate. An output row lies past the public inputs, so its
/// gate demands zero in the input column, which is where the generator puts
/// the final hidden value. The table therefore satisfies the circuit compiled
/// from the same layout if and only if that value is zero.
pub proof fn lemma_generated_witness_satisfies(layout: Layout, public: Seq<nat>, rows: nat)
    requires
        public.len() == layout.input_size,
        forall|i: int| 0 <= i < public.len() ==> public[i] < modulus(),
        layout.row_count() <= rows,
    ensures
        satisfies(compile_spec(layout), fill_spec(layout, public, zero_table(rows), 0), public)
            <==> final_hidden_value_on_zeros(layout) == 0,
{
    let circuit = compile_spec(layout);
    let before = zero_table(rows);
    let table = fill_spec(layout, public, before, 0);
    let exposed = final_hidden_value_on_zeros(layout);
    lemma_final_hidden_value_on_zeros(layout);
    assert forall|i: int| 0 <= i < circuit.len() implies (gate_satisfied(
        #[trigger] circuit[i],
        table,
        public,
    ) <==> (layout.role(i as nat) == RowRole::Output ==> exposed == 0)) by {
        let gate = circuit[i];
        assert(gate == gate_at(layout, i as nat));
        let role = layout.role(i as nat);
        assert forall|c: int| 0 <= c < COLUMNS implies #[trigger] table[c][i] == cell_after(
            layout,
            public,
            before,
            0,
            c,
            i,
        ) by {}
        let k = coefficients(gate.kind);
        match role {
            RowRole::Input => {
                assert(table[0][i] == public[i]);
                assert(public_at(public, i as nat) == public[i]);
                lemma_public_input_residual(public[i], table[1][i], table[2][i], public[i]);
                assert(primary_residual(gate, table, public) == 0);
            },
            RowRole::Output => {
                lemma_exposed_row_is_hidden(layout, i as nat);
                assert(table[0][i] == exposed);
                assert(public_at(public, i as nat) == 0);
                lemma_public_input_residual(exposed, table[1][i], table[2][i], 0);
                assert(primary_residual(gate, table, public) == exposed);
            },
            _ => {
                assert(table[0][i] == 0);
                assert(table[2][i] == 0);
                assert(public_at(public, i as nat) == 0);
                lemma_residual_of_zero_registers(k, table[1][i]);
            },
        }
        match gate.chained {
            Some(kind) => {
                assert(table[3][i] == 0);
                assert(table[4][i] == 0);
                assert(table[5][i] == 0);
                lemma_residual_of_zero_registers(coefficients(kind), 0);
            },
            None => {},
        }
    }
    if exposed != 0 {
        // The first output row is a gate of the circuit, and it is violated.
        let first = layout.hidden_end() as int;
        lemma_hidden_rows_are_layers(layout);
        assert(layout.role(first as nat) == RowRole::Output);
        assert(0 <= first < circuit.len());
        assert(!gate_satisfied(circuit[first], table, public));
    }
}

} // verus!
