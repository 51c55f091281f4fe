//! The prover's preparation step: from a depth exponent to a circuit, a
//! witness that satisfies it, and the scalar that is published with the proof.

use crate::circuit::{circuit_model, compile, compile_spec, rows_contiguous, Gate};
use crate::constraint::{
    check_satisfiability, final_hidden_value_on_zeros, lemma_final_hidden_value_on_zeros,
    lemma_generated_witness_satisfies, satisfies, ConstraintViolation,
};
use crate::field::{modulus, FieldElement};
use crate::topology::{depth_based_layout, Topology, TopologyError};
use crate::witness::{fill, fill_spec, values_of, zero_table, Witness, INPUT_COLUMN};
use vstd::prelude::*;

verus! {

/// Width of the input layer of the benchmark instance.
pub const INSTANCE_INPUTS: usize = 4;

/// Value of every public input of the benchmark instance.
pub const INSTANCE_INPUT_VALUE: u64 = 3;

/// Two to the power `exp`.
pub open spec fn two_to(exp: nat) -> nat
    decreases exp,
{
    if exp == 0 {
        1
    } else {
        2 * two_to((exp - 1) as nat)
    }
}

/// Powers of two do not shrink as the exponent grows.
pub proof fn lemma_two_to_monotonic(a: nat, b: nat)
    requires
        a <= b,
    ensures
        two_to(a) <= two_to(b),
        two_to(a) >= 1,
    decreases b,
{
    if a < b {
        lemma_two_to_monotonic(a, (b - 1) as nat);
    } else if a > 0 {
        lemma_two_to_monotonic((a - 1) as nat, (a - 1) as nat);
    }
}

/// The hidden depth `2^exp` that a depth exponent stands for, or `None` when
/// it cannot be held in a `usize`.
pub fn depth_from_exponent(exp: usize) -> (depth: Option<usize>)
    ensures
        match depth {
            Some(d) => d == two_to(exp as nat),
            None => two_to(exp as nat) > usize::MAX,
        },
{
    let mut depth: usize = 1;
    let mut i: usize = 0;
    while i < exp
        invariant
            i <= exp,
            depth == two_to(i as nat),
        decreases exp - i,
    {
        match depth.checked_mul(2) {
            Some(d) => {
                depth = d;
            },
            None => {
                proof {
                    lemma_two_to_monotonic((i + 1) as nat, exp as nat);
                }
                return None;
            },
        }
        i = i + 1;
    }
    Some(depth)
}

/// Runs the witness generator on a fresh all-zero witness of exactly
/// `row_count` rows. The result satisfies the circuit compiled from the same
/// topology exactly when the final hidden value that it exposes is zero.
pub fn generate_witness(topology: &Topology, public: &[FieldElement]) -> (witness: Witness)
    requires
        public@.len() == topology@.input_size,
    ensures
        witness.height() == topology@.row_count(),
        witness@ == fill_spec(
            topology@,
            values_of(public@),
            zero_table(topology@.row_count()),
            0,
        ),
        satisfies(compile_spec(topology@), witness@, values_of(public@))
            <==> final_hidden_value_on_zeros(topology@) == 0,
{
    let mut witness = Witness::zeroed(topology.row_count());
    fill(topology, public, &mut witness, 0);
    proof {
        assert forall|i: int| 0 <= i < public@.len() implies (#[trigger] values_of(public@)[i])
            < modulus() by {
            public@[i].lemma_view_is_canonical();
        }
        lemma_generated_witness_satisfies(
            topology@,
            values_of(public@),
            topology@.row_count(),
        );
    }
    witness
}

/// A circuit together with the witness and public values that go to the
/// prover.
#[derive(Debug)]
pub struct MlpInstance {
    /// The compiled circuit.
    pub gates: Vec<Gate>,
    /// The witness that satisfies it.
    pub witness: Witness,
    /// The public inputs.
    pub public: Vec<FieldElement>,
    /// The scalar published alongside the proof: the first cell of the
    /// witness's input column.
    pub public_output: Vec<FieldElement>,
}

/// Prepares the benchmark instance of depth `2^exp`: four public inputs of
/// value three, the depth-based circuit over them and its generated witness.
pub fn mlp_by_depth(exp: usize) -> (instance: MlpInstance)
    requires
        INSTANCE_INPUTS + two_to(exp as nat) * INSTANCE_INPUTS + 1 <= usize::MAX,
    ensures
        ({
            let layout = depth_based_layout(INSTANCE_INPUTS as nat, two_to(exp as nat));
            let public = values_of(instance.public@);
            &&& public == seq![3nat, 3nat, 3nat, 3nat]
            &&& circuit_model(instance.gates@) == compile_spec(layout)
            &&& instance.gates@.len() == INSTANCE_INPUTS + two_to(exp as nat) * INSTANCE_INPUTS + 1
            &&& rows_contiguous(circuit_model(instance.gates@))
            &&& instance.witness@ == fill_spec(layout, public, zero_table(layout.row_count()), 0)
            &&& satisfies(circuit_model(instance.gates@), instance.witness@, public)
            &&& values_of(instance.public_output@) == seq![3nat]
        }),
{
    proof {
        lemma_two_to_monotonic(0, exp as nat);
        assert(two_to(exp as nat) * INSTANCE_INPUTS >= two_to(exp as nat)) by (nonlinear_arith)
            requires
                INSTANCE_INPUTS == 4,
        ;
        crate::circuit::lemma_depth_based_row_count(INSTANCE_INPUTS as nat, two_to(exp as nat));
        lemma_final_hidden_value_on_zeros(
            depth_based_layout(INSTANCE_INPUTS as nat, two_to(exp as nat)),
        );
    }
    let depth = depth_from_exponent(exp).unwrap();
    let value = FieldElement::from_u64(INSTANCE_INPUT_VALUE);
    let mut public: Vec<FieldElement> = Vec::new();
    public.push(value);
    public.push(value);
    public.push(value);
    public.push(value);
    assert(values_of(public@) =~= seq![3nat, 3nat, 3nat, 3nat]);
    let topology = Topology::depth_based(public.len(), depth).unwrap();
    let gates = compile(&topology);
    let witness = generate_witness(&topology, public.as_slice());
    let first = witness.get(INPUT_COLUMN, 0);
    let mut public_output: Vec<FieldElement> = Vec::new();
    public_output.push(first);
    assert(values_of(public_output@) =~= seq![3nat]);
    MlpInstance { gates, witness, public, public_output }
}

/// Why no instance was handed out.
#[derive(Clone, Copy, Debug, PartialEq, Eq, Structural)]
pub enum PreparationError {
    /// The rows of the instance cannot be counted in a `usize`.
    Topology(TopologyError),
    /// The witness leaves a gate of the circuit unsatisfied.
    Constraint(ConstraintViolation),
}

/// Whether the rows of the benchmark instance of depth `2^exp` can be counted
/// in a `usize`.
pub open spec fn instance_fits(exp: nat) -> bool {
    INSTANCE_INPUTS + two_to(exp) * INSTANCE_INPUTS + 1 <= usize::MAX
}

/// Prepares the benchmark instance of depth `2^exp` for any exponent, and
/// hands it out only after its witness has been checked against its circuit.
///
/// An exponent whose instance cannot be laid out is rejected. For every other
/// exponent the instance is the one that [`mlp_by_depth`] builds; its witness
/// passes the check, so a constraint violation is never reported.
pub fn prepare_by_depth(exp: usize) -> (r: Result<MlpInstance, PreparationError>)
    ensures
        match r {
            Ok(instance) => {
                let layout = depth_based_layout(INSTANCE_INPUTS as nat, two_to(exp as nat));
                let public = values_of(instance.public@);
                &&& instance_fits(exp as nat)
                &&& public == seq![3nat, 3nat, 3nat, 3nat]
                &&& circuit_model(instance.gates@) == compile_spec(layout)
                &&& instance.witness@ == fill_spec(
                    layout,
                    public,
                    zero_table(layout.row_count()),
                    0,
                )
                &&& satisfies(circuit_model(instance.gates@), instance.witness@, public)
                &&& values_of(instance.public_output@) == seq![3nat]
            },
            Err(e) => !instance_fits(exp as nat) && e == PreparationError::Topology(
                TopologyError::RowCountOverflow,
            ),
        },
{
    proof {
        lemma_two_to_monotonic(0, exp as nat);
        assert(two_to(exp as nat) * INSTANCE_INPUTS >= two_to(exp as nat)) by (nonlinear_arith)
            requires
                INSTANCE_INPUTS == 4,
        ;
        crate::circuit::lemma_depth_based_row_count(INSTANCE_INPUTS as nat, two_to(exp as nat));
    }
    let depth = match depth_from_exponent(exp) {
        Some(d) => d,
        None => {
            return Err(PreparationError::Topology(TopologyError::RowCountOverflow));
        },
    };
    match Topology::depth_based(INSTANCE_INPUTS, depth) {
        Ok(_) => {},
        Err(e) => {
            return Err(PreparationError::Topology(e));
        },
    }
    let instance = mlp_by_depth(exp);
    match check_satisfiability(
        instance.gates.as_slice(),
        &instance.witness,
        instance.public.as_slice(),
    ) {
        Ok(()) => Ok(instance),
        Err(violation) => Err(PreparationError::Constraint(violation)),
    }
}

} // verus!
