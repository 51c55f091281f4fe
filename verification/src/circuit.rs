//! Compiling circuits: from a topology to the ordered sequence of arithmetic
//! gates that constrains one row each.

use crate::field::FieldElement;
use crate::topology::{
    depth_based_layout, fixed_clamp_layout, Layout, RowRole, Topology, TopologyPolicy,
};
use vstd::prelude::*;

verus! {

/// The constraint that a gate places on the registers of its row.
#[derive(Clone, Copy, Debug, PartialEq, Eq)]
pub enum GateKind {
    /// The first register equals the public value of the row.
    PublicInput,
    /// `output_coeff * out + mul_coeff * left * right = 0`; a missing
    /// `output_coeff` stands for minus one, a missing `mul_coeff` for one.
    LinearMul { mul_coeff: Option<FieldElement>, output_coeff: Option<FieldElement> },
    /// `left_coeff * left + right_coeff * right + output_coeff * out = 0`; a
    /// missing input coefficient stands for one, a missing `output_coeff` for
    /// minus one.
    LinearAdd {
        left_coeff: Option<FieldElement>,
        right_coeff: Option<FieldElement>,
        output_coeff: Option<FieldElement>,
    },
}

/// One row of the circuit: its primary constraint and, optionally, a second
/// constraint chained onto the same row.
#[derive(Clone, Copy, Debug, PartialEq, Eq)]
pub struct Gate {
    pub row: usize,
    pub kind: GateKind,
    pub chained: Option<GateKind>,
}

/// The mathematical content of a [`GateKind`], coefficients as integers.
pub enum GateKindModel {
    PublicInput,
    LinearMul { mul_coeff: Option<nat>, output_coeff: Option<nat> },
    LinearAdd { left_coeff: Option<nat>, right_coeff: Option<nat>, output_coeff: Option<nat> },
}

/// The mathematical content of a [`Gate`].
pub struct GateModel {
    pub row: nat,
    pub kind: GateKindModel,
    pub chained: Option<GateKindModel>,
}

/// The canonical representative of an optional coefficient.
pub open spec fn coeff_model(c: Option<FieldElement>) -> Option<nat> {
    match c {
        Some(x) => Some(x@),
        None => None,
    }
}

impl View for GateKind {
    type V = GateKindModel;

    open spec fn view(&self) -> GateKindModel {
        match *self {
            GateKind::PublicInput => GateKindModel::PublicInput,
            GateKind::LinearMul { mul_coeff, output_coeff } => GateKindModel::LinearMul {
                mul_coeff: coeff_model(mul_coeff),
                output_coeff: coeff_model(output_coeff),
            },
            GateKind::LinearAdd { left_coeff, right_coeff, output_coeff } => {
                GateKindModel::LinearAdd {
                    left_coeff: coeff_model(left_coeff),
                    right_coeff: coeff_model(right_coeff),
                    output_coeff: coeff_model(output_coeff),
                }
            },
        }
    }
}

impl View for Gate {
    type V = GateModel;

    open spec fn view(&self) -> GateModel {
        GateModel {
            row: self.row as nat,
            kind: self.kind@,
            chained: match self.chained {
                Some(k) => Some(k@),
                None => None,
            },
        }
    }
}

/// The models of a sequence of gates, in order.
pub open spec fn circuit_model(gates: Seq<Gate>) -> Seq<GateModel> {
    Seq::new(gates.len(), |i: int| gates[i]@)
}

/// Row indices are contiguous from zero: no gaps and no repeats.
pub open spec fn rows_contiguous(circuit: Seq<GateModel>) -> bool {
    forall|i: int| 0 <= i < circuit.len() ==> (#[trigger] circuit[i]).row == i
}

/// The primary constraint of the row with the given role.
pub open spec fn primary_kind(layout: Layout, role: RowRole) -> GateKindModel {
    match role {
        RowRole::Input => GateKindModel::PublicInput,
        RowRole::Output => GateKindModel::PublicInput,
        RowRole::Linear => match layout.policy {
            TopologyPolicy::LinearOnly => GateKindModel::LinearMul {
                mul_coeff: Some(layout.weight),
                output_coeff: None,
            },
            TopologyPolicy::LinearWithClamp => GateKindModel::LinearMul {
                mul_coeff: Some(layout.weight),
                output_coeff: Some(layout.bias),
            },
        },
        RowRole::Clamp => GateKindModel::LinearMul {
            mul_coeff: Some(1nat),
            output_coeff: Some(0nat),
        },
    }
}

/// The constraint chained onto the row with the given role, if any: the fused
/// addition of the bias on the linear rows of a
/// [`TopologyPolicy::LinearOnly`] layout.
pub open spec fn chained_kind(layout: Layout, role: RowRole) -> Option<GateKindModel> {
    if role == RowRole::Linear && layout.policy == TopologyPolicy::LinearOnly {
        Some(
            GateKindModel::LinearAdd {
                left_coeff: None,
                right_coeff: Some(layout.bias),
                output_coeff: None,
            },
        )
    } else {
        None
    }
}

/// What the compiler places on row `row`.
pub open spec fn gate_at(layout: Layout, row: nat) -> GateModel {
    GateModel {
        row,
        kind: primary_kind(layout, layout.role(row)),
        chained: chained_kind(layout, layout.role(row)),
    }
}

/// The circuit of a layout: one gate per row, in row order.
pub open spec fn compile_spec(layout: Layout) -> Seq<GateModel> {
    Seq::new(layout.row_count(), |row: int| gate_at(layout, row as nat))
}

/// Builds what [`gate_at`] describes for one row.
fn gate_for(topology: &Topology, row: usize) -> (g: Gate)
    requires
        row < topology@.row_count(),
    ensures
        g@ == gate_at(topology@, row as nat),
{
    let role = topology.row_role(row);
    match role {
        RowRole::Input => Gate { row, kind: GateKind::PublicInput, chained: None },
        RowRole::Output => Gate { row, kind: GateKind::PublicInput, chained: None },
        RowRole::Linear => match topology.policy() {
            TopologyPolicy::LinearOnly => Gate {
                row,
                kind: GateKind::LinearMul {
                    mul_coeff: Some(topology.weight()),
                    output_coeff: None,
                },
                chained: Some(
                    GateKind::LinearAdd {
                        left_coeff: None,
                        right_coeff: Some(topology.bias()),
                        output_coeff: None,
                    },
                ),
            },
            TopologyPolicy::LinearWithClamp => Gate {
                row,
                kind: GateKind::LinearMul {
                    mul_coeff: Some(topology.weight()),
                    output_coeff: Some(topology.bias()),
                },
                chained: None,
            },
        },
        RowRole::Clamp => Gate {
            row,
            kind: GateKind::LinearMul {
                mul_coeff: Some(FieldElement::one()),
                output_coeff: Some(FieldElement::zero()),
            },
            chained: None,
        },
    }
}

/// Compiles a topology into its circuit.
///
/// The result has exactly `row_count` gates; gate `i` constrains row `i` and is
/// the one that the canonical row enumeration assigns to that row. Compiling is
/// a function of the topology alone.
pub fn compile(topology: &Topology) -> (circuit: Vec<Gate>)
    ensures
        circuit_model(circuit@) == compile_spec(topology@),
        circuit.len() == topology@.row_count(),
        rows_contiguous(circuit_model(circuit@)),
{
    let rows = topology.row_count();
    let mut gates: Vec<Gate> = Vec::new();
    let mut row: usize = 0;
    while row < rows
        invariant
            rows == topology@.row_count(),
            row <= rows,
            gates.len() == row,
            forall|i: int| 0 <= i < row ==> (#[trigger] gates[i])@ == gate_at(topology@, i as nat),
        decreases rows - row,
    {
        let g = gate_for(topology, row);
        gates.push(g);
        row = row + 1;
    }
    assert(circuit_model(gates@) =~= compile_spec(topology@));
    gates
}

/// The circuit of the depth-based topology with `depth` hidden layers of
/// `input_size` fused rows each: `input_size + depth * input_size + 1` gates.
pub fn create_mlp_circuit(input_size: usize, depth: usize) -> (gates: Vec<Gate>)
    requires
        input_size + depth * input_size + 1 <= usize::MAX,
    ensures
        circuit_model(gates@) == compile_spec(depth_based_layout(input_size as nat, depth as nat)),
        gates.len() == input_size + depth * input_size + 1,
        rows_contiguous(circuit_model(gates@)),
{
    proof {
        lemma_depth_based_row_count(input_size as nat, depth as nat);
    }
    let topology = Topology::depth_based(input_size, depth).unwrap();
    compile(&topology)
}

/// The circuit of the fixed topology over `input_size` inputs: one hidden
/// layer whose units take a linear row and a clamp row each, `4 * input_size`
/// gates in all.
pub fn create_simple_mlp_circuit(input_size: usize) -> (gates: Vec<Gate>)
    requires
        4 * input_size <= usize::MAX,
    ensures
        circuit_model(gates@) == compile_spec(fixed_clamp_layout(input_size as nat)),
        gates.len() == 4 * input_size,
        rows_contiguous(circuit_model(gates@)),
{
    proof {
        lemma_fixed_clamp_row_count(input_size as nat);
    }
    let topology = Topology::fixed_clamp(input_size).unwrap();
    compile(&topology)
}

/// The row formula of the depth-based layout.
pub proof fn lemma_depth_based_row_count(input_size: nat, depth: nat)
    ensures
        depth_based_layout(input_size, depth).row_count() == input_size + depth * input_size + 1,
{
    assert(depth * input_size * 1 == depth * input_size) by (nonlinear_arith);
}

/// The row formula of the fixed layout.
pub proof fn lemma_fixed_clamp_row_count(input_size: nat)
    ensures
        fixed_clamp_layout(input_size).row_count() == 4 * input_size,
{
    assert(1 * input_size * 2 == 2 * input_size) by (nonlinear_arith);
}

/// Gate `2 * i` of the alternating circuit: a multiplication by `3 + i`.
pub open spec fn alternating_mul_gate(i: nat) -> GateModel {
    GateModel {
        row: 2 * i,
        kind: GateKindModel::LinearMul { mul_coeff: Some(3 + i), output_coeff: None },
        chained: None,
    }
}

/// Gate `2 * i + 1` of the alternating circuit: an addition that scales its
/// right input by `5 + i`.
pub open spec fn alternating_add_gate(i: nat) -> GateModel {
    GateModel {
        row: 2 * i + 1,
        kind: GateKindModel::LinearAdd {
            left_coeff: None,
            right_coeff: Some(5 + i),
            output_coeff: None,
        },
        chained: None,
    }
}

/// A circuit of `depth` multiplication gates alternating with `depth`
/// addition gates, whose coefficients grow with the pair's index.
pub fn create_complex_circuit(depth: usize) -> (gates: Vec<Gate>)
    requires
        2 * depth <= usize::MAX,
    ensures
        gates.len() == 2 * depth,
        rows_contiguous(circuit_model(gates@)),
        forall|i: int|
            0 <= i < depth ==> (#[trigger] gates[2 * i])@ == alternating_mul_gate(i as nat),
        forall|i: int|
            0 <= i < depth ==> (#[trigger] gates[2 * i + 1])@ == alternating_add_gate(i as nat),
{
    let mut gates: Vec<Gate> = Vec::new();
    let mut i: usize = 0;
    while i < depth
        invariant
            i <= depth,
            2 * depth <= usize::MAX,
            gates.len() == 2 * i,
            forall|j: int| 0 <= j < gates.len() ==> (#[trigger] gates[j]).row == j,
            forall|j: int|
                0 <= j < i ==> (#[trigger] gates[2 * j])@ == alternating_mul_gate(j as nat),
            forall|j: int|
                0 <= j < i ==> (#[trigger] gates[2 * j + 1])@ == alternating_add_gate(j as nat),
        decreases depth - i,
    {
        let index: u64 = i as u64;
        let mul_gate = Gate {
            row: i * 2,
            kind: GateKind::LinearMul {
                output_coeff: None,
                mul_coeff: Some(FieldElement::from_u64(3 + index)),
            },
            chained: None,
        };
        gates.push(mul_gate);
        let add_gate = Gate {
            row: i * 2 + 1,
            kind: GateKind::LinearAdd {
                left_coeff: None,
                right_coeff: Some(FieldElement::from_u64(5 + index)),
                output_coeff: None,
            },
            chained: None,
        };
        gates.push(add_gate);
        i = i + 1;
    }
    gates
}

} // verus!
