use zk_mlp::circuit::{
    compile, create_complex_circuit, create_mlp_circuit, create_simple_mlp_circuit, Gate, GateKind,
};
use zk_mlp::field::FieldElement;
use zk_mlp::topology::{RowRole, Topology, TopologyError, TopologyPolicy};

fn fe(v: u64) -> FieldElement {
    FieldElement::from_u64(v)
}

fn public_gate(row: usize) -> Gate {
    Gate { row, kind: GateKind::PublicInput, chained: None }
}

fn fused_gate(row: usize, weight: u64, bias: u64) -> Gate {
    Gate {
        row,
        kind: GateKind::LinearMul { mul_coeff: Some(fe(weight)), output_coeff: None },
        chained: Some(GateKind::LinearAdd {
            left_coeff: None,
            right_coeff: Some(fe(bias)),
            output_coeff: None,
        }),
    }
}

fn mul_gate(row: usize, mul: u64, out: u64) -> Gate {
    Gate {
        row,
        kind: GateKind::LinearMul { mul_coeff: Some(fe(mul)), output_coeff: Some(fe(out)) },
        chained: None,
    }
}

#[test]
fn depth_based_circuit_of_four_inputs_and_two_layers_has_thirteen_rows() {
    let gates = create_mlp_circuit(4, 2);
    assert_eq!(gates.len(), 13);
    let mut expected = Vec::new();
    for row in 0..4 {
        expected.push(public_gate(row));
    }
    for row in 4..12 {
        expected.push(fused_gate(row, 0, 0));
    }
    expected.push(public_gate(12));
    assert_eq!(gates, expected);
}

#[test]
fn depth_based_row_formula() {
    for &(input_size, depth) in
        &[(0usize, 0usize), (0, 5), (1, 0), (1, 1), (3, 2), (4, 8), (7, 3), (16, 16)]
    {
        let gates = create_mlp_circuit(input_size, depth);
        assert_eq!(gates.len(), input_size + depth * input_size + 1);
        for (i, gate) in gates.iter().enumerate() {
            assert_eq!(gate.row, i);
        }
    }
}

#[test]
fn depth_based_circuit_without_inputs_is_one_output_row() {
    assert_eq!(create_mlp_circuit(0, 0), vec![public_gate(0)]);
    assert_eq!(create_mlp_circuit(0, 9), vec![public_gate(0)]);
}

#[test]
fn fixed_circuit_alternates_linear_and_clamp_rows() {
    let gates = create_simple_mlp_circuit(2);
    let expected = vec![
        public_gate(0),
        public_gate(1),
        mul_gate(2, 3, 1),
        mul_gate(3, 1, 0),
        mul_gate(4, 3, 1),
        mul_gate(5, 1, 0),
        public_gate(6),
        public_gate(7),
    ];
    assert_eq!(gates, expected);
}

#[test]
fn fixed_circuit_row_formula() {
    for input_size in [0usize, 1, 2, 5, 100] {
        let gates = create_simple_mlp_circuit(input_size);
        assert_eq!(gates.len(), 4 * input_size);
        for (i, gate) in gates.iter().enumerate() {
            assert_eq!(gate.row, i);
        }
    }
}

#[test]
fn compiling_is_deterministic() {
    let topology = Topology::new(3, 4, TopologyPolicy::LinearOnly, fe(7), fe(11)).unwrap();
    let first = compile(&topology);
    let second = compile(&topology);
    assert_eq!(first, second);
    assert_eq!(first.len(), 3 + 4 * 3 + 1);
    assert_eq!(first[3], fused_gate(3, 7, 11));
    assert_eq!(first[14], fused_gate(14, 7, 11));
    assert_eq!(first[15], public_gate(15));
}

#[test]
fn clamp_policy_with_two_layers() {
    let topology = Topology::new(2, 2, TopologyPolicy::LinearWithClamp, fe(5), fe(6)).unwrap();
    assert_eq!(topology.row_count(), 2 + 2 * 2 * 2 + 2);
    let gates = compile(&topology);
    assert_eq!(gates.len(), 12);
    assert_eq!(gates[2], mul_gate(2, 5, 6));
    assert_eq!(gates[3], mul_gate(3, 1, 0));
    assert_eq!(gates[8], mul_gate(8, 5, 6));
    assert_eq!(gates[9], mul_gate(9, 1, 0));
    assert_eq!(gates[10], public_gate(10));
    assert_eq!(gates[11], public_gate(11));
}

#[test]
fn row_roles_follow_the_layout() {
    let fused = Topology::depth_based(2, 2).unwrap();
    let roles: Vec<RowRole> = (0..fused.row_count()).map(|r| fused.row_role(r)).collect();
    assert_eq!(
        roles,
        vec![
            RowRole::Input,
            RowRole::Input,
            RowRole::Linear,
            RowRole::Linear,
            RowRole::Linear,
            RowRole::Linear,
            RowRole::Output,
        ]
    );
    let clamped = Topology::fixed_clamp(2).unwrap();
    let roles: Vec<RowRole> = (0..clamped.row_count()).map(|r| clamped.row_role(r)).collect();
    assert_eq!(
        roles,
        vec![
            RowRole::Input,
            RowRole::Input,
            RowRole::Linear,
            RowRole::Clamp,
            RowRole::Linear,
            RowRole::Clamp,
            RowRole::Output,
            RowRole::Output,
        ]
    );
}

#[test]
fn topology_reports_its_parameters() {
    let t = Topology::new(3, 4, TopologyPolicy::LinearWithClamp, fe(7), fe(11)).unwrap();
    assert_eq!(t.input_size(), 3);
    assert_eq!(t.depth(), 4);
    assert_eq!(t.policy(), TopologyPolicy::LinearWithClamp);
    assert_eq!(t.weight(), fe(7));
    assert_eq!(t.bias(), fe(11));
    assert_eq!(t.row_weight(RowRole::Linear), fe(7));
    assert_eq!(t.row_bias(RowRole::Linear), fe(11));
    assert_eq!(t.row_weight(RowRole::Clamp), fe(1));
    assert_eq!(t.row_bias(RowRole::Clamp), fe(0));
    let d = Topology::depth_based(4, 2).unwrap();
    assert_eq!(d.policy(), TopologyPolicy::LinearOnly);
    assert_eq!(d.weight(), fe(0));
    assert_eq!(d.bias(), fe(0));
    let f = Topology::fixed_clamp(4).unwrap();
    assert_eq!(f.depth(), 1);
    assert_eq!(f.weight(), fe(3));
    assert_eq!(f.bias(), fe(1));
    assert_eq!(f.row_count(), 16);
}

#[test]
fn topology_whose_rows_cannot_be_counted_is_rejected() {
    assert_eq!(Topology::depth_based(usize::MAX, 1), Err(TopologyError::RowCountOverflow));
    assert_eq!(Topology::depth_based(usize::MAX, 0), Err(TopologyError::RowCountOverflow));
    assert_eq!(Topology::depth_based(2, usize::MAX), Err(TopologyError::RowCountOverflow));
    assert_eq!(Topology::fixed_clamp(usize::MAX / 2), Err(TopologyError::RowCountOverflow));
    assert_eq!(
        Topology::new(usize::MAX / 2, 1, TopologyPolicy::LinearWithClamp, fe(1), fe(1)),
        Err(TopologyError::RowCountOverflow)
    );
    assert!(Topology::depth_based(usize::MAX - 1, 0).is_ok());
    assert!(Topology::depth_based(0, usize::MAX).is_ok());
}

#[test]
fn alternating_circuit_pairs_multiplication_with_addition() {
    let gates = create_complex_circuit(3);
    assert_eq!(gates.len(), 6);
    for i in 0..3usize {
        assert_eq!(
            gates[2 * i],
            Gate {
                row: 2 * i,
                kind: GateKind::LinearMul { mul_coeff: Some(fe(3 + i as u64)), output_coeff: None },
                chained: None,
            }
        );
        assert_eq!(
            gates[2 * i + 1],
            Gate {
                row: 2 * i + 1,
                kind: GateKind::LinearAdd {
                    left_coeff: None,
                    right_coeff: Some(fe(5 + i as u64)),
                    output_coeff: None,
                },
                chained: None,
            }
        );
    }
    assert!(create_complex_circuit(0).is_empty());
}
