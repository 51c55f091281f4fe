//! The topology descriptor shared by the circuit compiler and the witness
//! generator, and the single row enumeration from which both derive the role
//! of every row.

use crate::field::FieldElement;
use vstd::prelude::*;

verus! {

/// How a hidden unit is laid out.
#[derive(Clone, Copy, Debug, PartialEq, Eq, Structural)]
pub enum TopologyPolicy {
    /// One row per hidden unit carrying the fused multiply and add
    /// constraints; a single trailing output row.
    LinearOnly,
    /// Two adjacent rows per hidden unit, the linear transform followed by a
    /// clamp-to-zero pass; one trailing output row per input.
    LinearWithClamp,
}

/// What a row of the layout stands for.
#[derive(Clone, Copy, Debug, PartialEq, Eq, Structural)]
pub enum RowRole {
    /// A public input of the computation.
    Input,
    /// The linear transform of a hidden unit.
    Linear,
    /// The clamp-to-zero pass that follows a linear row.
    Clamp,
    /// A public result of the computation.
    Output,
}

/// Why a topology could not be constructed.
#[derive(Clone, Copy, Debug, PartialEq, Eq, Structural)]
pub enum TopologyError {
    /// The rows of the layout cannot be counted in a `usize`.
    RowCountOverflow,
}

/// The mathematical content of a [`Topology`].
pub struct Layout {
    pub input_size: nat,
    pub depth: nat,
    pub policy: TopologyPolicy,
    pub weight: nat,
    pub bias: nat,
}

impl Layout {
    /// Rows that one hidden unit occupies.
    pub open spec fn rows_per_unit(self) -> nat {
        match self.policy {
            TopologyPolicy::LinearOnly => 1,
            TopologyPolicy::LinearWithClamp => 2,
        }
    }

    /// Rows of all hidden layers together.
    pub open spec fn hidden_rows(self) -> nat {
        self.depth * self.input_size * self.rows_per_unit()
    }

    /// Trailing rows that expose the result.
    pub open spec fn output_rows(self) -> nat {
        match self.policy {
            TopologyPolicy::LinearOnly => 1,
            TopologyPolicy::LinearWithClamp => self.input_size,
        }
    }

    /// First row after the hidden layers.
    pub open spec fn hidden_end(self) -> nat {
        self.input_size + self.hidden_rows()
    }

    /// The deterministic row formula: inputs, then hidden rows, then outputs.
    pub open spec fn row_count(self) -> nat {
        self.input_size + self.hidden_rows() + self.output_rows()
    }

    /// The canonical row enumeration: the role of row `row`, counted from the
    /// first row of the layout.
    pub open spec fn role(self, row: nat) -> RowRole {
        if row < self.input_size {
            RowRole::Input
        } else if row < self.hidden_end() {
            match self.policy {
                TopologyPolicy::LinearOnly => RowRole::Linear,
                TopologyPolicy::LinearWithClamp => if (row - self.input_size) % 2 == 0 {
                    RowRole::Linear
                } else {
                    RowRole::Clamp
                },
            }
        } else {
            RowRole::Output
        }
    }

    /// The multiplicative coefficient that a hidden row applies.
    pub open spec fn row_weight(self, role: RowRole) -> nat {
        match role {
            RowRole::Clamp => 1,
            _ => self.weight,
        }
    }

    /// The additive coefficient that a hidden row applies.
    pub open spec fn row_bias(self, role: RowRole) -> nat {
        match role {
            RowRole::Clamp => 0,
            _ => self.bias,
        }
    }

    /// The role of the hidden rows that output rows expose: the last row of
    /// a unit, which carries the unit's final value.
    pub open spec fn exposed_role(self) -> RowRole {
        match self.policy {
            TopologyPolicy::LinearOnly => RowRole::Linear,
            TopologyPolicy::LinearWithClamp => RowRole::Clamp,
        }
    }

    /// The hidden row whose value output row `row` exposes.
    ///
    /// In a [`TopologyPolicy::LinearWithClamp`] layout the `j`-th output row
    /// exposes the clamp row of unit `j` of the last hidden layer. In a
    /// [`TopologyPolicy::LinearOnly`] layout the single output row exposes
    /// the first unit of the last hidden layer. A layout without hidden rows
    /// has no hidden value to expose.
    pub open spec fn exposed_row(self, row: nat) -> Option<nat> {
        if self.hidden_rows() == 0 {
            None
        } else {
            match self.policy {
                TopologyPolicy::LinearOnly => Some((self.hidden_end() - self.input_size) as nat),
                TopologyPolicy::LinearWithClamp => Some(
                    (self.hidden_end() - 2 * self.input_size + 2 * (row - self.hidden_end())
                        + 1) as nat,
                ),
            }
        }
    }
}

/// A layout with hidden rows has at least one layer of at least one unit, and
/// its hidden rows are whole layers.
pub proof fn lemma_hidden_rows_are_layers(layout: Layout)
    requires
        layout.hidden_rows() > 0,
    ensures
        layout.depth >= 1,
        layout.input_size >= 1,
        layout.hidden_rows() >= layout.input_size * layout.rows_per_unit(),
        layout.policy == TopologyPolicy::LinearWithClamp ==> layout.hidden_rows() % 2 == 0,
{
    let d = layout.depth;
    let n = layout.input_size;
    let per = layout.rows_per_unit();
    assert(d >= 1 && n >= 1 && d * n * per >= n * per) by (nonlinear_arith)
        requires
            d * n * per > 0,
            per >= 1,
    ;
    if layout.policy == TopologyPolicy::LinearWithClamp {
        let m = d * n;
        assert(d * n * 2 == m * 2);
    }
}

/// What an output row exposes is a hidden row of the last layer, and it has
/// the role that [`Layout::exposed_role`] names.
pub proof fn lemma_exposed_row_is_hidden(layout: Layout, row: nat)
    requires
        layout.hidden_end() <= row < layout.row_count(),
    ensures
        layout.exposed_row(row) is Some <==> layout.hidden_rows() > 0,
        layout.exposed_row(row) matches Some(source) ==> {
            &&& layout.input_size <= source < layout.hidden_end()
            &&& layout.role(source) == layout.exposed_role()
        },
{
    if layout.hidden_rows() > 0 {
        lemma_hidden_rows_are_layers(layout);
        let n = layout.input_size;
        assert(n * layout.rows_per_unit() == match layout.policy {
            TopologyPolicy::LinearOnly => n,
            TopologyPolicy::LinearWithClamp => 2 * n,
        }) by (nonlinear_arith)
            requires
                layout.rows_per_unit() == match layout.policy {
                    TopologyPolicy::LinearOnly => 1nat,
                    TopologyPolicy::LinearWithClamp => 2nat,
                },
        ;
    }
}

/// The layout of the depth-based topology: `depth` fused hidden layers with
/// zero weight and bias, and one output row.
pub open spec fn depth_based_layout(input_size: nat, depth: nat) -> Layout {
    Layout { input_size, depth, policy: TopologyPolicy::LinearOnly, weight: 0, bias: 0 }
}

/// The layout of the fixed topology: one hidden layer with weight 3 and bias 1,
/// each unit followed by its clamp row, and one output row per input.
pub open spec fn fixed_clamp_layout(input_size: nat) -> Layout {
    Layout { input_size, depth: 1, policy: TopologyPolicy::LinearWithClamp, weight: 3, bias: 1 }
}

/// Input width, hidden depth and per-layer coefficient policy. It is fixed at
/// construction, and its rows can always be counted in a `usize`.
#[derive(Clone, Copy, Debug, PartialEq, Eq)]
pub struct Topology {
    input_size: usize,
    depth: usize,
    policy: TopologyPolicy,
    weight: FieldElement,
    bias: FieldElement,
    hidden_end: usize,
    rows: usize,
}

impl View for Topology {
    type V = Layout;

    closed spec fn view(&self) -> Layout {
        Layout {
            input_size: self.input_size as nat,
            depth: self.depth as nat,
            policy: self.policy,
            weight: self.weight@,
            bias: self.bias@,
        }
    }
}

/// A product does not shrink when it is multiplied by a factor of at least
/// one.
proof fn lemma_product_bounds(a: nat, b: nat, c: nat)
    requires
        c >= 1,
    ensures
        a * b * c >= a * b,
{
    assert(a * b * c >= a * b) by (nonlinear_arith)
        requires
            c >= 1,
    ;
}

impl Topology {
    #[verifier::type_invariant]
    spec fn consistent(self) -> bool {
        &&& self.hidden_end == self@.hidden_end()
        &&& self.rows == self@.row_count()
    }

    /// A topology with the given shape and coefficients, or
    /// [`TopologyError::RowCountOverflow`] when its rows cannot be counted.
    pub fn new(
        input_size: usize,
        depth: usize,
        policy: TopologyPolicy,
        weight: FieldElement,
        bias: FieldElement,
    ) -> (r: Result<Topology, TopologyError>)
        ensures
            ({
                let layout = Layout {
                    input_size: input_size as nat,
                    depth: depth as nat,
                    policy,
                    weight: weight@,
                    bias: bias@,
                };
                match r {
                    Ok(t) => t@ == layout && layout.row_count() <= usize::MAX,
                    Err(e) => e == TopologyError::RowCountOverflow && layout.row_count()
                        > usize::MAX,
                }
            }),
    {
        let ghost layout = Layout {
            input_size: input_size as nat,
            depth: depth as nat,
            policy,
            weight: weight@,
            bias: bias@,
        };
        let per_unit: usize = match policy {
            TopologyPolicy::LinearOnly => 1,
            TopologyPolicy::LinearWithClamp => 2,
        };
        let outputs: usize = match policy {
            TopologyPolicy::LinearOnly => 1,
            TopologyPolicy::LinearWithClamp => input_size,
        };
        proof {
            lemma_product_bounds(depth as nat, input_size as nat, per_unit as nat);
        }
        let units = match depth.checked_mul(input_size) {
            Some(u) => u,
            None => {
                return Err(TopologyError::RowCountOverflow);
            },
        };
        let hidden = match units.checked_mul(per_unit) {
            Some(h) => h,
            None => {
                return Err(TopologyError::RowCountOverflow);
            },
        };
        let hidden_end = match input_size.checked_add(hidden) {
            Some(e) => e,
            None => {
                return Err(TopologyError::RowCountOverflow);
            },
        };
        let rows = match hidden_end.checked_add(outputs) {
            Some(n) => n,
            None => {
                return Err(TopologyError::RowCountOverflow);
            },
        };
        Ok(Topology { input_size, depth, policy, weight, bias, hidden_end, rows })
    }

    /// The depth-based topology: fused linear rows with zero weight and bias.
    pub fn depth_based(input_size: usize, depth: usize) -> (r: Result<Topology, TopologyError>)
        ensures
            ({
                let layout = depth_based_layout(input_size as nat, depth as nat);
                match r {
                    Ok(t) => t@ == layout && layout.row_count() <= usize::MAX,
                    Err(e) => e == TopologyError::RowCountOverflow && layout.row_count()
                        > usize::MAX,
                }
            }),
    {
        Topology::new(
            input_size,
            depth,
            TopologyPolicy::LinearOnly,
            FieldElement::zero(),
            FieldElement::zero(),
        )
    }

    /// The fixed topology: one hidden layer with weight 3 and bias 1, each unit
    /// followed by its clamp row.
    pub fn fixed_clamp(input_size: usize) -> (r: Result<Topology, TopologyError>)
        ensures
            ({
                let layout = fixed_clamp_layout(input_size as nat);
                match r {
                    Ok(t) => t@ == layout && layout.row_count() <= usize::MAX,
                    Err(e) => e == TopologyError::RowCountOverflow && layout.row_count()
                        > usize::MAX,
                }
            }),
    {
        Topology::new(
            input_size,
            1,
            TopologyPolicy::LinearWithClamp,
            FieldElement::from_u64(3),
            FieldElement::from_u64(1),
        )
    }

    /// Number of rows that both the circuit and the witness occupy.
    pub fn row_count(&self) -> (r: usize)
        ensures
            r == self@.row_count(),
    {
        proof {
            use_type_invariant(self);
        }
        self.rows
    }

    /// The role of row `row`, by the canonical row enumeration.
    pub fn row_role(&self, row: usize) -> (r: RowRole)
        requires
            row < self@.row_count(),
        ensures
            r == self@.role(row as nat),
    {
        proof {
            use_type_invariant(self);
        }
        if row < self.input_size {
            RowRole::Input
        } else if row < self.hidden_end {
            match self.policy {
                TopologyPolicy::LinearOnly => RowRole::Linear,
                TopologyPolicy::LinearWithClamp => if (row - self.input_size) % 2 == 0 {
                    RowRole::Linear
                } else {
                    RowRole::Clamp
                },
            }
        } else {
            RowRole::Output
        }
    }

    /// The hidden row whose value output row `row` exposes, if the topology
    /// has hidden rows.
    pub fn exposed_row(&self, row: usize) -> (r: Option<usize>)
        requires
            self@.hidden_end() <= row < self@.row_count(),
        ensures
            match r {
                Some(source) => self@.exposed_row(row as nat) == Some(source as nat),
                None => self@.exposed_row(row as nat) is None,
            },
    {
        proof {
            use_type_invariant(self);
            lemma_exposed_row_is_hidden(self@, row as nat);
            if self@.hidden_rows() > 0 {
                lemma_hidden_rows_are_layers(self@);
            }
        }
        if self.hidden_end == self.input_size {
            None
        } else {
            match self.policy {
                TopologyPolicy::LinearOnly => Some(self.hidden_end - self.input_size),
                TopologyPolicy::LinearWithClamp => {
                    let first = self.hidden_end - 2 * self.input_size;
                    Some(first + 2 * (row - self.hidden_end) + 1)
                },
            }
        }
    }

    /// The multiplicative coefficient of a hidden row with the given role.
    pub fn row_weight(&self, role: RowRole) -> (r: FieldElement)
        ensures
            r@ == self@.row_weight(role),
    {
        match role {
            RowRole::Clamp => FieldElement::one(),
            _ => self.weight,
        }
    }

    /// The additive coefficient of a hidden row with the given role.
    pub fn row_bias(&self, role: RowRole) -> (r: FieldElement)
        ensures
            r@ == self@.row_bias(role),
    {
        match role {
            RowRole::Clamp => FieldElement::zero(),
            _ => self.bias,
        }
    }

    /// Width of the input layer.
    pub fn input_size(&self) -> (r: usize)
        ensures
            r == self@.input_size,
    {
        self.input_size
    }

    /// Number of hidden layers.
    pub fn depth(&self) -> (r: usize)
        ensures
            r == self@.depth,
    {
        self.depth
    }

    /// The layout policy of the hidden units.
    pub fn policy(&self) -> (r: TopologyPolicy)
        ensures
            r == self@.policy,
    {
        self.policy
    }

    /// The configured multiplicative coefficient.
    pub fn weight(&self) -> (r: FieldElement)
        ensures
            r@ == self@.weight,
    {
        self.weight
    }

    /// The configured additive coefficient.
    pub fn bias(&self) -> (r: FieldElement)
        ensures
            r@ == self@.bias,
    {
        self.bias
    }
}

} // verus!
