//! The witness: a fixed number of columns of field elements indexed by row,
//! and the generator that fills it in lockstep with the circuit compiler.

use crate::field::{clamp_value, linear_value, FieldElement};
use crate::topology::{
    depth_based_layout, fixed_clamp_layout, lemma_exposed_row_is_hidden, Layout, RowRole,
    Topology, TopologyPolicy,
};
use vstd::prelude::*;

verus! {

/// Number of columns of a witness.
pub const COLUMNS: usize = 15;

/// Column that holds the public inputs and the public results.
pub const INPUT_COLUMN: usize = 0;

/// Column that holds the value of a hidden row after its transform.
pub const TRANSFORM_COLUMN: usize = 1;

/// The per-row assignment of field elements, column by column.
#[derive(Debug, PartialEq, Eq)]
pub struct Witness {
    columns: Vec<Vec<FieldElement>>,
    rows: usize,
}

impl View for Witness {
    type V = Seq<Seq<nat>>;

    /// The canonical representatives, indexed by column and then by row.
    closed spec fn view(&self) -> Seq<Seq<nat>> {
        Seq::new(
            self.columns.len() as nat,
            |c: int| Seq::new(self.columns[c].len() as nat, |r: int| self.columns[c][r]@),
        )
    }
}

/// A table has [`COLUMNS`] columns of `rows` cells each.
pub open spec fn is_table(table: Seq<Seq<nat>>, rows: nat) -> bool {
    &&& table.len() == COLUMNS
    &&& forall|c: int| 0 <= c < COLUMNS ==> (#[trigger] table[c]).len() == rows
}

/// The table of `rows` rows whose every cell is zero.
pub open spec fn zero_table(rows: nat) -> Seq<Seq<nat>> {
    Seq::new(COLUMNS as nat, |c: int| Seq::new(rows, |r: int| 0nat))
}

/// The canonical representatives of a sequence of field elements.
pub open spec fn values_of(elements: Seq<FieldElement>) -> Seq<nat> {
    Seq::new(elements.len(), |i: int| elements[i]@)
}

/// The value that the generator writes into the transform column of a hidden
/// row whose input column holds `input`: the row's affine map, clamped to zero
/// when the layout models an activation.
pub open spec fn hidden_value(layout: Layout, role: RowRole, input: nat) -> nat {
    let linear = linear_value(input, layout.row_weight(role), layout.row_bias(role));
    match layout.policy {
        TopologyPolicy::LinearOnly => linear,
        TopologyPolicy::LinearWithClamp => clamp_value(linear),
    }
}

/// The value that a run started at `start` puts into the transform column of
/// hidden row `row` of the layout.
pub open spec fn transform_after(
    layout: Layout,
    before: Seq<Seq<nat>>,
    start: nat,
    row: nat,
) -> nat {
    hidden_value(layout, layout.role(row), before[INPUT_COLUMN as int][(start + row) as int])
}

/// The content of one cell after the generator has run over the rows
/// `start .. start + row_count` of `before`.
///
/// An input row receives its public input in the input column. A hidden row
/// receives [`hidden_value`] of its own input column in the transform column.
/// An output row receives in the input column the final hidden value: what
/// the same run has put into the transform column of the hidden row that
/// [`Layout::exposed_row`] names. In a layout without hidden rows there is no
/// such value and the output row is left as it was. Every other cell is left
/// as it was.
pub open spec fn cell_after(
    layout: Layout,
    public: Seq<nat>,
    before: Seq<Seq<nat>>,
    start: nat,
    column: int,
    row: int,
) -> nat {
    if start <= row < start + layout.row_count() {
        let role = layout.role((row - start) as nat);
        match role {
            RowRole::Input => if column == INPUT_COLUMN {
                public[row - start]
            } else {
                before[column][row]
            },
            RowRole::Output => if column == INPUT_COLUMN {
                match layout.exposed_row((row - start) as nat) {
                    Some(source) => transform_after(layout, before, start, source),
                    None => before[column][row],
                }
            } else {
                before[column][row]
            },
            _ => if column == TRANSFORM_COLUMN {
                transform_after(layout, before, start, (row - start) as nat)
            } else {
                before[column][row]
            },
        }
    } else {
        before[column][row]
    }
}

/// The table after the generator has run over the first `done` rows of the
/// layout.
pub open spec fn fill_prefix(
    layout: Layout,
    public: Seq<nat>,
    before: Seq<Seq<nat>>,
    start: nat,
    done: nat,
) -> Seq<Seq<nat>> {
    Seq::new(
        before.len(),
        |c: int|
            Seq::new(
                before[c].len(),
                |r: int|
                    if r < start + done {
                        cell_after(layout, public, before, start, c, r)
                    } else {
                        before[c][r]
                    },
            ),
    )
}

/// The table after the generator has run over every row of the layout.
pub open spec fn fill_spec(
    layout: Layout,
    public: Seq<nat>,
    before: Seq<Seq<nat>>,
    start: nat,
) -> Seq<Seq<nat>> {
    fill_prefix(layout, public, before, start, layout.row_count())
}

/// Output rows expose the final hidden value.
///
/// After a run, the input column of an output row holds what the same run
/// has put into the transform column of the hidden row that the output row
/// exposes, a row of the last hidden layer. Where the layout has no hidden
/// row, the output row holds what it held before.
pub proof fn lemma_output_rows_expose_final_hidden_value(
    layout: Layout,
    public: Seq<nat>,
    before: Seq<Seq<nat>>,
    start: nat,
    rows: nat,
    row: nat,
)
    requires
        is_table(before, rows),
        start + layout.row_count() <= rows,
        layout.hidden_end() <= row < layout.row_count(),
    ensures
        ({
            let after = fill_spec(layout, public, before, start);
            match layout.exposed_row(row) {
                Some(source) => {
                    &&& layout.hidden_end() - layout.input_size * layout.rows_per_unit() <= source
                        < layout.hidden_end()
                    &&& after[INPUT_COLUMN as int][(start + row) as int]
                        == after[TRANSFORM_COLUMN as int][(start + source) as int]
                },
                None => {
                    &&& layout.hidden_rows() == 0
                    &&& after[INPUT_COLUMN as int][(start + row) as int]
                        == before[INPUT_COLUMN as int][(start + row) as int]
                },
            }
        }),
{
    lemma_exposed_row_is_hidden(layout, row);
    if layout.hidden_rows() > 0 {
        crate::topology::lemma_hidden_rows_are_layers(layout);
        let n = layout.input_size;
        assert(n * layout.rows_per_unit() == match layout.policy {
            TopologyPolicy::LinearOnly => n,
            TopologyPolicy::LinearWithClamp => 2 * n,
        }) by (nonlinear_arith)
            requires
                layout.rows_per_unit() == match layout.policy {
                    TopologyPolicy::LinearOnly => 1nat,
                    TopologyPolicy::LinearWithClamp => 2nat,
                },
        ;
    }
}

/// Overwrites one cell of a table and keeps its shape.
fn store(columns: &mut Vec<Vec<FieldElement>>, column: usize, row: usize, value: FieldElement)
    requires
        column < old(columns).len(),
        row < old(columns)[column as int].len(),
    ensures
        final(columns).len() == old(columns).len(),
        final(columns)[column as int]@ == old(columns)[column as int]@.update(row as int, value),
        forall|c: int|
            0 <= c < old(columns).len() && c != column ==> final(columns)[c] == old(columns)[c],
    no_unwind
{
    columns[column][row] = value;
}

impl Clone for Witness {
    fn clone(&self) -> (w: Witness)
        ensures
            w@ == self@,
            w.height() == self.height(),
    {
        proof {
            use_type_invariant(self);
        }
        let mut columns: Vec<Vec<FieldElement>> = Vec::new();
        let mut c: usize = 0;
        while c < COLUMNS
            invariant
                c <= COLUMNS,
                self.columns.len() == COLUMNS,
                forall|i: int| 0 <= i < COLUMNS ==> (#[trigger] self.columns[i]).len() == self.rows,
                columns.len() == c,
                forall|i: int| 0 <= i < c ==> (#[trigger] columns[i])@ == self.columns[i]@,
            decreases COLUMNS - c,
        {
            let mut cells: Vec<FieldElement> = Vec::new();
            let mut r: usize = 0;
            while r < self.rows
                invariant
                    c < COLUMNS,
                    self.columns.len() == COLUMNS,
                    self.columns[c as int].len() == self.rows,
                    r <= self.rows,
                    cells.len() == r,
                    forall|j: int|
                        0 <= j < r ==> (#[trigger] cells[j]) == self.columns[c as int][j],
                decreases self.rows - r,
            {
                cells.push(self.columns[c][r]);
                r = r + 1;
            }
            assert(cells@ =~= self.columns[c as int]@);
            columns.push(cells);
            c = c + 1;
        }
        let w = Witness { columns, rows: self.rows };
        assert(w@ =~~= self@);
        w
    }
}

impl Witness {
    #[verifier::type_invariant]
    spec fn rectangular(self) -> bool {
        &&& self.columns.len() == COLUMNS
        &&& forall|c: int| 0 <= c < COLUMNS ==> (#[trigger] self.columns[c]).len() == self.rows
    }

    /// Number of rows.
    pub closed spec fn height(self) -> nat {
        self.rows as nat
    }

    /// A witness of `rows` rows whose every cell is zero.
    pub fn zeroed(rows: usize) -> (w: Witness)
        ensures
            w@ == zero_table(rows as nat),
            w.height() == rows,
    {
        let zero = FieldElement::zero();
        let mut columns: Vec<Vec<FieldElement>> = Vec::new();
        let mut c: usize = 0;
        while c < COLUMNS
            invariant
                c <= COLUMNS,
                zero@ == 0,
                columns.len() == c,
                forall|i: int| 0 <= i < c ==> (#[trigger] columns[i]).len() == rows,
                forall|i: int, j: int|
                    0 <= i < c && 0 <= j < rows ==> (#[trigger] columns[i][j])@ == 0,
            decreases COLUMNS - c,
        {
            let mut column: Vec<FieldElement> = Vec::new();
            let mut r: usize = 0;
            while r < rows
                invariant
                    r <= rows,
                    zero@ == 0,
                    column.len() == r,
                    forall|j: int| 0 <= j < r ==> (#[trigger] column[j])@ == 0,
                decreases rows - r,
            {
                column.push(zero);
                r = r + 1;
            }
            columns.push(column);
            c = c + 1;
        }
        let w = Witness { columns, rows };
        assert(w@ =~~= zero_table(rows as nat));
        w
    }

    /// Number of rows.
    pub fn rows(&self) -> (r: usize)
        ensures
            r == self.height(),
            is_table(self@, r as nat),
    {
        proof {
            use_type_invariant(self);
        }
        self.rows
    }

    /// The cell at `column` and `row`.
    pub fn get(&self, column: usize, row: usize) -> (value: FieldElement)
        requires
            column < COLUMNS,
            row < self.height(),
        ensures
            value@ == self@[column as int][row as int],
    {
        proof {
            use_type_invariant(self);
        }
        self.columns[column][row]
    }

    /// Overwrites the cell at `column` and `row`.
    pub fn set(&mut self, column: usize, row: usize, value: FieldElement)
        requires
            column < COLUMNS,
            row < old(self).height(),
        ensures
            final(self).height() == old(self).height(),
            final(self)@ == old(self)@.update(
                column as int,
                old(self)@[column as int].update(row as int, value@),
            ),
    {
        proof {
            use_type_invariant(&*self);
        }
        store(&mut self.columns, column, row, value);
        assert(self@ =~~= old(self)@.update(
            column as int,
            old(self)@[column as int].update(row as int, value@),
        ));
    }

    /// A copy of one column, top row first.
    pub fn column(&self, column: usize) -> (cells: Vec<FieldElement>)
        requires
            column < COLUMNS,
        ensures
            values_of(cells@) == self@[column as int],
    {
        proof {
            use_type_invariant(self);
        }
        let mut cells: Vec<FieldElement> = Vec::new();
        let mut r: usize = 0;
        while r < self.rows
            invariant
                column < COLUMNS,
                self.columns.len() == COLUMNS,
                self.columns[column as int].len() == self.rows,
                r <= self.rows,
                cells.len() == r,
                forall|j: int|
                    0 <= j < r ==> (#[trigger] cells[j]) == self.columns[column as int][j],
            decreases self.rows - r,
        {
            cells.push(self.columns[column][r]);
            r = r + 1;
        }
        assert(values_of(cells@) =~= self@[column as int]);
        cells
    }
}

/// The value that the generator writes into a hidden row.
fn hidden_cell(topology: &Topology, role: RowRole, input: FieldElement) -> (value: FieldElement)
    ensures
        value@ == hidden_value(topology@, role, input@),
{
    let weight = topology.row_weight(role);
    let bias = topology.row_bias(role);
    let linear = input.linear(&weight, &bias);
    match topology.policy() {
        TopologyPolicy::LinearOnly => linear,
        TopologyPolicy::LinearWithClamp => linear.clamp(),
    }
}

/// Runs the witness generator over the rows `start_row .. start_row +
/// row_count` of `witness`, in the order in which the circuit compiler allocates
/// them, and leaves every other cell untouched.
pub fn fill(topology: &Topology, public: &[FieldElement], witness: &mut Witness, start_row: usize)
    requires
        public@.len() == topology@.input_size,
        start_row + topology@.row_count() <= old(witness).height(),
    ensures
        final(witness).height() == old(witness).height(),
        final(witness)@ == fill_spec(
            topology@,
            values_of(public@),
            old(witness)@,
            start_row as nat,
        ),
{
    let rows = topology.row_count();
    let ghost layout = topology@;
    let ghost inputs = values_of(public@);
    let ghost before = witness@;
    let ghost start = start_row as nat;
    let height = witness.rows();
    assert(witness@ =~~= fill_prefix(layout, inputs, before, start, 0));
    let mut k: usize = 0;
    while k < rows
        invariant
            layout == topology@,
            inputs == values_of(public@),
            start == start_row,
            rows == layout.row_count(),
            public@.len() == layout.input_size,
            k <= rows,
            height == witness.height(),
            start_row + rows <= height,
            is_table(before, height as nat),
            witness@ == fill_prefix(layout, inputs, before, start, k as nat),
        decreases rows - k,
    {
        let role = topology.row_role(k);
        let row = start_row + k;
        match role {
            RowRole::Input => {
                let value = public[k];
                witness.set(INPUT_COLUMN, row, value);
            },
            RowRole::Output => {
                proof {
                    lemma_exposed_row_is_hidden(layout, k as nat);
                }
                match topology.exposed_row(k) {
                    Some(source) => {
                        let value = witness.get(TRANSFORM_COLUMN, start_row + source);
                        witness.set(INPUT_COLUMN, row, value);
                    },
                    None => {},
                }
            },
            _ => {
                let input = witness.get(INPUT_COLUMN, row);
                let value = hidden_cell(topology, role, input);
                witness.set(TRANSFORM_COLUMN, row, value);
            },
        }
        assert(witness@ =~~= fill_prefix(layout, inputs, before, start, (k + 1) as nat));
        k = k + 1;
    }
}

/// Fills the rows of the depth-based topology with `depth` hidden layers over
/// `input_size` inputs, starting at `start_row`. The single output row
/// receives the value of the first unit of the last hidden layer; without a
/// hidden row it is left as it was.
pub fn fill_in_mlp_witness(
    start_row: usize,
    witness: &mut Witness,
    public: &[FieldElement],
    input_size: usize,
    depth: usize,
)
    requires
        public@.len() == input_size,
        start_row + depth_based_layout(input_size as nat, depth as nat).row_count() <= old(
            witness,
        ).height(),
    ensures
        final(witness).height() == old(witness).height(),
        final(witness)@ == fill_spec(
            depth_based_layout(input_size as nat, depth as nat),
            values_of(public@),
            old(witness)@,
            start_row as nat,
        ),
{
    let topology = Topology::depth_based(input_size, depth).unwrap();
    fill(&topology, public, witness, start_row);
}

/// Fills the rows of the fixed topology over `input_size` inputs, starting at
/// `start_row`. Output row `j` receives the value of the clamp row of unit
/// `j`.
pub fn fill_in_simple_mlp_witness(
    start_row: usize,
    witness: &mut Witness,
    public: &[FieldElement],
    input_size: usize,
)
    requires
        public@.len() == input_size,
        start_row + fixed_clamp_layout(input_size as nat).row_count() <= old(witness).height(),
    ensures
        final(witness).height() == old(witness).height(),
        final(witness)@ == fill_spec(
            fixed_clamp_layout(input_size as nat),
            values_of(public@),
            old(witness)@,
            start_row as nat,
        ),
{
    let topology = Topology::fixed_clamp(input_size).unwrap();
    fill(&topology, public, witness, start_row);
}

} // verus!
