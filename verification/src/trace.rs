//! The trace in the model: the matrix of values that realizes the
//! bindings, the constraints that every row puts on its cells, and the
//! padding that finalizes a system.

use crate::error::{ConfigurationError, CsError};
use crate::field::spec_sub;
use crate::geometry::GateKind;
use crate::model::{lemma_doubled_up_to, spec_doubled_up_to, is_power_of_two, CsSpec, Phase, RowSpec};
use crate::permutation::spec_layer;
use vstd::prelude::*;

verus! {

impl CsSpec {
    /// The variable that stands in column `c` of the trace row of `row`,
    /// if one does. A constant's variable stands in the first column of
    /// its gate; a layer's inputs stand in the first columns of its gate
    /// and its outputs behind them.
    pub open spec fn cell_variable(self, row: RowSpec, c: int) -> Option<usize> {
        match row {
            RowSpec::Constant { variable, value } => if c
                == self.constants_gate.unwrap().copy_base {
                Some(variable)
            } else {
                None
            },
            RowSpec::Layer { layer, inputs, outputs } => {
                let b = self.round_gate.unwrap().placement.copy_base as int;
                let w = inputs.len() as int;
                if b <= c < b + w {
                    Some(inputs[c - b])
                } else if b + w <= c < b + 2 * w {
                    Some(outputs[c - b - w])
                } else {
                    None
                }
            },
            RowSpec::Nop => None,
        }
    }

    /// The value in column `c` of the trace row of `row`: the binding of
    /// the variable that stands there, the row's constant in its constant
    /// column, zero elsewhere.
    pub open spec fn cell(self, row: RowSpec, c: int) -> int {
        match self.cell_variable(row, c) {
            Some(v) => self.values[v as int],
            None => match row {
                RowSpec::Constant { variable, value } => if c
                    == self.geometry.spec_constant_column(
                    self.constants_gate.unwrap().constant_base as int,
                ) {
                    value
                } else {
                    0
                },
                _ => 0,
            },
        }
    }

    /// The trace row of `row`.
    pub open spec fn row_cells(self, row: RowSpec) -> Seq<int> {
        Seq::new(self.geometry.spec_row_width(), |c: int| self.cell(row, c))
    }

    /// The trace: the matrix of values that realizes every binding, one
    /// row of cells for every row of the system.
    pub open spec fn trace(self) -> Seq<Seq<int>> {
        Seq::new(self.rows.len(), |r: int| self.row_cells(self.rows[r]))
    }

    /// The kind of gate that `row` is an instance of.
    pub open spec fn row_kind(row: RowSpec) -> GateKind {
        match row {
            RowSpec::Constant { .. } => GateKind::ConstantsAllocator,
            RowSpec::Layer { .. } => GateKind::RoundFunction,
            RowSpec::Nop => GateKind::Nop,
        }
    }

    /// Number of constraints on the trace row of `row`. A constant has
    /// three: variable less constant is zero; the constant column holds the
    /// constant; the variable's cell holds its binding. A layer of width
    /// `w` has `2 * w`: one for each output lane, then one for each lane
    /// that its input cell and its output cell hold their variables'
    /// bindings.
    pub open spec fn constraint_count(row: RowSpec) -> nat {
        match row {
            RowSpec::Constant { .. } => 3,
            RowSpec::Layer { layer, inputs, outputs } => 2 * inputs.len(),
            RowSpec::Nop => 0,
        }
    }

    /// Whether constraint `j` of `row` holds on the trace row `cells`.
    pub open spec fn constraint_holds(self, row: RowSpec, cells: Seq<int>, j: int) -> bool {
        match row {
            RowSpec::Constant { variable, value } => {
                let p = self.constants_gate.unwrap();
                let k = self.geometry.spec_constant_column(p.constant_base as int);
                if j == 0 {
                    spec_sub(cells[p.copy_base as int], cells[k]) == 0
                } else if j == 1 {
                    cells[k] == value
                } else {
                    cells[p.copy_base as int] == self.values[variable as int]
                }
            },
            RowSpec::Layer { layer, inputs, outputs } => {
                let g = self.round_gate.unwrap();
                let b = g.placement.copy_base as int;
                let w = inputs.len() as int;
                if j < w {
                    spec_sub(
                        cells[b + w + j],
                        spec_layer(g.family, g.params, layer as int, cells.subrange(b, b + w))[j],
                    ) == 0
                } else {
                    &&& cells[b + (j - w)] == self.values[inputs[j - w] as int]
                    &&& cells[b + w + (j - w)] == self.values[outputs[j - w] as int]
                }
            },
            RowSpec::Nop => true,
        }
    }

    /// Whether `t` has one row of cells for every row of the system.
    pub open spec fn trace_shaped(self, t: Seq<Seq<int>>) -> bool {
        &&& t.len() == self.rows.len()
        &&& forall|r: int| 0 <= r < t.len() ==> (#[trigger] t[r]).len()
            == self.geometry.spec_row_width()
    }

    /// Whether every constraint of row `r` holds on `t`.
    pub open spec fn trace_row_holds(self, t: Seq<Seq<int>>, r: int) -> bool {
        forall|j: int|
            0 <= j < Self::constraint_count(self.rows[r]) ==> #[trigger] self.constraint_holds(
                self.rows[r],
                t[r],
                j,
            )
    }

    /// Whether `t` is a trace of this system on which every constraint of
    /// every row holds.
    pub open spec fn trace_satisfies(self, t: Seq<Seq<int>>) -> bool {
        &&& self.trace_shaped(t)
        &&& forall|r: int| 0 <= r < self.rows.len() ==> #[trigger] self.trace_row_holds(t, r)
    }

    /// Whether constraint `constraint` of row `row` is the first, row by
    /// row and constraint by constraint, that fails on `t`.
    pub open spec fn first_failure(self, t: Seq<Seq<int>>, row: int, constraint: int) -> bool {
        &&& 0 <= row < self.rows.len()
        &&& 0 <= constraint < Self::constraint_count(self.rows[row])
        &&& !self.constraint_holds(self.rows[row], t[row], constraint)
        &&& forall|r: int| 0 <= r < row ==> #[trigger] self.trace_row_holds(t, r)
        &&& forall|j: int|
            0 <= j < constraint ==> #[trigger] self.constraint_holds(self.rows[row], t[row], j)
    }

    /// The cells of a row lie inside the row.
    pub proof fn lemma_row_in_columns(self, row: RowSpec)
        requires
            self.wf(),
            self.row_wf(row),
        ensures
            match row {
                RowSpec::Constant { variable, value } => {
                    let p = self.constants_gate.unwrap();
                    &&& p.copy_base < self.geometry.num_columns_under_copy_permutation
                    &&& p.constant_base < self.geometry.num_constant_columns
                    &&& self.geometry.spec_constant_column(p.constant_base as int)
                        < self.geometry.spec_row_width()
                },
                RowSpec::Layer { layer, inputs, outputs } => {
                    self.round_gate.unwrap().placement.copy_base + 2 * inputs.len()
                        <= self.geometry.num_columns_under_copy_permutation
                },
                RowSpec::Nop => true,
            },
    {
    }

    /// On the trace that realizes the bindings, the constraints of a row
    /// hold exactly when the bindings meet the row.
    pub proof fn lemma_row_on_trace(self, r: int)
        requires
            self.wf(),
            0 <= r < self.rows.len(),
        ensures
            self.trace_row_holds(self.trace(), r) == self.row_holds(self.rows[r]),
    {
        let row = self.rows[r];
        let t = self.trace();
        let cells = t[r];
        assert(self.row_wf(row));
        self.lemma_row_in_columns(row);
        match row {
            RowSpec::Constant { variable, value } => {
                let p = self.constants_gate.unwrap();
                let k = self.geometry.spec_constant_column(p.constant_base as int);
                assert(cells[p.copy_base as int] == self.values[variable as int]);
                assert(cells[k] == value);
                if self.row_holds(row) {
                    assert forall|j: int|
                        0 <= j < Self::constraint_count(row) implies #[trigger] self.constraint_holds(
                        row,
                        cells,
                        j,
                    ) by {}
                }
                if self.trace_row_holds(t, r) {
                    assert(self.constraint_holds(row, cells, 0));
                }
            },
            RowSpec::Layer { layer, inputs, outputs } => {
                let g = self.round_gate.unwrap();
                let b = g.placement.copy_base as int;
                let w = inputs.len() as int;
                assert(cells.subrange(b, b + w) =~= self.gather(inputs));
                assert forall|k: int| 0 <= k < w implies cells[b + w + k]
                    == self.values[outputs[k] as int] by {}
                if self.row_holds(row) {
                    assert forall|j: int|
                        0 <= j < Self::constraint_count(row) implies #[trigger] self.constraint_holds(
                        row,
                        cells,
                        j,
                    ) by {
                        if j < w {
                            assert(cells[b + w + j] == self.values[outputs[j] as int]);
                        }
                    }
                }
                if self.trace_row_holds(t, r) {
                    assert forall|k: int| 0 <= k < outputs.len() implies spec_sub(
                        self.values[#[trigger] outputs[k] as int],
                        spec_layer(g.family, g.params, layer as int, self.gather(inputs))[k],
                    ) == 0 by {
                        assert(self.constraint_holds(row, cells, k));
                        assert(cells[b + w + k] == self.values[outputs[k] as int]);
                    }
                }
            },
            RowSpec::Nop => {},
        }
    }

    /// The trace that realizes the bindings satisfies the system exactly
    /// when the bindings do.
    pub proof fn lemma_trace_satisfies(self)
        requires
            self.wf(),
        ensures
            self.trace_satisfies(self.trace()) == self.satisfied(),
    {
        let t = self.trace();
        assert(self.trace_shaped(t));
        if self.satisfied() {
            assert forall|r: int| 0 <= r < self.rows.len() implies #[trigger] self.trace_row_holds(
                t,
                r,
            ) by {
                self.lemma_row_on_trace(r);
            }
        }
        if self.trace_satisfies(t) {
            assert forall|r: int| 0 <= r < self.rows.len() implies self.row_holds(
                #[trigger] self.rows[r],
            ) by {
                assert(self.trace_row_holds(t, r));
                self.lemma_row_on_trace(r);
            }
        }
    }

    /// On a trace that satisfies the system, a cell in which a variable
    /// stands holds the variable's binding.
    pub proof fn lemma_cell_realizes(self, t: Seq<Seq<int>>, r: int, c: int)
        requires
            self.wf(),
            self.trace_satisfies(t),
            0 <= r < self.rows.len(),
            self.cell_variable(self.rows[r], c) is Some,
        ensures
            t[r][c] == self.values[self.cell_variable(self.rows[r], c).unwrap() as int],
    {
        assert(self.trace_row_holds(t, r));
        assert(self.row_wf(self.rows[r]));
        match self.rows[r] {
            RowSpec::Constant { variable, value } => {
                assert(self.constraint_holds(self.rows[r], t[r], 2));
            },
            RowSpec::Layer { layer, inputs, outputs } => {
                let b = self.round_gate.unwrap().placement.copy_base as int;
                let w = inputs.len() as int;
                if c < b + w {
                    assert(self.constraint_holds(self.rows[r], t[r], w + (c - b)));
                } else {
                    assert(self.constraint_holds(self.rows[r], t[r], w + (c - b - w)));
                }
            },
            RowSpec::Nop => {},
        }
    }

    /// On a trace that satisfies the system, any two cells in which the
    /// same variable stands hold the same value.
    pub proof fn lemma_copies_agree(self, t: Seq<Seq<int>>, r1: int, c1: int, r2: int, c2: int)
        requires
            self.wf(),
            self.trace_satisfies(t),
            0 <= r1 < self.rows.len(),
            0 <= r2 < self.rows.len(),
            self.cell_variable(self.rows[r1], c1) is Some,
            self.cell_variable(self.rows[r1], c1) == self.cell_variable(self.rows[r2], c2),
        ensures
            t[r1][c1] == t[r2][c2],
    {
        self.lemma_cell_realizes(t, r1, c1);
        self.lemma_cell_realizes(t, r2, c2);
    }

    /// Number of rows after padding: the least power of two that is at
    /// least the number of rows.
    pub open spec fn padded_len(self) -> nat {
        spec_doubled_up_to(self.rows.len() as int, 1) as nat
    }

    /// The system with `count` rows that constrain nothing behind its rows.
    pub open spec fn padded_with(self, count: nat) -> CsSpec {
        CsSpec { rows: self.rows + Seq::new(count, |i: int| RowSpec::Nop), ..self }
    }

    /// Why the system cannot be finalized, if it cannot: outside the
    /// assignment phase, or where rows are missing up to a power of two
    /// and no gate is configured to pad with.
    pub open spec fn finalize_error(self) -> Option<CsError> {
        if self.phase != Phase::Built {
            Some(CsError::Configuration(ConfigurationError::WrongPhase))
        } else if self.padded_len() > self.rows.len() && self.nop_gate is None {
            Some(CsError::Configuration(ConfigurationError::GateNotConfigured))
        } else {
            None
        }
    }

    /// The finalized system: padded to a power of two of rows.
    pub open spec fn finalized(self) -> CsSpec {
        CsSpec {
            phase: Phase::Finalized,
            ..self.padded_with((self.padded_len() - self.rows.len()) as nat)
        }
    }

    /// Padding keeps a system well formed, adds rows of zeros to its
    /// trace, and changes nothing in whether the bindings or a trace
    /// satisfy it.
    pub proof fn lemma_padding(self, count: nat, t: Seq<Seq<int>>)
        requires
            self.wf(),
            self.phase == Phase::Built,
            count > 0 ==> self.nop_gate is Some,
            self.rows.len() + count <= self.max_trace_len,
        ensures
            self.padded_with(count).wf(),
            self.padded_with(count).satisfied() == self.satisfied(),
            self.padded_with(count).trace() == self.trace() + Seq::new(
                count,
                |i: int| Seq::new(self.geometry.spec_row_width(), |c: int| 0int),
            ),
            self.padded_with(count).trace_satisfies(
                t + Seq::new(
                    count,
                    |i: int| Seq::new(self.geometry.spec_row_width(), |c: int| 0int),
                ),
            ) == self.trace_satisfies(t),
    {
        let next = self.padded_with(count);
        let zeros = Seq::new(
            count,
            |i: int| Seq::new(self.geometry.spec_row_width(), |c: int| 0int),
        );
        assert forall|r: int| 0 <= r < next.rows.len() implies next.row_wf(
            #[trigger] next.rows[r],
        ) by {
            if r < self.rows.len() {
                assert(self.row_wf(self.rows[r]));
            }
        }
        assert forall|c: u64| #[trigger] next.constants.dom().contains(c) implies {
            &&& next.constants[c].row < next.rows.len()
            &&& next.rows[next.constants[c].row as int] == (RowSpec::Constant {
                variable: next.constants[c].variable,
                value: c as int,
            })
        } by {
            assert(self.constants.dom().contains(c));
        }
        assert(next.wf());
        if self.satisfied() {
            assert forall|r: int| 0 <= r < next.rows.len() implies next.row_holds(
                #[trigger] next.rows[r],
            ) by {
                if r < self.rows.len() {
                    assert(self.row_holds(self.rows[r]));
                }
            }
        }
        if next.satisfied() {
            assert forall|r: int| 0 <= r < self.rows.len() implies self.row_holds(
                #[trigger] self.rows[r],
            ) by {
                assert(next.row_holds(next.rows[r]));
            }
        }
        assert(next.trace() =~= self.trace() + zeros) by {
            assert forall|r: int| 0 <= r < next.rows.len() implies next.trace()[r] == (self.trace()
                + zeros)[r] by {
                if r < self.rows.len() {
                    assert(next.row_cells(next.rows[r]) =~= self.row_cells(self.rows[r]));
                } else {
                    assert(next.row_cells(next.rows[r]) =~= zeros[r - self.rows.len()]);
                }
            }
        }
        let u = t + zeros;
        if self.trace_satisfies(t) {
            assert(next.trace_shaped(u));
            assert forall|r: int| 0 <= r < next.rows.len() implies #[trigger] next.trace_row_holds(
                u,
                r,
            ) by {
                if r < self.rows.len() {
                    assert(self.trace_row_holds(t, r));
                    assert(u[r] == t[r]);
                    assert forall|j: int|
                        0 <= j < Self::constraint_count(next.rows[r]) implies #[trigger] next.constraint_holds(
                        next.rows[r],
                        u[r],
                        j,
                    ) by {
                        assert(self.constraint_holds(self.rows[r], t[r], j));
                    }
                }
            }
        }
        if next.trace_satisfies(u) {
            assert(t.len() == self.rows.len());
            assert forall|r: int| 0 <= r < t.len() implies (#[trigger] t[r]).len()
                == self.geometry.spec_row_width() by {
                assert(u[r] == t[r]);
            }
            assert forall|r: int| 0 <= r < self.rows.len() implies #[trigger] self.trace_row_holds(
                t,
                r,
            ) by {
                assert(next.trace_row_holds(u, r));
                assert(u[r] == t[r]);
                assert forall|j: int|
                    0 <= j < Self::constraint_count(self.rows[r]) implies #[trigger] self.constraint_holds(
                    self.rows[r],
                    t[r],
                    j,
                ) by {
                    assert(next.constraint_holds(next.rows[r], u[r], j));
                }
            }
        }
    }

    /// Finalizing a system that is not refused leaves a well-formed
    /// system, and changes nothing in whether the bindings satisfy it.
    pub proof fn lemma_finalized(self)
        requires
            self.wf(),
            self.finalize_error() is None,
        ensures
            self.finalized().wf(),
            self.finalized().satisfied() == self.satisfied(),
            is_power_of_two(self.finalized().rows.len() as int),
            self.rows.len() <= self.finalized().rows.len() <= self.max_trace_len,
            self.finalized().rows.len() == self.padded_len(),
    {
        lemma_doubled_up_to(self.rows.len() as int, 1, self.max_trace_len as int);
        let count = (self.padded_len() - self.rows.len()) as nat;
        self.lemma_padding(count, self.trace());
        let padded = self.padded_with(count);
        let next = self.finalized();
        assert forall|r: int| 0 <= r < next.rows.len() implies next.row_wf(
            #[trigger] next.rows[r],
        ) by {
            assert(padded.row_wf(padded.rows[r]));
        }
        assert forall|c: u64| #[trigger] next.constants.dom().contains(c) implies {
            &&& next.constants[c].row < next.rows.len()
            &&& next.rows[next.constants[c].row as int] == (RowSpec::Constant {
                variable: next.constants[c].variable,
                value: c as int,
            })
        } by {
            assert(padded.constants.dom().contains(c));
        }
        if padded.satisfied() {
            assert forall|r: int| 0 <= r < next.rows.len() implies next.row_holds(
                #[trigger] next.rows[r],
            ) by {
                assert(padded.row_holds(padded.rows[r]));
            }
        }
        if next.satisfied() {
            assert forall|r: int| 0 <= r < padded.rows.len() implies padded.row_holds(
                #[trigger] padded.rows[r],
            ) by {
                assert(next.row_holds(next.rows[r]));
            }
        }
    }
}

} // verus!
