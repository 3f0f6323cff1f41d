//! The assignment phase in the model: variables are bound, constants
//! are pinned, and the layers of a permutation are laid row by row.

use crate::error::{ConfigurationError, CsError};
use crate::field::{all_canonical, is_canonical, spec_sub};
use crate::model::{indices, ConstantEntry, CsSpec, Phase, RowSpec, Variable};
use crate::permutation::{
    lemma_layer_canonical, lemma_layer_len, spec_apply_layers, spec_layer, spec_permutation,
};
use vstd::prelude::*;

verus! {

impl CsSpec {
    /// Why no witness can be allocated, if none can.
    pub open spec fn witness_error(self) -> Option<CsError> {
        if self.phase != Phase::Built {
            Some(CsError::Configuration(ConfigurationError::WrongPhase))
        } else if self.values.len() >= self.max_variables {
            Some(CsError::CapacityExceeded)
        } else {
            None
        }
    }

    /// The handle that the next allocation returns.
    pub open spec fn next_variable(self) -> Variable {
        Variable { system: self.id, index: self.values.len() as usize }
    }

    /// The system with one more variable, bound to `value`.
    pub open spec fn with_witness(self, value: int) -> CsSpec {
        CsSpec { values: self.values.push(value), ..self }
    }

    /// The system with one more variable for each of `more`, bound to it.
    pub open spec fn with_witnesses(self, more: Seq<int>) -> CsSpec {
        CsSpec { values: self.values + more, ..self }
    }

    /// New variables leave a well-formed system and change nothing in
    /// whether the bindings satisfy it.
    pub proof fn lemma_with_witnesses(self, more: Seq<int>)
        requires
            self.wf(),
            self.phase == Phase::Built,
            all_canonical(more),
            self.values.len() + more.len() <= self.max_variables,
        ensures
            self.with_witnesses(more).wf(),
            self.with_witnesses(more).satisfied() == self.satisfied(),
    {
        let next = self.with_witnesses(more);
        assert forall|r: int| 0 <= r < next.rows.len() implies next.row_wf(
            #[trigger] next.rows[r],
        ) by {
            assert(self.row_wf(self.rows[r]));
        }
        assert forall|c: u64| #[trigger] next.constants.dom().contains(c) implies {
            &&& next.constants[c].row < next.rows.len()
            &&& next.rows[next.constants[c].row as int] == (RowSpec::Constant {
                variable: next.constants[c].variable,
                value: c as int,
            })
        } by {
            assert(self.constants.dom().contains(c));
        }
        if self.satisfied() {
            assert forall|r: int| 0 <= r < next.rows.len() implies next.row_holds(
                #[trigger] next.rows[r],
            ) by {
                assert(self.row_wf(self.rows[r]));
                self.lemma_row_holds_extends(self.rows[r], more);
            }
        }
        if next.satisfied() {
            assert forall|r: int| 0 <= r < self.rows.len() implies self.row_holds(
                #[trigger] self.rows[r],
            ) by {
                assert(self.row_wf(self.rows[r]));
                assert(next.row_holds(next.rows[r]));
                self.lemma_row_holds_extends(self.rows[r], more);
            }
        }
    }

    /// Why the constant `c` cannot be allocated, if it cannot. A constant
    /// that was allocated before can always be had again.
    pub open spec fn constant_error(self, c: u64) -> Option<CsError> {
        if self.phase != Phase::Built {
            Some(CsError::Configuration(ConfigurationError::WrongPhase))
        } else if self.constants.dom().contains(c) {
            None
        } else if self.constants_gate is None {
            Some(CsError::Configuration(ConfigurationError::GateNotConfigured))
        } else if self.values.len() >= self.max_variables || self.rows.len()
            >= self.max_trace_len {
            Some(CsError::CapacityExceeded)
        } else {
            None
        }
    }

    /// The system after the constant `c` was asked for: unchanged where
    /// it was allocated before, else with one more variable bound to `c`,
    /// a row that pins it, and `c` remembered.
    pub open spec fn with_constant(self, c: u64) -> CsSpec {
        if self.constants.dom().contains(c) {
            self
        } else {
            CsSpec {
                values: self.values.push(c as int),
                rows: self.rows.push(
                    RowSpec::Constant { variable: self.values.len() as usize, value: c as int },
                ),
                constants: self.constants.insert(
                    c,
                    ConstantEntry {
                        variable: self.values.len() as usize,
                        row: self.rows.len() as usize,
                    },
                ),
                ..self
            }
        }
    }

    /// The handle of the constant `c` after it was asked for.
    pub open spec fn constant_variable(self, c: u64) -> Variable {
        if self.constants.dom().contains(c) {
            Variable { system: self.id, index: self.constants[c].variable }
        } else {
            self.next_variable()
        }
    }

    /// Asking for a constant leaves a well-formed system and keeps what
    /// held; where the bindings satisfy the system, the variable handed
    /// out is bound to the constant.
    pub proof fn lemma_with_constant(self, c: u64)
        requires
            self.wf(),
            self.constant_error(c) is None,
            is_canonical(c as int),
        ensures
            self.with_constant(c).wf(),
            self.satisfied() ==> self.with_constant(c).satisfied(),
            self.with_constant(c).bound(self.constant_variable(c)),
            self.with_constant(c).satisfied() ==> self.with_constant(
                c,
            ).values[self.constant_variable(c).index as int] == c,
    {
        let next = self.with_constant(c);
        if self.constants.dom().contains(c) {
            let entry = self.constants[c];
            let row = self.rows[entry.row as int];
            assert(self.row_wf(row));
            if self.satisfied() {
                assert(self.row_holds(row));
            }
        } else {
            let row = RowSpec::Constant { variable: self.values.len() as usize, value: c as int };
            assert forall|r: int| 0 <= r < next.rows.len() implies next.row_wf(
                #[trigger] next.rows[r],
            ) by {
                if r < self.rows.len() {
                    assert(self.row_wf(self.rows[r]));
                }
            }
            assert forall|k: u64| #[trigger] next.constants.dom().contains(k) implies {
                &&& next.constants[k].row < next.rows.len()
                &&& next.rows[next.constants[k].row as int] == (RowSpec::Constant {
                    variable: next.constants[k].variable,
                    value: k as int,
                })
            } by {
                if k != c {
                    assert(self.constants.dom().contains(k));
                }
            }
            if self.satisfied() {
                assert forall|r: int| 0 <= r < next.rows.len() implies next.row_holds(
                    #[trigger] next.rows[r],
                ) by {
                    if r < self.rows.len() {
                        assert(self.row_wf(self.rows[r]));
                        self.lemma_row_holds_extends(self.rows[r], seq![c as int]);
                        assert(self.values + seq![c as int] =~= self.values.push(c as int));
                    }
                }
            }
        }
    }

    /// The system with the binding of `v` replaced by `value`.
    pub open spec fn rebound(self, v: Variable, value: int) -> CsSpec {
        CsSpec { values: self.values.update(v.index as int, value), ..self }
    }

    /// Whether a row that is well formed here holds does not depend on
    /// variables allocated later.
    pub proof fn lemma_row_holds_extends(self, row: RowSpec, more: Seq<int>)
        requires
            self.row_wf(row),
        ensures
            (CsSpec { values: self.values + more, ..self }).row_holds(row) == self.row_holds(row),
    {
        let next = CsSpec { values: self.values + more, ..self };
        match row {
            RowSpec::Layer { layer, inputs, outputs } => {
                assert(next.gather(inputs) =~= self.gather(inputs));
                let g = self.round_gate.unwrap();
                if self.row_holds(row) {
                    assert forall|k: int| 0 <= k < outputs.len() implies spec_sub(
                        next.values[#[trigger] outputs[k] as int],
                        spec_layer(g.family, g.params, layer as int, next.gather(inputs))[k],
                    ) == 0 by {
                        assert(next.values[outputs[k] as int] == self.values[outputs[k] as int]);
                    }
                }
                if next.row_holds(row) {
                    assert forall|k: int| 0 <= k < outputs.len() implies spec_sub(
                        self.values[#[trigger] outputs[k] as int],
                        spec_layer(g.family, g.params, layer as int, self.gather(inputs))[k],
                    ) == 0 by {
                        assert(next.values[outputs[k] as int] == self.values[outputs[k] as int]);
                    }
                }
            },
            _ => {},
        }
    }

    /// The handles of the `count` variables that are allocated next.
    pub open spec fn fresh(self, count: nat) -> Seq<usize> {
        Seq::new(count, |k: int| (self.values.len() + k) as usize)
    }

    /// Whether a row for layer `layer` on the variables `inputs` can be
    /// laid.
    pub open spec fn layer_ready(self, layer: usize, inputs: Seq<usize>) -> bool {
        &&& self.phase == Phase::Built
        &&& self.round_gate matches Some(g)
        &&& layer < g.params.layers()
        &&& inputs.len() == g.params.width()
        &&& forall|i: int| 0 <= i < inputs.len() ==> #[trigger] inputs[i] < self.values.len()
        &&& self.values.len() + g.params.width() <= self.max_variables
        &&& self.rows.len() < self.max_trace_len
    }

    /// The system with one more row: layer `layer` of the permutation on
    /// the variables `inputs`, its outputs new variables bound to what
    /// the layer makes of the inputs' values.
    pub open spec fn with_layer(self, layer: usize, inputs: Seq<usize>) -> CsSpec {
        let g = self.round_gate.unwrap();
        let out = spec_layer(g.family, g.params, layer as int, self.gather(inputs));
        CsSpec {
            values: self.values + out,
            rows: self.rows.push(RowSpec::Layer { layer, inputs, outputs: self.fresh(out.len()) }),
            ..self
        }
    }

    /// A row for a layer leaves a well-formed system, keeps what held, and
    /// holds itself.
    pub proof fn lemma_with_layer(self, layer: usize, inputs: Seq<usize>)
        requires
            self.wf(),
            self.layer_ready(layer, inputs),
        ensures
            self.with_layer(layer, inputs).wf(),
            self.satisfied() ==> self.with_layer(layer, inputs).satisfied(),
            self.with_layer(layer, inputs).row_holds(
                self.with_layer(layer, inputs).rows.last(),
            ),
            self.with_layer(layer, inputs).gather(self.fresh(inputs.len())) == spec_layer(
                self.round_gate.unwrap().family,
                self.round_gate.unwrap().params,
                layer as int,
                self.gather(inputs),
            ),
    {
        let g = self.round_gate.unwrap();
        let next = self.with_layer(layer, inputs);
        let out = spec_layer(g.family, g.params, layer as int, self.gather(inputs));
        let outputs = self.fresh(out.len());
        lemma_layer_len(g.family, g.params, layer as int, self.gather(inputs));
        lemma_layer_canonical(g.family, g.params, layer as int, self.gather(inputs));
        assert(next.gather(inputs) =~= self.gather(inputs));
        assert(next.gather(outputs) =~= out);
        assert forall|r: int| 0 <= r < next.rows.len() implies next.row_wf(
            #[trigger] next.rows[r],
        ) by {
            if r < self.rows.len() {
                assert(self.row_wf(self.rows[r]));
            }
        }
        assert forall|c: u64| #[trigger] next.constants.dom().contains(c) implies {
            &&& next.constants[c].row < next.rows.len()
            &&& next.rows[next.constants[c].row as int] == (RowSpec::Constant {
                variable: next.constants[c].variable,
                value: c as int,
            })
        } by {
            assert(self.constants.dom().contains(c));
        }
        assert(next.wf());
        assert(next.row_holds(next.rows.last())) by {
            assert forall|k: int| 0 <= k < outputs.len() implies spec_sub(
                next.values[#[trigger] outputs[k] as int],
                spec_layer(g.family, g.params, layer as int, next.gather(inputs))[k],
            ) == 0 by {
                assert(next.values[outputs[k] as int] == out[k]);
            }
        }
        if self.satisfied() {
            assert forall|r: int| 0 <= r < next.rows.len() implies next.row_holds(
                #[trigger] next.rows[r],
            ) by {
                if r < self.rows.len() {
                    self.lemma_row_holds_extends(self.rows[r], out);
                }
            }
        }
    }

    /// The handles of the `count` variables allocated last.
    pub open spec fn last_variables(self, count: nat) -> Seq<usize> {
        Seq::new(count, |i: int| (self.values.len() - count + i) as usize)
    }

    /// The variables that hold the state after `count` layers of a chain
    /// that started on `inputs`, in a system that holds those layers.
    pub open spec fn chain_end(self, inputs: Seq<usize>, count: nat) -> Seq<usize> {
        if count == 0 {
            inputs
        } else {
            self.last_variables(inputs.len())
        }
    }

    /// The system with rows for the first `count` layers of the
    /// permutation, the first on the variables `inputs`, each other on the
    /// outputs of the one before.
    pub open spec fn with_layers(self, inputs: Seq<usize>, count: nat) -> CsSpec
        decreases count,
    {
        if count == 0 {
            self
        } else {
            let prev = self.with_layers(inputs, (count - 1) as nat);
            prev.with_layer((count - 1) as usize, prev.chain_end(inputs, (count - 1) as nat))
        }
    }

    /// Whether a chain of `count` layers can be laid on `inputs`.
    pub open spec fn layers_ready(self, inputs: Seq<usize>, count: nat) -> bool {
        &&& self.phase == Phase::Built
        &&& self.round_gate matches Some(g)
        &&& count <= g.params.layers()
        &&& inputs.len() == g.params.width()
        &&& forall|i: int| 0 <= i < inputs.len() ==> #[trigger] inputs[i] < self.values.len()
        &&& self.values.len() + count * g.params.width() <= self.max_variables
        &&& self.rows.len() + count <= self.max_trace_len
    }

    /// A chain of layers leaves a well-formed system, keeps what held, and
    /// ends on variables bound to what the layers make of the inputs'
    /// values.
    pub proof fn lemma_with_layers(self, inputs: Seq<usize>, count: nat)
        requires
            self.wf(),
            self.layers_ready(inputs, count),
        ensures
            self.with_layers(inputs, count).wf(),
            self.with_layers(inputs, count).same_setup(self),
            self.with_layers(inputs, count).values.len() == self.values.len() + count
                * inputs.len(),
            self.with_layers(inputs, count).rows.len() == self.rows.len() + count,
            self.satisfied() ==> self.with_layers(inputs, count).satisfied(),
            self.with_layers(inputs, count).gather(
                self.with_layers(inputs, count).chain_end(inputs, count),
            ) == spec_apply_layers(
                self.round_gate.unwrap().family,
                self.round_gate.unwrap().params,
                self.gather(inputs),
                count as int,
            ),
            forall|i: int|
                0 <= i < inputs.len() ==> (#[trigger] self.with_layers(inputs, count).chain_end(
                    inputs,
                    count,
                )[i]) < self.with_layers(inputs, count).values.len(),
            self.with_layers(inputs, count).values.subrange(0, self.values.len() as int)
                == self.values,
        decreases count,
    {
        let g = self.round_gate.unwrap();
        let w = inputs.len();
        if count == 0 {
            assert(self.values.subrange(0, self.values.len() as int) =~= self.values);
            assert(0 * w == 0) by (nonlinear_arith);
        } else {
            let less = (count - 1) as nat;
            assert(less * w + w == count * w && less * w >= 0) by (nonlinear_arith)
                requires
                    less + 1 == count,
            ;
            self.lemma_with_layers(inputs, less);
            let prev = self.with_layers(inputs, less);
            let cur = prev.chain_end(inputs, less);
            assert(prev.layer_ready(less as usize, cur));
            prev.lemma_with_layer(less as usize, cur);
            let next = prev.with_layer(less as usize, cur);
            assert(next == self.with_layers(inputs, count));
            lemma_layer_len(g.family, g.params, less as int, prev.gather(cur));
            assert(next.chain_end(inputs, count) =~= prev.fresh(w));
            assert(next.values.subrange(0, self.values.len() as int) =~= prev.values.subrange(
                0,
                self.values.len() as int,
            ));
        }
    }

    /// Whether the permutation gate can be invoked on the rate variables
    /// `inputs` and the capacity variables `capacity`: in the assignment
    /// phase, with that gate configured, as many variables as lanes, all of
    /// them bound here, and room for a row and a state of new variables
    /// for every layer.
    pub open spec fn round_function_ready(
        self,
        inputs: Seq<Variable>,
        capacity: Seq<Variable>,
    ) -> bool {
        &&& self.phase == Phase::Built
        &&& self.round_gate matches Some(g)
        &&& inputs.len() == g.params.rate
        &&& capacity.len() == g.params.capacity
        &&& self.all_bound(inputs + capacity)
        &&& self.values.len() + g.params.layers() * g.params.width() <= self.max_variables
        &&& self.rows.len() + g.params.layers() <= self.max_trace_len
    }

    /// Whether `e` is what the invocation of the permutation gate on
    /// `inputs` and `capacity` is refused with.
    pub open spec fn round_function_refuses(
        self,
        inputs: Seq<Variable>,
        capacity: Seq<Variable>,
        e: CsError,
    ) -> bool {
        if self.phase != Phase::Built {
            e == CsError::Configuration(ConfigurationError::WrongPhase)
        } else if self.round_gate is None {
            e == CsError::Configuration(ConfigurationError::GateNotConfigured)
        } else if inputs.len() != self.round_gate.unwrap().params.rate || capacity.len()
            != self.round_gate.unwrap().params.capacity {
            e == CsError::Configuration(ConfigurationError::ArityMismatch)
        } else if !self.all_bound(inputs + capacity) {
            e matches CsError::UnboundVariable { position } && self.first_unbound(
                inputs + capacity,
                position as int,
            )
        } else {
            !self.round_function_ready(inputs, capacity) && e == CsError::CapacityExceeded
        }
    }

    /// The system after the permutation gate was invoked on `inputs` and
    /// `capacity`: one row for every layer.
    pub open spec fn with_round_function(
        self,
        inputs: Seq<Variable>,
        capacity: Seq<Variable>,
    ) -> CsSpec {
        self.with_layers(indices(inputs + capacity), self.round_gate.unwrap().params.layers())
    }

    /// The handles that the invocation returns: the leading lanes of the
    /// last layer's outputs, as many as the capacity.
    pub open spec fn round_function_outputs(
        self,
        inputs: Seq<Variable>,
        capacity: Seq<Variable>,
    ) -> Seq<Variable> {
        let end = self.with_round_function(inputs, capacity);
        Seq::new(
            capacity.len(),
            |i: int|
                Variable {
                    system: self.id,
                    index: end.last_variables((inputs + capacity).len())[i],
                },
        )
    }

    /// Where the bindings are canonical and meet the row of a layer, the
    /// outputs are bound to what the layer makes of the values bound to
    /// the inputs: the constraints of the row admit nothing else.
    pub proof fn lemma_layer_row_enforces(
        self,
        layer: usize,
        inputs: Seq<usize>,
        outputs: Seq<usize>,
    )
        requires
            all_canonical(self.values),
            self.row_wf(RowSpec::Layer { layer, inputs, outputs }),
            self.row_holds(RowSpec::Layer { layer, inputs, outputs }),
        ensures
            self.gather(outputs) == spec_layer(
                self.round_gate.unwrap().family,
                self.round_gate.unwrap().params,
                layer as int,
                self.gather(inputs),
            ),
    {
        let g = self.round_gate.unwrap();
        let expected = spec_layer(g.family, g.params, layer as int, self.gather(inputs));
        lemma_layer_len(g.family, g.params, layer as int, self.gather(inputs));
        lemma_layer_canonical(g.family, g.params, layer as int, self.gather(inputs));
        assert forall|k: int| 0 <= k < outputs.len() implies self.gather(outputs)[k]
            == expected[k] by {
            assert(spec_sub(self.values[outputs[k] as int], expected[k]) == 0);
            assert(is_canonical(self.values[outputs[k] as int]));
            assert(is_canonical(expected[k]));
        }
        assert(self.gather(outputs) =~= expected);
    }

    /// The rows of a chain of layers admit one result only: whatever
    /// canonical values are bound to the variables, where they meet the
    /// rows of the chain, the variables at its end are bound to what the
    /// layers make of the values bound to its inputs.
    pub proof fn lemma_chain_enforces(self, inputs: Seq<usize>, count: nat, assignment: Seq<int>)
        requires
            self.wf(),
            self.layers_ready(inputs, count),
            assignment.len() == self.with_layers(inputs, count).values.len(),
            all_canonical(assignment),
            forall|r: int|
                self.rows.len() <= r < self.with_layers(inputs, count).rows.len() ==> self.with_layers(
                    inputs,
                    count,
                ).assigned(assignment).row_holds(#[trigger] self.with_layers(inputs, count).rows[r]),
        ensures
            self.with_layers(inputs, count).assigned(assignment).gather(
                self.with_layers(inputs, count).chain_end(inputs, count),
            ) == spec_apply_layers(
                self.round_gate.unwrap().family,
                self.round_gate.unwrap().params,
                self.with_layers(inputs, count).assigned(assignment).gather(inputs),
                count as int,
            ),
        decreases count,
    {
        let g = self.round_gate.unwrap();
        let w = inputs.len();
        let end = self.with_layers(inputs, count);
        let alt = end.assigned(assignment);
        if count > 0 {
            let less = (count - 1) as nat;
            assert(less * w + w == count * w && less * w >= 0) by (nonlinear_arith)
                requires
                    less + 1 == count,
            ;
            self.lemma_with_layers(inputs, less);
            self.lemma_with_layers(inputs, count);
            let prev = self.with_layers(inputs, less);
            let cur = prev.chain_end(inputs, less);
            assert(prev.layer_ready(less as usize, cur));
            prev.lemma_with_layer(less as usize, cur);
            lemma_layer_len(g.family, g.params, less as int, prev.gather(cur));
            let row = RowSpec::Layer { layer: less as usize, inputs: cur, outputs: prev.fresh(w) };
            assert(end.rows == prev.rows.push(row));
            let head = assignment.take(prev.values.len() as int);
            let tail = assignment.skip(prev.values.len() as int);
            assert(head + tail =~= assignment);
            let alt_prev = prev.assigned(head);
            assert(alt_prev.with_witnesses(tail) == CsSpec { rows: prev.rows, ..alt });
            assert forall|r: int| self.rows.len() <= r < prev.rows.len() implies alt_prev.row_holds(
                #[trigger] prev.rows[r],
            ) by {
                assert(end.rows[r] == prev.rows[r]);
                assert(alt.row_holds(end.rows[r]));
                assert(prev.row_wf(prev.rows[r]));
                assert(alt_prev.row_wf(prev.rows[r]));
                alt_prev.lemma_row_holds_extends(prev.rows[r], tail);
                assert((CsSpec { values: head + tail, ..alt_prev }).row_holds(prev.rows[r])
                    == alt.row_holds(prev.rows[r]));
            }
            self.lemma_chain_enforces(inputs, less, head);
            assert(alt.gather(cur) =~= alt_prev.gather(cur));
            assert(alt.gather(inputs) =~= alt_prev.gather(inputs));
            assert(end.rows[prev.rows.len() as int] == row);
            assert(alt.row_holds(row));
            assert(end.row_wf(row));
            assert(alt.row_wf(row));
            alt.lemma_layer_row_enforces(less as usize, cur, prev.fresh(w));
            assert(end.chain_end(inputs, count) =~= prev.fresh(w));
        }
    }

    /// The rows that an invocation of the permutation gate lays admit one
    /// result only: whatever canonical values are bound to the variables,
    /// where they meet those rows, the variables handed out are bound to
    /// the leading lanes of the permutation of the values bound to the
    /// variables handed in.
    pub proof fn lemma_round_function_enforces(
        self,
        inputs: Seq<Variable>,
        capacity: Seq<Variable>,
        assignment: Seq<int>,
    )
        requires
            self.wf(),
            self.round_function_ready(inputs, capacity),
            assignment.len() == self.with_round_function(inputs, capacity).values.len(),
            all_canonical(assignment),
            forall|r: int|
                self.rows.len() <= r < self.with_round_function(inputs, capacity).rows.len()
                    ==> self.with_round_function(inputs, capacity).assigned(assignment).row_holds(
                    #[trigger] self.with_round_function(inputs, capacity).rows[r],
                ),
        ensures
            self.with_round_function(inputs, capacity).assigned(assignment).gather(
                indices(self.round_function_outputs(inputs, capacity)),
            ) == spec_permutation(
                self.round_gate.unwrap().family,
                self.round_gate.unwrap().params,
                self.with_round_function(inputs, capacity).assigned(assignment).gather(
                    indices(inputs + capacity),
                ),
            ).take(capacity.len() as int),
    {
        let g = self.round_gate.unwrap();
        let vars = indices(inputs + capacity);
        let end = self.with_round_function(inputs, capacity);
        let alt = end.assigned(assignment);
        assert(self.layers_ready(vars, g.params.layers())) by {
            assert forall|i: int| 0 <= i < vars.len() implies #[trigger] vars[i]
                < self.values.len() by {
                assert(self.bound((inputs + capacity)[i]));
            }
        }
        self.lemma_with_layers(vars, g.params.layers());
        self.lemma_chain_enforces(vars, g.params.layers(), assignment);
        assert(alt.gather(indices(self.round_function_outputs(inputs, capacity))) =~= alt.gather(
            end.chain_end(vars, g.params.layers()),
        ).take(capacity.len() as int));
    }

    /// Replacing the binding of an output of a layer by another value
    /// breaks a system that was satisfied.
    pub proof fn lemma_rebound_output_unsatisfied(self, r: int, k: int, value: int)
        requires
            self.wf(),
            self.satisfied(),
            0 <= r < self.rows.len(),
            self.rows[r] is Layer,
            0 <= k < self.rows[r]->outputs.len(),
            is_canonical(value),
            value != self.values[self.rows[r]->outputs[k] as int],
        ensures
            !self.rebound(
                Variable { system: self.id, index: self.rows[r]->outputs[k] },
                value,
            ).satisfied(),
    {
        let row = self.rows[r];
        let layer = row->layer;
        let inputs = row->inputs;
        let outputs = row->outputs;
        let v = Variable { system: self.id, index: outputs[k] };
        let next = self.rebound(v, value);
        let g = self.round_gate.unwrap();
        assert(self.row_wf(row));
        assert(self.row_holds(row));
        self.lemma_layer_row_enforces(layer, inputs, outputs);
        let expected = spec_layer(g.family, g.params, layer as int, self.gather(inputs));
        lemma_layer_canonical(g.family, g.params, layer as int, self.gather(inputs));
        lemma_layer_len(g.family, g.params, layer as int, self.gather(inputs));
        assert(next.gather(inputs) =~= self.gather(inputs)) by {
            assert forall|i: int| 0 <= i < inputs.len() implies next.values[inputs[i] as int]
                == self.values[inputs[i] as int] by {
                assert(inputs[i] != outputs[k]);
            }
        }
        assert(self.gather(outputs)[k] == expected[k]);
        if next.satisfied() {
            assert(next.row_holds(next.rows[r]));
            assert(spec_sub(next.values[outputs[k] as int], expected[k]) == 0);
            assert(is_canonical(expected[k]));
            assert(false);
        }
    }
}

} // verus!
