//! The constraint system: gates are configured, the system is built,
//! variables are bound and rows are laid.

use crate::error::{ConfigurationError, CsError};
use crate::field::{is_canonical, values, Felt};
use crate::geometry::{Footprint, Gate, GateKind, GatePlacementStrategy, Geometry};
use crate::model::{
    indices, is_power_of_two, lemma_doubled_up_to, lemma_powers_of_two_apart,
    lemma_span_holds_one, spec_doubled_up_to, ConstantEntry, CsSpec, Phase, Placement,
    RoundGateSpec, RowSpec, Variable,
};
use crate::permutation::{matrix_values, spec_layer, GateFamily, PermutationParams};
use std::collections::HashMap;
use vstd::prelude::*;

verus! {

broadcast use vstd::std_specs::hash::group_hash_axioms;

/// What the resolver of a built system is given.
#[derive(Clone, Copy, Debug, PartialEq, Eq, Structural, Hash)]
pub struct ResolverOptions {
    /// How many variables the system may hold.
    pub max_variables: usize,
}

impl ResolverOptions {
    /// Options for a system of at most `max_variables` variables.
    pub fn new(max_variables: usize) -> (r: ResolverOptions)
        ensures
            r.max_variables == max_variables,
    {
        ResolverOptions { max_variables }
    }
}

/// The configured permutation gate.
#[derive(Debug)]
struct RoundGate {
    family: GateFamily,
    params: PermutationParams,
    placement: Placement,
}

/// One row of a system.
#[derive(Debug)]
pub enum Row {
    Constant { variable: usize, value: Felt },
    Layer { layer: usize, inputs: Vec<usize>, outputs: Vec<usize> },
    Nop,
}

impl View for Row {
    type V = RowSpec;

    open spec fn view(&self) -> RowSpec {
        match self {
            Row::Constant { variable, value } => RowSpec::Constant {
                variable: *variable,
                value: value@,
            },
            Row::Layer { layer, inputs, outputs } => RowSpec::Layer {
                layer: *layer,
                inputs: inputs@,
                outputs: outputs@,
            },
            Row::Nop => RowSpec::Nop,
        }
    }
}

/// The content of each row of `rows`.
pub open spec fn rows_view(rows: Seq<Row>) -> Seq<RowSpec> {
    Seq::new(rows.len(), |r: int| rows[r]@)
}

/// A constraint system in one of its phases.
#[derive(Debug)]
pub struct ConstraintSystem {
    id: u64,
    phase: Phase,
    geometry: Geometry,
    max_trace_len: usize,
    max_variables: usize,
    round_gate: Option<RoundGate>,
    constants_gate: Option<Placement>,
    nop_gate: Option<Placement>,
    reserved_copy: usize,
    reserved_constant: usize,
    shared_copy: usize,
    shared_constant: usize,
    values: Vec<Felt>,
    constants: HashMap<u64, ConstantEntry>,
    rows: Vec<Row>,
    trace: Vec<Vec<Felt>>,
}

impl View for ConstraintSystem {
    type V = CsSpec;

    closed spec fn view(&self) -> CsSpec {
        CsSpec {
            id: self.id,
            phase: self.phase,
            geometry: self.geometry,
            max_trace_len: self.max_trace_len,
            max_variables: self.max_variables,
            round_gate: match self.round_gate {
                Some(g) => Some(
                    RoundGateSpec { family: g.family, params: g.params@, placement: g.placement },
                ),
                None => None,
            },
            constants_gate: self.constants_gate,
            nop_gate: self.nop_gate,
            reserved_copy: self.reserved_copy,
            reserved_constant: self.reserved_constant,
            shared_copy: self.shared_copy,
            shared_constant: self.shared_constant,
            values: values(self.values@),
            constants: self.constants@,
            rows: rows_view(self.rows@),
        }
    }
}

/// Whether `n` is a power of two.
pub fn power_of_two(n: usize) -> (r: bool)
    ensures
        r == is_power_of_two(n as int),
{
    if n == 0 {
        return false;
    }
    let mut m: usize = n;
    while m % 2 == 0
        invariant
            m >= 1,
            is_power_of_two(m as int) == is_power_of_two(n as int),
        decreases m,
    {
        m = m / 2;
    }
    m == 1
}

impl ConstraintSystem {
    /// Whether the system is in a state that its operations can reach.
    pub closed spec fn wf(&self) -> bool {
        &&& self@.wf()
        &&& (self.phase != Phase::Finalized ==> self.trace@.len() == 0)
        &&& (self.phase == Phase::Finalized ==> matrix_values(self.trace@) == self@.trace())
    }

    /// What every well-formed system has.
    pub proof fn lemma_wf(&self)
        requires
            self.wf(),
        ensures
            self@.wf(),
    {
    }

    /// A system with geometry `geometry` and room for `max_trace_len`
    /// rows, on which gates can be configured. The number of rows must be
    /// a power of two, and the columns of a row must be countable.
    pub fn new(id: u64, geometry: Geometry, max_trace_len: usize) -> (r: Result<
        ConstraintSystem,
        CsError,
    >)
        ensures
            match r {
                Ok(cs) => {
                    &&& is_power_of_two(max_trace_len as int)
                    &&& geometry.spec_row_width() <= usize::MAX
                    &&& cs.wf()
                    &&& cs@ == CsSpec::initial(id, geometry, max_trace_len)
                },
                Err(e) => {
                    if !is_power_of_two(max_trace_len as int) {
                        e == CsError::Configuration(ConfigurationError::TraceLength)
                    } else {
                        geometry.spec_row_width() > usize::MAX && e == CsError::Configuration(
                            ConfigurationError::GeometryTooWide,
                        )
                    }
                },
            },
    {
        if !power_of_two(max_trace_len) {
            return Err(CsError::Configuration(ConfigurationError::TraceLength));
        }
        if geometry.row_width().is_none() {
            return Err(CsError::Configuration(ConfigurationError::GeometryTooWide));
        }
        let cs = ConstraintSystem {
            id,
            phase: Phase::Configuring,
            geometry,
            max_trace_len,
            max_variables: 0,
            round_gate: None,
            constants_gate: None,
            nop_gate: None,
            reserved_copy: 0,
            reserved_constant: 0,
            shared_copy: 0,
            shared_constant: 0,
            values: Vec::new(),
            constants: HashMap::new(),
            rows: Vec::new(),
            trace: Vec::new(),
        };
        assert(cs@.values =~= Seq::empty());
        assert(cs@.rows =~= Seq::empty());
        assert(cs@.constants =~= Map::empty());
        Ok(cs)
    }

    /// The identity that the system's handles carry.
    pub fn id(&self) -> (r: u64)
        ensures
            r == self@.id,
    {
        self.id
    }

    /// The phase that the system is in.
    pub fn phase(&self) -> (r: Phase)
        ensures
            r == self@.phase,
    {
        self.phase
    }

    /// The geometry that the system was made with.
    pub fn geometry(&self) -> (r: Geometry)
        ensures
            r == self@.geometry,
    {
        self.geometry
    }

    /// Number of variables allocated so far.
    pub fn num_variables(&self) -> (r: usize)
        ensures
            r == self@.values.len(),
    {
        self.values.len()
    }

    /// Number of rows laid so far.
    pub fn num_rows(&self) -> (r: usize)
        ensures
            r == self@.rows.len(),
    {
        self.rows.len()
    }

    /// The columns that a gate needing `copy` and `constant` columns per
    /// instance gets under `strategy`, if it fits.
    fn plan_placement(
        &self,
        copy: usize,
        constant: usize,
        strategy: GatePlacementStrategy,
        Ghost(fp): Ghost<Footprint>,
    ) -> (r: Option<Placement>)
        requires
            self.wf(),
            fp.copy_columns == copy,
            fp.constant_columns == constant,
        ensures
            r is Some <==> self@.fits(fp, strategy),
            r matches Some(p) ==> p == self@.placement_for(fp, strategy),
    {
        let copy_left: usize = self.geometry.num_columns_under_copy_permutation
            - self.reserved_copy;
        let constant_left: usize = self.geometry.num_constant_columns - self.reserved_constant;
        match strategy {
            GatePlacementStrategy::UseGeneralPurposeColumns => {
                if copy > copy_left || constant > constant_left {
                    return None;
                }
                Some(
                    Placement {
                        strategy,
                        copy_base: 0,
                        copy_span: copy,
                        constant_base: 0,
                        constant_span: constant,
                    },
                )
            },
            GatePlacementStrategy::UseSpecializedColumns { num_repetitions } => {
                if num_repetitions < 1 {
                    return None;
                }
                let copy_span: usize = match num_repetitions.checked_mul(copy) {
                    Some(span) => span,
                    None => {
                        return None;
                    },
                };
                let constant_span: usize = match num_repetitions.checked_mul(constant) {
                    Some(span) => span,
                    None => {
                        return None;
                    },
                };
                if copy_span > copy_left - self.shared_copy || constant_span > constant_left
                    - self.shared_constant {
                    return None;
                }
                Some(
                    Placement {
                        strategy,
                        copy_base: copy_left - copy_span,
                        copy_span,
                        constant_base: constant_left - constant_span,
                        constant_span,
                    },
                )
            },
        }
    }

    /// Takes the columns of `placement` from the budget.
    fn charge(&mut self, placement: Placement, Ghost(fp): Ghost<Footprint>)
        requires
            old(self)@.fits(fp, placement.strategy),
            placement == old(self)@.placement_for(fp, placement.strategy),
            old(self).wf(),
        ensures
            final(self)@ == old(self)@.charged(fp, placement.strategy),
            final(self).trace == old(self).trace,
    {
        match placement.strategy {
            GatePlacementStrategy::UseGeneralPurposeColumns => {
                if placement.copy_span > self.shared_copy {
                    self.shared_copy = placement.copy_span;
                }
                if placement.constant_span > self.shared_constant {
                    self.shared_constant = placement.constant_span;
                }
            },
            GatePlacementStrategy::UseSpecializedColumns { .. } => {
                self.reserved_copy = self.reserved_copy + placement.copy_span;
                self.reserved_constant = self.reserved_constant + placement.constant_span;
            },
        }
    }

    /// Registers `gate` with `strategy`. Refused after the system was
    /// built, for a kind that is registered already, for a degree above the
    /// geometry's, and where its columns do not fit what is left.
    pub fn configure(&mut self, gate: Gate, strategy: GatePlacementStrategy) -> (r: Result<
        (),
        CsError,
    >)
        requires
            old(self).wf(),
        ensures
            final(self).wf(),
            match old(self)@.configure_error(gate@, strategy) {
                Some(e) => r == Err::<(), CsError>(CsError::Configuration(e)) && final(self)@ == old(
                    self,
                )@,
                None => r is Ok && final(self)@ == old(self)@.configured(gate@, strategy),
            },
    {
        if self.phase != Phase::Configuring {
            return Err(CsError::Configuration(ConfigurationError::WrongPhase));
        }
        if self.is_configured(gate.kind()) {
            return Err(CsError::Configuration(ConfigurationError::GateAlreadyConfigured));
        }
        if gate.degree() > self.geometry.max_allowed_constraint_degree {
            return Err(CsError::Configuration(ConfigurationError::DegreeExceeded));
        }
        let ghost fp = gate@.footprint();
        proof {
            lemma_span_holds_one(strategy, fp.copy_columns);
        }
        let copy: usize = match gate.copy_columns() {
            Some(c) => c,
            None => {
                return Err(CsError::Configuration(ConfigurationError::ColumnsExceeded));
            },
        };
        let constant: usize = gate.constant_columns();
        let placement = match self.plan_placement(copy, constant, strategy, Ghost(fp)) {
            Some(p) => p,
            None => {
                return Err(CsError::Configuration(ConfigurationError::ColumnsExceeded));
            },
        };
        self.charge(placement, Ghost(fp));
        match gate {
            Gate::ConstantsAllocator => {
                self.constants_gate = Some(placement);
            },
            Gate::Nop => {
                self.nop_gate = Some(placement);
            },
            Gate::RoundFunction { family, params } => {
                self.round_gate = Some(RoundGate { family, params, placement });
            },
        }
        proof {
            assert(self@ == old(self)@.configured(gate@, strategy));
            old(self)@.lemma_configured_wf(gate@, strategy);
        }
        Ok(())
    }

    /// Ends the configuration: the system can hold `options.max_variables`
    /// variables, and takes no further gate. Refused on a system that was
    /// built before.
    pub fn build(&mut self, options: ResolverOptions) -> (r: Result<(), CsError>)
        requires
            old(self).wf(),
        ensures
            final(self).wf(),
            old(self)@.phase == Phase::Configuring ==> r is Ok && final(self)@ == old(
                self,
            )@.built(options.max_variables),
            old(self)@.phase != Phase::Configuring ==> r == Err::<(), CsError>(
                CsError::Configuration(ConfigurationError::WrongPhase),
            ) && final(self)@ == old(self)@,
    {
        if self.phase != Phase::Configuring {
            return Err(CsError::Configuration(ConfigurationError::WrongPhase));
        }
        self.phase = Phase::Built;
        self.max_variables = options.max_variables;
        Ok(())
    }

    /// A new variable bound to `value`. Refused outside the assignment
    /// phase and where the system holds as many variables as it may.
    pub fn allocate_witness(&mut self, value: Felt) -> (r: Result<Variable, CsError>)
        requires
            old(self).wf(),
        ensures
            final(self).wf(),
            match old(self)@.witness_error() {
                Some(e) => r == Err::<Variable, CsError>(e) && final(self)@ == old(self)@,
                None => r == Ok::<Variable, CsError>(old(self)@.next_variable()) && final(self)@
                    == old(self)@.with_witness(value@),
            },
    {
        if self.phase != Phase::Built {
            return Err(CsError::Configuration(ConfigurationError::WrongPhase));
        }
        if self.values.len() >= self.max_variables {
            return Err(CsError::CapacityExceeded);
        }
        let index: usize = self.values.len();
        proof {
            use_type_invariant(&value);
        }
        self.values.push(value);
        proof {
            assert(self@.values =~= old(self)@.values.push(value@));
            assert(self@.rows == old(self)@.rows);
            assert forall|r: int| 0 <= r < self@.rows.len() implies self@.row_wf(
                #[trigger] self@.rows[r],
            ) by {
                assert(old(self)@.row_wf(old(self)@.rows[r]));
            }
        }
        Ok(Variable { system: self.id, index })
    }

    /// The variable that is pinned to `value`: the one handed out for this
    /// value before, or a new one with a row that pins it. Refused outside
    /// the assignment phase, and for a new value where no gate for
    /// constants is configured or the rows or variables are used up.
    pub fn allocate_constant(&mut self, value: Felt) -> (r: Result<Variable, CsError>)
        requires
            old(self).wf(),
        ensures
            final(self).wf(),
            is_canonical(value@),
            match old(self)@.constant_error(value@ as u64) {
                Some(e) => r == Err::<Variable, CsError>(e) && final(self)@ == old(self)@,
                None => r == Ok::<Variable, CsError>(old(self)@.constant_variable(value@ as u64))
                    && final(self)@ == old(self)@.with_constant(value@ as u64),
            },
    {
        let key: u64 = value.value();
        if self.phase != Phase::Built {
            return Err(CsError::Configuration(ConfigurationError::WrongPhase));
        }
        match self.constants.get(&key) {
            Some(entry) => {
                return Ok(Variable { system: self.id, index: entry.variable });
            },
            None => {},
        }
        if self.constants_gate.is_none() {
            return Err(CsError::Configuration(ConfigurationError::GateNotConfigured));
        }
        if self.values.len() >= self.max_variables || self.rows.len() >= self.max_trace_len {
            return Err(CsError::CapacityExceeded);
        }
        let index: usize = self.values.len();
        let row: usize = self.rows.len();
        self.values.push(value);
        self.rows.push(Row::Constant { variable: index, value });
        self.constants.insert(key, ConstantEntry { variable: index, row });
        proof {
            let before = old(self)@;
            let after = self@;
            assert(after.values =~= before.values.push(key as int));
            assert(after.rows =~= before.rows.push(
                RowSpec::Constant { variable: index, value: key as int },
            ));
            assert(after == before.with_constant(key));
            assert forall|r: int| 0 <= r < after.rows.len() implies after.row_wf(
                #[trigger] after.rows[r],
            ) by {
                if r < before.rows.len() {
                    assert(before.row_wf(before.rows[r]));
                }
            }
            assert forall|c: u64| #[trigger] after.constants.dom().contains(c) implies {
                &&& after.constants[c].row < after.rows.len()
                &&& after.rows[after.constants[c].row as int] == (RowSpec::Constant {
                    variable: after.constants[c].variable,
                    value: c as int,
                })
            } by {
                if c != key {
                    assert(before.constants.dom().contains(c));
                }
            }
        }
        Ok(Variable { system: self.id, index })
    }

    /// Whether `v` is a handle of this system with a binding.
    pub fn is_bound(&self, v: Variable) -> (r: bool)
        ensures
            r == self@.bound(v),
    {
        v.system == self.id && v.index < self.values.len()
    }

    /// The values bound to `variables`, in their order. Refused where one
    /// of them has no binding in this system; the error names the first.
    pub fn read(&self, variables: &[Variable]) -> (r: Result<Vec<Felt>, CsError>)
        requires
            self.wf(),
        ensures
            match r {
                Ok(out) => self@.all_bound(variables@) && values(out@) == self@.gather(
                    indices(variables@),
                ),
                Err(e) => e matches CsError::UnboundVariable { position }
                    && self@.first_unbound(variables@, position as int),
            },
    {
        let mut out: Vec<Felt> = Vec::new();
        let mut i: usize = 0;
        while i < variables.len()
            invariant
                i <= variables@.len(),
                out@.len() == i,
                forall|k: int| 0 <= k < i ==> self@.bound(#[trigger] variables@[k]),
                forall|k: int|
                    0 <= k < i ==> (#[trigger] out@[k])@ == self@.values[variables@[k].index as int],
            decreases variables@.len() - i,
        {
            let v = variables[i];
            if !self.is_bound(v) {
                return Err(CsError::UnboundVariable { position: i });
            }
            out.push(self.values[v.index]);
            i += 1;
        }
        assert(values(out@) =~= self@.gather(indices(variables@)));
        Ok(out)
    }

    /// Replaces the binding of `v` by `value`, whatever the rows say of
    /// it. Refused outside the assignment phase and for a handle without
    /// a binding in this system.
    pub fn rebind(&mut self, v: Variable, value: Felt) -> (r: Result<(), CsError>)
        requires
            old(self).wf(),
        ensures
            final(self).wf(),
            old(self)@.phase != Phase::Built ==> r == Err::<(), CsError>(
                CsError::Configuration(ConfigurationError::WrongPhase),
            ) && final(self)@ == old(self)@,
            old(self)@.phase == Phase::Built && !old(self)@.bound(v) ==> r == Err::<(), CsError>(
                CsError::UnboundVariable { position: 0 },
            ) && final(self)@ == old(self)@,
            old(self)@.phase == Phase::Built && old(self)@.bound(v) ==> r is Ok && final(self)@
                == old(self)@.rebound(v, value@),
    {
        if self.phase != Phase::Built {
            return Err(CsError::Configuration(ConfigurationError::WrongPhase));
        }
        if !self.is_bound(v) {
            return Err(CsError::UnboundVariable { position: 0 });
        }
        proof {
            use_type_invariant(&value);
        }
        self.values.set(v.index, value);
        proof {
            assert(self@.values =~= old(self)@.values.update(v.index as int, value@));
            assert forall|r: int| 0 <= r < self@.rows.len() implies self@.row_wf(
                #[trigger] self@.rows[r],
            ) by {
                assert(old(self)@.row_wf(old(self)@.rows[r]));
            }
        }
        Ok(())
    }

    /// The constants of the configured permutation gate, if there is one.
    pub fn round_params(&self) -> (r: Option<&PermutationParams>)
        ensures
            r is Some == self@.round_gate is Some,
            r matches Some(p) ==> p@ == self@.round_gate.unwrap().params,
    {
        match &self.round_gate {
            Some(g) => Some(&g.params),
            None => None,
        }
    }

    /// The round structure of the configured permutation gate, if there
    /// is one.
    pub fn round_family(&self) -> (r: Option<GateFamily>)
        ensures
            r is Some == self@.round_gate is Some,
            r matches Some(f) ==> f == self@.round_gate.unwrap().family,
    {
        match &self.round_gate {
            Some(g) => Some(g.family),
            None => None,
        }
    }

    /// How many rows the system may hold.
    pub fn max_trace_len(&self) -> (r: usize)
        ensures
            r == self@.max_trace_len,
    {
        self.max_trace_len
    }

    /// How many variables the system may hold.
    pub fn max_variables(&self) -> (r: usize)
        ensures
            r == self@.max_variables,
    {
        self.max_variables
    }

    /// Lays a row for layer `layer` of the permutation on the variables
    /// `inputs`, and returns the new variables that hold what the layer
    /// makes of them.
    pub(crate) fn place_layer(&mut self, layer: usize, inputs: Vec<usize>) -> (outputs: Vec<usize>)
        requires
            old(self).wf(),
            old(self)@.layer_ready(layer, inputs@),
        ensures
            final(self).wf(),
            final(self)@ == old(self)@.with_layer(layer, inputs@),
            outputs@ == old(self)@.fresh(inputs@.len()),
    {
        let ghost before = self@;
        let width: usize = inputs.len();
        let mut state: Vec<Felt> = Vec::new();
        let mut i: usize = 0;
        while i < width
            invariant
                i <= width,
                width == inputs@.len(),
                self@ == before,
                forall|k: int| 0 <= k < inputs@.len() ==> #[trigger] inputs@[k] < before.values.len(),
                state@.len() == i,
                forall|k: int|
                    0 <= k < i ==> (#[trigger] state@[k])@ == before.values[inputs@[k] as int],
            decreases width - i,
        {
            state.push(self.values[inputs[i]]);
            i += 1;
        }
        assert(values(state@) =~= before.gather(inputs@));
        let out: Vec<Felt> = match &self.round_gate {
            Some(g) => g.params.apply_layer(g.family, layer, &state),
            None => Vec::new(),
        };
        let ghost g = before.round_gate.unwrap();
        let ghost expected = spec_layer(g.family, g.params, layer as int, before.gather(inputs@));
        assert(values(out@) == expected);
        assert(out@.len() == width);
        let first: usize = self.values.len();
        let mut outputs: Vec<usize> = Vec::new();
        let mut placed: Vec<usize> = Vec::new();
        let mut k: usize = 0;
        while k < width
            invariant
                k <= width,
                width == out@.len(),
                first == before.values.len(),
                first + width <= usize::MAX,
                self.values@.len() == first + k,
                values(self.values@) == before.values + values(out@).take(k as int),
                outputs@ == before.fresh(k as nat),
                placed@ == before.fresh(k as nat),
                self.id == old(self).id,
                self.phase == old(self).phase,
                self.geometry == old(self).geometry,
                self.max_trace_len == old(self).max_trace_len,
                self.max_variables == old(self).max_variables,
                self.round_gate == old(self).round_gate,
                self.constants_gate == old(self).constants_gate,
                self.nop_gate == old(self).nop_gate,
                self.reserved_copy == old(self).reserved_copy,
                self.reserved_constant == old(self).reserved_constant,
                self.shared_copy == old(self).shared_copy,
                self.shared_constant == old(self).shared_constant,
                self.constants == old(self).constants,
                self.rows == old(self).rows,
                self.trace == old(self).trace,
            decreases width - k,
        {
            let ghost prev = self.values@;
            self.values.push(out[k]);
            outputs.push(first + k);
            placed.push(first + k);
            proof {
                assert(self.values@ == prev.push(out@[k as int]));
                assert(values(self.values@) =~= values(prev).push(out@[k as int]@));
                assert(values(out@).take(k + 1) =~= values(out@).take(k as int).push(
                    out@[k as int]@,
                ));
                assert(values(self.values@) =~= before.values + values(out@).take(k + 1));
                assert(outputs@ =~= before.fresh((k + 1) as nat));
                assert(placed@ =~= before.fresh((k + 1) as nat));
            }
            k += 1;
        }
        self.rows.push(Row::Layer { layer, inputs, outputs: placed });
        proof {
            assert(values(out@).take(width as int) =~= values(out@));
            assert(self@.values == before.values + expected);
            assert(self@.rows =~= before.rows.push(
                RowSpec::Layer { layer, inputs: inputs@, outputs: before.fresh(expected.len()) },
            ));
            assert(self@ == before.with_layer(layer, inputs@));
            before.lemma_with_layer(layer, inputs@);
        }
        outputs
    }

    /// The value bound to the variable at `index` of the table.
    pub fn value_at(&self, index: usize) -> (r: Felt)
        requires
            index < self@.values.len(),
        ensures
            r@ == self@.values[index as int],
    {
        self.values[index]
    }

    /// Row `r` of the system.
    pub fn row(&self, r: usize) -> (row: &Row)
        requires
            r < self@.rows.len(),
        ensures
            row@ == self@.rows[r as int],
    {
        &self.rows[r]
    }

    /// The columns of a gate for constants, if one is configured.
    pub fn constants_placement(&self) -> (r: Option<Placement>)
        ensures
            r == self@.constants_gate,
    {
        self.constants_gate
    }

    /// The columns of the permutation gate, if it is configured.
    pub fn round_placement(&self) -> (r: Option<Placement>)
        ensures
            r == self@.round_placement(),
    {
        match &self.round_gate {
            Some(g) => Some(g.placement),
            None => None,
        }
    }

    /// The trace of a finalized system; no rows before.
    pub fn trace(&self) -> (t: &Vec<Vec<Felt>>)
        requires
            self.wf(),
        ensures
            self@.phase == Phase::Finalized ==> matrix_values(t@) == self@.trace(),
            self@.phase != Phase::Finalized ==> t@.len() == 0,
    {
        &self.trace
    }

    /// The trace row of row `r`.
    fn materialize_row(&self, r: usize) -> (cells: Vec<Felt>)
        requires
            self@.wf(),
            r < self@.rows.len(),
        ensures
            values(cells@) == self@.row_cells(self@.rows[r as int]),
    {
        let ghost model = self@;
        let ghost row = model.rows[r as int];
        proof {
            assert(model.row_wf(row));
            model.lemma_row_in_columns(row);
        }
        let width: usize = self.geometry.num_columns_under_copy_permutation
            + self.geometry.num_witness_columns + self.geometry.num_constant_columns;
        let mut cells: Vec<Felt> = Vec::new();
        let mut c: usize = 0;
        while c < width
            invariant
                c <= width,
                cells@.len() == c,
                forall|k: int| 0 <= k < c ==> (#[trigger] cells@[k])@ == 0,
            decreases width - c,
        {
            cells.push(Felt::zero());
            c += 1;
        }
        match &self.rows[r] {
            Row::Constant { variable, value } => {
                match self.constants_gate {
                    Some(p) => {
                        let k: usize = self.geometry.num_columns_under_copy_permutation
                            + self.geometry.num_witness_columns + p.constant_base;
                        cells.set(p.copy_base, self.values[*variable]);
                        cells.set(k, *value);
                    },
                    None => {},
                }
            },
            Row::Layer { layer, inputs, outputs } => {
                match &self.round_gate {
                    Some(g) => {
                        let b: usize = g.placement.copy_base;
                        let w: usize = inputs.len();
                        let mut i: usize = 0;
                        while i < w
                            invariant
                                i <= w,
                                w == inputs@.len(),
                                w == outputs@.len(),
                                b + 2 * w <= width,
                                cells@.len() == width,
                                model == self@,
                                forall|k: int|
                                    0 <= k < inputs@.len() ==> #[trigger] inputs@[k]
                                        < model.values.len(),
                                forall|k: int|
                                    0 <= k < outputs@.len() ==> #[trigger] outputs@[k]
                                        < model.values.len(),
                                forall|k: int|
                                    0 <= k < width ==> (#[trigger] cells@[k])@ == (if b <= k < b
                                        + i {
                                        model.values[inputs@[k - b] as int]
                                    } else if b + w <= k < b + w + i {
                                        model.values[outputs@[k - b - w] as int]
                                    } else {
                                        0
                                    }),
                            decreases w - i,
                        {
                            cells.set(b + i, self.values[inputs[i]]);
                            cells.set(b + w + i, self.values[outputs[i]]);
                            i += 1;
                        }
                    },
                    None => {},
                }
            },
            Row::Nop => {},
        }
        assert(values(cells@) =~= model.row_cells(row));
        cells
    }

    /// Ends the assignment: pads the rows to a power of two with rows that
    /// constrain nothing, and lays out the trace. Refused outside the
    /// assignment phase, and where rows are missing and no gate is
    /// configured to pad with.
    pub fn finalize(&mut self) -> (r: Result<(), CsError>)
        requires
            old(self).wf(),
        ensures
            final(self).wf(),
            match old(self)@.finalize_error() {
                Some(e) => r == Err::<(), CsError>(e) && final(self)@ == old(self)@,
                None => r is Ok && final(self)@ == old(self)@.finalized(),
            },
    {
        let ghost before = self@;
        if self.phase != Phase::Built {
            return Err(CsError::Configuration(ConfigurationError::WrongPhase));
        }
        let used: usize = self.rows.len();
        let mut target: usize = 1;
        proof {
            lemma_doubled_up_to(used as int, 1, self.max_trace_len as int);
        }
        while target < used
            invariant
                target >= 1,
                is_power_of_two(target as int),
                is_power_of_two(self.max_trace_len as int),
                target <= self.max_trace_len,
                used <= self.max_trace_len,
                spec_doubled_up_to(used as int, target as int) == spec_doubled_up_to(
                    used as int,
                    1,
                ),
            decreases
                    (if target < used {
                        used - target
                    } else {
                        0
                    }),
        {
            proof {
                lemma_powers_of_two_apart(target as int, self.max_trace_len as int);
            }
            target = 2 * target;
        }
        assert(target == before.padded_len());
        if target > used && self.nop_gate.is_none() {
            return Err(CsError::Configuration(ConfigurationError::GateNotConfigured));
        }
        proof {
            before.lemma_finalized();
        }
        let ghost count = (target - used) as nat;
        while self.rows.len() < target
            invariant
                used <= self.rows@.len() <= target,
                count == target - used,
                rows_view(self.rows@) == before.rows + Seq::new(
                    (self.rows@.len() - used) as nat,
                    |i: int| RowSpec::Nop,
                ),
                self.id == old(self).id,
                self.phase == old(self).phase,
                self.geometry == old(self).geometry,
                self.max_trace_len == old(self).max_trace_len,
                self.max_variables == old(self).max_variables,
                self.round_gate == old(self).round_gate,
                self.constants_gate == old(self).constants_gate,
                self.nop_gate == old(self).nop_gate,
                self.reserved_copy == old(self).reserved_copy,
                self.reserved_constant == old(self).reserved_constant,
                self.shared_copy == old(self).shared_copy,
                self.shared_constant == old(self).shared_constant,
                self.constants == old(self).constants,
                self.values == old(self).values,
                self.trace == old(self).trace,
            decreases target - self.rows@.len(),
        {
            let ghost len = self.rows@.len();
            let ghost prev = self.rows@;
            self.rows.push(Row::Nop);
            assert(self.rows@ == prev.push(Row::Nop));
            assert(rows_view(self.rows@) =~= rows_view(prev).push(RowSpec::Nop));
            assert(rows_view(self.rows@) =~= before.rows + Seq::new(
                (len + 1 - used) as nat,
                |i: int| RowSpec::Nop,
            ));
        }
        self.phase = Phase::Finalized;
        assert(self@ == before.finalized());
        let mut trace: Vec<Vec<Felt>> = Vec::new();
        let mut r: usize = 0;
        while r < target
            invariant
                r <= target,
                target == self.rows@.len(),
                self@ == before.finalized(),
                self@.wf(),
                trace@.len() == r,
                forall|k: int|
                    0 <= k < r ==> values((#[trigger] trace@[k])@) == self@.row_cells(
                        self@.rows[k],
                    ),
            decreases target - r,
        {
            let cells = self.materialize_row(r);
            trace.push(cells);
            r += 1;
        }
        assert(matrix_values(trace@) =~= self@.trace());
        self.trace = trace;
        Ok(())
    }

    /// Whether the constant `value` was allocated before.
    pub fn constant_cached(&self, value: Felt) -> (r: bool)
        ensures
            is_canonical(value@),
            r == self@.constants.dom().contains(value@ as u64),
    {
        let key: u64 = value.value();
        self.constants.contains_key(&key)
    }

    /// Whether a gate of kind `kind` is configured.
    pub fn is_configured(&self, kind: GateKind) -> (r: bool)
        ensures
            r == self@.is_configured(kind),
    {
        match kind {
            GateKind::ConstantsAllocator => self.constants_gate.is_some(),
            GateKind::Nop => self.nop_gate.is_some(),
            GateKind::RoundFunction => self.round_gate.is_some(),
        }
    }
}

} // verus!
