//! The mathematical model of a constraint system: what it holds, when it
//! is well formed, and when its bindings satisfy it.

use crate::field::{all_canonical, is_canonical, spec_sub};
use crate::geometry::{Footprint, GateKind, GatePlacementStrategy, GateSpec, Geometry};
use crate::permutation::{spec_layer, GateFamily, PermutationSpec};
use vstd::prelude::*;

verus! {

/// Whether `n` is a power of two.
pub open spec fn is_power_of_two(n: int) -> bool
    decreases n,
{
    n == 1 || (n > 1 && n % 2 == 0 && is_power_of_two(n / 2))
}

/// The first of `from`, `2 * from`, `4 * from`, ... that is at least `n`.
pub open spec fn spec_doubled_up_to(n: int, from: int) -> int
    decreases
            (if from < n {
                n - from
            } else {
                0
            }),
{
    if from >= n || from <= 0 {
        from
    } else {
        spec_doubled_up_to(n, 2 * from)
    }
}

/// Of two powers of two, the greater is at least twice the smaller.
pub proof fn lemma_powers_of_two_apart(p: int, q: int)
    requires
        is_power_of_two(p),
        is_power_of_two(q),
        p < q,
    ensures
        2 * p <= q,
    decreases p,
{
    if p > 1 {
        lemma_powers_of_two_apart(p / 2, q / 2);
    }
}

/// Doubling a power of two up to `n` ends on the least power of two that
/// is at least `n` and at least the start, and stays below every power of
/// two that bounds both.
pub proof fn lemma_doubled_up_to(n: int, from: int, bound: int)
    requires
        is_power_of_two(from),
        is_power_of_two(bound),
        from <= bound,
        n <= bound,
    ensures
        is_power_of_two(spec_doubled_up_to(n, from)),
        n <= spec_doubled_up_to(n, from) <= bound,
        from <= spec_doubled_up_to(n, from),
        spec_doubled_up_to(n, from) == from || spec_doubled_up_to(n, from) < 2 * n,
    decreases
            (if from < n {
                n - from
            } else {
                0
            }),
{
    if from < n {
        lemma_powers_of_two_apart(from, bound);
        assert(is_power_of_two(2 * from));
        lemma_doubled_up_to(n, 2 * from, bound);
    }
}

/// The stages of a system's life.
#[derive(Clone, Copy, Debug, PartialEq, Eq, Structural, Hash)]
pub enum Phase {
    /// Gates are being registered.
    Configuring,
    /// Variables are bound and gates are invoked.
    Built,
    /// The rows are padded and the trace is laid out; nothing changes any
    /// more.
    Finalized,
}

/// The columns that a configured gate occupies.
#[derive(Clone, Copy, Debug, PartialEq, Eq, Structural, Hash)]
pub struct Placement {
    pub strategy: GatePlacementStrategy,
    /// First column under the copy permutation.
    pub copy_base: usize,
    /// Number of columns under the copy permutation set aside.
    pub copy_span: usize,
    /// First constant column.
    pub constant_base: usize,
    /// Number of constant columns set aside.
    pub constant_span: usize,
}

/// The configured permutation gate.
pub struct RoundGateSpec {
    pub family: GateFamily,
    pub params: PermutationSpec,
    pub placement: Placement,
}

/// One row: an instance of a gate and the variables it ties.
pub enum RowSpec {
    /// `variable` is pinned to `value`.
    Constant { variable: usize, value: int },
    /// `outputs` is what layer `layer` of the permutation makes of `inputs`.
    Layer { layer: usize, inputs: Seq<usize>, outputs: Seq<usize> },
    /// Nothing is constrained.
    Nop,
}

/// A handle to a variable of one constraint system.
#[derive(Clone, Copy, Debug, PartialEq, Eq, Structural, Hash)]
pub struct Variable {
    /// The system that allocated the variable.
    pub system: u64,
    /// The variable's place in that system's table.
    pub index: usize,
}

impl Variable {
    /// The handle that stands for a variable not yet allocated: no system
    /// binds it.
    pub open spec fn spec_placeholder() -> Variable {
        Variable { system: 0, index: usize::MAX }
    }

    /// The handle that stands for a variable not yet allocated.
    pub fn placeholder() -> (v: Variable)
        ensures
            v == Self::spec_placeholder(),
    {
        Variable { system: 0, index: usize::MAX }
    }

    /// Whether this is the placeholder.
    pub fn is_placeholder(&self) -> (r: bool)
        ensures
            r == (*self == Self::spec_placeholder()),
    {
        self.system == 0 && self.index == usize::MAX
    }
}

/// The places in the table of the handles `vars`.
pub open spec fn indices(vars: Seq<Variable>) -> Seq<usize> {
    Seq::new(vars.len(), |i: int| vars[i].index)
}

/// Where a cached constant lives.
#[derive(Clone, Copy, Debug, PartialEq, Eq, Structural, Hash)]
pub struct ConstantEntry {
    pub variable: usize,
    pub row: usize,
}

/// The content of a constraint system.
pub struct CsSpec {
    pub id: u64,
    pub phase: Phase,
    pub geometry: Geometry,
    pub max_trace_len: usize,
    pub max_variables: usize,
    pub round_gate: Option<RoundGateSpec>,
    pub constants_gate: Option<Placement>,
    pub nop_gate: Option<Placement>,
    /// Columns set aside for gates of their own, counted from the last
    /// column downwards.
    pub reserved_copy: usize,
    pub reserved_constant: usize,
    /// Columns that the gates in general-purpose columns share, counted
    /// from the first column upwards.
    pub shared_copy: usize,
    pub shared_constant: usize,
    /// The residue bound to each variable.
    pub values: Seq<int>,
    /// The constants allocated so far, by residue.
    pub constants: Map<u64, ConstantEntry>,
    pub rows: Seq<RowSpec>,
}

/// Whether two placements in columns of their own keep apart.
pub open spec fn placements_apart(a: Option<Placement>, b: Option<Placement>) -> bool {
    match (a, b) {
        (Some(p), Some(q)) => {
            p.strategy != GatePlacementStrategy::UseGeneralPurposeColumns && q.strategy
                != GatePlacementStrategy::UseGeneralPurposeColumns ==> {
                &&& (p.copy_base + p.copy_span <= q.copy_base || q.copy_base + q.copy_span
                    <= p.copy_base)
                &&& (p.constant_base + p.constant_span <= q.constant_base || q.constant_base
                    + q.constant_span <= p.constant_base)
            }
        },
        _ => true,
    }
}

/// The columns set aside for a gate that needs `columns` per instance:
/// room for one instance in shared columns, for each repetition in columns
/// of its own.
pub open spec fn spec_span(strategy: GatePlacementStrategy, columns: nat) -> nat {
    match strategy {
        GatePlacementStrategy::UseGeneralPurposeColumns => columns,
        GatePlacementStrategy::UseSpecializedColumns { num_repetitions } => (num_repetitions
            * columns) as nat,
    }
}

/// With at least one repetition, the columns set aside hold one instance.
pub proof fn lemma_span_holds_one(strategy: GatePlacementStrategy, columns: nat)
    ensures
        match strategy {
            GatePlacementStrategy::UseGeneralPurposeColumns => spec_span(strategy, columns)
                == columns,
            GatePlacementStrategy::UseSpecializedColumns { num_repetitions } => num_repetitions
                >= 1 ==> spec_span(strategy, columns) >= columns,
        },
{
    if let GatePlacementStrategy::UseSpecializedColumns { num_repetitions } = strategy {
        assert(num_repetitions >= 1 ==> num_repetitions * columns >= columns)
            by (nonlinear_arith);
    }
}

impl CsSpec {
    /// A system on which nothing was configured yet.
    pub open spec fn initial(id: u64, geometry: Geometry, max_trace_len: usize) -> CsSpec {
        CsSpec {
            id,
            phase: Phase::Configuring,
            geometry,
            max_trace_len,
            max_variables: 0,
            round_gate: None,
            constants_gate: None,
            nop_gate: None,
            reserved_copy: 0,
            reserved_constant: 0,
            shared_copy: 0,
            shared_constant: 0,
            values: Seq::empty(),
            constants: Map::empty(),
            rows: Seq::empty(),
        }
    }

    /// The placement of the permutation gate, if it is configured.
    pub open spec fn round_placement(self) -> Option<Placement> {
        match self.round_gate {
            Some(g) => Some(g.placement),
            None => None,
        }
    }

    /// The placement of a gate of kind `kind`, if one is configured.
    pub open spec fn placement_of(self, kind: GateKind) -> Option<Placement> {
        match kind {
            GateKind::ConstantsAllocator => self.constants_gate,
            GateKind::Nop => self.nop_gate,
            GateKind::RoundFunction => self.round_placement(),
        }
    }

    /// Whether `p` gives an instance with footprint `fp` columns inside
    /// the geometry: in the shared columns from the first on, or in a
    /// range of its own above the shared columns.
    pub open spec fn placement_ok(self, p: Placement, fp: Footprint) -> bool {
        match p.strategy {
            GatePlacementStrategy::UseGeneralPurposeColumns => {
                &&& p.copy_base == 0
                &&& p.copy_span == fp.copy_columns
                &&& p.copy_span <= self.shared_copy
                &&& p.constant_base == 0
                &&& p.constant_span == fp.constant_columns
                &&& p.constant_span <= self.shared_constant
            },
            GatePlacementStrategy::UseSpecializedColumns { num_repetitions } => {
                &&& num_repetitions >= 1
                &&& fp.copy_columns <= p.copy_span
                &&& p.copy_span == spec_span(p.strategy, fp.copy_columns)
                &&& self.geometry.num_columns_under_copy_permutation - self.reserved_copy
                    <= p.copy_base
                &&& p.copy_base + p.copy_span <= self.geometry.num_columns_under_copy_permutation
                &&& fp.constant_columns <= p.constant_span
                &&& p.constant_span == spec_span(p.strategy, fp.constant_columns)
                &&& self.geometry.num_constant_columns - self.reserved_constant <= p.constant_base
                &&& p.constant_base + p.constant_span <= self.geometry.num_constant_columns
            },
        }
    }

    /// Whether the configured gates fit the geometry and keep apart.
    pub open spec fn layout_ok(self) -> bool {
        &&& self.shared_copy + self.reserved_copy
            <= self.geometry.num_columns_under_copy_permutation
        &&& self.shared_constant + self.reserved_constant <= self.geometry.num_constant_columns
        &&& (self.round_gate matches Some(g) ==> g.params.wf() && self.placement_ok(
            g.placement,
            (GateSpec::RoundFunction { family: g.family, params: g.params }).footprint(),
        ) && g.params.layers() <= usize::MAX)
        &&& (self.constants_gate matches Some(p) ==> self.placement_ok(
            p,
            GateSpec::ConstantsAllocator.footprint(),
        ))
        &&& (self.nop_gate matches Some(p) ==> self.placement_ok(p, GateSpec::Nop.footprint()))
        &&& placements_apart(self.round_placement(), self.constants_gate)
        &&& placements_apart(self.round_placement(), self.nop_gate)
        &&& placements_apart(self.constants_gate, self.nop_gate)
    }

    /// Whether `row` is an instance of a configured gate on variables of
    /// this system, the outputs of a layer being none of its inputs.
    pub open spec fn row_wf(self, row: RowSpec) -> bool {
        match row {
            RowSpec::Constant { variable, value } => {
                &&& self.constants_gate is Some
                &&& variable < self.values.len()
                &&& is_canonical(value)
            },
            RowSpec::Layer { layer, inputs, outputs } => {
                &&& self.round_gate matches Some(g)
                &&& layer < g.params.layers()
                &&& inputs.len() == g.params.width()
                &&& outputs.len() == g.params.width()
                &&& forall|i: int| 0 <= i < inputs.len() ==> #[trigger] inputs[i] < self.values.len()
                &&& forall|k: int|
                    0 <= k < outputs.len() ==> #[trigger] outputs[k] < self.values.len()
                &&& forall|i: int, k: int|
                    0 <= i < inputs.len() && 0 <= k < outputs.len() ==> #[trigger] inputs[i]
                        != #[trigger] outputs[k]
            },
            RowSpec::Nop => self.nop_gate is Some,
        }
    }

    /// Whether the system is in a state that its operations can reach.
    pub open spec fn wf(self) -> bool {
        &&& is_power_of_two(self.max_trace_len as int)
        &&& self.geometry.spec_row_width() <= usize::MAX
        &&& self.layout_ok()
        &&& all_canonical(self.values)
        &&& self.values.len() <= self.max_variables
        &&& self.rows.len() <= self.max_trace_len
        &&& (self.phase == Phase::Configuring ==> self.values.len() == 0 && self.rows.len() == 0
            && self.max_variables == 0)
        &&& (self.phase == Phase::Finalized ==> is_power_of_two(self.rows.len() as int))
        &&& forall|r: int| 0 <= r < self.rows.len() ==> self.row_wf(#[trigger] self.rows[r])
        &&& forall|c: u64| #[trigger]
            self.constants.dom().contains(c) ==> {
                &&& self.constants[c].row < self.rows.len()
                &&& self.rows[self.constants[c].row as int] == (RowSpec::Constant {
                    variable: self.constants[c].variable,
                    value: c as int,
                })
            }
    }

    /// The residues bound to the variables `vars`, in their order.
    pub open spec fn gather(self, vars: Seq<usize>) -> Seq<int> {
        Seq::new(vars.len(), |i: int| self.values[vars[i] as int])
    }

    /// Whether the bindings meet the constraints of `row`: each
    /// constraint, the bound output less what its gate makes of the bound
    /// inputs, is zero.
    pub open spec fn row_holds(self, row: RowSpec) -> bool {
        match row {
            RowSpec::Constant { variable, value } => spec_sub(self.values[variable as int], value)
                == 0,
            RowSpec::Layer { layer, inputs, outputs } => {
                &&& self.round_gate matches Some(g)
                &&& forall|k: int|
                    0 <= k < outputs.len() ==> spec_sub(
                        self.values[#[trigger] outputs[k] as int],
                        spec_layer(g.family, g.params, layer as int, self.gather(inputs))[k],
                    ) == 0
            },
            RowSpec::Nop => true,
        }
    }

    /// Whether the bindings meet every constraint of every row.
    pub open spec fn satisfied(self) -> bool {
        forall|r: int| 0 <= r < self.rows.len() ==> self.row_holds(#[trigger] self.rows[r])
    }

    /// Whether `v` is a handle of this system with a binding.
    pub open spec fn bound(self, v: Variable) -> bool {
        v.system == self.id && v.index < self.values.len()
    }

    /// Whether every handle of `vars` is bound here.
    pub open spec fn all_bound(self, vars: Seq<Variable>) -> bool {
        forall|i: int| 0 <= i < vars.len() ==> self.bound(#[trigger] vars[i])
    }

    /// Whether `position` is the first place of `vars` with a handle that
    /// is not bound here.
    pub open spec fn first_unbound(self, vars: Seq<Variable>, position: int) -> bool {
        &&& 0 <= position < vars.len()
        &&& !self.bound(vars[position])
        &&& forall|i: int| 0 <= i < position ==> self.bound(#[trigger] vars[i])
    }

    /// Whether a gate of kind `kind` is configured.
    pub open spec fn is_configured(self, kind: GateKind) -> bool {
        self.placement_of(kind) is Some
    }

    /// Whether `other` has the identity, phase, geometry, limits and
    /// gates of this system.
    pub open spec fn same_setup(self, other: CsSpec) -> bool {
        &&& self.id == other.id
        &&& self.phase == other.phase
        &&& self.geometry == other.geometry
        &&& self.max_trace_len == other.max_trace_len
        &&& self.max_variables == other.max_variables
        &&& self.round_gate == other.round_gate
        &&& self.constants_gate == other.constants_gate
        &&& self.nop_gate == other.nop_gate
        &&& self.reserved_copy == other.reserved_copy
        &&& self.reserved_constant == other.reserved_constant
        &&& self.shared_copy == other.shared_copy
        &&& self.shared_constant == other.shared_constant
        &&& self.constants == other.constants
    }

    /// The system with its bindings replaced by `assignment`.
    pub open spec fn assigned(self, assignment: Seq<int>) -> CsSpec {
        CsSpec { values: assignment, ..self }
    }
}

} // verus!
