//! The configuration phase in the model: which gates a system takes,
//! which columns they get, and what building the system leaves.

use crate::error::ConfigurationError;
use crate::geometry::{Footprint, GatePlacementStrategy, GateSpec};
use crate::model::{
    lemma_span_holds_one, placements_apart, spec_span, CsSpec, Phase, Placement, RoundGateSpec,
};
use vstd::prelude::*;

verus! {

impl CsSpec {
    /// Whether an instance with footprint `fp` fits what is left of the
    /// geometry: beside the columns set aside, after the shared columns
    /// have grown to hold it; or, with columns of its own, `n >= 1`
    /// instances side by side beside the shared columns and those set
    /// aside before.
    pub open spec fn fits(self, fp: Footprint, strategy: GatePlacementStrategy) -> bool {
        match strategy {
            GatePlacementStrategy::UseGeneralPurposeColumns => {
                &&& fp.copy_columns + self.reserved_copy
                    <= self.geometry.num_columns_under_copy_permutation
                &&& fp.constant_columns + self.reserved_constant
                    <= self.geometry.num_constant_columns
            },
            GatePlacementStrategy::UseSpecializedColumns { num_repetitions } => {
                &&& num_repetitions >= 1
                &&& self.shared_copy + self.reserved_copy + spec_span(strategy, fp.copy_columns)
                    <= self.geometry.num_columns_under_copy_permutation
                &&& self.shared_constant + self.reserved_constant + spec_span(
                    strategy,
                    fp.constant_columns,
                ) <= self.geometry.num_constant_columns
            },
        }
    }

    /// Why `gate` cannot be configured with `strategy`, if it cannot.
    pub open spec fn configure_error(
        self,
        gate: GateSpec,
        strategy: GatePlacementStrategy,
    ) -> Option<ConfigurationError> {
        if self.phase != Phase::Configuring {
            Some(ConfigurationError::WrongPhase)
        } else if self.is_configured(gate.kind()) {
            Some(ConfigurationError::GateAlreadyConfigured)
        } else if gate.footprint().degree > self.geometry.max_allowed_constraint_degree {
            Some(ConfigurationError::DegreeExceeded)
        } else if !self.fits(gate.footprint(), strategy) {
            Some(ConfigurationError::ColumnsExceeded)
        } else {
            None
        }
    }

    /// The columns that a gate with footprint `fp` gets under `strategy`.
    pub open spec fn placement_for(self, fp: Footprint, strategy: GatePlacementStrategy) -> Placement {
        match strategy {
            GatePlacementStrategy::UseGeneralPurposeColumns => Placement {
                strategy,
                copy_base: 0,
                copy_span: fp.copy_columns as usize,
                constant_base: 0,
                constant_span: fp.constant_columns as usize,
            },
            GatePlacementStrategy::UseSpecializedColumns { num_repetitions } => Placement {
                strategy,
                copy_base: (self.geometry.num_columns_under_copy_permutation - self.reserved_copy
                    - spec_span(strategy, fp.copy_columns)) as usize,
                copy_span: spec_span(strategy, fp.copy_columns) as usize,
                constant_base: (self.geometry.num_constant_columns - self.reserved_constant
                    - spec_span(strategy, fp.constant_columns)) as usize,
                constant_span: spec_span(strategy, fp.constant_columns) as usize,
            },
        }
    }

    /// The system with the columns of a gate with footprint `fp` taken
    /// from the budget.
    pub open spec fn charged(self, fp: Footprint, strategy: GatePlacementStrategy) -> CsSpec {
        match strategy {
            GatePlacementStrategy::UseGeneralPurposeColumns => CsSpec {
                shared_copy: if fp.copy_columns > self.shared_copy {
                    fp.copy_columns as usize
                } else {
                    self.shared_copy
                },
                shared_constant: if fp.constant_columns > self.shared_constant {
                    fp.constant_columns as usize
                } else {
                    self.shared_constant
                },
                ..self
            },
            GatePlacementStrategy::UseSpecializedColumns { num_repetitions } => CsSpec {
                reserved_copy: (self.reserved_copy + spec_span(strategy, fp.copy_columns)) as usize,
                reserved_constant: (self.reserved_constant + spec_span(
                    strategy,
                    fp.constant_columns,
                )) as usize,
                ..self
            },
        }
    }

    /// The system after `gate` was configured with `strategy`.
    pub open spec fn configured(self, gate: GateSpec, strategy: GatePlacementStrategy) -> CsSpec {
        let placement = self.placement_for(gate.footprint(), strategy);
        let charged = self.charged(gate.footprint(), strategy);
        match gate {
            GateSpec::ConstantsAllocator => CsSpec { constants_gate: Some(placement), ..charged },
            GateSpec::Nop => CsSpec { nop_gate: Some(placement), ..charged },
            GateSpec::RoundFunction { family, params } => CsSpec {
                round_gate: Some(RoundGateSpec { family, params, placement }),
                ..charged
            },
        }
    }

    /// Configuring a gate that is not refused leaves a well-formed system.
    pub proof fn lemma_configured_wf(self, gate: GateSpec, strategy: GatePlacementStrategy)
        requires
            self.wf(),
            self.configure_error(gate, strategy) is None,
            gate matches GateSpec::RoundFunction { family, params } ==> params.wf()
                && params.layers() <= usize::MAX,
        ensures
            self.configured(gate, strategy).wf(),
    {
        let fp = gate.footprint();
        let next = self.configured(gate, strategy);
        let placement = self.placement_for(fp, strategy);
        lemma_span_holds_one(strategy, fp.copy_columns);
        lemma_span_holds_one(strategy, fp.constant_columns);
        assert(next.placement_ok(placement, fp));
        assert(self.round_gate matches Some(g) ==> next.placement_ok(
            g.placement,
            (GateSpec::RoundFunction { family: g.family, params: g.params }).footprint(),
        ));
        assert(self.constants_gate matches Some(p) ==> next.placement_ok(
            p,
            GateSpec::ConstantsAllocator.footprint(),
        ));
        assert(self.nop_gate matches Some(p) ==> next.placement_ok(p, GateSpec::Nop.footprint()));
        assert(placements_apart(self.round_placement(), Some(placement)));
        assert(placements_apart(self.constants_gate, Some(placement)));
        assert(placements_apart(self.nop_gate, Some(placement)));
        assert(placements_apart(Some(placement), self.round_placement()));
        assert(placements_apart(Some(placement), self.constants_gate));
        assert(placements_apart(Some(placement), self.nop_gate));
        assert(next.layout_ok());
    }

    /// Every configured gate has room for one instance inside the columns
    /// of the geometry.
    pub proof fn lemma_gates_in_columns(self)
        requires
            self.wf(),
        ensures
            self.round_gate matches Some(g) ==> g.placement.copy_base + 2 * g.params.width()
                <= self.geometry.num_columns_under_copy_permutation,
            self.constants_gate matches Some(p) ==> p.copy_base + 1
                <= self.geometry.num_columns_under_copy_permutation && p.constant_base + 1
                <= self.geometry.num_constant_columns,
            self.nop_gate matches Some(p) ==> p.copy_base
                <= self.geometry.num_columns_under_copy_permutation && p.constant_base
                <= self.geometry.num_constant_columns,
    {
    }

    /// The system after it was built for `max_variables` variables.
    pub open spec fn built(self, max_variables: usize) -> CsSpec {
        CsSpec { phase: Phase::Built, max_variables, ..self }
    }

    /// Building a system on which gates were configured leaves a
    /// well-formed system in the assignment phase, whose bindings, none so
    /// far, satisfy it, and which takes a witness as long as it holds
    /// fewer variables than it may.
    pub proof fn lemma_built(self, max_variables: usize)
        requires
            self.wf(),
            self.phase == Phase::Configuring,
        ensures
            self.built(max_variables).wf(),
            self.built(max_variables).phase == Phase::Built,
            self.built(max_variables).satisfied(),
            self.built(max_variables).witness_error() is None <==> max_variables > 0,
    {
    }
}

} // verus!
