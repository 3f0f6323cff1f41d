//! The permutation gate: one sponge permutation laid into a constraint
//! system as one row of constraints for every layer.

use crate::error::{ConfigurationError, CsError};
use crate::geometry::{Gate, GateSpec};
use crate::model::{indices, CsSpec, Phase, Variable};
use crate::permutation::{spec_permutation, GateFamily, PermutationParams};
use crate::system::ConstraintSystem;
use vstd::prelude::*;

verus! {

/// The places in the table of `vars`, where each is bound in `cs`; else
/// the first position that is not.
fn bound_indices(cs: &ConstraintSystem, vars: &[Variable], offset: usize) -> (r: Result<
    Vec<usize>,
    usize,
>)
    requires
        offset + vars@.len() <= usize::MAX,
    ensures
        match r {
            Ok(out) => cs@.all_bound(vars@) && out@ == indices(vars@),
            Err(position) => cs@.first_unbound(vars@, position - offset),
        },
{
    let mut out: Vec<usize> = Vec::new();
    let mut i: usize = 0;
    while i < vars.len()
        invariant
            i <= vars@.len(),
            offset + vars@.len() <= usize::MAX,
            out@.len() == i,
            forall|k: int| 0 <= k < i ==> cs@.bound(#[trigger] vars@[k]),
            forall|k: int| 0 <= k < i ==> #[trigger] out@[k] == vars@[k].index,
        decreases vars@.len() - i,
    {
        let v = vars[i];
        if !cs.is_bound(v) {
            return Err(offset + i);
        }
        out.push(v.index);
        i += 1;
    }
    assert(out@ =~= indices(vars@));
    Ok(out)
}

/// Applies one sponge permutation inside `cs`: the state is the rate
/// variables `inputs` followed by the capacity variables `capacity`; every
/// layer gets a row and a state of new variables; the leading variables of
/// the last state, as many as the capacity, are returned. Their values are
/// the leading lanes of the permutation of the values that went in.
pub fn compute_round_function(
    cs: &mut ConstraintSystem,
    inputs: &[Variable],
    capacity: &[Variable],
) -> (r: Result<Vec<Variable>, CsError>)
    requires
        old(cs).wf(),
    ensures
        final(cs).wf(),
        r is Ok <==> old(cs)@.round_function_ready(inputs@, capacity@),
        match r {
            Ok(outputs) => {
                &&& final(cs)@ == old(cs)@.with_round_function(inputs@, capacity@)
                &&& outputs@ == old(cs)@.round_function_outputs(inputs@, capacity@)
                &&& final(cs)@.all_bound(outputs@)
                &&& final(cs)@.gather(indices(outputs@)) == spec_permutation(
                    old(cs)@.round_gate.unwrap().family,
                    old(cs)@.round_gate.unwrap().params,
                    old(cs)@.gather(indices(inputs@ + capacity@)),
                ).take(capacity@.len() as int)
                &&& (old(cs)@.satisfied() ==> final(cs)@.satisfied())
            },
            Err(e) => final(cs)@ == old(cs)@ && old(cs)@.round_function_refuses(
                inputs@,
                capacity@,
                e,
            ),
        },
{
    let ghost before = cs@;
    let ghost vars = inputs@ + capacity@;
    proof {
        cs.lemma_wf();
    }
    if cs.phase() != Phase::Built {
        return Err(CsError::Configuration(ConfigurationError::WrongPhase));
    }
    let (rate, lanes_kept, width, layers) = match cs.round_params() {
        Some(p) => (p.rate(), p.capacity(), p.width(), p.layers()),
        None => {
            return Err(CsError::Configuration(ConfigurationError::GateNotConfigured));
        },
    };
    if inputs.len() != rate || capacity.len() != lanes_kept {
        return Err(CsError::Configuration(ConfigurationError::ArityMismatch));
    }
    let mut state: Vec<usize> = match bound_indices(cs, inputs, 0) {
        Ok(found) => found,
        Err(position) => {
            assert(before.first_unbound(vars, position as int)) by {
                assert forall|i: int| 0 <= i < position implies before.bound(
                    #[trigger] vars[i],
                ) by {
                    assert(vars[i] == inputs@[i]);
                }
                assert(vars[position as int] == inputs@[position as int]);
            }
            return Err(CsError::UnboundVariable { position });
        },
    };
    let mut kept: Vec<usize> = match bound_indices(cs, capacity, rate) {
        Ok(found) => found,
        Err(position) => {
            assert(before.first_unbound(vars, position as int)) by {
                assert forall|i: int| 0 <= i < position implies before.bound(
                    #[trigger] vars[i],
                ) by {
                    if i < rate {
                        assert(vars[i] == inputs@[i]);
                    } else {
                        assert(vars[i] == capacity@[i - rate]);
                    }
                }
                assert(vars[position as int] == capacity@[position - rate]);
            }
            return Err(CsError::UnboundVariable { position });
        },
    };
    state.append(&mut kept);
    proof {
        assert(state@ =~= indices(vars));
        assert forall|i: int| 0 <= i < vars.len() implies before.bound(#[trigger] vars[i]) by {
            if i < rate {
                assert(vars[i] == inputs@[i]);
            } else {
                assert(vars[i] == capacity@[i - rate]);
            }
        }
        assert(before.all_bound(vars));
    }
    let needed: usize = match layers.checked_mul(width) {
        Some(n) => n,
        None => {
            return Err(CsError::CapacityExceeded);
        },
    };
    if needed > cs.max_variables() - cs.num_variables() || layers > cs.max_trace_len()
        - cs.num_rows() {
        return Err(CsError::CapacityExceeded);
    }
    let ghost start = state@;
    let ghost g = before.round_gate.unwrap();
    assert(before.layers_ready(start, layers as nat));
    let mut layer: usize = 0;
    while layer < layers
        invariant
            layer <= layers,
            before.wf(),
            before.layers_ready(start, layers as nat),
            layers == g.params.layers(),
            width == g.params.width(),
            before.round_gate == Some(g),
            cs.wf(),
            cs@ == before.with_layers(start, layer as nat),
            state@ == cs@.chain_end(start, layer as nat),
        decreases layers - layer,
    {
        proof {
            assert((layer + 1) * width <= layers * width && layer * width <= layers * width)
                by (nonlinear_arith)
                requires
                    layer < layers,
            ;
            before.lemma_with_layers(start, layer as nat);
            before.lemma_with_layers(start, (layer + 1) as nat);
        }
        let ghost prev = cs@;
        let ghost cur = state@;
        let next: Vec<usize> = cs.place_layer(layer, state);
        state = next;
        proof {
            assert(cs@ == before.with_layers(start, (layer + 1) as nat));
            assert(state@ =~= cs@.chain_end(start, (layer + 1) as nat));
        }
        layer += 1;
    }
    proof {
        before.lemma_with_layers(start, layers as nat);
    }
    let id: u64 = cs.id();
    let mut outputs: Vec<Variable> = Vec::new();
    let mut i: usize = 0;
    while i < lanes_kept
        invariant
            i <= lanes_kept,
            lanes_kept <= width,
            width == state@.len(),
            outputs@.len() == i,
            forall|k: int|
                0 <= k < i ==> #[trigger] outputs@[k] == (Variable {
                    system: id,
                    index: state@[k],
                }),
        decreases lanes_kept - i,
    {
        outputs.push(Variable { system: id, index: state[i] });
        i += 1;
    }
    proof {
        let end = cs@;
        assert(outputs@ =~= before.round_function_outputs(inputs@, capacity@));
        assert forall|k: int| 0 <= k < outputs@.len() implies end.bound(
            #[trigger] outputs@[k],
        ) by {
            assert(end.chain_end(start, layers as nat)[k] < end.values.len());
        }
        assert(end.gather(indices(outputs@)) =~= end.gather(state@).take(lanes_kept as int));
    }
    Ok(outputs)
}

/// Whether the permutation gate of `cs` can be invoked as one of round
/// structure `family`: that gate can be invoked, and it was configured
/// with that round structure.
pub open spec fn spec_family_ready(
    cs: CsSpec,
    family: GateFamily,
    inputs: Seq<Variable>,
    capacity: Seq<Variable>,
) -> bool {
    cs.round_function_ready(inputs, capacity) && cs.round_gate.unwrap().family == family
}

/// Whether `e` is what the invocation as one of round structure `family`
/// is refused with: with a gate of the other round structure configured,
/// no gate of the round structure asked for is configured.
pub open spec fn spec_family_refuses(
    cs: CsSpec,
    family: GateFamily,
    inputs: Seq<Variable>,
    capacity: Seq<Variable>,
    e: CsError,
) -> bool {
    if cs.phase == Phase::Built && cs.round_gate is Some && cs.round_gate.unwrap().family
        != family {
        e == CsError::Configuration(ConfigurationError::GateNotConfigured)
    } else {
        cs.round_function_refuses(inputs, capacity, e)
    }
}

/// Invokes the permutation gate of `cs` where it was configured with the
/// round structure `family`.
fn compute_as(
    family: GateFamily,
    cs: &mut ConstraintSystem,
    inputs: &[Variable],
    capacity: &[Variable],
) -> (r: Result<Vec<Variable>, CsError>)
    requires
        old(cs).wf(),
    ensures
        final(cs).wf(),
        r is Ok <==> spec_family_ready(old(cs)@, family, inputs@, capacity@),
        match r {
            Ok(outputs) => {
                &&& final(cs)@ == old(cs)@.with_round_function(inputs@, capacity@)
                &&& outputs@ == old(cs)@.round_function_outputs(inputs@, capacity@)
                &&& final(cs)@.all_bound(outputs@)
                &&& final(cs)@.gather(indices(outputs@)) == spec_permutation(
                    family,
                    old(cs)@.round_gate.unwrap().params,
                    old(cs)@.gather(indices(inputs@ + capacity@)),
                ).take(capacity@.len() as int)
                &&& (old(cs)@.satisfied() ==> final(cs)@.satisfied())
            },
            Err(e) => final(cs)@ == old(cs)@ && spec_family_refuses(
                old(cs)@,
                family,
                inputs@,
                capacity@,
                e,
            ),
        },
{
    if cs.phase() == Phase::Built {
        match cs.round_family() {
            Some(configured) => {
                if configured != family {
                    return Err(CsError::Configuration(ConfigurationError::GateNotConfigured));
                }
            },
            None => {},
        }
    }
    compute_round_function(cs, inputs, capacity)
}

/// A round structure, with the one capability of the permutation gates:
/// to apply its permutation inside a constraint system.
pub trait RoundFunction {
    /// The round structure that the implementor stands for.
    spec fn spec_family() -> GateFamily;

    /// The round structure that the implementor stands for.
    fn family() -> (r: GateFamily)
        ensures
            r == Self::spec_family(),
    ;

    /// A gate to configure for this round structure with the constants
    /// `params`.
    fn gate(params: PermutationParams) -> (g: Gate)
        ensures
            g@ == (GateSpec::RoundFunction { family: Self::spec_family(), params: params@ }),
    ;

    /// Applies one permutation of this round structure inside `cs`, as
    /// `compute_round_function` does; refused also where the system's gate
    /// was configured with the other round structure.
    fn compute_round_function(
        cs: &mut ConstraintSystem,
        inputs: &[Variable],
        capacity: &[Variable],
    ) -> (r: Result<Vec<Variable>, CsError>)
        requires
            old(cs).wf(),
        ensures
            final(cs).wf(),
            r is Ok <==> spec_family_ready(old(cs)@, Self::spec_family(), inputs@, capacity@),
            match r {
                Ok(outputs) => {
                    &&& final(cs)@ == old(cs)@.with_round_function(inputs@, capacity@)
                    &&& outputs@ == old(cs)@.round_function_outputs(inputs@, capacity@)
                    &&& final(cs)@.all_bound(outputs@)
                    &&& final(cs)@.gather(indices(outputs@)) == spec_permutation(
                        Self::spec_family(),
                        old(cs)@.round_gate.unwrap().params,
                        old(cs)@.gather(indices(inputs@ + capacity@)),
                    ).take(capacity@.len() as int)
                    &&& (old(cs)@.satisfied() ==> final(cs)@.satisfied())
                },
                Err(e) => final(cs)@ == old(cs)@ && spec_family_refuses(
                    old(cs)@,
                    Self::spec_family(),
                    inputs@,
                    capacity@,
                    e,
                ),
            },
    ;
}

/// The round structure that raises every lane in every round.
#[derive(Clone, Copy, Debug, PartialEq, Eq, Structural, Hash)]
pub struct PoseidonGate;

/// The round structure whose rounds alternate between all lanes and the
/// leading ones.
#[derive(Clone, Copy, Debug, PartialEq, Eq, Structural, Hash)]
pub struct Poseidon2Gate;

impl RoundFunction for PoseidonGate {
    open spec fn spec_family() -> GateFamily {
        GateFamily::Poseidon
    }

    fn family() -> (r: GateFamily) {
        GateFamily::Poseidon
    }

    fn gate(params: PermutationParams) -> (g: Gate) {
        Gate::RoundFunction { family: GateFamily::Poseidon, params }
    }

    fn compute_round_function(
        cs: &mut ConstraintSystem,
        inputs: &[Variable],
        capacity: &[Variable],
    ) -> (r: Result<Vec<Variable>, CsError>) {
        compute_as(GateFamily::Poseidon, cs, inputs, capacity)
    }
}

impl RoundFunction for Poseidon2Gate {
    open spec fn spec_family() -> GateFamily {
        GateFamily::Poseidon2
    }

    fn family() -> (r: GateFamily) {
        GateFamily::Poseidon2
    }

    fn gate(params: PermutationParams) -> (g: Gate) {
        Gate::RoundFunction { family: GateFamily::Poseidon2, params }
    }

    fn compute_round_function(
        cs: &mut ConstraintSystem,
        inputs: &[Variable],
        capacity: &[Variable],
    ) -> (r: Result<Vec<Variable>, CsError>) {
        compute_as(GateFamily::Poseidon2, cs, inputs, capacity)
    }
}

} // verus!
