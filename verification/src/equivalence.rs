//! The equivalence check: one permutation is laid into a constraint
//! system and evaluated directly, and the two results are compared.

use crate::error::{ConfigurationError, CsError, EquivalenceMismatch};
use crate::field::{all_canonical, is_canonical, values, Felt};
use crate::geometry::GateKind;
use crate::model::{indices, CsSpec, Phase, Variable};
use crate::permutation::{permutation, spec_permutation};
use crate::round_function::compute_round_function;
use crate::system::ConstraintSystem;
use vstd::prelude::*;

verus! {

/// Why an equivalence check ended without a result.
#[derive(Clone, Copy, Debug, PartialEq, Eq, Structural, Hash)]
pub enum EquivalenceError {
    /// The constraint system refused an operation.
    System(CsError),
    /// The circuit and the direct evaluation differ.
    Mismatch(EquivalenceMismatch),
}

/// Whether `index` is the first lane of `circuit` that differs from the
/// same lane of `reference`.
pub open spec fn spec_first_mismatch(circuit: Seq<int>, reference: Seq<int>, index: int) -> bool {
    &&& 0 <= index < circuit.len()
    &&& circuit[index] != reference[index]
    &&& forall|i: int| 0 <= i < index ==> circuit[i] == reference[i]
}

/// Compares the lanes of `circuit` with the leading lanes of `reference`
/// and reports the first that differs, with both values.
pub fn first_mismatch(circuit: &[Felt], reference: &[Felt]) -> (r: Option<EquivalenceMismatch>)
    requires
        circuit@.len() <= reference@.len(),
    ensures
        match r {
            None => values(circuit@) == values(reference@).take(circuit@.len() as int),
            Some(m) => {
                &&& spec_first_mismatch(values(circuit@), values(reference@), m.index as int)
                &&& m.circuit == circuit@[m.index as int]
                &&& m.reference == reference@[m.index as int]
            },
        },
{
    let mut i: usize = 0;
    while i < circuit.len()
        invariant
            i <= circuit@.len(),
            circuit@.len() <= reference@.len(),
            forall|k: int| 0 <= k < i ==> circuit@[k]@ == reference@[k]@,
        decreases circuit@.len() - i,
    {
        if circuit[i].value() != reference[i].value() {
            return Some(
                EquivalenceMismatch { index: i, circuit: circuit[i], reference: reference[i] },
            );
        }
        i += 1;
    }
    assert(values(circuit@) =~= values(reference@).take(circuit@.len() as int));
    None
}

/// `count` zeros.
pub open spec fn zeros(count: nat) -> Seq<int> {
    Seq::new(count, |i: int| 0int)
}

/// How many rows and variables the constant zero costs: none where it was
/// allocated before.
pub open spec fn spec_zero_cost(cs: CsSpec) -> nat {
    if cs.constants.dom().contains(0) {
        0
    } else {
        1
    }
}

/// Why the equivalence check on `witness_len` values cannot run, if it
/// cannot: outside the assignment phase; without the permutation gate;
/// with other than one value for each rate lane; without a gate for
/// constants where zero is not allocated yet; without room for the new
/// variables and rows.
pub open spec fn spec_equivalence_error(cs: CsSpec, witness_len: nat) -> Option<CsError> {
    if cs.phase != Phase::Built {
        Some(CsError::Configuration(ConfigurationError::WrongPhase))
    } else if cs.round_gate is None {
        Some(CsError::Configuration(ConfigurationError::GateNotConfigured))
    } else if witness_len != cs.round_gate.unwrap().params.rate {
        Some(CsError::Configuration(ConfigurationError::ArityMismatch))
    } else if !cs.constants.dom().contains(0) && cs.constants_gate is None {
        Some(CsError::Configuration(ConfigurationError::GateNotConfigured))
    } else if cs.values.len() + witness_len + spec_zero_cost(cs)
        + cs.round_gate.unwrap().params.layers() * cs.round_gate.unwrap().params.width()
        > cs.max_variables || cs.rows.len() + spec_zero_cost(cs)
        + cs.round_gate.unwrap().params.layers() > cs.max_trace_len {
        Some(CsError::CapacityExceeded)
    } else {
        None
    }
}

/// The handles of the witnesses of an equivalence check on `cs`.
pub open spec fn spec_rate_variables(cs: CsSpec, count: nat) -> Seq<Variable> {
    Seq::new(count, |i: int| Variable { system: cs.id, index: (cs.values.len() + i) as usize })
}

/// The handles of the capacity lanes of an equivalence check on `cs`
/// with `witness_len` witnesses: the constant zero, once for every lane.
pub open spec fn spec_capacity_variables(cs: CsSpec, witness: Seq<int>) -> Seq<Variable> {
    Seq::new(
        cs.round_gate.unwrap().params.capacity,
        |i: int| cs.with_witnesses(witness).constant_variable(0),
    )
}

/// The system before the permutation gate is invoked: with the witnesses
/// and the constant zero.
pub open spec fn spec_equivalence_start(cs: CsSpec, witness: Seq<int>) -> CsSpec {
    cs.with_witnesses(witness).with_constant(0)
}

/// The system after an equivalence check on `witness`.
pub open spec fn spec_equivalence_end(cs: CsSpec, witness: Seq<int>) -> CsSpec {
    spec_equivalence_start(cs, witness).with_round_function(
        spec_rate_variables(cs, witness.len()),
        spec_capacity_variables(cs, witness),
    )
}

/// What the circuit of an equivalence check on `witness` computes: the
/// leading lanes of the permutation of the values bound to its inputs.
pub open spec fn spec_circuit_result(cs: CsSpec, witness: Seq<int>) -> Seq<int> {
    let start = spec_equivalence_start(cs, witness);
    let g = cs.round_gate.unwrap();
    spec_permutation(
        g.family,
        g.params,
        start.gather(
            indices(spec_rate_variables(cs, witness.len()) + spec_capacity_variables(cs, witness)),
        ),
    ).take(g.params.capacity as int)
}

/// What the direct evaluation computes: the leading lanes of the
/// permutation of the witness followed by zeros.
pub open spec fn spec_reference_result(cs: CsSpec, witness: Seq<int>) -> Seq<int> {
    let g = cs.round_gate.unwrap();
    spec_permutation(g.family, g.params, witness + zeros(g.params.capacity)).take(
        g.params.capacity as int,
    )
}

/// An equivalence check on a system whose bindings satisfy it puts the
/// same values into the circuit and into the direct evaluation, so the
/// two results are the same.
pub proof fn lemma_equivalence(cs: CsSpec, witness: Seq<int>)
    requires
        cs.wf(),
        spec_equivalence_error(cs, witness.len()) is None,
        all_canonical(witness),
        cs.satisfied(),
    ensures
        spec_circuit_result(cs, witness) == spec_reference_result(cs, witness),
{
    let g = cs.round_gate.unwrap();
    let s1 = cs.with_witnesses(witness);
    cs.lemma_with_witnesses(witness);
    s1.lemma_with_constant(0);
    let start = s1.with_constant(0);
    let vars = spec_rate_variables(cs, witness.len()) + spec_capacity_variables(cs, witness);
    assert(start.gather(indices(vars)) =~= witness + zeros(g.params.capacity));
}

/// Lays one permutation into `cs` and compares it with the direct
/// evaluation: a new variable for each value of `witness`, the constant
/// zero for each capacity lane, the permutation gate on these, the
/// permutation of the witness followed by zeros, and the comparison of
/// the outputs read back with the leading lanes of that permutation.
/// Returns the outputs. Refused, with the system unchanged, where the
/// system cannot take the check; ends in a mismatch, with the first lane
/// that differs and both values, where the two results differ, which they
/// do not on a system whose bindings satisfy it.
pub fn check_equivalence(cs: &mut ConstraintSystem, witness: &[Felt]) -> (r: Result<
    Vec<Felt>,
    EquivalenceError,
>)
    requires
        old(cs).wf(),
    ensures
        final(cs).wf(),
        match spec_equivalence_error(old(cs)@, witness@.len()) {
            Some(e) => r == Err::<Vec<Felt>, EquivalenceError>(EquivalenceError::System(e))
                && final(cs)@ == old(cs)@,
            None => {
                &&& final(cs)@ == spec_equivalence_end(old(cs)@, values(witness@))
                &&& (old(cs)@.satisfied() ==> r is Ok && final(cs)@.satisfied())
                &&& match r {
                    Ok(out) => values(out@) == spec_circuit_result(old(cs)@, values(witness@))
                        && values(out@) == spec_reference_result(old(cs)@, values(witness@)),
                    Err(EquivalenceError::Mismatch(m)) => {
                        &&& spec_first_mismatch(
                            spec_circuit_result(old(cs)@, values(witness@)),
                            spec_reference_result(old(cs)@, values(witness@)),
                            m.index as int,
                        )
                        &&& m.circuit@ == spec_circuit_result(
                            old(cs)@,
                            values(witness@),
                        )[m.index as int]
                        &&& m.reference@ == spec_reference_result(
                            old(cs)@,
                            values(witness@),
                        )[m.index as int]
                    },
                    Err(EquivalenceError::System(_)) => false,
                }
            },
        },
{
    let ghost before = cs@;
    let ghost w = values(witness@);
    proof {
        cs.lemma_wf();
    }
    if cs.phase() != Phase::Built {
        return Err(
            EquivalenceError::System(CsError::Configuration(ConfigurationError::WrongPhase)),
        );
    }
    let (rate, lanes_kept, width, layers) = match cs.round_params() {
        Some(p) => (p.rate(), p.capacity(), p.width(), p.layers()),
        None => {
            return Err(
                EquivalenceError::System(
                    CsError::Configuration(ConfigurationError::GateNotConfigured),
                ),
            );
        },
    };
    if witness.len() != rate {
        return Err(
            EquivalenceError::System(CsError::Configuration(ConfigurationError::ArityMismatch)),
        );
    }
    let cached: bool = cs.constant_cached(Felt::zero());
    if !cached && !cs.is_configured(GateKind::ConstantsAllocator) {
        return Err(
            EquivalenceError::System(
                CsError::Configuration(ConfigurationError::GateNotConfigured),
            ),
        );
    }
    let cost: usize = if cached {
        0
    } else {
        1
    };
    let room_variables: usize = cs.max_variables() - cs.num_variables();
    let room_rows: usize = cs.max_trace_len() - cs.num_rows();
    let enough: bool = match layers.checked_mul(width) {
        Some(in_layers) => match in_layers.checked_add(rate) {
            Some(sum) => match sum.checked_add(cost) {
                Some(needed) => match layers.checked_add(cost) {
                    Some(rows) => needed <= room_variables && rows <= room_rows,
                    None => false,
                },
                None => false,
            },
            None => false,
        },
        None => false,
    };
    if !enough {
        return Err(EquivalenceError::System(CsError::CapacityExceeded));
    }
    assert(spec_equivalence_error(before, witness@.len() as nat) is None);
    let first: usize = cs.num_variables();
    let mut inputs: Vec<Variable> = Vec::new();
    let mut state: Vec<Felt> = Vec::new();
    let mut i: usize = 0;
    while i < rate
        invariant
            i <= rate,
            rate == witness@.len(),
            w == values(witness@),
            before.wf(),
            before.phase == Phase::Built,
            first == before.values.len(),
            first + rate <= before.max_variables,
            cs.wf(),
            cs@ == before.with_witnesses(w.take(i as int)),
            inputs@ == spec_rate_variables(before, i as nat),
            state@ == witness@.take(i as int),
        decreases rate - i,
    {
        let value = witness[i];
        let ghost prev = cs@;
        match cs.allocate_witness(value) {
            Ok(v) => {
                inputs.push(v);
            },
            Err(e) => {
                return Err(EquivalenceError::System(e));
            },
        }
        state.push(value);
        proof {
            assert(w.take(i + 1) =~= w.take(i as int).push(value@));
            assert(cs@.values =~= before.values + w.take(i + 1));
            assert(cs@ == before.with_witnesses(w.take(i + 1)));
            assert(inputs@ =~= spec_rate_variables(before, (i + 1) as nat));
            assert(state@ =~= witness@.take(i + 1));
        }
        i += 1;
    }
    proof {
        assert(w.take(rate as int) =~= w);
        assert(state@ =~= witness@);
        assert forall|k: int| 0 <= k < w.len() implies is_canonical(#[trigger] w[k]) by {
            assert(cs@.values[first + k] == w[k]);
            cs.lemma_wf();
        }
        before.lemma_with_witnesses(w);
    }
    let ghost s1 = cs@;
    let zero: Variable = match cs.allocate_constant(Felt::zero()) {
        Ok(v) => v,
        Err(e) => {
            return Err(EquivalenceError::System(e));
        },
    };
    let ghost start = cs@;
    proof {
        s1.lemma_with_constant(0);
        assert(start == spec_equivalence_start(before, w));
    }
    assert(values(state@) =~= w + zeros(0));
    let mut kept: Vec<Variable> = Vec::new();
    let mut k: usize = 0;
    while k < lanes_kept
        invariant
            k <= lanes_kept,
            kept@.len() == k,
            forall|j: int| 0 <= j < k ==> #[trigger] kept@[j] == zero,
            values(state@) == w + zeros(k as nat),
        decreases lanes_kept - k,
    {
        kept.push(zero);
        let ghost held = state@;
        state.push(Felt::zero());
        proof {
            assert(values(state@) =~= values(held).push(0));
            assert(values(state@) =~= w + zeros((k + 1) as nat));
        }
        k += 1;
    }
    proof {
        assert(kept@ =~= spec_capacity_variables(before, w));
        assert(start.all_bound(inputs@ + kept@));
    }
    let outputs: Vec<Variable> = match compute_round_function(cs, &inputs, &kept) {
        Ok(outputs) => outputs,
        Err(e) => {
            return Err(EquivalenceError::System(e));
        },
    };
    proof {
        let g = before.round_gate.unwrap();
        assert(start.round_gate == before.round_gate);
        assert(start.layers_ready(indices(inputs@ + kept@), g.params.layers())) by {
            assert forall|j: int| 0 <= j < (inputs@ + kept@).len() implies (#[trigger] indices(
                inputs@ + kept@,
            )[j]) < start.values.len() by {
                assert(start.bound((inputs@ + kept@)[j]));
            }
        }
        start.lemma_with_layers(indices(inputs@ + kept@), g.params.layers());
        assert(cs@.round_gate == before.round_gate);
        assert(values(state@).len() == state@.len());
        assert(state@.len() == g.params.width());
        assert(outputs@.len() == lanes_kept);
    }
    let circuit: Vec<Felt> = match cs.read(&outputs) {
        Ok(read) => read,
        Err(e) => {
            return Err(EquivalenceError::System(e));
        },
    };
    match (cs.round_params(), cs.round_family()) {
        (Some(params), Some(family)) => {
            permutation(params, family, &mut state);
        },
        _ => {},
    }
    proof {
        assert(values(circuit@).len() == circuit@.len());
        if before.satisfied() {
            lemma_equivalence(before, w);
        }
    }
    match first_mismatch(&circuit, &state) {
        Some(m) => Err(EquivalenceError::Mismatch(m)),
        None => Ok(circuit),
    }
}

} // verus!
