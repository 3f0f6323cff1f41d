use poseidon_circuit::error::{ConfigurationError, CsError};
use poseidon_circuit::field::Felt;
use poseidon_circuit::geometry::{Gate, GateKind, GatePlacementStrategy, Geometry};
use poseidon_circuit::permutation::{GateFamily, PermutationParams};
use poseidon_circuit::pipeline::{
    begin_proof, prover_action, prover_advance, same_words, verification_key, verifier_decide,
    verifier_receive, verifier_recompute, verify, PipelineError, Proof, ProofConfig, ProverAction,
    ProverEvent, ProverState, Recomputation, Verdict, VerificationKey, VerifierState,
};
use poseidon_circuit::round_function::compute_round_function;
use poseidon_circuit::system::{ConstraintSystem, ResolverOptions};

fn felt(x: u64) -> Felt {
    Felt::from_u64_with_reduction(x)
}

fn felts(xs: &[u64]) -> Vec<Felt> {
    xs.iter().map(|x| felt(*x)).collect()
}

fn geometry() -> Geometry {
    Geometry {
        num_columns_under_copy_permutation: 8,
        num_witness_columns: 2,
        num_constant_columns: 2,
        max_allowed_constraint_degree: 8,
    }
}

fn system() -> ConstraintSystem {
    let mds = vec![felts(&[2, 3, 1]), felts(&[1, 2, 3]), felts(&[3, 1, 2])];
    let constants = vec![felts(&[1, 2, 3]), felts(&[4, 5, 6])];
    let params = PermutationParams::new(2, 1, 1, mds, constants).unwrap();
    let general = GatePlacementStrategy::UseGeneralPurposeColumns;
    let mut cs = ConstraintSystem::new(7, geometry(), 8).unwrap();
    cs.configure(Gate::RoundFunction { family: GateFamily::Poseidon, params }, general).unwrap();
    cs.configure(Gate::ConstantsAllocator, general).unwrap();
    cs.configure(Gate::Nop, general).unwrap();
    cs.build(ResolverOptions::new(32)).unwrap();
    cs
}

fn key(pow_bits: u32) -> VerificationKey {
    VerificationKey {
        geometry: geometry(),
        gate_set_commitment: vec![11, 12, 13, 14],
        trace_len: 8,
        config: ProofConfig { fri_lde_factor: 32, pow_bits },
    }
}

fn sample_proof() -> Proof {
    Proof {
        commitments: vec![1, 2, 3, 4],
        openings: vec![5, 6],
        transcript: vec![7, 8, 9],
        public_inputs: vec![10, 20],
    }
}

fn honest() -> Recomputation {
    Recomputation {
        challenges: vec![7, 8, 9],
        openings_hold: true,
        folding_consistent: true,
        pow_holds: false,
    }
}

#[test]
fn the_default_settings_are_the_reference_ones() {
    let config = ProofConfig::default();
    assert_eq!(config.fri_lde_factor, 32);
    assert_eq!(config.pow_bits, 0);
}

#[test]
fn a_satisfied_system_can_be_proved() {
    let mut cs = system();
    let a = cs.allocate_witness(felt(7)).unwrap();
    let b = cs.allocate_witness(felt(8)).unwrap();
    let zero = cs.allocate_constant(Felt::zero()).unwrap();
    compute_round_function(&mut cs, &[a, b], &[zero]).unwrap();
    assert_eq!(
        begin_proof(&cs),
        Err(PipelineError::System(CsError::Configuration(ConfigurationError::WrongPhase)))
    );
    cs.finalize().unwrap();
    assert_eq!(begin_proof(&cs), Ok(ProverState::Unproven));
}

#[test]
fn an_unsatisfied_system_cannot_be_proved() {
    let mut cs = system();
    let a = cs.allocate_witness(felt(7)).unwrap();
    let b = cs.allocate_witness(felt(8)).unwrap();
    let zero = cs.allocate_constant(Felt::zero()).unwrap();
    let outputs = compute_round_function(&mut cs, &[a, b], &[zero]).unwrap();
    cs.rebind(outputs[0], felt(1)).unwrap();
    cs.finalize().unwrap();
    match begin_proof(&cs) {
        Err(PipelineError::Unsatisfied(f)) => {
            assert_eq!(f.gate, GateKind::RoundFunction);
            assert_eq!(f.row, 4);
            assert_eq!(f.constraint, 0);
        }
        other => panic!("expected a failing constraint, got {:?}", other),
    }
}

#[test]
fn the_prover_goes_through_its_states_in_order() {
    let config = ProofConfig::default();
    let mut state = ProverState::Unproven;
    assert_eq!(prover_action(state, config), ProverAction::Commit { lde_factor: 32 });
    state = prover_advance(state, ProverEvent::CommitmentsReady).unwrap();
    assert_eq!(state, ProverState::Committed);
    assert_eq!(prover_action(state, config), ProverAction::DeriveChallenges);
    state = prover_advance(state, ProverEvent::ChallengesReady).unwrap();
    assert_eq!(state, ProverState::Challenged);
    assert_eq!(prover_action(state, config), ProverAction::ArgueAndAssemble);
    state = prover_advance(state, ProverEvent::ProofAssembled).unwrap();
    assert_eq!(state, ProverState::ProofEmitted);
    assert_eq!(prover_action(state, config), ProverAction::Done);
}

#[test]
fn grinding_is_due_only_where_bits_are_asked_for() {
    let config = ProofConfig { fri_lde_factor: 8, pow_bits: 20 };
    assert_eq!(prover_action(ProverState::Unproven, config), ProverAction::Commit { lde_factor: 8 });
    assert_eq!(
        prover_action(ProverState::Challenged, config),
        ProverAction::ArgueGrindAndAssemble { pow_bits: 20 }
    );
}

#[test]
fn a_report_out_of_order_is_refused() {
    let states = [
        ProverState::Unproven,
        ProverState::Committed,
        ProverState::Challenged,
        ProverState::ProofEmitted,
    ];
    let events =
        [ProverEvent::CommitmentsReady, ProverEvent::ChallengesReady, ProverEvent::ProofAssembled];
    for (s, state) in states.iter().enumerate() {
        for (e, event) in events.iter().enumerate() {
            let r = prover_advance(*state, *event);
            if s == e {
                assert_eq!(r, Ok(states[s + 1]));
            } else {
                assert_eq!(r, Err(PipelineError::OutOfOrder));
            }
        }
    }
}

#[test]
fn words_are_compared_in_full() {
    assert!(same_words(&[], &[]));
    assert!(same_words(&[1, 2, 3], &[1, 2, 3]));
    assert!(!same_words(&[1, 2, 3], &[1, 2]));
    assert!(!same_words(&[1, 2], &[1, 2, 3]));
    assert!(!same_words(&[1, 2, 3], &[1, 2, 4]));
}

#[test]
fn an_honest_proof_is_accepted() {
    assert_eq!(verify(geometry(), &key(0), &sample_proof(), &[10, 20], &honest()), Verdict::Accept);
}

#[test]
fn altered_public_inputs_are_rejected() {
    assert_eq!(verify(geometry(), &key(0), &sample_proof(), &[10, 21], &honest()), Verdict::Reject);
    assert_eq!(verify(geometry(), &key(0), &sample_proof(), &[10], &honest()), Verdict::Reject);
    assert_eq!(verify(geometry(), &key(0), &sample_proof(), &[10, 20, 0], &honest()), Verdict::Reject);
    assert_eq!(verify(geometry(), &key(0), &sample_proof(), &[], &honest()), Verdict::Reject);
}

#[test]
fn a_diverging_challenge_is_rejected() {
    let mut r = honest();
    r.challenges[1] = 0;
    assert_eq!(verify(geometry(), &key(0), &sample_proof(), &[10, 20], &r), Verdict::Reject);
    let mut truncated = sample_proof();
    truncated.transcript.pop();
    assert_eq!(verify(geometry(), &key(0), &truncated, &[10, 20], &honest()), Verdict::Reject);
}

#[test]
fn a_failed_opening_or_folding_is_rejected() {
    let mut r = honest();
    r.openings_hold = false;
    assert_eq!(verify(geometry(), &key(0), &sample_proof(), &[10, 20], &r), Verdict::Reject);
    let mut r = honest();
    r.folding_consistent = false;
    assert_eq!(verify(geometry(), &key(0), &sample_proof(), &[10, 20], &r), Verdict::Reject);
}

#[test]
fn proof_of_work_counts_only_where_it_is_asked_for() {
    let mut r = honest();
    assert_eq!(verify(geometry(), &key(0), &sample_proof(), &[10, 20], &r), Verdict::Accept);
    assert_eq!(verify(geometry(), &key(16), &sample_proof(), &[10, 20], &r), Verdict::Reject);
    r.pow_holds = true;
    assert_eq!(verify(geometry(), &key(16), &sample_proof(), &[10, 20], &r), Verdict::Accept);
    assert_eq!(verify(geometry(), &key(0), &sample_proof(), &[10, 20], &r), Verdict::Accept);
}

#[test]
fn the_verifier_goes_through_its_states_in_order() {
    let received = verifier_receive(geometry(), &key(0), &sample_proof(), &[10, 20]);
    assert_eq!(received, VerifierState::ProofReceived);
    let recomputed = verifier_recompute(received);
    assert_eq!(recomputed, VerifierState::Recomputed);
    assert_eq!(
        verifier_decide(recomputed, &key(0), &sample_proof(), &honest()),
        VerifierState::Accepted
    );
    let mut r = honest();
    r.openings_hold = false;
    assert_eq!(verifier_decide(recomputed, &key(0), &sample_proof(), &r), VerifierState::Rejected);
}

#[test]
fn a_rejected_proof_stays_rejected() {
    let rejected = verifier_receive(geometry(), &key(0), &sample_proof(), &[1]);
    assert_eq!(rejected, VerifierState::Rejected);
    assert_eq!(verifier_recompute(rejected), VerifierState::Rejected);
    assert_eq!(
        verifier_decide(rejected, &key(0), &sample_proof(), &honest()),
        VerifierState::Rejected
    );
    assert_eq!(
        verifier_decide(VerifierState::ProofReceived, &key(0), &sample_proof(), &honest()),
        VerifierState::Rejected
    );
    assert_eq!(verifier_recompute(VerifierState::Accepted), VerifierState::Accepted);
    assert_eq!(
        verifier_decide(VerifierState::Accepted, &key(0), &sample_proof(), &honest()),
        VerifierState::Accepted
    );
}

#[test]
fn a_key_for_another_geometry_is_rejected() {
    let mut other = geometry();
    other.num_constant_columns = 3;
    assert_eq!(verify(other, &key(0), &sample_proof(), &[10, 20], &honest()), Verdict::Reject);
    assert_eq!(
        verifier_receive(other, &key(0), &sample_proof(), &[10, 20]),
        VerifierState::Rejected
    );
}

#[test]
fn the_key_of_a_finalized_system_carries_its_shape() {
    let mut cs = system();
    let config = ProofConfig::default();
    assert_eq!(
        verification_key(&cs, config, vec![1, 2]).err(),
        Some(PipelineError::System(CsError::Configuration(ConfigurationError::WrongPhase)))
    );
    for c in 1..=3u64 {
        cs.allocate_constant(felt(c)).unwrap();
    }
    cs.finalize().unwrap();
    let key = verification_key(&cs, config, vec![1, 2]).unwrap();
    assert_eq!(key.geometry, geometry());
    assert_eq!(key.trace_len, 4);
    assert_eq!(key.config, config);
    assert_eq!(key.gate_set_commitment, vec![1, 2]);
    assert_eq!(verify(geometry(), &key, &sample_proof(), &[10, 20], &honest()), Verdict::Accept);
}
