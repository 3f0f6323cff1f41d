//! The decisions of the proving and the verifying side. The commitments,
//! the proximity argument and the grinding are computed elsewhere; what
//! is decided here is which work is due, in which order, and what the
//! verifier makes of the recomputation.

use crate::error::{ConfigurationError, CsError, UnsatisfiedConstraint};
use crate::geometry::Geometry;
use crate::model::{CsSpec, Phase};
use crate::satisfiability::first_unsatisfied;
use crate::system::ConstraintSystem;
use vstd::prelude::*;

verus! {

/// The settings of a proof.
#[derive(Clone, Copy, Debug, PartialEq, Eq, Structural, Hash)]
pub struct ProofConfig {
    /// By how much the low-degree extension is longer than the trace.
    pub fri_lde_factor: usize,
    /// How many bits of proof of work are asked for; none with zero.
    pub pow_bits: u32,
}

impl ProofConfig {
    /// The settings used where none are given: an extension 32 times the
    /// trace and no proof of work.
    pub open spec fn spec_default() -> ProofConfig {
        ProofConfig { fri_lde_factor: 32, pow_bits: 0 }
    }
}

impl Default for ProofConfig {
    fn default() -> (r: ProofConfig)
        ensures
            r == ProofConfig::spec_default(),
    {
        ProofConfig { fri_lde_factor: 32, pow_bits: 0 }
    }
}

/// Why the pipeline refused.
#[derive(Clone, Copy, Debug, PartialEq, Eq, Structural, Hash)]
pub enum PipelineError {
    /// The constraint system refused an operation.
    System(CsError),
    /// The trace does not satisfy the system, so nothing can be proved of
    /// it; the first failing constraint is named.
    Unsatisfied(UnsatisfiedConstraint),
    /// The event does not belong to the state.
    OutOfOrder,
}

/// The prover's progress.
#[derive(Clone, Copy, Debug, PartialEq, Eq, Structural, Hash)]
pub enum ProverState {
    Unproven,
    Committed,
    Challenged,
    ProofEmitted,
}

/// The work that the prover has due.
#[derive(Clone, Copy, Debug, PartialEq, Eq, Structural, Hash)]
pub enum ProverAction {
    /// Commit to the low-degree extension of every column of the trace.
    Commit { lde_factor: usize },
    /// Absorb the commitments into the transcript and draw the challenges.
    DeriveChallenges,
    /// Run the proximity argument and assemble the proof.
    ArgueAndAssemble,
    /// Run the proximity argument, grind the transcript for this many
    /// bits, and assemble the proof.
    ArgueGrindAndAssemble { pow_bits: u32 },
    /// Nothing: the proof is out.
    Done,
}

/// What the prover's collaborator reports.
#[derive(Clone, Copy, Debug, PartialEq, Eq, Structural, Hash)]
pub enum ProverEvent {
    CommitmentsReady,
    ChallengesReady,
    ProofAssembled,
}

/// The work due in `state` under `config`.
pub open spec fn spec_prover_action(state: ProverState, config: ProofConfig) -> ProverAction {
    match state {
        ProverState::Unproven => ProverAction::Commit { lde_factor: config.fri_lde_factor },
        ProverState::Committed => ProverAction::DeriveChallenges,
        ProverState::Challenged => if config.pow_bits == 0 {
            ProverAction::ArgueAndAssemble
        } else {
            ProverAction::ArgueGrindAndAssemble { pow_bits: config.pow_bits }
        },
        ProverState::ProofEmitted => ProverAction::Done,
    }
}

/// The state that `event` leads to from `state`, where it belongs there.
pub open spec fn spec_prover_advance(state: ProverState, event: ProverEvent) -> Option<
    ProverState,
> {
    match (state, event) {
        (ProverState::Unproven, ProverEvent::CommitmentsReady) => Some(ProverState::Committed),
        (ProverState::Committed, ProverEvent::ChallengesReady) => Some(ProverState::Challenged),
        (ProverState::Challenged, ProverEvent::ProofAssembled) => Some(ProverState::ProofEmitted),
        _ => None,
    }
}

/// Opens the proving of a system: granted on a finalized system whose
/// bindings satisfy it, and refused with the first failing constraint on
/// a finalized system whose bindings do not.
pub fn begin_proof(cs: &ConstraintSystem) -> (r: Result<ProverState, PipelineError>)
    requires
        cs.wf(),
    ensures
        cs@.phase != Phase::Finalized ==> r == Err::<ProverState, PipelineError>(
            PipelineError::System(CsError::Configuration(ConfigurationError::WrongPhase)),
        ),
        cs@.phase == Phase::Finalized && cs@.satisfied() ==> r == Ok::<
            ProverState,
            PipelineError,
        >(ProverState::Unproven),
        cs@.phase == Phase::Finalized && !cs@.satisfied() ==> (r matches Err(
            PipelineError::Unsatisfied(f),
        ) && cs@.first_failure(cs@.trace(), f.row as int, f.constraint as int) && f.gate
            == CsSpec::row_kind(cs@.rows[f.row as int])),
{
    match first_unsatisfied(cs) {
        Ok(None) => Ok(ProverState::Unproven),
        Ok(Some(f)) => Err(PipelineError::Unsatisfied(f)),
        Err(e) => Err(PipelineError::System(e)),
    }
}

/// The work due in `state` under `config`.
pub fn prover_action(state: ProverState, config: ProofConfig) -> (r: ProverAction)
    ensures
        r == spec_prover_action(state, config),
{
    match state {
        ProverState::Unproven => ProverAction::Commit { lde_factor: config.fri_lde_factor },
        ProverState::Committed => ProverAction::DeriveChallenges,
        ProverState::Challenged => if config.pow_bits == 0 {
            ProverAction::ArgueAndAssemble
        } else {
            ProverAction::ArgueGrindAndAssemble { pow_bits: config.pow_bits }
        },
        ProverState::ProofEmitted => ProverAction::Done,
    }
}

/// The state after `event`; refused where the event does not belong to
/// `state`.
pub fn prover_advance(state: ProverState, event: ProverEvent) -> (r: Result<
    ProverState,
    PipelineError,
>)
    ensures
        match spec_prover_advance(state, event) {
            Some(next) => r == Ok::<ProverState, PipelineError>(next),
            None => r == Err::<ProverState, PipelineError>(PipelineError::OutOfOrder),
        },
{
    match (state, event) {
        (ProverState::Unproven, ProverEvent::CommitmentsReady) => Ok(ProverState::Committed),
        (ProverState::Committed, ProverEvent::ChallengesReady) => Ok(ProverState::Challenged),
        (ProverState::Challenged, ProverEvent::ProofAssembled) => Ok(ProverState::ProofEmitted),
        _ => Err(PipelineError::OutOfOrder),
    }
}

/// A proof as the verifier reads it: the words of its parts.
#[derive(Debug)]
pub struct Proof {
    pub commitments: Vec<u64>,
    pub openings: Vec<u64>,
    /// The challenges drawn while the proof was made.
    pub transcript: Vec<u64>,
    pub public_inputs: Vec<u64>,
}

/// What a proof is verified against.
#[derive(Debug)]
pub struct VerificationKey {
    pub geometry: Geometry,
    pub gate_set_commitment: Vec<u64>,
    pub trace_len: usize,
    pub config: ProofConfig,
}

/// The key of a finalized system: its geometry, the number of its rows,
/// the settings of the proof, and the commitment to its gates that the
/// prover's collaborator computed. Refused on a system that is not
/// finalized.
pub fn verification_key(
    cs: &ConstraintSystem,
    config: ProofConfig,
    gate_set_commitment: Vec<u64>,
) -> (r: Result<VerificationKey, PipelineError>)
    ensures
        cs@.phase != Phase::Finalized ==> r == Err::<VerificationKey, PipelineError>(
            PipelineError::System(CsError::Configuration(ConfigurationError::WrongPhase)),
        ),
        cs@.phase == Phase::Finalized ==> (r matches Ok(key) && key.geometry == cs@.geometry
            && key.trace_len == cs@.rows.len() && key.config == config
            && key.gate_set_commitment@ == gate_set_commitment@),
{
    if cs.phase() != Phase::Finalized {
        return Err(PipelineError::System(CsError::Configuration(ConfigurationError::WrongPhase)));
    }
    Ok(
        VerificationKey {
            geometry: cs.geometry(),
            gate_set_commitment,
            trace_len: cs.num_rows(),
            config,
        },
    )
}

/// What the verifier's collaborator recomputed from a proof and a key.
#[derive(Debug)]
pub struct Recomputation {
    /// The challenges drawn anew from the proof's commitments.
    pub challenges: Vec<u64>,
    /// Whether every opening fits its commitment.
    pub openings_hold: bool,
    /// Whether the folding of the proximity argument is consistent.
    pub folding_consistent: bool,
    /// Whether the proof of work is there.
    pub pow_holds: bool,
}

/// The verifier's progress.
#[derive(Clone, Copy, Debug, PartialEq, Eq, Structural, Hash)]
pub enum VerifierState {
    ProofReceived,
    Recomputed,
    Accepted,
    Rejected,
}

/// The verifier's answer.
#[derive(Clone, Copy, Debug, PartialEq, Eq, Structural, Hash)]
pub enum Verdict {
    Accept,
    Reject,
}

/// Whether a proof is taken in for recomputation: the key is one for
/// the verifier's geometry, and the proof's public inputs are the ones the
/// verifier was given.
pub open spec fn spec_received(
    geometry: Geometry,
    key_geometry: Geometry,
    proof_inputs: Seq<u64>,
    public_inputs: Seq<u64>,
) -> bool {
    geometry == key_geometry && proof_inputs == public_inputs
}

/// Whether a recomputation bears the proof out: the challenges drawn anew
/// are the ones in the proof, every opening fits, the folding is
/// consistent, and the proof of work is there where one is asked for.
pub open spec fn spec_borne_out(
    transcript: Seq<u64>,
    pow_bits: u32,
    challenges: Seq<u64>,
    openings_hold: bool,
    folding_consistent: bool,
    pow_holds: bool,
) -> bool {
    &&& challenges == transcript
    &&& openings_hold
    &&& folding_consistent
    &&& (pow_bits == 0 || pow_holds)
}

/// Whether the two sequences of words are the same.
pub fn same_words(a: &[u64], b: &[u64]) -> (r: bool)
    ensures
        r == (a@ == b@),
{
    if a.len() != b.len() {
        return false;
    }
    let mut i: usize = 0;
    while i < a.len()
        invariant
            i <= a@.len(),
            a@.len() == b@.len(),
            forall|k: int| 0 <= k < i ==> a@[k] == b@[k],
        decreases a@.len() - i,
    {
        if a[i] != b[i] {
            return false;
        }
        i += 1;
    }
    assert(a@ =~= b@);
    true
}

/// Takes a proof in: rejected at once where the key is for another
/// geometry than the verifier's or the proof's public inputs are not
/// `public_inputs`, else received and due for recomputation.
pub fn verifier_receive(
    geometry: Geometry,
    key: &VerificationKey,
    proof: &Proof,
    public_inputs: &[u64],
) -> (r: VerifierState)
    ensures
        r == (if spec_received(geometry, key.geometry, proof.public_inputs@, public_inputs@) {
            VerifierState::ProofReceived
        } else {
            VerifierState::Rejected
        }),
{
    if geometry == key.geometry && same_words(proof.public_inputs.as_slice(), public_inputs) {
        VerifierState::ProofReceived
    } else {
        VerifierState::Rejected
    }
}

/// Takes the recomputation in: a received proof is recomputed; any other
/// state stays.
pub fn verifier_recompute(state: VerifierState) -> (r: VerifierState)
    ensures
        r == (if state == VerifierState::ProofReceived {
            VerifierState::Recomputed
        } else {
            state
        }),
{
    match state {
        VerifierState::ProofReceived => VerifierState::Recomputed,
        other => other,
    }
}

/// Decides on a recomputed proof: accepted where the recomputation bears
/// it out, else rejected. A state that is not recomputed stays, but for a
/// proof not yet recomputed, which is rejected.
pub fn verifier_decide(
    state: VerifierState,
    key: &VerificationKey,
    proof: &Proof,
    recomputation: &Recomputation,
) -> (r: VerifierState)
    ensures
        r == (match state {
            VerifierState::Recomputed => if spec_borne_out(
                proof.transcript@,
                key.config.pow_bits,
                recomputation.challenges@,
                recomputation.openings_hold,
                recomputation.folding_consistent,
                recomputation.pow_holds,
            ) {
                VerifierState::Accepted
            } else {
                VerifierState::Rejected
            },
            VerifierState::Accepted => VerifierState::Accepted,
            _ => VerifierState::Rejected,
        }),
{
    match state {
        VerifierState::Recomputed => {
            if same_words(recomputation.challenges.as_slice(), proof.transcript.as_slice())
                && recomputation.openings_hold && recomputation.folding_consistent && (
            key.config.pow_bits == 0 || recomputation.pow_holds) {
                VerifierState::Accepted
            } else {
                VerifierState::Rejected
            }
        },
        VerifierState::Accepted => VerifierState::Accepted,
        _ => VerifierState::Rejected,
    }
}

/// Whether a verifier for `geometry` accepts `proof` for `public_inputs`
/// under `key`, given what was recomputed from the proof.
pub open spec fn spec_accepts(
    geometry: Geometry,
    key: &VerificationKey,
    proof: &Proof,
    public_inputs: Seq<u64>,
    recomputation: &Recomputation,
) -> bool {
    &&& spec_received(geometry, key.geometry, proof.public_inputs@, public_inputs)
    &&& spec_borne_out(
        proof.transcript@,
        key.config.pow_bits,
        recomputation.challenges@,
        recomputation.openings_hold,
        recomputation.folding_consistent,
        recomputation.pow_holds,
    )
}

/// A proof that the recomputation bears out is accepted for its own
/// public inputs by a verifier for the geometry of the key.
pub proof fn lemma_borne_out_accepted(
    key: &VerificationKey,
    proof: &Proof,
    recomputation: &Recomputation,
)
    requires
        recomputation.challenges@ == proof.transcript@,
        recomputation.openings_hold,
        recomputation.folding_consistent,
        key.config.pow_bits == 0 || recomputation.pow_holds,
    ensures
        spec_accepts(key.geometry, key, proof, proof.public_inputs@, recomputation),
{
}

/// No proof is accepted for public inputs other than its own, and none
/// under a key for another geometry than the verifier's.
pub proof fn lemma_altered_inputs_rejected(
    geometry: Geometry,
    key: &VerificationKey,
    proof: &Proof,
    public_inputs: Seq<u64>,
    recomputation: &Recomputation,
)
    requires
        public_inputs != proof.public_inputs@ || geometry != key.geometry,
    ensures
        !spec_accepts(geometry, key, proof, public_inputs, recomputation),
{
}

/// Changing one word of the challenges in a proof that was accepted has
/// it rejected, as long as the recomputation stays what it was.
pub proof fn lemma_altered_transcript_rejected(
    geometry: Geometry,
    key: &VerificationKey,
    proof: &Proof,
    altered: &Proof,
    public_inputs: Seq<u64>,
    recomputation: &Recomputation,
    position: int,
)
    requires
        spec_accepts(geometry, key, proof, public_inputs, recomputation),
        0 <= position < proof.transcript@.len(),
        altered.transcript@.len() == proof.transcript@.len(),
        altered.transcript@[position] != proof.transcript@[position],
    ensures
        !spec_accepts(geometry, key, altered, public_inputs, recomputation),
{
}

/// No proof is accepted whose challenges are not the ones drawn anew,
/// whose openings do not all fit, whose folding is not consistent, or
/// that lacks a proof of work that was asked for.
pub proof fn lemma_failed_check_rejected(
    geometry: Geometry,
    key: &VerificationKey,
    proof: &Proof,
    public_inputs: Seq<u64>,
    recomputation: &Recomputation,
)
    requires
        recomputation.challenges@ != proof.transcript@ || !recomputation.openings_hold
            || !recomputation.folding_consistent || (key.config.pow_bits != 0
            && !recomputation.pow_holds),
    ensures
        !spec_accepts(geometry, key, proof, public_inputs, recomputation),
{
}

/// From the start, the three reports in their order lead to the emitted
/// proof, and no other report is taken on the way.
pub proof fn lemma_prover_path(event: ProverEvent)
    ensures
        spec_prover_advance(ProverState::Unproven, ProverEvent::CommitmentsReady) == Some(
            ProverState::Committed,
        ),
        spec_prover_advance(ProverState::Committed, ProverEvent::ChallengesReady) == Some(
            ProverState::Challenged,
        ),
        spec_prover_advance(ProverState::Challenged, ProverEvent::ProofAssembled) == Some(
            ProverState::ProofEmitted,
        ),
        spec_prover_advance(ProverState::ProofEmitted, event) is None,
        event != ProverEvent::CommitmentsReady ==> spec_prover_advance(
            ProverState::Unproven,
            event,
        ) is None,
        event != ProverEvent::ChallengesReady ==> spec_prover_advance(
            ProverState::Committed,
            event,
        ) is None,
        event != ProverEvent::ProofAssembled ==> spec_prover_advance(
            ProverState::Challenged,
            event,
        ) is None,
{
}

/// The answer of a verifier for `geometry` on `proof` for
/// `public_inputs` under `key`, given what was recomputed from the proof:
/// accept where the key is for that geometry, the public inputs are the
/// proof's and the recomputation bears the proof out, else reject.
pub fn verify(
    geometry: Geometry,
    key: &VerificationKey,
    proof: &Proof,
    public_inputs: &[u64],
    recomputation: &Recomputation,
) -> (r: Verdict)
    ensures
        r == (if spec_accepts(geometry, key, proof, public_inputs@, recomputation) {
            Verdict::Accept
        } else {
            Verdict::Reject
        }),
{
    let received = verifier_receive(geometry, key, proof, public_inputs);
    let recomputed = verifier_recompute(received);
    match verifier_decide(recomputed, key, proof, recomputation) {
        VerifierState::Accepted => Verdict::Accept,
        _ => Verdict::Reject,
    }
}

} // verus!
