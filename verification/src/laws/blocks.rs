//! What is asked about the attestations of a block, and how they are taken in turn.

use crate::arith::ArithError;
use crate::beacon_state::{
    AttestationData, BeaconState, ForkModel, PendingAttestationModel, StateCaches, StateModel,
};
use crate::errors::{
    AttestationVerificationError, BeaconStateError, BlockProcessingError, MilhouseError,
};
use crate::eth_spec::EthSpec;
use crate::primitives::{Epoch, ForkName};
use crate::process_attestations::altair_gloas::altair::altair_outcome;
use crate::process_attestations::altair_gloas::gloas::gloas_outcome;
use crate::process_attestations::altair_gloas::{attestation_applied, attestations_applied};
use crate::process_attestations::base;
use crate::process_attestations::base::{base_applied, base_outcome, base_run, BaseRun};
use crate::process_attestations::{
    Attestation, AttestationCalls, ConsensusContext, VerifySignatures,
};
use vstd::prelude::*;

verus! {

/// What an attestation of either format votes for.
pub open spec fn vote(attestation: Attestation) -> AttestationData {
    match attestation {
        Attestation::Base(attestation) => attestation.data,
        Attestation::Electra(attestation) => attestation.data,
    }
}

/// Whether `calls` holds the answers about one attestation: who proposed the block of the state,
/// who signed the attestation, and which flags it earns after as many slots as lie between its own
/// slot and that of the state.
pub open spec fn answers_about<P, V, F>(
    ctxt: ConsensusContext<P, V, F>,
    state: BeaconState,
    attestation: Attestation,
    verify_signatures: VerifySignatures,
    calls: AttestationCalls,
) -> bool where
    P: Fn(&BeaconState) -> Result<u64, BlockProcessingError>,
    V: Fn(&BeaconState, &Attestation, VerifySignatures) -> Result<
        Vec<u64>,
        AttestationVerificationError,
    >,
    F: Fn(&BeaconState, &AttestationData, u64) -> Result<Vec<usize>, BeaconStateError>,
 {
    let data = vote(attestation);
    &&& call_ensures(ctxt.get_proposer_index, (&state,), calls.proposer_index)
    &&& calls.proposer_index is Ok ==> call_ensures(
        ctxt.verify_attestation_for_block_inclusion,
        (&state, &attestation, verify_signatures),
        calls.attesting_indices,
    )
    &&& forall|delay: u64|
        calls.proposer_index is Ok && calls.attesting_indices is Ok && data.slot.0 + delay
            == state.slot.0 ==> #[trigger] call_ensures(
            ctxt.get_attestation_participation_flag_indices,
            (&state, &data, delay),
            calls.participation_flag_indices,
        )
}

/// Whether the rules of the Gloas fork apply to a state.
pub open spec fn is_gloas(state: StateModel) -> bool {
    match state.fork {
        ForkModel::Base { .. } => false,
        ForkModel::Altair { fork_name, .. } => fork_name == ForkName::Gloas,
        ForkModel::Gloas { .. } => true,
    }
}

/// The error for an attestation that may not enter the block, at the given position.
pub open spec fn refusal(e: AttestationVerificationError, index: usize) -> BlockProcessingError {
    match e {
        AttestationVerificationError::Invalid(reason) => {
            BlockProcessingError::AttestationInvalid { index, reason }
        },
        AttestationVerificationError::BeaconStateError(e) => {
            BlockProcessingError::BeaconStateError(e)
        },
        AttestationVerificationError::ArithError(e) => BlockProcessingError::ArithError(e),
    }
}

/// Of each attestation it is asked, on the state as it stands, who proposed the block, who signed
/// it and which flags it earns after its delay; the state then follows the rules of its own fork,
/// with the epochs of the context.
pub proof fn lemma_attestation_follows_its_answers<P, V, F>(
    slots_per_epoch: u64,
    ctxt: ConsensusContext<P, V, F>,
    pre: BeaconState,
    attestation: Attestation,
    att_index: usize,
    verify_signatures: VerifySignatures,
    post: BeaconState,
    r: Result<(), BlockProcessingError>,
) where
    P: Fn(&BeaconState) -> Result<u64, BlockProcessingError>,
    V: Fn(&BeaconState, &Attestation, VerifySignatures) -> Result<
        Vec<u64>,
        AttestationVerificationError,
    >,
    F: Fn(&BeaconState, &AttestationData, u64) -> Result<Vec<usize>, BeaconStateError>,

    requires
        attestation_applied(
            slots_per_epoch,
            ctxt,
            pre,
            attestation,
            att_index,
            verify_signatures,
            post,
            r,
        ),
    ensures
        exists|calls: AttestationCalls| #[trigger]
            answers_about(ctxt, pre, attestation, verify_signatures, calls) && (post@, r) == (
            if is_gloas(pre@) {
                gloas_outcome(
                    slots_per_epoch,
                    pre@,
                    vote(attestation),
                    att_index,
                    ctxt.previous_epoch,
                    ctxt.current_epoch,
                    calls,
                )
            } else {
                altair_outcome(
                    pre@,
                    vote(attestation),
                    att_index,
                    ctxt.previous_epoch,
                    ctxt.current_epoch,
                    calls,
                )
            }),
{
    let gloas = is_gloas(pre@);
    let calls = choose|calls: AttestationCalls| #[trigger]
        ctxt.answered(pre, attestation, verify_signatures, calls) && (post@, r) == (if gloas {
            gloas_outcome(
                slots_per_epoch,
                pre@,
                attestation.spec_data(),
                att_index,
                ctxt.previous_epoch,
                ctxt.current_epoch,
                calls,
            )
        } else {
            altair_outcome(
                pre@,
                attestation.spec_data(),
                att_index,
                ctxt.previous_epoch,
                ctxt.current_epoch,
                calls,
            )
        });
    assert(ctxt.answered(pre, attestation, verify_signatures, calls));
    assert(answers_about(ctxt, pre, attestation, verify_signatures, calls));
}

/// The attestations of a block are taken in turn, each on the state that the one before left and
/// under its position in the block. All are taken, or the last one taken is the first that fails.
pub proof fn lemma_attestations_are_taken_in_turn<P, V, F>(
    slots_per_epoch: u64,
    ctxt: ConsensusContext<P, V, F>,
    states: Seq<BeaconState>,
    attestations: Seq<Attestation>,
    verify_signatures: VerifySignatures,
    r: Result<(), BlockProcessingError>,
) where
    P: Fn(&BeaconState) -> Result<u64, BlockProcessingError>,
    V: Fn(&BeaconState, &Attestation, VerifySignatures) -> Result<
        Vec<u64>,
        AttestationVerificationError,
    >,
    F: Fn(&BeaconState, &AttestationData, u64) -> Result<Vec<usize>, BeaconStateError>,

    requires
        attestations_applied(
            slots_per_epoch,
            ctxt,
            states,
            attestations,
            verify_signatures,
            r,
        ),
    ensures
        1 <= states.len() <= attestations.len() + 1,
        r is Ok <==> forall|i: int|
            0 <= i < attestations.len() ==> i + 1 < states.len() && attestation_applied(
                slots_per_epoch,
                ctxt,
                #[trigger] states[i],
                attestations[i],
                i as usize,
                verify_signatures,
                states[i + 1],
                Ok(()),
            ) && r is Ok,
        r is Err ==> states.len() >= 2 && attestation_applied(
            slots_per_epoch,
            ctxt,
            states[states.len() - 2],
            attestations[states.len() - 2],
            (states.len() - 2) as usize,
            verify_signatures,
            states.last(),
            r,
        ) && forall|i: int|
            0 <= i < states.len() - 2 ==> attestation_applied(
                slots_per_epoch,
                ctxt,
                #[trigger] states[i],
                attestations[i],
                i as usize,
                verify_signatures,
                states[i + 1],
                Ok(()),
            ),
{
    if r is Ok {
        assert forall|i: int| 0 <= i < attestations.len() implies i + 1 < states.len()
            && attestation_applied(
            slots_per_epoch,
            ctxt,
            #[trigger] states[i],
            attestations[i],
            i as usize,
            verify_signatures,
            states[i + 1],
            Ok(()),
        ) && r is Ok by {}
    } else {
        if attestations.len() > 0 {
            assert(states[0] == states[0]);
        }
    }
}

/// An attestation about which a question was not answered is refused, and the state stays as it
/// was: so it is if there is no proposer, if the attestation may not enter the block, if it comes
/// from a later slot, or if its flags cannot be told.
pub proof fn lemma_unanswered_attestation_changes_nothing(
    slots_per_epoch: u64,
    state: StateModel,
    data: AttestationData,
    att_index: usize,
    previous_epoch: Epoch,
    current_epoch: Epoch,
    calls: AttestationCalls,
)
    requires
        calls.proposer_index is Err || calls.attesting_indices is Err
            || calls.participation_flag_indices is Err || data.slot.0 > state.slot.0,
    ensures
        ({
            let error = match (
                calls.proposer_index,
                calls.attesting_indices,
                calls.participation_flag_indices,
            ) {
                (Err(e), _, _) => e,
                (Ok(_), Err(e), _) => refusal(e, att_index),
                (Ok(_), Ok(_), flags) => if data.slot.0 > state.slot.0 {
                    BlockProcessingError::ArithError(ArithError::Overflow)
                } else {
                    BlockProcessingError::BeaconStateError(flags->Err_0)
                },
            };
            let refused = (state, Err::<(), BlockProcessingError>(error));
            &&& gloas_outcome(
                slots_per_epoch,
                state,
                data,
                att_index,
                previous_epoch,
                current_epoch,
                calls,
            ) == refused
            &&& altair_outcome(state, data, att_index, previous_epoch, current_epoch, calls)
                == refused
        }),
{
}

/// An attestation of the first fork that may enter the block joins the end of one list: that of the
/// current epoch if this is its target, else that of the previous epoch. It waits there with its
/// signers, its vote, the number of slots that it was late and the proposer of the block. Nothing
/// else changes. It is refused if it has the later format, comes from a later slot, or finds its
/// list full; then nothing changes at all.
pub proof fn lemma_pending_attestation_joins_the_list_of_its_epoch(
    state: StateModel,
    attestation: Attestation,
    att_index: usize,
    proposer_index: u64,
    verified: Result<Vec<u64>, AttestationVerificationError>,
    slots_per_epoch: u64,
    limit: usize,
)
    requires
        slots_per_epoch > 0,
    ensures
        ({
            let (post, r) = base_outcome(
                state,
                attestation,
                att_index,
                proposer_index,
                verified,
                slots_per_epoch,
                limit,
            );
            match (verified, attestation, state.fork) {
                (Err(e), _, _) => r == Err::<(), BlockProcessingError>(refusal(e, att_index))
                    && post == state,
                (Ok(_), Attestation::Electra(_), _) => r == Err::<(), BlockProcessingError>(
                    BlockProcessingError::PendingAttestationInElectra,
                ) && post == state,
                (
                    Ok(_),
                    Attestation::Base(attestation),
                    ForkModel::Base { previous_epoch_attestations, current_epoch_attestations },
                ) => {
                    let now = attestation.data.target.epoch.0 == state.slot.0 / slots_per_epoch;
                    let list = if now {
                        current_epoch_attestations
                    } else {
                        previous_epoch_attestations
                    };
                    if attestation.data.slot.0 > state.slot.0 {
                        r == Err::<(), BlockProcessingError>(
                            BlockProcessingError::ArithError(ArithError::Overflow),
                        ) && post == state
                    } else if list.len() >= limit {
                        r == Err::<(), BlockProcessingError>(
                            BlockProcessingError::MilhouseError(
                                MilhouseError::ListFull { len: list.len() as usize },
                            ),
                        ) && post == state
                    } else {
                        let longer = list.push(
                            PendingAttestationModel {
                                aggregation_bits: attestation.aggregation_bits@,
                                data: attestation.data,
                                inclusion_delay: (state.slot.0 - attestation.data.slot.0) as u64,
                                proposer_index,
                            },
                        );
                        r is Ok && post == (StateModel {
                            fork: if now {
                                ForkModel::Base {
                                    previous_epoch_attestations,
                                    current_epoch_attestations: longer,
                                }
                            } else {
                                ForkModel::Base {
                                    previous_epoch_attestations: longer,
                                    current_epoch_attestations,
                                }
                            },
                            ..state
                        })
                    }
                },
                (Ok(_), Attestation::Base(attestation), _) => post == state && r == Err::<
                    (),
                    BlockProcessingError,
                >(
                    if attestation.data.slot.0 > state.slot.0 {
                        BlockProcessingError::ArithError(ArithError::Overflow)
                    } else {
                        BlockProcessingError::BeaconStateError(
                            BeaconStateError::IncorrectStateVariant,
                        )
                    },
                ),
            }
        }),
{
    assert(state.slot.0 / slots_per_epoch <= state.slot.0) by (nonlinear_arith)
        requires
            slots_per_epoch > 0,
    ;
}

/// The attestations of a block of the first fork: the caches are built first, the proposer is asked
/// for once, and then each attestation is verified and recorded on the state that the one before
/// left.
pub proof fn lemma_first_fork_takes_attestations_in_turn<E: EthSpec, B, P, V, F>(
    build_caches: B,
    ctxt: ConsensusContext<P, V, F>,
    pre: BeaconState,
    attestations: Seq<Attestation>,
    verify_signatures: VerifySignatures,
    post: BeaconState,
    r: Result<(), BlockProcessingError>,
    run: BaseRun,
) where
    B: Fn(&BeaconState) -> (StateCaches, Result<(), BlockProcessingError>),
    P: Fn(&BeaconState) -> Result<u64, BlockProcessingError>,
    V: Fn(&BeaconState, &Attestation, VerifySignatures) -> Result<
        Vec<u64>,
        AttestationVerificationError,
    >,

    requires
        base_run::<E, B, P, V, F>(
            build_caches,
            ctxt,
            pre,
            attestations,
            verify_signatures,
            post,
            r,
            run,
        ),
    ensures
        call_ensures(build_caches, (&pre,), run.caches),
        run.cached@ == (StateModel { caches: run.caches.0@, ..pre@ }),
        run.caches.1 matches Err(e) ==> r == Err::<(), BlockProcessingError>(e) && post
            == run.cached,
        run.caches.1 is Ok ==> call_ensures(
            ctxt.get_proposer_index,
            (&run.cached,),
            run.proposer_index,
        ) && (run.proposer_index matches Err(e) ==> r == Err::<(), BlockProcessingError>(e) && post
            == run.cached),
        run.caches.1 is Ok && run.proposer_index is Ok ==> {
            &&& 1 <= run.states.len() <= attestations.len() + 1
            &&& run.states.first() == run.cached
            &&& run.states.last() == post
            &&& r is Ok ==> run.states.len() == attestations.len() + 1
            &&& r is Err ==> run.states.len() >= 2
            &&& forall|i: int|
                0 <= i < run.states.len() - 1 ==> recorded::<E, P, V, F>(
                    ctxt,
                    run.proposer_index->Ok_0,
                    #[trigger] run.states[i],
                    attestations[i],
                    i as usize,
                    verify_signatures,
                    run.states[i + 1],
                    if i == run.states.len() - 2 {
                        r
                    } else {
                        Ok(())
                    },
                )
        },
{
    if run.caches.1 is Ok && run.proposer_index is Ok {
        assert forall|i: int| 0 <= i < run.states.len() - 1 implies recorded::<E, P, V, F>(
            ctxt,
            run.proposer_index->Ok_0,
            #[trigger] run.states[i],
            attestations[i],
            i as usize,
            verify_signatures,
            run.states[i + 1],
            if i == run.states.len() - 2 {
                r
            } else {
                Ok(())
            },
        ) by {
            lemma_recorded::<E, P, V, F>(
                ctxt,
                run.proposer_index->Ok_0,
                run.states,
                attestations,
                verify_signatures,
                r,
                i,
            );
        }
    }
}

proof fn lemma_recorded<E: EthSpec, P, V, F>(
    ctxt: ConsensusContext<P, V, F>,
    proposer_index: u64,
    states: Seq<BeaconState>,
    attestations: Seq<Attestation>,
    verify_signatures: VerifySignatures,
    r: Result<(), BlockProcessingError>,
    i: int,
) where
    V: Fn(&BeaconState, &Attestation, VerifySignatures) -> Result<
        Vec<u64>,
        AttestationVerificationError,
    >,

    requires
        base::attestations_applied::<E, P, V, F>(
            ctxt,
            proposer_index,
            states,
            attestations,
            verify_signatures,
            r,
        ),
        0 <= i < states.len() - 1,
    ensures
        recorded::<E, P, V, F>(
            ctxt,
            proposer_index,
            states[i],
            attestations[i],
            i as usize,
            verify_signatures,
            states[i + 1],
            if i == states.len() - 2 {
                r
            } else {
                Ok(())
            },
        ),
{
    if i == states.len() - 2 {
        assert(base_applied::<E, P, V, F>(
            ctxt,
            proposer_index,
            states[i],
            attestations[i],
            i as usize,
            verify_signatures,
            states[i + 1],
            r,
        ));
    } else {
        assert(base_applied::<E, P, V, F>(
            ctxt,
            proposer_index,
            states[i],
            attestations[i],
            i as usize,
            verify_signatures,
            states[i + 1],
            Ok(()),
        ));
    }
}

/// Whether an attestation of the first fork was verified on `pre`, and the verdict led to `post`.
pub open spec fn recorded<E: EthSpec, P, V, F>(
    ctxt: ConsensusContext<P, V, F>,
    proposer_index: u64,
    pre: BeaconState,
    attestation: Attestation,
    att_index: usize,
    verify_signatures: VerifySignatures,
    post: BeaconState,
    r: Result<(), BlockProcessingError>,
) -> bool where
    V: Fn(&BeaconState, &Attestation, VerifySignatures) -> Result<
        Vec<u64>,
        AttestationVerificationError,
    >,
 {
    exists|verdict: Result<Vec<u64>, AttestationVerificationError>| #[trigger]
        call_ensures(
            ctxt.verify_attestation_for_block_inclusion,
            (&pre, &attestation, verify_signatures),
            verdict,
        ) && (post@, r) == base_outcome(
            pre@,
            attestation,
            att_index,
            proposer_index,
            verdict,
            E::spec_slots_per_epoch(),
            E::spec_max_pending_attestations(),
        )
}

} // verus!
