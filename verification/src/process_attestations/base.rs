//! Attestations of the first fork: they wait in the state for the end of their epoch.

use super::{Attestation, ConsensusContext, VerifySignatures};
use crate::arith::ArithError;
use crate::beacon_state::{
    AttestationData, BeaconState, CachesModel, ForkFields, ForkModel, PendingAttestation,
    PendingAttestationModel, StateCaches, StateModel,
};
use crate::errors::{
    AttestationVerificationError, BeaconStateError, BlockProcessingError, MilhouseError,
};
use crate::eth_spec::EthSpec;
use vstd::prelude::*;

verus! {

/// The pending attestations with one more, if there is room.
pub open spec fn push_pending(
    list: Seq<PendingAttestationModel>,
    pending: PendingAttestationModel,
    limit: usize,
) -> Result<Seq<PendingAttestationModel>, BlockProcessingError> {
    if list.len() >= limit {
        Err(
            BlockProcessingError::MilhouseError(
                MilhouseError::ListFull { len: list.len() as usize },
            ),
        )
    } else {
        Ok(list.push(pending))
    }
}

/// The state after `pending` has joined the attestations of its target epoch, the current one or
/// any other.
pub open spec fn add_pending(
    state: StateModel,
    pending: PendingAttestationModel,
    slots_per_epoch: u64,
    limit: usize,
) -> (StateModel, Result<(), BlockProcessingError>) {
    match state.fork {
        ForkModel::Base { previous_epoch_attestations, current_epoch_attestations } => {
            if pending.data.target.epoch == state.slot.spec_epoch(slots_per_epoch) {
                match push_pending(current_epoch_attestations, pending, limit) {
                    Err(e) => (state, Err(e)),
                    Ok(current_epoch_attestations) => (
                        StateModel {
                            fork: ForkModel::Base {
                                previous_epoch_attestations,
                                current_epoch_attestations,
                            },
                            ..state
                        },
                        Ok(()),
                    ),
                }
            } else {
                match push_pending(previous_epoch_attestations, pending, limit) {
                    Err(e) => (state, Err(e)),
                    Ok(previous_epoch_attestations) => (
                        StateModel {
                            fork: ForkModel::Base {
                                previous_epoch_attestations,
                                current_epoch_attestations,
                            },
                            ..state
                        },
                        Ok(()),
                    ),
                }
            }
        },
        _ => (
            state,
            Err(BlockProcessingError::BeaconStateError(BeaconStateError::IncorrectStateVariant)),
        ),
    }
}

/// The state after an attestation, and how it ended, given the outcome of its verification.
pub open spec fn base_outcome(
    state: StateModel,
    attestation: Attestation,
    att_index: usize,
    proposer_index: u64,
    verified: Result<Vec<u64>, AttestationVerificationError>,
    slots_per_epoch: u64,
    limit: usize,
) -> (StateModel, Result<(), BlockProcessingError>) {
    match verified {
        Err(e) => (state, Err(e.spec_into_with_index(att_index))),
        Ok(_) => match attestation {
            Attestation::Electra(_) => (
                state,
                Err(BlockProcessingError::PendingAttestationInElectra),
            ),
            Attestation::Base(attestation) => if attestation.data.slot.0 > state.slot.0 {
                (state, Err(BlockProcessingError::ArithError(ArithError::Overflow)))
            } else {
                add_pending(
                    state,
                    PendingAttestationModel {
                        aggregation_bits: attestation.aggregation_bits@,
                        data: attestation.data,
                        inclusion_delay: (state.slot.0 - attestation.data.slot.0) as u64,
                        proposer_index,
                    },
                    slots_per_epoch,
                    limit,
                )
            },
        },
    }
}

/// Whether an attestation turns `pre` into `post` and ends with `r`.
pub open spec fn base_applied<E: EthSpec, P, V, F>(
    ctxt: ConsensusContext<P, V, F>,
    proposer_index: u64,
    pre: BeaconState,
    attestation: Attestation,
    att_index: usize,
    verify_signatures: VerifySignatures,
    post: BeaconState,
    r: Result<(), BlockProcessingError>,
) -> bool where
    V: Fn(&BeaconState, &Attestation, VerifySignatures) -> Result<
        Vec<u64>,
        AttestationVerificationError,
    >,
 {
    exists|verified: Result<Vec<u64>, AttestationVerificationError>| #[trigger]
        call_ensures(
            ctxt.verify_attestation_for_block_inclusion,
            (&pre, &attestation, verify_signatures),
            verified,
        ) && (post@, r) == base_outcome(
            pre@,
            attestation,
            att_index,
            proposer_index,
            verified,
            E::spec_slots_per_epoch(),
            E::spec_max_pending_attestations(),
        )
}

/// Whether `states` are the states around the attestations that were applied: each attestation
/// starts from what the one before it left, all but the last succeed, and either all were applied
/// and `r` is a success, or the last one failed with `r`.
pub open spec fn attestations_applied<E: EthSpec, P, V, F>(
    ctxt: ConsensusContext<P, V, F>,
    proposer_index: u64,
    states: Seq<BeaconState>,
    attestations: Seq<Attestation>,
    verify_signatures: VerifySignatures,
    r: Result<(), BlockProcessingError>,
) -> bool where
    V: Fn(&BeaconState, &Attestation, VerifySignatures) -> Result<
        Vec<u64>,
        AttestationVerificationError,
    >,
 {
    let applied = states.len() - 1;
    &&& 0 <= applied <= attestations.len()
    &&& forall|i: int|
        0 <= i < applied - 1 ==> base_applied::<E, P, V, F>(
            ctxt,
            proposer_index,
            #[trigger] states[i],
            attestations[i],
            i as usize,
            verify_signatures,
            states[i + 1],
            Ok(()),
        )
    &&& applied > 0 ==> base_applied::<E, P, V, F>(
        ctxt,
        proposer_index,
        states[applied - 1],
        attestations[applied - 1],
        (applied - 1) as usize,
        verify_signatures,
        states[applied],
        r,
    )
    &&& r is Ok ==> applied == attestations.len()
    &&& r is Err ==> applied > 0
}

/// How the processing of all attestations went: the caches as they were left and whether all could
/// be built, the proposer, and the states around the attestations.
pub struct BaseRun {
    pub caches: (StateCaches, Result<(), BlockProcessingError>),
    pub cached: BeaconState,
    pub proposer_index: Result<u64, BlockProcessingError>,
    pub states: Seq<BeaconState>,
}

/// Whether `run` describes the processing of `attestations` from `pre` to `post`, ending with `r`.
pub open spec fn base_run<E: EthSpec, B, P, V, F>(
    build_caches: B,
    ctxt: ConsensusContext<P, V, F>,
    pre: BeaconState,
    attestations: Seq<Attestation>,
    verify_signatures: VerifySignatures,
    post: BeaconState,
    r: Result<(), BlockProcessingError>,
    run: BaseRun,
) -> bool where
    B: Fn(&BeaconState) -> (StateCaches, Result<(), BlockProcessingError>),
    P: Fn(&BeaconState) -> Result<u64, BlockProcessingError>,
    V: Fn(&BeaconState, &Attestation, VerifySignatures) -> Result<
        Vec<u64>,
        AttestationVerificationError,
    >,
 {
    &&& call_ensures(build_caches, (&pre,), run.caches)
    &&& run.cached@ == (StateModel { caches: run.caches.0@, ..pre@ })
    &&& match run.caches.1 {
        Err(e) => post == run.cached && r == Err::<(), BlockProcessingError>(e),
        Ok(()) => {
            &&& call_ensures(ctxt.get_proposer_index, (&run.cached,), run.proposer_index)
            &&& match run.proposer_index {
                Err(e) => post == run.cached && r == Err::<(), BlockProcessingError>(e),
                Ok(proposer_index) => {
                    &&& attestations_applied::<E, P, V, F>(
                        ctxt,
                        proposer_index,
                        run.states,
                        attestations,
                        verify_signatures,
                        r,
                    )
                    &&& run.states.first() == run.cached
                    &&& run.states.last() == post
                },
            }
        },
    }
}

/// Records one verified attestation in the state.
fn record_attestation<E: EthSpec>(
    state: &mut BeaconState,
    attestation: &Attestation,
    proposer_index: u64,
) -> (r: Result<(), BlockProcessingError>)
    requires
        E::spec_slots_per_epoch() > 0,
    ensures
        (final(state)@, r) == base_outcome(
            old(state)@,
            *attestation,
            0,
            proposer_index,
            Ok(arbitrary()),
            E::spec_slots_per_epoch(),
            E::spec_max_pending_attestations(),
        ),
{
    let attestation = match attestation {
        Attestation::Base(attestation) => attestation,
        Attestation::Electra(_) => {
            return Err(BlockProcessingError::PendingAttestationInElectra);
        },
    };
    let inclusion_delay: u64 = match state.slot.safe_sub(attestation.data.slot) {
        Ok(delay) => delay,
        Err(e) => {
            return Err(BlockProcessingError::ArithError(e));
        },
    };
    let pending_attestation = PendingAttestation {
        aggregation_bits: attestation.aggregation_bits.clone(),
        data: attestation.data,
        inclusion_delay,
        proposer_index,
    };
    assert(pending_attestation@.aggregation_bits =~= attestation.aggregation_bits@);
    let limit: usize = E::max_pending_attestations();
    let is_current = attestation.data.target.epoch == state.current_epoch(E::slots_per_epoch());
    match &mut state.fork {
        ForkFields::Base { previous_epoch_attestations, current_epoch_attestations } => {
            if is_current {
                let len: usize = current_epoch_attestations.len();
                if len >= limit {
                    return Err(
                        BlockProcessingError::MilhouseError(MilhouseError::ListFull { len }),
                    );
                }
                let ghost list = current_epoch_attestations@;
                current_epoch_attestations.push(pending_attestation);
                assert(current_epoch_attestations@.map_values(|a: PendingAttestation| a@)
                    =~= list.map_values(|a: PendingAttestation| a@).push(pending_attestation@));
            } else {
                let len: usize = previous_epoch_attestations.len();
                if len >= limit {
                    return Err(
                        BlockProcessingError::MilhouseError(MilhouseError::ListFull { len }),
                    );
                }
                let ghost list = previous_epoch_attestations@;
                previous_epoch_attestations.push(pending_attestation);
                assert(previous_epoch_attestations@.map_values(|a: PendingAttestation| a@)
                    =~= list.map_values(|a: PendingAttestation| a@).push(pending_attestation@));
            }
            Ok(())
        },
        _ => Err(BlockProcessingError::BeaconStateError(BeaconStateError::IncorrectStateVariant)),
    }
}

/// Validates each attestation and updates the state, short-circuiting on an invalid object.
///
/// Returns `Ok(())` if the validation and state updates completed successfully, otherwise returns
/// an `Err` describing the invalid object or cause of failure.
///
/// `build_caches` gives the caches of the state once the missing ones have been built, as far as
/// that was possible, and says whether it was.
pub fn process_attestations<E: EthSpec, B, P, V, F>(
    state: &mut BeaconState,
    attestations: &Vec<Attestation>,
    verify_signatures: VerifySignatures,
    ctxt: &ConsensusContext<P, V, F>,
    build_caches: B,
) -> (r: Result<(), BlockProcessingError>) where
    B: Fn(&BeaconState) -> (StateCaches, Result<(), BlockProcessingError>),
    P: Fn(&BeaconState) -> Result<u64, BlockProcessingError>,
    V: Fn(&BeaconState, &Attestation, VerifySignatures) -> Result<
        Vec<u64>,
        AttestationVerificationError,
    >,
    F: Fn(&BeaconState, &AttestationData, u64) -> Result<Vec<usize>, BeaconStateError>,

    requires
        E::spec_slots_per_epoch() > 0,
        ctxt.answers(),
        forall|state: BeaconState| call_requires(build_caches, (&state,)),
    ensures
        exists|run: BaseRun| #[trigger]
            base_run::<E, B, P, V, F>(
                build_caches,
                *ctxt,
                *old(state),
                attestations@,
                verify_signatures,
                *final(state),
                r,
                run,
            ),
{
    let ghost pre = *state;
    let ghost mut run = BaseRun {
        caches: arbitrary(),
        cached: *state,
        proposer_index: arbitrary(),
        states: Seq::empty(),
    };
    // Ensure required caches are all built; those that could be built stay.
    let (caches, built) = build_caches(state);
    proof {
        run.caches = (caches, built);
    }
    state.caches = caches;
    proof {
        run.cached = *state;
    }
    match built {
        Ok(()) => {},
        Err(e) => {
            assert(base_run::<E, B, P, V, F>(
                build_caches,
                *ctxt,
                pre,
                attestations@,
                verify_signatures,
                *state,
                Err(e),
                run,
            ));
            return Err(e);
        },
    }
    let proposer_reply = (ctxt.get_proposer_index)(state);
    proof {
        run.proposer_index = proposer_reply;
        run.states = seq![*state];
    }
    let proposer_index: u64 = match proposer_reply {
        Ok(index) => index,
        Err(e) => {
            assert(base_run::<E, B, P, V, F>(
                build_caches,
                *ctxt,
                pre,
                attestations@,
                verify_signatures,
                *state,
                Err(e),
                run,
            ));
            return Err(e);
        },
    };
    let ghost start = run;
    let mut i: usize = 0;
    while i < attestations.len()
        invariant
            i <= attestations.len(),
            E::spec_slots_per_epoch() > 0,
            ctxt.answers(),
            pre == *old(state),
            run == (BaseRun { states: run.states, ..start }),
            call_ensures(build_caches, (&pre,), start.caches),
            start.caches.1 is Ok,
            start.cached@ == (StateModel { caches: start.caches.0@, ..pre@ }),
            call_ensures(ctxt.get_proposer_index, (&start.cached,), start.proposer_index),
            start.proposer_index == Ok::<u64, BlockProcessingError>(proposer_index),
            run.states.len() == i + 1,
            run.states.first() == start.cached,
            run.states.last() == *state,
            forall|k: int|
                0 <= k < i ==> base_applied::<E, P, V, F>(
                    *ctxt,
                    proposer_index,
                    #[trigger] run.states[k],
                    attestations@[k],
                    k as usize,
                    verify_signatures,
                    run.states[k + 1],
                    Ok(()),
                ),
        decreases attestations.len() - i,
    {
        let ghost before = run.states;
        let ghost stepped = *state;
        let verified = (ctxt.verify_attestation_for_block_inclusion)(
            state,
            &attestations[i],
            verify_signatures,
        );
        let ghost reply = verified;
        let outcome = match verified {
            Ok(_) => record_attestation::<E>(state, &attestations[i], proposer_index),
            Err(e) => Err(e.into_with_index(i)),
        };
        proof {
            assert((state@, outcome) == base_outcome(
                stepped@,
                attestations@[i as int],
                i,
                proposer_index,
                reply,
                E::spec_slots_per_epoch(),
                E::spec_max_pending_attestations(),
            ));
            assert(base_applied::<E, P, V, F>(
                *ctxt,
                proposer_index,
                stepped,
                attestations@[i as int],
                i,
                verify_signatures,
                *state,
                outcome,
            ));
            run.states = before.push(*state);
            assert forall|k: int| 0 <= k < i implies base_applied::<E, P, V, F>(
                *ctxt,
                proposer_index,
                #[trigger] run.states[k],
                attestations@[k],
                k as usize,
                verify_signatures,
                run.states[k + 1],
                Ok(()),
            ) by {
                assert(run.states[k] == before[k]);
            }
        }
        if let Err(e) = outcome {
            assert(base_run::<E, B, P, V, F>(
                build_caches,
                *ctxt,
                pre,
                attestations@,
                verify_signatures,
                *state,
                Err(e),
                run,
            ));
            return Err(e);
        }
        i = i + 1;
    }
    assert(base_run::<E, B, P, V, F>(
        build_caches,
        *ctxt,
        pre,
        attestations@,
        verify_signatures,
        *state,
        Ok(()),
        run,
    ));
    Ok(())
}

/// An attestation that is refused leaves the state alone; one that is accepted joins the end of
/// one list and leaves the other alone.
pub proof fn lemma_pending_attestations_only_join(
    state: StateModel,
    attestation: Attestation,
    att_index: usize,
    proposer_index: u64,
    verified: Result<Vec<u64>, AttestationVerificationError>,
    slots_per_epoch: u64,
    limit: usize,
)
    ensures
        ({
            let (post, r) = base_outcome(
                state,
                attestation,
                att_index,
                proposer_index,
                verified,
                slots_per_epoch,
                limit,
            );
            match r {
                Err(_) => post == state,
                Ok(()) => match (state.fork, post.fork) {
                    (
                        ForkModel::Base {
                            previous_epoch_attestations: a_previous,
                            current_epoch_attestations: a_current,
                        },
                        ForkModel::Base {
                            previous_epoch_attestations: b_previous,
                            current_epoch_attestations: b_current,
                        },
                    ) => {
                        ||| b_previous == a_previous && b_current.len() == a_current.len() + 1
                            && b_current.drop_last() == a_current && b_current.last().data
                            == attestation.spec_data()
                        ||| b_current == a_current && b_previous.len() == a_previous.len() + 1
                            && b_previous.drop_last() == a_previous && b_previous.last().data
                            == attestation.spec_data()
                    },
                    _ => false,
                },
            }
        }),
{
    let (post, r) = base_outcome(
        state,
        attestation,
        att_index,
        proposer_index,
        verified,
        slots_per_epoch,
        limit,
    );
    if r is Ok {
        match (state.fork, post.fork) {
            (
                ForkModel::Base {
                    previous_epoch_attestations: a_previous,
                    current_epoch_attestations: a_current,
                },
                ForkModel::Base {
                    previous_epoch_attestations: b_previous,
                    current_epoch_attestations: b_current,
                },
            ) => {
                if b_current.len() > a_current.len() {
                    assert(b_current.drop_last() =~= a_current);
                } else {
                    assert(b_previous.drop_last() =~= a_previous);
                }
            },
            _ => {},
        }
    }
}

} // verus!
