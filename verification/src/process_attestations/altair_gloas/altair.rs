//! Attestations from the Altair fork up to the fork before Gloas.

use super::{
    lemma_attest_all_fault, lemma_set_flags_frame, pay_proposer, proposer_reward,
    set_participation_flags, Effect, Fault, Tally,
};
use crate::arith::ArithError;
use crate::beacon_state::{AttestationData, BeaconState, StateModel, NUM_FLAG_INDICES};
use crate::errors::{AttestationVerificationError, BeaconStateError, BlockProcessingError};
use crate::primitives::Epoch;
use crate::process_attestations::{
    Attestation, AttestationCalls, ConsensusContext, VerifySignatures,
};
use vstd::prelude::*;

verus! {

/// The state after an attestation, and how it ended, given what the context answered.
pub open spec fn altair_outcome(
    state: StateModel,
    data: AttestationData,
    att_index: usize,
    previous_epoch: Epoch,
    current_epoch: Epoch,
    calls: AttestationCalls,
) -> (StateModel, Result<(), BlockProcessingError>) {
    match calls.proposer_index {
        Err(e) => (state, Err(e)),
        Ok(proposer_index) => match calls.attesting_indices {
            Err(e) => (state, Err(e.spec_into_with_index(att_index))),
            Ok(validators) => if data.slot.0 > state.slot.0 {
                (state, Err(BlockProcessingError::ArithError(ArithError::Overflow)))
            } else {
                match calls.participation_flag_indices {
                    Err(e) => (state, Err(BlockProcessingError::BeaconStateError(e))),
                    Ok(flag_indices) => {
                        let effect = Effect {
                            data,
                            previous_epoch,
                            current_epoch,
                            flag_indices: flag_indices@,
                            payment_index: None,
                        };
                        let before = Tally { state, reward_numerator: 0, weight: 0, fresh: false };
                        match effect.attest_all(before, validators@) {
                            Err(fault) => (fault.state, Err(fault.error)),
                            Ok(tally) => match pay_proposer(tally, proposer_index) {
                                Err(fault) => (fault.state, Err(fault.error)),
                                Ok(state) => (state, Ok(())),
                            },
                        }
                    },
                }
            },
        },
    }
}

/// Whether an attestation turns `pre` into `post` and ends with `r`.
pub open spec fn altair_applied<P, V, F>(
    ctxt: ConsensusContext<P, V, F>,
    pre: BeaconState,
    attestation: Attestation,
    att_index: usize,
    verify_signatures: VerifySignatures,
    post: BeaconState,
    r: Result<(), BlockProcessingError>,
) -> bool where
    P: Fn(&BeaconState) -> Result<u64, BlockProcessingError>,
    V: Fn(&BeaconState, &Attestation, VerifySignatures) -> Result<
        Vec<u64>,
        AttestationVerificationError,
    >,
    F: Fn(&BeaconState, &AttestationData, u64) -> Result<Vec<usize>, BeaconStateError>,
 {
    exists|calls: AttestationCalls| #[trigger]
        ctxt.answered(pre, attestation, verify_signatures, calls) && (post@, r) == altair_outcome(
            pre@,
            attestation.spec_data(),
            att_index,
            ctxt.previous_epoch,
            ctxt.current_epoch,
            calls,
        )
}

/// Applies what an attestation does to its validators, once it is known who signed it and which
/// flags it earns, and pays the proposer.
pub fn apply_attestation(
    state: &mut BeaconState,
    data: &AttestationData,
    previous_epoch: Epoch,
    current_epoch: Epoch,
    proposer_index: u64,
    attesting_indices: &Vec<u64>,
    participation_flag_indices: &Vec<usize>,
) -> (r: Result<(), BlockProcessingError>)
    requires
        data.slot.0 <= old(state)@.slot.0,
    ensures
        (final(state)@, r) == altair_outcome(
            old(state)@,
            *data,
            0,
            previous_epoch,
            current_epoch,
            (AttestationCalls {
                proposer_index: Ok(proposer_index),
                attesting_indices: Ok(*attesting_indices),
                participation_flag_indices: Ok(*participation_flag_indices),
            }),
        ),
{
    let ghost effect = Effect {
        data: *data,
        previous_epoch,
        current_epoch,
        flag_indices: participation_flag_indices@,
        payment_index: None,
    };
    let ghost before = Tally { state: state@, reward_numerator: 0, weight: 0, fresh: false };
    let ghost mut fresh = false;
    let mut proposer_reward_numerator: u64 = 0;
    let mut i: usize = 0;
    assert(attesting_indices@.take(0) =~= Seq::<u64>::empty());
    while i < attesting_indices.len()
        invariant
            i <= attesting_indices.len(),
            effect == (Effect {
                data: *data,
                previous_epoch,
                current_epoch,
                flag_indices: participation_flag_indices@,
                payment_index: None,
            }),
            before == (Tally {
                state: old(state)@,
                reward_numerator: 0,
                weight: 0,
                fresh: false,
            }),
            data.slot.0 <= old(state)@.slot.0,
            effect.attest_all(before, attesting_indices@.take(i as int)) == Ok::<Tally, Fault>(
                Tally {
                    state: state@,
                    reward_numerator: proposer_reward_numerator,
                    weight: 0,
                    fresh,
                },
            ),
        decreases attesting_indices.len() - i,
    {
        assert(attesting_indices@.take(i + 1).drop_last() =~= attesting_indices@.take(i as int));
        assert(attesting_indices@.take(i + 1).last() == attesting_indices@[i as int]);
        proof {
            if effect.attest_all(before, attesting_indices@.take(i + 1)) is Err {
                lemma_attest_all_fault(effect, before, attesting_indices@, (i + 1) as nat);
            }
        }
        let index: usize = attesting_indices[i] as usize;
        let validator_effective_balance: u64 = match state.get_effective_balance(index) {
            Ok(balance) => balance,
            Err(e) => {
                return Err(BlockProcessingError::EpochCacheError(e));
            },
        };
        let validator_slashed: bool = state.is_slashed(index);
        proof {
            lemma_set_flags_frame(
                effect,
                None,
                Tally {
                    state: state@,
                    reward_numerator: proposer_reward_numerator,
                    weight: 0,
                    fresh: false,
                },
                0,
                index,
                validator_effective_balance,
                validator_slashed,
                NUM_FLAG_INDICES as nat,
            );
        }
        let _set_new_flag: bool = match set_participation_flags(
            state,
            data,
            previous_epoch,
            current_epoch,
            participation_flag_indices,
            index,
            validator_effective_balance,
            validator_slashed,
            &mut proposer_reward_numerator,
        ) {
            Ok(b) => b,
            Err(e) => {
                return Err(e);
            },
        };
        proof {
            fresh = _set_new_flag;
        }
        i = i + 1;
    }
    assert(attesting_indices@.take(i as int) =~= attesting_indices@);
    let reward: u64 = match proposer_reward(proposer_reward_numerator) {
        Ok(reward) => reward,
        Err(e) => {
            return Err(BlockProcessingError::ArithError(e));
        },
    };
    match state.increase_balance(proposer_index as usize, reward) {
        Ok(()) => Ok(()),
        Err(e) => Err(BlockProcessingError::BeaconStateError(e)),
    }
}

/// Validates an attestation and applies it to the state.
pub fn process_attestation<P, V, F>(
    state: &mut BeaconState,
    attestation: &Attestation,
    att_index: usize,
    ctxt: &ConsensusContext<P, V, F>,
    verify_signatures: VerifySignatures,
) -> (r: Result<(), BlockProcessingError>) where
    P: Fn(&BeaconState) -> Result<u64, BlockProcessingError>,
    V: Fn(&BeaconState, &Attestation, VerifySignatures) -> Result<
        Vec<u64>,
        AttestationVerificationError,
    >,
    F: Fn(&BeaconState, &AttestationData, u64) -> Result<Vec<usize>, BeaconStateError>,

    requires
        ctxt.answers(),
    ensures
        altair_applied(
            *ctxt,
            *old(state),
            *attestation,
            att_index,
            verify_signatures,
            *final(state),
            r,
        ),
{
    let ghost pre = *state;
    let ghost mut calls = AttestationCalls {
        proposer_index: arbitrary(),
        attesting_indices: arbitrary(),
        participation_flag_indices: arbitrary(),
    };
    let proposer_index_reply = (ctxt.get_proposer_index)(state);
    proof {
        calls.proposer_index = proposer_index_reply;
    }
    let proposer_index: u64 = match proposer_index_reply {
        Ok(index) => index,
        Err(e) => {
            assert(ctxt.answered(pre, *attestation, verify_signatures, calls));
            return Err(e);
        },
    };
    let indexed_reply = (ctxt.verify_attestation_for_block_inclusion)(
        state,
        attestation,
        verify_signatures,
    );
    proof {
        calls.attesting_indices = indexed_reply;
    }
    let attesting_indices = match indexed_reply {
        Ok(indices) => indices,
        Err(e) => {
            assert(ctxt.answered(pre, *attestation, verify_signatures, calls));
            return Err(e.into_with_index(att_index));
        },
    };
    let data = attestation.data();
    let inclusion_delay: u64 = match state.slot.safe_sub(data.slot) {
        Ok(delay) => delay,
        Err(e) => {
            assert(ctxt.answered(pre, *attestation, verify_signatures, calls));
            return Err(BlockProcessingError::ArithError(e));
        },
    };
    let flags_reply = (ctxt.get_attestation_participation_flag_indices)(
        state,
        &data,
        inclusion_delay,
    );
    proof {
        calls.participation_flag_indices = flags_reply;
        assert(ctxt.answered(pre, *attestation, verify_signatures, calls));
    }
    let participation_flag_indices = match flags_reply {
        Ok(indices) => indices,
        Err(e) => {
            return Err(BlockProcessingError::BeaconStateError(e));
        },
    };
    apply_attestation(
        state,
        &data,
        ctxt.previous_epoch,
        ctxt.current_epoch,
        proposer_index,
        &attesting_indices,
        &participation_flag_indices,
    )
}

} // verus!
