//! Attestations from the Gloas fork on: they also count toward the builder's payment.

use super::{
    lemma_attest_all_fault, lemma_set_flags_frame, pay_proposer, proposer_reward,
    set_participation_flags, Effect, Fault, Tally,
};
use crate::arith::{
    fits_u64, remainder, safe_add_assign, safe_add_usize, safe_rem_usize, ArithError,
};
use crate::beacon_state::{
    AttestationData, BeaconState, BuilderPendingPayment, StateModel, NUM_FLAG_INDICES,
};
use crate::errors::{AttestationVerificationError, BeaconStateError, BlockProcessingError};
use crate::eth_spec::EthSpec;
use crate::primitives::Epoch;
use crate::process_attestations::{
    is_attestation_same_slot, Attestation, AttestationCalls, ConsensusContext, VerifySignatures,
};
use vstd::prelude::*;

verus! {

/// The builder payment that an attestation counts toward.
///
/// The payments of the previous epoch come first, those of the current epoch follow, one for each
/// slot.
pub open spec fn payment_index(
    slots_per_epoch: u64,
    state: StateModel,
    data: AttestationData,
) -> Result<usize, ArithError> {
    match remainder(data.slot.0 as usize, slots_per_epoch as usize) {
        Err(e) => Err(e),
        Ok(slot_mod) => if data.target.epoch != state.slot.spec_epoch(slots_per_epoch) {
            Ok(slot_mod)
        } else if slots_per_epoch as usize + slot_mod > usize::MAX {
            Err(ArithError::Overflow)
        } else {
            Ok((slots_per_epoch as usize + slot_mod) as usize)
        },
    }
}

/// The state after `weight` has been added to a builder payment.
pub open spec fn add_payment_weight(
    state: StateModel,
    payment_index: usize,
    weight: u64,
) -> (StateModel, Result<(), BlockProcessingError>) {
    if weight == 0 {
        (state, Ok(()))
    } else {
        match state.builder_pending_payments() {
            Err(e) => (state, Err(BlockProcessingError::BeaconStateError(e))),
            Ok(payments) => if payment_index >= payments.len() {
                (state, Err(BlockProcessingError::BuilderPaymentIndexOutOfBounds(payment_index)))
            } else {
                let payment = payments[payment_index as int];
                match fits_u64(payment.weight + weight) {
                    Err(e) => (state, Err(BlockProcessingError::ArithError(e))),
                    Ok(weight) => (
                        state.with_builder_pending_payments(
                            payments.update(
                                payment_index as int,
                                BuilderPendingPayment { weight, ..payment },
                            ),
                        ),
                        Ok(()),
                    ),
                }
            },
        }
    }
}

/// The state after an attestation, and how it ended, given what the context answered.
pub open spec fn gloas_outcome(
    slots_per_epoch: u64,
    state: StateModel,
    data: AttestationData,
    att_index: usize,
    previous_epoch: Epoch,
    current_epoch: Epoch,
    calls: AttestationCalls,
) -> (StateModel, Result<(), BlockProcessingError>) {
    match calls.proposer_index {
        Err(e) => (state, Err(e)),
        Ok(proposer_index) => match calls.attesting_indices {
            Err(e) => (state, Err(e.spec_into_with_index(att_index))),
            Ok(validators) => if data.slot.0 > state.slot.0 {
                (state, Err(BlockProcessingError::ArithError(ArithError::Overflow)))
            } else {
                match calls.participation_flag_indices {
                    Err(e) => (state, Err(BlockProcessingError::BeaconStateError(e))),
                    Ok(flag_indices) => match payment_index(slots_per_epoch, state, data) {
                        Err(e) => (state, Err(BlockProcessingError::ArithError(e))),
                        Ok(payment_index) => {
                            let effect = Effect {
                                data,
                                previous_epoch,
                                current_epoch,
                                flag_indices: flag_indices@,
                                payment_index: Some(payment_index),
                            };
                            let before = Tally {
                                state,
                                reward_numerator: 0,
                                weight: 0,
                                fresh: false,
                            };
                            match effect.attest_all(before, validators@) {
                                Err(fault) => (fault.state, Err(fault.error)),
                                Ok(tally) => match pay_proposer(tally, proposer_index) {
                                    Err(fault) => (fault.state, Err(fault.error)),
                                    Ok(state) => add_payment_weight(
                                        state,
                                        payment_index,
                                        tally.weight,
                                    ),
                                },
                            }
                        },
                    },
                }
            },
        },
    }
}

/// Whether an attestation turns `pre` into `post` and ends with `r`.
pub open spec fn gloas_applied<P, V, F>(
    slots_per_epoch: u64,
    ctxt: ConsensusContext<P, V, F>,
    pre: BeaconState,
    attestation: Attestation,
    att_index: usize,
    verify_signatures: VerifySignatures,
    post: BeaconState,
    r: Result<(), BlockProcessingError>,
) -> bool where
    P: Fn(&BeaconState) -> Result<u64, BlockProcessingError>,
    V: Fn(&BeaconState, &Attestation, VerifySignatures) -> Result<
        Vec<u64>,
        AttestationVerificationError,
    >,
    F: Fn(&BeaconState, &AttestationData, u64) -> Result<Vec<usize>, BeaconStateError>,
 {
    exists|calls: AttestationCalls| #[trigger]
        ctxt.answered(pre, attestation, verify_signatures, calls) && (post@, r) == gloas_outcome(
            slots_per_epoch,
            pre@,
            attestation.spec_data(),
            att_index,
            ctxt.previous_epoch,
            ctxt.current_epoch,
            calls,
        )
}

/// Applies what an attestation does to its validators, once it is known who signed it and which
/// flags it earns, and pays the proposer.
pub fn apply_attestation<E: EthSpec>(
    state: &mut BeaconState,
    data: &AttestationData,
    previous_epoch: Epoch,
    current_epoch: Epoch,
    proposer_index: u64,
    attesting_indices: &Vec<u64>,
    participation_flag_indices: &Vec<usize>,
) -> (r: Result<(), BlockProcessingError>)
    requires
        E::spec_slots_per_epoch() > 0,
        data.slot.0 <= old(state)@.slot.0,
    ensures
        (final(state)@, r) == gloas_outcome(
            E::spec_slots_per_epoch(),
            old(state)@,
            *data,
            0,
            previous_epoch,
            current_epoch,
            (AttestationCalls {
                proposer_index: Ok(proposer_index),
                attesting_indices: Ok(*attesting_indices),
                participation_flag_indices: Ok(*participation_flag_indices),
            }),
        ),
{
    let slots_per_epoch: u64 = E::slots_per_epoch();
    let current_epoch_target: bool = data.target.epoch == state.current_epoch(slots_per_epoch);
    let slot_mod: usize = match safe_rem_usize(data.slot.0 as usize, slots_per_epoch as usize) {
        Ok(slot_mod) => slot_mod,
        Err(e) => {
            return Err(BlockProcessingError::ArithError(e));
        },
    };
    let payment_index: usize = if current_epoch_target {
        match safe_add_usize(slots_per_epoch as usize, slot_mod) {
            Ok(index) => index,
            Err(e) => {
                return Err(BlockProcessingError::ArithError(e));
            },
        }
    } else {
        slot_mod
    };
    let ghost effect = Effect {
        data: *data,
        previous_epoch,
        current_epoch,
        flag_indices: participation_flag_indices@,
        payment_index: Some(payment_index),
    };
    let mut accumulated_weight: u64 = 0;
    let ghost before = Tally { state: state@, reward_numerator: 0, weight: 0, fresh: false };
    let ghost mut fresh = false;
    let mut proposer_reward_numerator: u64 = 0;
    let mut i: usize = 0;
    assert(attesting_indices@.take(0) =~= Seq::<u64>::empty());
    while i < attesting_indices.len()
        invariant
            i <= attesting_indices.len(),
            effect == (Effect {
                data: *data,
                previous_epoch,
                current_epoch,
                flag_indices: participation_flag_indices@,
                payment_index: Some(payment_index),
            }),
            self::payment_index(E::spec_slots_per_epoch(), old(state)@, *data) == Ok::<
                usize,
                ArithError,
            >(payment_index),
            before == (Tally {
                state: old(state)@,
                reward_numerator: 0,
                weight: 0,
                fresh: false,
            }),
            data.slot.0 <= old(state)@.slot.0,
            effect.attest_all(before, attesting_indices@.take(i as int)) == Ok::<Tally, Fault>(
                Tally {
                    state: state@,
                    reward_numerator: proposer_reward_numerator,
                    weight: accumulated_weight,
                    fresh,
                },
            ),
        decreases attesting_indices.len() - i,
    {
        assert(attesting_indices@.take(i + 1).drop_last() =~= attesting_indices@.take(i as int));
        assert(attesting_indices@.take(i + 1).last() == attesting_indices@[i as int]);
        proof {
            if effect.attest_all(before, attesting_indices@.take(i + 1)) is Err {
                lemma_attest_all_fault(effect, before, attesting_indices@, (i + 1) as nat);
            }
        }
        let index: usize = attesting_indices[i] as usize;
        let validator_effective_balance: u64 = match state.get_effective_balance(index) {
            Ok(balance) => balance,
            Err(e) => {
                return Err(BlockProcessingError::EpochCacheError(e));
            },
        };
        let validator_slashed: bool = state.is_slashed(index);
        proof {
            lemma_set_flags_frame(
                Effect { payment_index: None, ..effect },
                Some(payment_index),
                Tally {
                    state: state@,
                    reward_numerator: proposer_reward_numerator,
                    weight: 0,
                    fresh: false,
                },
                accumulated_weight,
                index,
                validator_effective_balance,
                validator_slashed,
                NUM_FLAG_INDICES as nat,
            );
        }
        let will_set_new_flag: bool = match set_participation_flags(
            state,
            data,
            previous_epoch,
            current_epoch,
            participation_flag_indices,
            index,
            validator_effective_balance,
            validator_slashed,
            &mut proposer_reward_numerator,
        ) {
            Ok(b) => b,
            Err(e) => {
                return Err(e);
            },
        };
        proof {
            fresh = will_set_new_flag;
        }
        // The payment has to exist even where it gains nothing.
        let payment_amount: u64 = match state.builder_pending_payments() {
            Ok(payments) => {
                if payment_index >= payments.len() {
                    return Err(
                        BlockProcessingError::BuilderPaymentIndexOutOfBounds(payment_index),
                    );
                }
                payments[payment_index].withdrawal.amount
            },
            Err(e) => {
                return Err(BlockProcessingError::BeaconStateError(e));
            },
        };
        // A validator counts once for a slot: when it sets a flag for the first time.
        if will_set_new_flag {
            match is_attestation_same_slot(state, data) {
                Ok(same_slot) => {
                    if same_slot && payment_amount > 0 {
                        match safe_add_assign(
                            &mut accumulated_weight,
                            validator_effective_balance,
                        ) {
                            Ok(()) => {},
                            Err(e) => {
                                return Err(BlockProcessingError::ArithError(e));
                            },
                        }
                    }
                },
                Err(e) => {
                    return Err(BlockProcessingError::BeaconStateError(e));
                },
            }
        }
        i = i + 1;
    }
    assert(attesting_indices@.take(i as int) =~= attesting_indices@);
    let reward: u64 = match proposer_reward(proposer_reward_numerator) {
        Ok(reward) => reward,
        Err(e) => {
            return Err(BlockProcessingError::ArithError(e));
        },
    };
    match state.increase_balance(proposer_index as usize, reward) {
        Ok(()) => {},
        Err(e) => {
            return Err(BlockProcessingError::BeaconStateError(e));
        },
    }
    if accumulated_weight > 0 {
        let builder_payments = match state.builder_pending_payments_mut() {
            Ok(payments) => payments,
            Err(e) => {
                return Err(BlockProcessingError::BeaconStateError(e));
            },
        };
        if payment_index >= builder_payments.len() {
            return Err(BlockProcessingError::BuilderPaymentIndexOutOfBounds(payment_index));
        }
        let mut payment = builder_payments[payment_index];
        match safe_add_assign(&mut payment.weight, accumulated_weight) {
            Ok(()) => {
                builder_payments[payment_index] = payment;
            },
            Err(e) => {
                return Err(BlockProcessingError::ArithError(e));
            },
        }
    }
    Ok(())
}

/// Validates an attestation and applies it to the state.
pub fn process_attestation<E: EthSpec, P, V, F>(
    state: &mut BeaconState,
    attestation: &Attestation,
    att_index: usize,
    ctxt: &ConsensusContext<P, V, F>,
    verify_signatures: VerifySignatures,
) -> (r: Result<(), BlockProcessingError>) where
    P: Fn(&BeaconState) -> Result<u64, BlockProcessingError>,
    V: Fn(&BeaconState, &Attestation, VerifySignatures) -> Result<
        Vec<u64>,
        AttestationVerificationError,
    >,
    F: Fn(&BeaconState, &AttestationData, u64) -> Result<Vec<usize>, BeaconStateError>,

    requires
        E::spec_slots_per_epoch() > 0,
        ctxt.answers(),
    ensures
        gloas_applied(
            E::spec_slots_per_epoch(),
            *ctxt,
            *old(state),
            *attestation,
            att_index,
            verify_signatures,
            *final(state),
            r,
        ),
{
    let ghost pre = *state;
    let ghost mut calls = AttestationCalls {
        proposer_index: arbitrary(),
        attesting_indices: arbitrary(),
        participation_flag_indices: arbitrary(),
    };
    let proposer_index_reply = (ctxt.get_proposer_index)(state);
    proof {
        calls.proposer_index = proposer_index_reply;
    }
    let proposer_index: u64 = match proposer_index_reply {
        Ok(index) => index,
        Err(e) => {
            assert(ctxt.answered(pre, *attestation, verify_signatures, calls));
            return Err(e);
        },
    };
    let indexed_reply = (ctxt.verify_attestation_for_block_inclusion)(
        state,
        attestation,
        verify_signatures,
    );
    proof {
        calls.attesting_indices = indexed_reply;
    }
    let attesting_indices = match indexed_reply {
        Ok(indices) => indices,
        Err(e) => {
            assert(ctxt.answered(pre, *attestation, verify_signatures, calls));
            return Err(e.into_with_index(att_index));
        },
    };
    let data = attestation.data();
    let inclusion_delay: u64 = match state.slot.safe_sub(data.slot) {
        Ok(delay) => delay,
        Err(e) => {
            assert(ctxt.answered(pre, *attestation, verify_signatures, calls));
            return Err(BlockProcessingError::ArithError(e));
        },
    };
    let flags_reply = (ctxt.get_attestation_participation_flag_indices)(
        state,
        &data,
        inclusion_delay,
    );
    proof {
        calls.participation_flag_indices = flags_reply;
        assert(ctxt.answered(pre, *attestation, verify_signatures, calls));
    }
    let participation_flag_indices = match flags_reply {
        Ok(indices) => indices,
        Err(e) => {
            return Err(BlockProcessingError::BeaconStateError(e));
        },
    };
    apply_attestation::<E>(
        state,
        &data,
        ctxt.previous_epoch,
        ctxt.current_epoch,
        proposer_index,
        &attesting_indices,
        &participation_flag_indices,
    )
}

} // verus!
