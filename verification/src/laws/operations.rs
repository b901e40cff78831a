//! What the main operations of the library give back and leave behind.

use super::attestations::{
    balance_of_gainers, flags_of, lemma_payment_gains_the_balances_of_new_voters, payments_of,
    sum_of_distinct, votes_for_own_slot,
};
use super::envelopes::{
    contents, lemma_envelope_passes_when_it_agrees, names_the_current_mix, names_the_slot_time,
};
use super::payments::lemma_quorum_is_the_share_of_a_slot;
use super::ptc::{drawn_for, lemma_cached_ptc_is_drawn_for_its_slot};
use super::services::{
    lemma_every_signed_duty_leads_to_its_message, message_for_each_signed_duty,
};
use crate::beacon_state::{AttestationData, BeaconState, ForkFields, StateModel};
use crate::builder_payments::get_builder_payment_quorum_threshold;
use crate::envelope_verification::{verify_consistency, EnvelopeRoots};
use crate::errors::{
    BeaconStateError, BlockProcessingError, EnvelopeError, EpochProcessingError,
};
use crate::eth_spec::{ChainSpec, EthSpec};
use crate::execution_payload_envelope::ExecutionPayloadEnvelopeRef;
use crate::payload_attestation_service::{
    collect_signed, PayloadAttestationData, PayloadAttestationMessage,
};
use crate::primitives::{Epoch, Hash256, RelativeEpoch, Signature, Slot};
use crate::process_attestations::altair_gloas::gloas::{apply_attestation, gloas_outcome};
use crate::process_attestations::AttestationCalls;
use crate::ptc_cache::{initialization, PTCCache, PtcRun, PtcSource, PTC};
use crate::ptc_duties::PtcDuty;
use std::sync::Arc;
use vstd::prelude::*;

verus! {

/// The quorum that is computed for a state is the share of its active balance that falls to a slot,
/// rounded down.
pub proof fn lemma_computed_quorum_is_the_share_of_a_slot<E: EthSpec>(
    state: BeaconState,
    spec: ChainSpec,
    r: Result<u64, EpochProcessingError>,
)
    requires
        call_ensures(get_builder_payment_quorum_threshold::<E>, (&state, &spec), r),
    ensures
        r matches Ok(q) ==> state.total_active_balance matches Some(total) && q
            * spec.builder_payment_threshold_denominator <= (total / E::spec_slots_per_epoch())
            * spec.builder_payment_threshold_numerator < (q + 1)
            * spec.builder_payment_threshold_denominator,
        r is Ok <==> {
            &&& state.total_active_balance is Some
            &&& E::spec_slots_per_epoch() > 0
            &&& spec.builder_payment_threshold_denominator > 0
            &&& (state.total_active_balance->0 / E::spec_slots_per_epoch())
                * spec.builder_payment_threshold_numerator <= u64::MAX
        },
{
    lemma_quorum_is_the_share_of_a_slot(state@, spec, E::spec_slots_per_epoch());
    if state.total_active_balance is Some && E::spec_slots_per_epoch() > 0 {
        assert((state.total_active_balance->0 / E::spec_slots_per_epoch())
            * spec.builder_payment_threshold_numerator >= 0) by (nonlinear_arith)
            requires
                E::spec_slots_per_epoch() > 0,
        ;
    }
}

/// The quorum that is computed never falls when the active balance grows.
pub proof fn lemma_computed_quorum_grows_with_the_active_balance<E: EthSpec>(
    state: BeaconState,
    later: BeaconState,
    spec: ChainSpec,
    r: Result<u64, EpochProcessingError>,
    later_r: Result<u64, EpochProcessingError>,
)
    requires
        call_ensures(get_builder_payment_quorum_threshold::<E>, (&state, &spec), r),
        call_ensures(get_builder_payment_quorum_threshold::<E>, (&later, &spec), later_r),
        state.total_active_balance is Some,
        later.total_active_balance is Some,
        state.total_active_balance->0 <= later.total_active_balance->0,
        later_r is Ok,
    ensures
        r matches Ok(q) && q <= later_r->Ok_0,
{
    super::payments::lemma_quorum_grows_with_the_active_balance(
        state@,
        later@,
        spec,
        E::spec_slots_per_epoch(),
    );
}

/// The messages that are collected are one for each duty for the slot of the data whose signature
/// was given, in the order of the duties, whatever the data says of payload and blobs.
pub proof fn lemma_collected_messages_are_those_of_the_signed_duties(
    duties: Vec<PtcDuty>,
    data: PayloadAttestationData,
    signatures: Vec<Option<Signature>>,
    r: Vec<PayloadAttestationMessage>,
)
    requires
        signatures@.len() == duties@.len(),
        call_ensures(collect_signed, (&duties, &data, &signatures), r),
    ensures
        exists|which: Seq<int>|
            message_for_each_signed_duty(duties@, data, signatures@, r@, which),
{
    lemma_every_signed_duty_leads_to_its_message(duties@, data, signatures@);
}

/// An envelope passes the check against a state exactly when it agrees with the roots, with the bid
/// in the state and, unless its payload was withheld, with the latest withdrawals and the latest
/// block there, with the entry of the list of RANDAO mixes for the current epoch, and with the time
/// of the state's slot.
pub proof fn lemma_checked_envelope_agrees_with_the_state<E: EthSpec>(
    envelope: ExecutionPayloadEnvelopeRef<'_>,
    payload_withheld: bool,
    state: BeaconState,
    roots: EnvelopeRoots,
    spec: ChainSpec,
    r: Result<(), EnvelopeError>,
)
    requires
        E::spec_slots_per_epoch() > 0,
        state.slot.0 / E::spec_slots_per_epoch() <= usize::MAX,
        call_ensures(
            verify_consistency::<E>,
            (&envelope, payload_withheld, &state, &roots, &spec),
            r,
        ),
    ensures
        ({
            let held = contents(envelope);
            let epoch = state.slot.0 / E::spec_slots_per_epoch();
            let mixes = state.randao_mixes@;
            r is Ok <==> held.beacon_block_root == roots.block_header && match state.fork {
                ForkFields::Gloas {
                    latest_block_hash,
                    latest_execution_bid,
                    latest_withdrawals_root,
                    ..
                } => {
                    &&& latest_execution_bid.blob_kzg_commitments_root == roots.blob_kzg_commitments
                    &&& payload_withheld || {
                        &&& roots.withdrawals == latest_withdrawals_root
                        &&& held.payload.gas_limit == latest_execution_bid.gas_limit
                        &&& held.payload.block_hash == latest_execution_bid.block_hash
                        &&& held.payload.parent_hash == latest_block_hash
                        &&& mixes.len() > 0
                        &&& epoch < u64::MAX
                        &&& held.payload.prev_randao == mixes[epoch as int % mixes.len() as int]
                        &&& spec.genesis_slot <= state.slot.0
                        &&& held.payload.timestamp == state.genesis_time + (state.slot.0
                            - spec.genesis_slot) * spec.seconds_per_slot
                        &&& held.blob_kzg_commitments@.len()
                            <= E::spec_max_blob_commitments_per_block()
                    }
                },
                _ => false,
            }
        }),
{
    assert(state.randao_mixes@.len() == state.randao_mixes.len());
    lemma_envelope_passes_when_it_agrees::<E>(envelope, payload_withheld, state@, roots, spec);
    assert(names_the_current_mix(contents(envelope), state@, E::spec_slots_per_epoch()) == ({
        let epoch = state.slot.0 / E::spec_slots_per_epoch();
        let mixes = state.randao_mixes@;
        &&& mixes.len() > 0
        &&& epoch < u64::MAX
        &&& contents(envelope).payload.prev_randao == mixes[epoch as int % mixes.len() as int]
    }));
    assert(names_the_slot_time(contents(envelope), state@, spec) == (spec.genesis_slot
        <= state.slot.0 && contents(envelope).payload.timestamp == state.genesis_time + (
    state.slot.0 - spec.genesis_slot) * spec.seconds_per_slot));
}

/// The committee that a cache gives for a slot of its epoch was drawn for that very slot: with a
/// seed that was answered for it, from its own beacon committees, one after the other.
pub proof fn lemma_given_ptc_was_drawn_for_its_slot<E: EthSpec, A, S, C, B, W>(
    source: PtcSource<A, S, C, B, W>,
    state: StateModel,
    epoch: Epoch,
    spec: ChainSpec,
    run: PtcRun,
    cache: Arc<PTCCache>,
    slot: Slot,
    r: Result<PTC, BeaconStateError>,
) where
    A: Fn(RelativeEpoch) -> Result<Vec<usize>, BeaconStateError>,
    S: Fn(Slot) -> Result<Hash256, BeaconStateError>,
    C: Fn(Slot) -> Result<u64, BeaconStateError>,
    B: Fn(Slot, u64) -> Result<Vec<usize>, BeaconStateError>,
    W: Fn(&Vec<usize>, &Hash256, usize) -> Result<Vec<usize>, BeaconStateError>,

    requires
        source.answers(),
        state.fork is Gloas,
        initialization::<E, A, S, C, B, W>(source, state, epoch, spec, run, Ok(cache)),
        epoch.0 * E::spec_slots_per_epoch() <= slot.0 < epoch.0 * E::spec_slots_per_epoch()
            + E::spec_slots_per_epoch(),
        call_ensures(PTCCache::get_ptc::<E>, (&*cache, slot), r),
    ensures
        r is Ok,
        exists|
            seed: Hash256,
            committees: Seq<Vec<usize>>,
            candidates: Vec<usize>,
            seats: Vec<usize>,
        | #[trigger]
            drawn_for(
                source,
                slot,
                E::spec_ptc_size(),
                seed,
                committees,
                candidates,
                seats,
            ) && r->Ok_0.0@ == seats@,
{
    lemma_cached_ptc_is_drawn_for_its_slot::<E, A, S, C, B, W>(
        source,
        state,
        epoch,
        spec,
        run,
        cache,
        slot,
    );
}

/// Once a Gloas attestation has been applied, the weight of the payment of its slot is what it was
/// before and, if it votes for the block of its own slot and the payment is not empty, the
/// effective balances of its validators that gained a flag, each once. All else about the payments
/// is as it was.
pub proof fn lemma_applied_attestation_adds_to_its_payment<E: EthSpec>(
    state: &mut BeaconState,
    data: AttestationData,
    previous_epoch: Epoch,
    current_epoch: Epoch,
    proposer_index: u64,
    attesting_indices: Vec<u64>,
    participation_flag_indices: Vec<usize>,
    r: Result<(), BlockProcessingError>,
)
    requires
        call_ensures(
            apply_attestation::<E>,
            (
                state,
                &data,
                previous_epoch,
                current_epoch,
                proposer_index,
                &attesting_indices,
                &participation_flag_indices,
            ),
            r,
        ),
        r is Ok,
        data.slot.0 <= usize::MAX,
        E::spec_slots_per_epoch() <= usize::MAX,
    ensures
        ({
            let pre = old(state)@;
            let post = final(state)@;
            let slots_per_epoch = E::spec_slots_per_epoch();
            let current = data.target.epoch == current_epoch;
            let position = data.slot.0 % slots_per_epoch + (if data.target.epoch.0 == pre.slot.0
                / slots_per_epoch {
                slots_per_epoch as int
            } else {
                0
            });
            match (payments_of(pre), payments_of(post)) {
                (Some(before), Some(after)) => {
                    &&& after.len() == before.len()
                    &&& attesting_indices@.len() > 0 ==> position < before.len()
                    &&& position < before.len() ==> {
                        &&& after[position].withdrawal == before[position].withdrawal
                        &&& after[position].weight == before[position].weight + (
                        if votes_for_own_slot(pre, data) && before[position].withdrawal.amount
                            > 0 {
                            sum_of_distinct(
                                attesting_indices@,
                                balance_of_gainers(
                                    pre,
                                    flags_of(pre, current),
                                    flags_of(post, current),
                                ),
                            )
                        } else {
                            0
                        })
                    }
                    &&& forall|i: int|
                        0 <= i < before.len() && i != position ==> #[trigger] after[i]
                            == before[i]
                },
                (None, None) => attesting_indices@.len() == 0,
                _ => false,
            }
        }),
{
    let calls = AttestationCalls {
        proposer_index: Ok(proposer_index),
        attesting_indices: Ok(attesting_indices),
        participation_flag_indices: Ok(participation_flag_indices),
    };
    lemma_payment_gains_the_balances_of_new_voters(
        E::spec_slots_per_epoch(),
        old(state)@,
        data,
        0,
        previous_epoch,
        current_epoch,
        calls,
    );
    assert((final(state)@, r) == gloas_outcome(
        E::spec_slots_per_epoch(),
        old(state)@,
        data,
        0,
        previous_epoch,
        current_epoch,
        calls,
    ));
}

} // verus!
