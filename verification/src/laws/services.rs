//! What the services beside a validator send, and when.

use crate::eth_spec::{ChainSpec, EthSpec};
use crate::payload_attestation_service::{
    duty_matches, message_to_sign, next_attestation_step, next_attestation_wait, publish_leads_to,
    signed_messages, start_decision, AttestationStep, AttestationWait, PayloadAttestationData,
    PayloadAttestationMessage, PayloadAttestationService, PayloadAttestationServiceBuilder,
    PublishEvent, PublishState, ServiceStart,
};
use crate::primitives::{PublicKeyBytes, Signature, Slot};
use crate::ptc_duties::PtcDuty;
use crate::text::hex;
use crate::time_span::{current_slot, SlotClock, TimeSpan, MAX_NANOS};
use std::sync::Arc;
use vstd::prelude::*;

verus! {

/// Whether `which` holds the positions of the duties for the slot of the data that were signed, in
/// order, and `messages` holds one message for each of them: by the validator with the duty, with
/// the data and the signature that it gave.
pub open spec fn message_for_each_signed_duty(
    duties: Seq<PtcDuty>,
    data: PayloadAttestationData,
    signatures: Seq<Option<Signature>>,
    messages: Seq<PayloadAttestationMessage>,
    which: Seq<int>,
) -> bool {
    &&& messages.len() == which.len()
    &&& forall|m: int, n: int| 0 <= m < n < which.len() ==> which[m] < which[n]
    &&& forall|m: int|
        0 <= m < which.len() ==> 0 <= #[trigger] which[m] < duties.len() && duties[which[m]].slot
            == data.slot && signatures[which[m]] is Some && messages[m]
            == PayloadAttestationMessage {
            validator_index: duties[which[m]].validator_index,
            data,
            signature: signatures[which[m]]->0,
        }
    &&& forall|i: int|
        0 <= i < duties.len() && (#[trigger] duties[i]).slot == data.slot && signatures[i] is Some
            ==> which.contains(i)
}

/// Every duty for the slot of the data whose signature was given leads to exactly one message, with
/// that validator, the data and that signature, in the order of the duties, whatever the data says
/// of payload and blobs. Nothing else leads to a message.
pub proof fn lemma_every_signed_duty_leads_to_its_message(
    duties: Seq<PtcDuty>,
    data: PayloadAttestationData,
    signatures: Seq<Option<Signature>>,
)
    requires
        signatures.len() == duties.len(),
    ensures
        exists|which: Seq<int>|
            message_for_each_signed_duty(
                duties,
                data,
                signatures,
                signed_messages(duties, data, signatures),
                which,
            ),
    decreases duties.len(),
{
    let messages = signed_messages(duties, data, signatures);
    if duties.len() == 0 {
        assert(message_for_each_signed_duty(duties, data, signatures, messages, Seq::empty()));
    } else {
        let earlier_duties = duties.drop_last();
        let earlier_signatures = signatures.drop_last();
        let last = duties.len() - 1;
        lemma_every_signed_duty_leads_to_its_message(earlier_duties, data, earlier_signatures);
        let earlier = signed_messages(earlier_duties, data, earlier_signatures);
        let before = choose|which: Seq<int>|
            message_for_each_signed_duty(
                earlier_duties,
                data,
                earlier_signatures,
                earlier,
                which,
            );
        let which = if duties[last].slot == data.slot && signatures[last] is Some {
            before.push(last)
        } else {
            before
        };
        assert forall|i: int|
            0 <= i < duties.len() && (#[trigger] duties[i]).slot == data.slot && signatures[i]
                is Some implies which.contains(i) by {
            if i < last {
                assert(earlier_duties[i] == duties[i]);
                let m = choose|m: int| 0 <= m < before.len() && before[m] == i;
                assert(which[m] == i);
            } else {
                assert(which[which.len() - 1] == i);
            }
        }
        assert forall|m: int| 0 <= m < which.len() implies 0 <= #[trigger] which[m] < duties.len()
            && duties[which[m]].slot == data.slot && signatures[which[m]] is Some && messages[m]
            == (PayloadAttestationMessage {
            validator_index: duties[which[m]].validator_index,
            data,
            signature: signatures[which[m]]->0,
        }) by {
            if m < before.len() {
                assert(which[m] == before[m]);
                assert(earlier_duties[before[m]] == duties[before[m]]);
            }
        }
        assert(message_for_each_signed_duty(duties, data, signatures, messages, which));
    }
}

/// The publication goes from the start to the fetching of the data, unless there is no duty; from
/// the data to the signing; from the signatures to the posting of one message for each signed duty,
/// unless there is none; and ends with whether the messages were taken. Nothing else moves it.
pub proof fn lemma_publication_goes_step_by_step(
    duties: Seq<PtcDuty>,
    state: PublishState,
    event: PublishEvent,
    next: PublishState,
)
    requires
        publish_leads_to(duties, state, event, next),
        event matches PublishEvent::Signed(signatures) ==> signatures@.len() == duties.len(),
    ensures
        match (state, event) {
            (PublishState::Idle, PublishEvent::Started) => if duties.len() > 0 {
                next is Fetching
            } else {
                next == PublishState::Finished(true)
            },
            (PublishState::Fetching, PublishEvent::DataFetched(Some(data))) => next
                == PublishState::Signing(data),
            (PublishState::Fetching, PublishEvent::DataFetched(None)) => next
                == PublishState::Finished(false),
            (PublishState::Signing(data), PublishEvent::Signed(signatures)) => {
                ||| next matches PublishState::Posting(messages) && messages@.len() > 0 && exists|
                    which: Seq<int>,
                |
                    message_for_each_signed_duty(duties, data, signatures@, messages@, which)
                ||| next == PublishState::Finished(false) && forall|i: int|
                    0 <= i < duties.len() ==> (#[trigger] duties[i]).slot != data.slot
                        || signatures@[i] is None
            },
            (PublishState::Posting(_), PublishEvent::Posted(taken)) => next
                == PublishState::Finished(taken),
            _ => next == state,
        },
{
    match (state, event) {
        (PublishState::Signing(data), PublishEvent::Signed(signatures)) => {
            lemma_every_signed_duty_leads_to_its_message(duties, data, signatures@);
            let messages = signed_messages(duties, data, signatures@);
            let which = choose|which: Seq<int>|
                message_for_each_signed_duty(duties, data, signatures@, messages, which);
            if messages.len() == 0 {
                assert forall|i: int| 0 <= i < duties.len() implies (#[trigger] duties[i]).slot
                    != data.slot || signatures@[i] is None by {
                    assert(!which.contains(i));
                }
            }
        },
        _ => {},
    }
}

/// The service runs unless attesting is disabled or the clock cannot be read, and starts with the
/// time to the next slot.
pub proof fn lemma_service_runs_unless_disabled(
    disable_attesting: bool,
    duration_to_next_slot: Option<TimeSpan>,
    r: Result<ServiceStart, String>,
)
    requires
        call_ensures(start_decision, (disable_attesting, duration_to_next_slot), r),
    ensures
        match r {
            Ok(ServiceStart::Disabled) => disable_attesting,
            Ok(ServiceStart::Running { duration_to_next_slot: time }) => !disable_attesting
                && duration_to_next_slot == Some(time),
            Err(message) => !disable_attesting && duration_to_next_slot is None && message@
                == "Unable to determine duration to next slot"@,
        },
{
}

/// Payloads are attested to three quarters into the next slot, rounded down to a nanosecond;
/// without a clock the service waits for a slot.
pub proof fn lemma_attestations_are_due_three_quarters_into_the_slot(
    duration_to_next_slot: Option<TimeSpan>,
    slot_duration: TimeSpan,
    r: AttestationWait,
)
    requires
        slot_duration.0 * 3 <= MAX_NANOS,
        duration_to_next_slot matches Some(rest) ==> rest.0 + slot_duration.0 * 3 / 4
            <= MAX_NANOS,
        call_ensures(next_attestation_wait, (duration_to_next_slot, slot_duration), r),
    ensures
        match (duration_to_next_slot, r) {
            (Some(rest), AttestationWait::UntilDue(wait)) => {
                let into_the_slot = wait.0 - rest.0;
                4 * into_the_slot <= 3 * slot_duration.0 < 4 * into_the_slot + 4
            },
            (None, AttestationWait::ClockUnreadable(wait)) => wait == slot_duration,
            _ => false,
        },
{
}

/// Payloads are attested to from the first slot of the first epoch of the Gloas fork on, if the
/// fork is scheduled and the clock can be read.
pub proof fn lemma_payloads_are_attested_to_from_gloas_on<E: EthSpec>(
    gloas_scheduled: bool,
    now: Option<Slot>,
    chain_spec: ChainSpec,
    r: AttestationStep,
)
    requires
        E::spec_slots_per_epoch() > 0,
        call_ensures(next_attestation_step::<E>, (gloas_scheduled, now, &chain_spec), r),
    ensures
        match r {
            AttestationStep::Attest => gloas_scheduled && now is Some
                && chain_spec.gloas_fork_epoch is Some && (now->0).0 / E::spec_slots_per_epoch()
                >= (chain_spec.gloas_fork_epoch->0).0,
            AttestationStep::WaitForNextSlot => !gloas_scheduled || (now is Some
                && chain_spec.gloas_fork_epoch is Some && (now->0).0 / E::spec_slots_per_epoch()
                < (chain_spec.gloas_fork_epoch->0).0),
            AttestationStep::SleepOneSlot => gloas_scheduled && now is None,
            AttestationStep::Stop => gloas_scheduled && now is Some
                && chain_spec.gloas_fork_epoch is None,
        },
{
}

/// A validator that is known signs the data under its index; for one that is not, the message names
/// its key.
pub proof fn lemma_known_validators_sign_the_data(
    validator_index: Option<u64>,
    pubkey: PublicKeyBytes,
    data: PayloadAttestationData,
    r: Result<PayloadAttestationMessage, String>,
    duty: PtcDuty,
    same_slot: bool,
)
    requires
        call_ensures(message_to_sign, (validator_index, &pubkey, data), r),
        call_ensures(duty_matches, (&duty, &data), same_slot),
    ensures
        match (validator_index, r) {
            (Some(index), Ok(message)) => message.validator_index == index && message.data == data
                && message.signature.bytes() == Seq::new(96, |i: int| 0u8),
            (None, Err(error)) => error@ == "Unknown validator: 0x"@ + hex(pubkey.bytes()),
            _ => false,
        },
        same_slot <==> duty.slot.0 == data.slot.0,
{
    if let Ok(message) = r {
        assert(message.signature.bytes() =~= Seq::new(96, |i: int| 0u8));
    }
}

/// A service is built exactly if it has all its parts, and of these; otherwise the message names
/// the first part that is missing.
pub proof fn lemma_service_is_built_of_its_parts<D, S, T, B, X>(
    builder: PayloadAttestationServiceBuilder<D, S, T, B, X>,
    r: Result<PayloadAttestationService<D, S, T, B, X>, String>,
)
    requires
        call_ensures(PayloadAttestationServiceBuilder::<D, S, T, B, X>::build, (builder,), r),
    ensures
        match r {
            Ok(service) => {
                &&& builder.duties_service == Some(service.inner.duties_service)
                &&& builder.validator_store == Some(service.inner.validator_store)
                &&& builder.slot_clock == Some(service.inner.slot_clock)
                &&& builder.beacon_nodes == Some(service.inner.beacon_nodes)
                &&& builder.executor == Some(service.inner.executor)
                &&& builder.chain_spec == Some(service.inner.chain_spec)
            },
            Err(message) => {
                let missing = if builder.duties_service is None {
                    "Cannot build PayloadAttestationService without duties_service"@
                } else if builder.validator_store is None {
                    "Cannot build PayloadAttestationService without validator_store"@
                } else if builder.slot_clock is None {
                    "Cannot build PayloadAttestationService without slot_clock"@
                } else if builder.beacon_nodes is None {
                    "Cannot build PayloadAttestationService without beacon_nodes"@
                } else if builder.executor is None {
                    "Cannot build PayloadAttestationService without executor"@
                } else {
                    "Cannot build PayloadAttestationService without chain_spec"@
                };
                &&& message@ == missing
                &&& builder.duties_service is None || builder.validator_store is None
                    || builder.slot_clock is None || builder.beacon_nodes is None
                    || builder.executor is None || builder.chain_spec is None
            },
        },
{
}

/// Each part that is handed to a builder is the one that it has afterwards, and the others stay.
pub proof fn lemma_builder_takes_one_part_at_a_time<D, S, T, B, X>(
    builder: PayloadAttestationServiceBuilder<D, S, T, B, X>,
    duties_service: Arc<D>,
    validator_store: Arc<S>,
    slot_clock: T,
    beacon_nodes: Arc<B>,
    executor: X,
    chain_spec: Arc<ChainSpec>,
    with_duties_service: PayloadAttestationServiceBuilder<D, S, T, B, X>,
    with_validator_store: PayloadAttestationServiceBuilder<D, S, T, B, X>,
    with_slot_clock: PayloadAttestationServiceBuilder<D, S, T, B, X>,
    with_beacon_nodes: PayloadAttestationServiceBuilder<D, S, T, B, X>,
    with_executor: PayloadAttestationServiceBuilder<D, S, T, B, X>,
    with_chain_spec: PayloadAttestationServiceBuilder<D, S, T, B, X>,
)
    requires
        call_ensures(
            PayloadAttestationServiceBuilder::<D, S, T, B, X>::duties_service,
            (builder, duties_service),
            with_duties_service,
        ),
        call_ensures(
            PayloadAttestationServiceBuilder::<D, S, T, B, X>::validator_store,
            (builder, validator_store),
            with_validator_store,
        ),
        call_ensures(
            PayloadAttestationServiceBuilder::<D, S, T, B, X>::slot_clock,
            (builder, slot_clock),
            with_slot_clock,
        ),
        call_ensures(
            PayloadAttestationServiceBuilder::<D, S, T, B, X>::beacon_nodes,
            (builder, beacon_nodes),
            with_beacon_nodes,
        ),
        call_ensures(
            PayloadAttestationServiceBuilder::<D, S, T, B, X>::executor,
            (builder, executor),
            with_executor,
        ),
        call_ensures(
            PayloadAttestationServiceBuilder::<D, S, T, B, X>::chain_spec,
            (builder, chain_spec),
            with_chain_spec,
        ),
    ensures
        with_duties_service.duties_service == Some(duties_service),
        with_duties_service.chain_spec == builder.chain_spec,
        with_validator_store.validator_store == Some(validator_store),
        with_validator_store.duties_service == builder.duties_service,
        with_slot_clock.slot_clock == Some(slot_clock),
        with_slot_clock.validator_store == builder.validator_store,
        with_beacon_nodes.beacon_nodes == Some(beacon_nodes),
        with_beacon_nodes.slot_clock == builder.slot_clock,
        with_executor.executor == Some(executor),
        with_executor.beacon_nodes == builder.beacon_nodes,
        with_chain_spec.chain_spec == Some(chain_spec),
        with_chain_spec.executor == builder.executor,
{
}

/// Times add up exactly as long as they can be measured, and no time is less than none. A second is
/// a thousand million nanoseconds.
pub proof fn lemma_times_add_up(
    a: TimeSpan,
    b: TimeSpan,
    secs: u64,
    sum: Option<TimeSpan>,
    rest: TimeSpan,
    seconds: TimeSpan,
    over: bool,
)
    requires
        call_ensures(TimeSpan::checked_add, (a, b), sum),
        call_ensures(TimeSpan::saturating_sub, (a, b), rest),
        call_ensures(TimeSpan::from_secs, (secs,), seconds),
        call_ensures(TimeSpan::is_zero, (a,), over),
    ensures
        match sum {
            Some(sum) => sum.0 == a.0 + b.0 && sum.0 <= 18_446_744_073_709_551_615_999_999_999,
            None => a.0 + b.0 > 18_446_744_073_709_551_615_999_999_999,
        },
        a.0 >= b.0 ==> rest.0 + b.0 == a.0,
        a.0 < b.0 ==> rest.0 == 0,
        seconds.0 == secs * 1_000_000_000,
        over <==> a.0 == 0,
{
}

/// The current slot is what the clock says it is.
pub proof fn lemma_current_slot_is_told_by_the_clock<T: SlotClock>(
    clock: T,
    r: Result<Slot, String>,
)
    requires
        call_ensures(current_slot::<T>, (&clock,), r),
    ensures
        match r {
            Ok(slot) => call_ensures(T::now, (&clock,), Some(slot)),
            Err(message) => call_ensures(T::now, (&clock,), None::<Slot>) && message@
                == "Failed to read slot clock"@,
        },
{
}

} // verus!
