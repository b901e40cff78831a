//! Attests to the payloads of the slots in which a validator sits on the committee.

use crate::eth_spec::{ChainSpec, EthSpec};
use crate::primitives::{Epoch, Hash256, PublicKeyBytes, Signature, Slot};
use crate::ptc_duties::PtcDuty;
use crate::text::{append_hex, hex};
use crate::time_span::{TimeSpan, MAX_NANOS};
use std::sync::Arc;
use vstd::prelude::*;

verus! {

/// What a committee member says of the payload of a slot.
#[derive(Clone, Copy, Debug, PartialEq, Eq)]
pub struct PayloadAttestationData {
    pub beacon_block_root: Hash256,
    pub slot: Slot,
    pub payload_present: bool,
    pub blob_data_available: bool,
}

/// What one committee member says of the payload of a slot, signed.
#[derive(Clone, Copy, Debug, PartialEq, Eq)]
pub struct PayloadAttestationMessage {
    pub validator_index: u64,
    pub data: PayloadAttestationData,
    pub signature: Signature,
}

impl PayloadAttestationMessage {
    /// The message that is handed to the signer, with an empty signature.
    pub fn empty_for_signing(validator_index: u64, data: PayloadAttestationData) -> (r: Self)
        ensures
            r.validator_index == validator_index,
            r.data == data,
            r.signature.is_zero(),
    {
        PayloadAttestationMessage { validator_index, data, signature: Signature::zero() }
    }
}

/// Builds a `PayloadAttestationService`.
pub struct PayloadAttestationServiceBuilder<D, S, T, B, X> {
    pub duties_service: Option<Arc<D>>,
    pub validator_store: Option<Arc<S>>,
    pub slot_clock: Option<T>,
    pub beacon_nodes: Option<Arc<B>>,
    pub executor: Option<X>,
    pub chain_spec: Option<Arc<ChainSpec>>,
}

/// Helper to minimise `Arc` usage.
pub struct Inner<D, S, T, B, X> {
    pub duties_service: Arc<D>,
    pub validator_store: Arc<S>,
    pub slot_clock: T,
    pub beacon_nodes: Arc<B>,
    pub executor: X,
    pub chain_spec: Arc<ChainSpec>,
}

/// The service itself.
pub struct PayloadAttestationService<D, S, T, B, X> {
    pub inner: Arc<Inner<D, S, T, B, X>>,
}

impl<D, S, T, B, X> Clone for PayloadAttestationService<D, S, T, B, X> {
    fn clone(&self) -> (r: Self)
        ensures
            r == *self,
    {
        Self { inner: self.inner.clone() }
    }
}

impl<D, S, T, B, X> Default for PayloadAttestationServiceBuilder<D, S, T, B, X> {
    fn default() -> (r: Self)
        ensures
            r.is_empty(),
    {
        Self::new()
    }
}

impl<D, S, T, B, X> PayloadAttestationServiceBuilder<D, S, T, B, X> {
    /// Whether nothing has been set.
    pub open spec fn is_empty(self) -> bool {
        &&& self.duties_service is None
        &&& self.validator_store is None
        &&& self.slot_clock is None
        &&& self.beacon_nodes is None
        &&& self.executor is None
        &&& self.chain_spec is None
    }

    pub fn new() -> (r: Self)
        ensures
            r.is_empty(),
    {
        Self {
            duties_service: None,
            validator_store: None,
            slot_clock: None,
            beacon_nodes: None,
            executor: None,
            chain_spec: None,
        }
    }

    pub fn duties_service(self, service: Arc<D>) -> (r: Self)
        ensures
            r == (PayloadAttestationServiceBuilder { duties_service: Some(service), ..self }),
    {
        Self { duties_service: Some(service), ..self }
    }

    pub fn validator_store(self, store: Arc<S>) -> (r: Self)
        ensures
            r == (PayloadAttestationServiceBuilder { validator_store: Some(store), ..self }),
    {
        Self { validator_store: Some(store), ..self }
    }

    pub fn slot_clock(self, slot_clock: T) -> (r: Self)
        ensures
            r == (PayloadAttestationServiceBuilder { slot_clock: Some(slot_clock), ..self }),
    {
        Self { slot_clock: Some(slot_clock), ..self }
    }

    pub fn beacon_nodes(self, beacon_nodes: Arc<B>) -> (r: Self)
        ensures
            r == (PayloadAttestationServiceBuilder { beacon_nodes: Some(beacon_nodes), ..self }),
    {
        Self { beacon_nodes: Some(beacon_nodes), ..self }
    }

    pub fn executor(self, executor: X) -> (r: Self)
        ensures
            r == (PayloadAttestationServiceBuilder { executor: Some(executor), ..self }),
    {
        Self { executor: Some(executor), ..self }
    }

    pub fn chain_spec(self, chain_spec: Arc<ChainSpec>) -> (r: Self)
        ensures
            r == (PayloadAttestationServiceBuilder { chain_spec: Some(chain_spec), ..self }),
    {
        Self { chain_spec: Some(chain_spec), ..self }
    }

    /// The complaint about the first part that is missing, if one is.
    pub open spec fn first_missing(self) -> Option<Seq<char>> {
        if self.duties_service is None {
            Some("Cannot build PayloadAttestationService without duties_service"@)
        } else if self.validator_store is None {
            Some("Cannot build PayloadAttestationService without validator_store"@)
        } else if self.slot_clock is None {
            Some("Cannot build PayloadAttestationService without slot_clock"@)
        } else if self.beacon_nodes is None {
            Some("Cannot build PayloadAttestationService without beacon_nodes"@)
        } else if self.executor is None {
            Some("Cannot build PayloadAttestationService without executor"@)
        } else if self.chain_spec is None {
            Some("Cannot build PayloadAttestationService without chain_spec"@)
        } else {
            None
        }
    }

    pub fn build(self) -> (r: Result<PayloadAttestationService<D, S, T, B, X>, String>)
        ensures
            match self.first_missing() {
                Some(complaint) => r matches Err(message) && message@ == complaint,
                None => r matches Ok(service) && *service.inner == (Inner {
                    duties_service: self.duties_service->0,
                    validator_store: self.validator_store->0,
                    slot_clock: self.slot_clock->0,
                    beacon_nodes: self.beacon_nodes->0,
                    executor: self.executor->0,
                    chain_spec: self.chain_spec->0,
                }),
            },
    {
        let duties_service = match self.duties_service {
            Some(service) => service,
            None => {
                return Err(
                    "Cannot build PayloadAttestationService without duties_service".to_owned(),
                );
            },
        };
        let validator_store = match self.validator_store {
            Some(store) => store,
            None => {
                return Err(
                    "Cannot build PayloadAttestationService without validator_store".to_owned(),
                );
            },
        };
        let slot_clock = match self.slot_clock {
            Some(clock) => clock,
            None => {
                return Err("Cannot build PayloadAttestationService without slot_clock".to_owned());
            },
        };
        let beacon_nodes = match self.beacon_nodes {
            Some(nodes) => nodes,
            None => {
                return Err(
                    "Cannot build PayloadAttestationService without beacon_nodes".to_owned(),
                );
            },
        };
        let executor = match self.executor {
            Some(executor) => executor,
            None => {
                return Err("Cannot build PayloadAttestationService without executor".to_owned());
            },
        };
        let chain_spec = match self.chain_spec {
            Some(spec) => spec,
            None => {
                return Err("Cannot build PayloadAttestationService without chain_spec".to_owned());
            },
        };
        Ok(
            PayloadAttestationService {
                inner: Arc::new(
                    Inner {
                        duties_service,
                        validator_store,
                        slot_clock,
                        beacon_nodes,
                        executor,
                        chain_spec,
                    },
                ),
            },
        )
    }
}

/// Whether a service is to run.
#[derive(Clone, Copy, Debug, PartialEq, Eq)]
pub enum ServiceStart {
    /// Attesting is disabled.
    Disabled,
    /// The service runs; the next slot starts after the given time.
    Running { duration_to_next_slot: TimeSpan },
}

/// Decides whether a service is to run: not if attesting is disabled, and not if the clock cannot
/// be read.
pub fn start_decision(disable_attesting: bool, duration_to_next_slot: Option<TimeSpan>) -> (r:
    Result<ServiceStart, String>)
    ensures
        disable_attesting ==> r == Ok::<ServiceStart, String>(ServiceStart::Disabled),
        !disable_attesting ==> match duration_to_next_slot {
            Some(duration_to_next_slot) => r == Ok::<ServiceStart, String>(
                ServiceStart::Running { duration_to_next_slot },
            ),
            None => r matches Err(message) && message@
                == "Unable to determine duration to next slot"@,
        },
{
    if disable_attesting {
        return Ok(ServiceStart::Disabled);
    }
    match duration_to_next_slot {
        Some(duration_to_next_slot) => Ok(ServiceStart::Running { duration_to_next_slot }),
        None => Err("Unable to determine duration to next slot".to_owned()),
    }
}

/// How long the service waits, and what for.
#[derive(Clone, Copy, Debug, PartialEq, Eq)]
pub enum AttestationWait {
    /// For the moment in the next slot at which payloads are attested to.
    UntilDue(TimeSpan),
    /// For a slot, since the clock could not be read.
    ClockUnreadable(TimeSpan),
}

/// The wait before the next attestation: three quarters into the next slot.
pub open spec fn attestation_wait(
    duration_to_next_slot: Option<TimeSpan>,
    slot_duration: TimeSpan,
) -> AttestationWait {
    match duration_to_next_slot {
        Some(rest) => AttestationWait::UntilDue(
            TimeSpan((rest.0 + slot_duration.0 * 3 / 4) as u128),
        ),
        None => AttestationWait::ClockUnreadable(slot_duration),
    }
}

/// The wait before the next attestation.
pub fn next_attestation_wait(
    duration_to_next_slot: Option<TimeSpan>,
    slot_duration: TimeSpan,
) -> (r: AttestationWait)
    requires
        slot_duration.0 * 3 <= MAX_NANOS,
        duration_to_next_slot matches Some(rest) ==> rest.0 + slot_duration.0 * 3 / 4
            <= MAX_NANOS,
    ensures
        r == attestation_wait(duration_to_next_slot, slot_duration),
{
    match duration_to_next_slot {
        Some(rest) => {
            let payload_attestation_delay: u128 = slot_duration.0 * 3 / 4;
            AttestationWait::UntilDue(TimeSpan(rest.0 + payload_attestation_delay))
        },
        None => AttestationWait::ClockUnreadable(slot_duration),
    }
}

/// What the service does once the wait is over.
#[derive(Clone, Copy, Debug, PartialEq, Eq)]
pub enum AttestationStep {
    /// Attest to the payload.
    Attest,
    /// Wait for the next slot.
    WaitForNextSlot,
    /// Sleep for a slot, since the clock could not be read.
    SleepOneSlot,
    /// Stop: the fork is scheduled for no epoch.
    Stop,
}

/// What the service does once the wait is over: it attests from the first epoch of the Gloas fork
/// on.
pub open spec fn attestation_step(
    gloas_scheduled: bool,
    now: Option<Slot>,
    gloas_fork_epoch: Option<Epoch>,
    slots_per_epoch: u64,
) -> AttestationStep {
    if !gloas_scheduled {
        AttestationStep::WaitForNextSlot
    } else {
        match (now, gloas_fork_epoch) {
            (None, _) => AttestationStep::SleepOneSlot,
            (Some(_), None) => AttestationStep::Stop,
            (Some(slot), Some(fork_epoch)) => if slot.spec_epoch(slots_per_epoch).0
                < fork_epoch.0 {
                AttestationStep::WaitForNextSlot
            } else {
                AttestationStep::Attest
            },
        }
    }
}

/// What the service does once the wait is over.
pub fn next_attestation_step<E: EthSpec>(
    gloas_scheduled: bool,
    now: Option<Slot>,
    chain_spec: &ChainSpec,
) -> (r: AttestationStep)
    requires
        E::spec_slots_per_epoch() > 0,
    ensures
        r == attestation_step(
            gloas_scheduled,
            now,
            chain_spec.gloas_fork_epoch,
            E::spec_slots_per_epoch(),
        ),
{
    // Check if we've reached the Gloas fork epoch before proceeding
    if !gloas_scheduled {
        // Gloas fork not scheduled, skip payload attestation duties
        return AttestationStep::WaitForNextSlot;
    }
    let current_slot = match now {
        Some(slot) => slot,
        None => {
            return AttestationStep::SleepOneSlot;
        },
    };
    let current_epoch = current_slot.epoch(E::slots_per_epoch());
    let gloas_fork_epoch = match chain_spec.gloas_fork_epoch {
        Some(epoch) => epoch,
        None => {
            // Gloas fork epoch not configured, should not reach here
            return AttestationStep::Stop;
        },
    };
    if current_epoch.0 < gloas_fork_epoch.0 {
        // Wait until the next slot and check again
        return AttestationStep::WaitForNextSlot;
    }
    AttestationStep::Attest
}

/// Whether a duty can be fulfilled with the given data: both are for the same slot.
pub fn duty_matches(duty: &PtcDuty, data: &PayloadAttestationData) -> (r: bool)
    ensures
        r == (duty.slot == data.slot),
{
    duty.slot.0 == data.slot.0
}

/// The message that is handed to the signer for a validator, given the index under which the
/// validator is known, if it is.
pub fn message_to_sign(
    validator_index: Option<u64>,
    validator_pubkey: &PublicKeyBytes,
    data: PayloadAttestationData,
) -> (r: Result<PayloadAttestationMessage, String>)
    ensures
        match validator_index {
            Some(index) => r matches Ok(message) && {
                &&& message.validator_index == index
                &&& message.data == data
                &&& message.signature.is_zero()
            },
            None => r matches Err(error) && error@ == "Unknown validator: 0x"@ + hex(
                validator_pubkey.bytes(),
            ),
        },
{
    match validator_index {
        Some(index) => Ok(PayloadAttestationMessage::empty_for_signing(index, data)),
        None => {
            let mut error: String = "Unknown validator: 0x".to_owned();
            append_hex(&mut error, validator_pubkey);
            Err(error)
        },
    }
}

/// The messages for the duties that were fulfilled, in the order of the duties: those for the
/// slot of the data that were signed.
pub open spec fn signed_messages(
    duties: Seq<PtcDuty>,
    data: PayloadAttestationData,
    signatures: Seq<Option<Signature>>,
) -> Seq<PayloadAttestationMessage>
    decreases duties.len(),
{
    if duties.len() == 0 {
        Seq::empty()
    } else {
        let earlier = signed_messages(duties.drop_last(), data, signatures.drop_last());
        match signatures.last() {
            Some(signature) => if duties.last().slot == data.slot {
                earlier.push(
                    PayloadAttestationMessage {
                        validator_index: duties.last().validator_index,
                        data,
                        signature,
                    },
                )
            } else {
                earlier
            },
            None => earlier,
        }
    }
}

/// The messages for the duties that were fulfilled. `signatures` holds, for each duty, its
/// signature, unless signing failed.
pub fn collect_signed(
    duties: &Vec<PtcDuty>,
    data: &PayloadAttestationData,
    signatures: &Vec<Option<Signature>>,
) -> (r: Vec<PayloadAttestationMessage>)
    requires
        signatures@.len() == duties@.len(),
    ensures
        r@ == signed_messages(duties@, *data, signatures@),
{
    let mut messages: Vec<PayloadAttestationMessage> = Vec::new();
    let mut i: usize = 0;
    assert(signed_messages(duties@.take(0), *data, signatures@.take(0)) == messages@);
    while i < duties.len()
        invariant
            i <= duties@.len(),
            signatures@.len() == duties@.len(),
            messages@ == signed_messages(
                duties@.take(i as int),
                *data,
                signatures@.take(i as int),
            ),
        decreases duties@.len() - i,
    {
        assert(duties@.take(i + 1).drop_last() == duties@.take(i as int));
        assert(signatures@.take(i + 1).drop_last() == signatures@.take(i as int));
        // Ensure that the payload attestation data matches the duty slot.
        if duty_matches(&duties[i], data) {
            match signatures[i] {
                Some(signature) => {
                    messages.push(
                        PayloadAttestationMessage {
                            validator_index: duties[i].validator_index,
                            data: *data,
                            signature,
                        },
                    );
                },
                None => {},
            }
        }
        i = i + 1;
    }
    assert(duties@.take(i as int) == duties@);
    assert(signatures@.take(i as int) == signatures@);
    messages
}

/// Where the publication of the attestations of a slot stands.
#[derive(Clone, Debug, PartialEq, Eq)]
pub enum PublishState {
    /// Nothing has been done.
    Idle,
    /// A beacon node is asked for the data that all duties share.
    Fetching,
    /// The validators sign the data.
    Signing(PayloadAttestationData),
    /// The messages are sent to a beacon node in one request.
    Posting(Vec<PayloadAttestationMessage>),
    /// The work is over, and whether it succeeded.
    Finished(bool),
}

/// What has happened to the publication of the attestations of a slot.
#[derive(Clone, Debug, PartialEq, Eq)]
pub enum PublishEvent {
    /// The moment to attest has come.
    Started,
    /// A beacon node has given the data, or none has.
    DataFetched(Option<PayloadAttestationData>),
    /// For each duty its signature, unless signing failed.
    Signed(Vec<Option<Signature>>),
    /// A beacon node has taken the messages, or none has.
    Posted(bool),
}

/// Whether `next` is where the publication stands after an event. Nothing is done without duties;
/// without data or signatures the work fails; events that are not awaited change nothing.
pub open spec fn publish_leads_to(
    duties: Seq<PtcDuty>,
    state: PublishState,
    event: PublishEvent,
    next: PublishState,
) -> bool {
    match (state, event) {
        (PublishState::Idle, PublishEvent::Started) => next == (if duties.len() == 0 {
            PublishState::Finished(true)
        } else {
            PublishState::Fetching
        }),
        (PublishState::Fetching, PublishEvent::DataFetched(reply)) => next == (match reply {
            Some(data) => PublishState::Signing(data),
            None => PublishState::Finished(false),
        }),
        (PublishState::Signing(data), PublishEvent::Signed(signatures)) => {
            let messages = signed_messages(duties, data, signatures@);
            if messages.len() == 0 {
                next == PublishState::Finished(false)
            } else {
                next matches PublishState::Posting(batch) && batch@ == messages
            }
        },
        (PublishState::Posting(_), PublishEvent::Posted(taken)) => next == PublishState::Finished(
            taken,
        ),
        _ => next == state,
    }
}

/// Where the publication stands after an event.
pub fn publish_step(duties: &Vec<PtcDuty>, state: PublishState, event: PublishEvent) -> (r:
    PublishState)
    requires
        event matches PublishEvent::Signed(signatures) ==> signatures@.len() == duties@.len(),
    ensures
        publish_leads_to(duties@, state, event, r),
{
    match (state, event) {
        (PublishState::Idle, PublishEvent::Started) => {
            if duties.len() == 0 {
                PublishState::Finished(true)
            } else {
                PublishState::Fetching
            }
        },
        (PublishState::Fetching, PublishEvent::DataFetched(reply)) => match reply {
            Some(data) => PublishState::Signing(data),
            None => PublishState::Finished(false),
        },
        (PublishState::Signing(data), PublishEvent::Signed(signatures)) => {
            let messages = collect_signed(duties, &data, &signatures);
            if messages.len() == 0 {
                PublishState::Finished(false)
            } else {
                PublishState::Posting(messages)
            }
        },
        (PublishState::Posting(_), PublishEvent::Posted(taken)) => PublishState::Finished(taken),
        (state, _) => state,
    }
}

/// The publication succeeds only if there was nothing to do, or if a beacon node has taken the
/// messages; and what is over stays over.
pub proof fn lemma_publication_succeeds_when_taken(
    duties: Seq<PtcDuty>,
    state: PublishState,
    event: PublishEvent,
    next: PublishState,
)
    requires
        publish_leads_to(duties, state, event, next),
    ensures
        state is Finished ==> next == state,
        next == PublishState::Finished(true) && !(state is Finished) ==> (state is Idle
            && duties.len() == 0) || (state is Posting && event == PublishEvent::Posted(true)),
        next is Posting && !(state is Posting) ==> (next->Posting_0)@.len() > 0,
{
}

/// Nothing is sent that nobody had the duty to say: each message carries the data that was
/// fetched, for the slot of a duty, in the name of the validator with that duty and with the
/// signature that it gave. No duty leads to more than one message.
pub proof fn lemma_messages_fulfil_duties(
    duties: Seq<PtcDuty>,
    data: PayloadAttestationData,
    signatures: Seq<Option<Signature>>,
)
    requires
        signatures.len() == duties.len(),
    ensures
        signed_messages(duties, data, signatures).len() <= duties.len(),
        forall|m: int|
            0 <= m < signed_messages(duties, data, signatures).len() ==> fulfils_some_duty(
                #[trigger] signed_messages(duties, data, signatures)[m],
                duties,
                data,
                signatures,
            ),
    decreases duties.len(),
{
    if duties.len() > 0 {
        let earlier_duties = duties.drop_last();
        let earlier_signatures = signatures.drop_last();
        lemma_messages_fulfil_duties(earlier_duties, data, earlier_signatures);
        let earlier = signed_messages(earlier_duties, data, earlier_signatures);
        let messages = signed_messages(duties, data, signatures);
        assert forall|m: int| 0 <= m < messages.len() implies fulfils_some_duty(
            #[trigger] messages[m],
            duties,
            data,
            signatures,
        ) by {
            if m < earlier.len() {
                assert(fulfils_some_duty(earlier[m], earlier_duties, data, earlier_signatures));
                let k = choose|k: int|
                    0 <= k < earlier_duties.len() && #[trigger] fulfils(
                        earlier[m],
                        earlier_duties[k],
                        data,
                        earlier_signatures[k],
                    );
                assert(fulfils(messages[m], duties[k], data, signatures[k]));
            } else {
                let k = duties.len() - 1;
                assert(fulfils(messages[m], duties[k], data, signatures[k]));
            }
        }
    }
}

/// Whether a message fulfils a duty.
pub open spec fn fulfils(
    message: PayloadAttestationMessage,
    duty: PtcDuty,
    data: PayloadAttestationData,
    signature: Option<Signature>,
) -> bool {
    &&& duty.slot == data.slot
    &&& message.data == data
    &&& message.validator_index == duty.validator_index
    &&& signature == Some(message.signature)
}

/// Whether a message fulfils one of the duties.
pub open spec fn fulfils_some_duty(
    message: PayloadAttestationMessage,
    duties: Seq<PtcDuty>,
    data: PayloadAttestationData,
    signatures: Seq<Option<Signature>>,
) -> bool {
    exists|k: int|
        0 <= k < duties.len() && #[trigger] fulfils(message, duties[k], data, signatures[k])
}

/// Before the Gloas fork, and while it is not scheduled, nothing is attested to.
pub proof fn lemma_no_attestation_before_gloas(
    gloas_scheduled: bool,
    now: Option<Slot>,
    gloas_fork_epoch: Option<Epoch>,
    slots_per_epoch: u64,
)
    requires
        attestation_step(gloas_scheduled, now, gloas_fork_epoch, slots_per_epoch)
            == AttestationStep::Attest,
    ensures
        gloas_scheduled,
        now matches Some(slot) && gloas_fork_epoch matches Some(epoch) && slot.spec_epoch(
            slots_per_epoch,
        ).0 >= epoch.0,
{
}

} // verus!
