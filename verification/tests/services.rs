use gloas_consensus::eth_spec::{ChainSpec, MainnetEthSpec};
use gloas_consensus::payload_attestation_service::{
    collect_signed, duty_matches, message_to_sign, next_attestation_step, next_attestation_wait,
    publish_step, start_decision, AttestationStep, AttestationWait, PayloadAttestationData,
    PayloadAttestationMessage, PayloadAttestationService, PayloadAttestationServiceBuilder,
    PublishEvent, PublishState, ServiceStart,
};
use gloas_consensus::primitives::{Epoch, FixedBytes, Hash256, Signature, Slot};
use gloas_consensus::ptc_duties::PtcDuty;
use gloas_consensus::sync_committee_service::{
    accept_contribution, accept_head_block, altair_fork_activated, batch_step, begin_contribution,
    collect_subscriptions, contribution_request, contributions_to_sign, decide_contribution,
    delay_until_slot_offset, first_subscription_done_after, last_processed_after, messages_to_sign,
    next_message_wait, next_slot_with_duration, next_sync_step, resume_contribution,
    subscription_duty_slots, subscription_step, subscriptions_from_sync_duties, sync_period_of_slot,
    BatchStep, ContributionStep, HeadBlock, HeadEvent, SkipReason, SlotDuties, SubscriptionStep,
    SyncAggregator, SyncCommitteeContribution, SyncCommitteeSubscription, SyncContributionData,
    SyncDuties, SyncDuty, SyncMessageToSign, SyncStep, SUBSCRIPTION_LOOKAHEAD_EPOCHS,
};
use gloas_consensus::time_span::{current_slot, SlotClock, TimeSpan, MAX_NANOS};
use std::collections::HashMap;
use std::sync::Arc;

const SEC: u128 = 1_000_000_000;

fn spec() -> ChainSpec {
    ChainSpec {
        altair_fork_epoch: Some(Epoch(2)),
        gloas_fork_epoch: Some(Epoch(5)),
        genesis_slot: 0,
        seconds_per_slot: 12,
        min_seed_lookahead: 1,
        min_validator_withdrawability_delay: 256,
        builder_payment_threshold_numerator: 6,
        builder_payment_threshold_denominator: 10,
        epochs_per_sync_committee_period: 256,
    }
}

fn secs(n: u64) -> TimeSpan {
    TimeSpan::from_secs(n)
}

fn root(n: u8) -> Hash256 {
    FixedBytes([n; 32])
}

#[test]
fn time_spans_are_bounded() {
    assert_eq!(secs(12), TimeSpan(12 * SEC));
    assert_eq!(secs(u64::MAX).checked_add(TimeSpan(999_999_999)), Some(TimeSpan(MAX_NANOS)));
    assert_eq!(TimeSpan(MAX_NANOS).checked_add(TimeSpan(1)), None);
    assert_eq!(secs(3).saturating_sub(secs(5)), TimeSpan(0));
    assert_eq!(secs(5).saturating_sub(secs(3)), secs(2));
    assert!(TimeSpan(0).is_zero());
    assert!(!TimeSpan(1).is_zero());
    let longest = std::time::Duration::MAX;
    assert_eq!(longest.as_nanos(), MAX_NANOS);
}

type Builder = PayloadAttestationServiceBuilder<u8, u16, u32, u64, i8>;

fn complaint(r: Result<PayloadAttestationService<u8, u16, u32, u64, i8>, String>) -> String {
    match r {
        Ok(_) => "built".to_string(),
        Err(message) => message,
    }
}

#[test]
fn builder_names_the_first_missing_part() {
    let prefix = "Cannot build PayloadAttestationService without ";
    let b = Builder::new();
    assert_eq!(complaint(b.build()), format!("{}duties_service", prefix));
    let b = Builder::default().executor(5).duties_service(Arc::new(1));
    assert_eq!(complaint(b.build()), format!("{}validator_store", prefix));
    let b = Builder::new().duties_service(Arc::new(1)).validator_store(Arc::new(2));
    assert_eq!(complaint(b.build()), format!("{}slot_clock", prefix));
    let b = Builder::new().duties_service(Arc::new(1)).validator_store(Arc::new(2)).slot_clock(3);
    assert_eq!(complaint(b.build()), format!("{}beacon_nodes", prefix));
    let b = Builder::new()
        .duties_service(Arc::new(1))
        .validator_store(Arc::new(2))
        .slot_clock(3)
        .beacon_nodes(Arc::new(4));
    assert_eq!(complaint(b.build()), format!("{}executor", prefix));
    let b = Builder::new()
        .duties_service(Arc::new(1))
        .validator_store(Arc::new(2))
        .slot_clock(3)
        .beacon_nodes(Arc::new(4))
        .executor(5);
    assert_eq!(complaint(b.build()), format!("{}chain_spec", prefix));
}

#[test]
fn builder_builds_from_all_parts() {
    let service = Builder::new()
        .chain_spec(Arc::new(spec()))
        .executor(5)
        .beacon_nodes(Arc::new(4))
        .slot_clock(3)
        .validator_store(Arc::new(2))
        .duties_service(Arc::new(1))
        .build();
    match service {
        Ok(service) => {
            let copy = service.clone();
            assert_eq!(*copy.inner.duties_service, 1);
            assert_eq!(*copy.inner.validator_store, 2);
            assert_eq!(copy.inner.slot_clock, 3);
            assert_eq!(*copy.inner.beacon_nodes, 4);
            assert_eq!(copy.inner.executor, 5);
            assert_eq!(*copy.inner.chain_spec, spec());
        }
        Err(message) => panic!("{}", message),
    }
}

#[test]
fn services_start_with_a_clock() {
    assert_eq!(start_decision(true, None), Ok(ServiceStart::Disabled));
    assert_eq!(
        start_decision(false, Some(secs(3))),
        Ok(ServiceStart::Running { duration_to_next_slot: secs(3) })
    );
    assert_eq!(
        start_decision(false, None),
        Err("Unable to determine duration to next slot".to_string())
    );
}

#[test]
fn payloads_are_attested_to_three_quarters_into_the_slot() {
    assert_eq!(
        next_attestation_wait(Some(secs(5)), secs(12)),
        AttestationWait::UntilDue(secs(14))
    );
    assert_eq!(
        next_attestation_wait(Some(TimeSpan(0)), TimeSpan(7)),
        AttestationWait::UntilDue(TimeSpan(5))
    );
    assert_eq!(next_attestation_wait(None, secs(12)), AttestationWait::ClockUnreadable(secs(12)));
}

#[test]
fn payloads_are_attested_to_from_gloas_on() {
    let step = |scheduled: bool, now: Option<Slot>, spec: &ChainSpec| {
        next_attestation_step::<MainnetEthSpec>(scheduled, now, spec)
    };
    assert_eq!(step(true, Some(Slot(160)), &spec()), AttestationStep::Attest);
    assert_eq!(step(true, Some(Slot(159)), &spec()), AttestationStep::WaitForNextSlot);
    assert_eq!(step(false, Some(Slot(160)), &spec()), AttestationStep::WaitForNextSlot);
    assert_eq!(step(true, None, &spec()), AttestationStep::SleepOneSlot);
    let mut unplanned = spec();
    unplanned.gloas_fork_epoch = None;
    assert_eq!(step(true, Some(Slot(160)), &unplanned), AttestationStep::Stop);
}

fn data() -> PayloadAttestationData {
    PayloadAttestationData {
        beacon_block_root: root(1),
        slot: Slot(7),
        payload_present: true,
        blob_data_available: false,
    }
}

fn duty(index: u64, slot: u64) -> PtcDuty {
    PtcDuty { validator_index: index, slot: Slot(slot), pubkey: FixedBytes([0; 48]) }
}

#[test]
fn only_matching_signed_duties_lead_to_messages() {
    let signature: Signature = FixedBytes([3; 96]);
    let duties = vec![duty(1, 7), duty(2, 8), duty(3, 7), duty(4, 7)];
    let signatures = vec![Some(signature), Some(signature), None, Some(signature)];
    let message = |index: u64| PayloadAttestationMessage {
        validator_index: index,
        data: data(),
        signature,
    };
    assert_eq!(collect_signed(&duties, &data(), &signatures), vec![message(1), message(4)]);
    let signing = PublishState::Signing(data());
    assert_eq!(
        publish_step(&duties, signing.clone(), PublishEvent::Signed(signatures)),
        PublishState::Posting(vec![message(1), message(4)])
    );
    assert_eq!(
        publish_step(&duties, signing, PublishEvent::Signed(vec![None; 4])),
        PublishState::Finished(false)
    );
    assert!(duty_matches(&duty(1, 7), &data()));
    assert!(!duty_matches(&duty(1, 6), &data()));
}

#[test]
fn publication_follows_its_steps() {
    let duties = vec![duty(1, 7)];
    let step = |state: PublishState, event: PublishEvent| publish_step(&duties, state, event);
    assert_eq!(
        step(PublishState::Fetching, PublishEvent::DataFetched(Some(data()))),
        PublishState::Signing(data())
    );
    assert_eq!(
        step(PublishState::Fetching, PublishEvent::DataFetched(None)),
        PublishState::Finished(false)
    );
    for taken in [true, false] {
        assert_eq!(
            step(PublishState::Posting(vec![]), PublishEvent::Posted(taken)),
            PublishState::Finished(taken)
        );
    }
    // Events that are not awaited change nothing.
    assert_eq!(step(PublishState::Fetching, PublishEvent::Posted(true)), PublishState::Fetching);
    assert_eq!(
        step(PublishState::Finished(false), PublishEvent::Started),
        PublishState::Finished(false)
    );
}

#[test]
fn nothing_is_published_without_duties() {
    assert_eq!(
        publish_step(&vec![], PublishState::Idle, PublishEvent::Started),
        PublishState::Finished(true)
    );
    let duties = vec![duty(1, 7)];
    assert_eq!(
        publish_step(&duties, PublishState::Idle, PublishEvent::Started),
        PublishState::Fetching
    );
    let message = PayloadAttestationMessage::empty_for_signing(9, data());
    assert_eq!(message.validator_index, 9);
    assert_eq!(message.data, data());
    assert_eq!(message.signature, FixedBytes([0; 96]));
}

/// A clock that is stuck at `now`, with slots of 12 seconds.
struct Clock {
    now: Option<TimeSpan>,
    last_slot: u64,
}

fn clock(now: TimeSpan) -> Clock {
    Clock { now: Some(now), last_slot: 1_000_000 }
}

impl SlotClock for Clock {
    fn now(&self) -> Option<Slot> {
        self.now.map(|now| Slot((now.0 / (12 * SEC)) as u64))
    }

    fn now_duration(&self) -> Option<TimeSpan> {
        self.now
    }

    fn slot_of(&self, now: TimeSpan) -> Option<Slot> {
        Some(Slot((now.0 / (12 * SEC)) as u64))
    }

    fn start_of(&self, slot: Slot) -> Option<TimeSpan> {
        if slot.0 <= self.last_slot {
            Some(secs(12 * slot.0))
        } else {
            None
        }
    }
}

#[test]
fn delays_are_counted_within_the_slot() {
    let c = clock(secs(25));
    assert_eq!(delay_until_slot_offset(&c, Slot(2), secs(4)), Some(secs(3)));
    assert_eq!(delay_until_slot_offset(&c, Slot(2), secs(1)), Some(TimeSpan(0)));
    assert_eq!(delay_until_slot_offset(&c, Slot(2), TimeSpan(0)), Some(TimeSpan(0)));
    assert_eq!(delay_until_slot_offset(&c, Slot(1), secs(4)), None);
    assert_eq!(delay_until_slot_offset(&c, Slot(3), secs(4)), None);
    assert_eq!(delay_until_slot_offset(&c, Slot(2), TimeSpan(MAX_NANOS)), None);
    let stopped = Clock { now: None, last_slot: 0 };
    assert_eq!(delay_until_slot_offset(&stopped, Slot(0), secs(4)), None);
}

#[test]
fn next_slot_and_its_delay_belong_together() {
    assert_eq!(next_slot_with_duration(&clock(secs(25))), Some((Slot(3), secs(11))));
    assert_eq!(next_slot_with_duration(&clock(secs(24))), Some((Slot(3), secs(12))));
    assert_eq!(next_slot_with_duration(&Clock { now: None, last_slot: 9 }), None);
    assert_eq!(
        next_slot_with_duration(&Clock { now: Some(secs(25)), last_slot: 2 }),
        None
    );
}

#[test]
fn current_slot_needs_a_clock() {
    assert_eq!(current_slot(&clock(secs(25))), Ok(Slot(2)));
    assert_eq!(
        current_slot(&Clock { now: None, last_slot: 0 }),
        Err("Failed to read slot clock".to_string())
    );
}

#[test]
fn altair_is_told_by_the_clock() {
    let activated = |spec: &ChainSpec, c: &Clock| altair_fork_activated::<MainnetEthSpec, _>(spec, c);
    assert!(activated(&spec(), &clock(secs(12 * 64))));
    assert!(!activated(&spec(), &clock(secs(12 * 63))));
    assert!(!activated(&spec(), &Clock { now: None, last_slot: 0 }));
    let mut never = spec();
    never.altair_fork_epoch = None;
    assert!(!activated(&never, &clock(secs(12 * 64))));
}

#[test]
fn slots_are_processed_once() {
    let event = HeadEvent { slot: Slot(9), beacon_block_root: root(9) };
    let step = next_sync_step(Some(event), Slot(10), Some(Slot(8)), true);
    assert_eq!(step, SyncStep::Produce { slot: Slot(9), head_event_root: Some(root(9)) });
    let last = last_processed_after(Some(Slot(8)), &step);
    assert_eq!(last, Some(Slot(9)));
    assert_eq!(
        next_sync_step(Some(event), Slot(10), last, true),
        SyncStep::AlreadyProcessed { slot: Slot(9) }
    );
    assert_eq!(
        next_sync_step(None, Slot(10), last, true),
        SyncStep::Produce { slot: Slot(10), head_event_root: None }
    );
    let before = next_sync_step(None, Slot(10), last, false);
    assert_eq!(before, SyncStep::BeforeAltair);
    assert_eq!(last_processed_after(last, &before), last);
}

fn sync_duty(index: u64) -> SyncDuty {
    SyncDuty {
        pubkey: FixedBytes([index as u8; 48]),
        validator_index: index,
        validator_sync_committee_indices: vec![index, index + 100],
    }
}

fn slot_duties(n: u64) -> SlotDuties {
    SlotDuties { duties: (0..n).map(sync_duty).collect(), aggregators: HashMap::new() }
}

struct Known(Option<SlotDuties>);

impl SyncDuties for Known {
    fn get_duties_for_slot(&self, _slot: Slot) -> Option<SlotDuties> {
        self.0.clone()
    }
}

#[test]
fn contributions_wait_for_duties_after_a_head_event() {
    let c = clock(secs(25));
    let early = begin_contribution(
        &c, &Known(None), Slot(2), Some(root(1)), secs(4), secs(8),
    );
    assert_eq!(early, ContributionStep::AwaitDeadline(secs(3)));
    let late = begin_contribution(
        &c, &Known(None), Slot(1), Some(root(1)), secs(4), secs(8),
    );
    assert_eq!(late, ContributionStep::Skip(SkipReason::Expired));
    let without_event =
        begin_contribution(&c, &Known(None), Slot(2), None, secs(4), secs(8));
    assert_eq!(without_event, ContributionStep::Skip(SkipReason::NoDutiesKnown));
    let resumed = resume_contribution(&c, &Known(Some(slot_duties(1))), Slot(2), secs(8));
    assert_eq!(
        resumed,
        ContributionStep::Sign {
            duties: slot_duties(1),
            head_root: None,
            contribution_delay: secs(7)
        }
    );
    assert_eq!(
        resume_contribution(&c, &Known(None), Slot(2), secs(8)),
        ContributionStep::Skip(SkipReason::NoDutiesKnown)
    );
}

#[test]
fn contributions_are_signed_in_time() {
    let c = clock(secs(25));
    assert_eq!(
        begin_contribution(
            &c, &Known(Some(slot_duties(2))), Slot(2), Some(root(1)), secs(4), secs(8),
        ),
        ContributionStep::Sign {
            duties: slot_duties(2),
            head_root: Some(root(1)),
            contribution_delay: secs(7)
        }
    );
    assert_eq!(
        begin_contribution(&c, &Known(Some(slot_duties(0))), Slot(2), None, secs(4), secs(8)),
        ContributionStep::Skip(SkipReason::NoLocalValidators)
    );
    assert_eq!(
        begin_contribution(&c, &Known(Some(slot_duties(1))), Slot(2), None, secs(0), secs(1)),
        ContributionStep::Skip(SkipReason::DeadlinePassed)
    );
    assert_eq!(
        decide_contribution(Some(slot_duties(1)), None, None),
        ContributionStep::Skip(SkipReason::Expired)
    );
}

#[test]
fn heads_have_to_be_known_not_to_be_optimistic() {
    let block = |optimistic: Option<bool>| HeadBlock {
        root: root(4),
        execution_optimistic: optimistic,
    };
    assert_eq!(accept_head_block(Slot(120), Ok(Some(block(Some(false))))), Ok(root(4)));
    let refused = Err(
        "To sign sync committee messages for slot 120 a non-optimistic head block is required"
            .to_string(),
    );
    assert_eq!(accept_head_block(Slot(120), Ok(Some(block(Some(true))))), refused);
    assert_eq!(accept_head_block(Slot(120), Ok(Some(block(None)))), refused);
    assert_eq!(
        accept_head_block(Slot(0), Ok(None)),
        Err("No block root found for slot 0".to_string())
    );
    assert_eq!(
        accept_head_block(Slot(0), Err("timeout".to_string())),
        Err("timeout".to_string())
    );
}

#[test]
fn messages_and_contributions_follow_their_lists() {
    let messages = messages_to_sign(Slot(3), root(4), &vec![sync_duty(1), sync_duty(2)]);
    assert_eq!(
        messages,
        vec![
            SyncMessageToSign {
                slot: Slot(3),
                beacon_block_root: root(4),
                validator_index: 1,
                pubkey: FixedBytes([1; 48]),
            },
            SyncMessageToSign {
                slot: Slot(3),
                beacon_block_root: root(4),
                validator_index: 2,
                pubkey: FixedBytes([2; 48]),
            },
        ]
    );
    let contribution = Arc::new(SyncCommitteeContribution {
        slot: Slot(3),
        beacon_block_root: root(4),
        subcommittee_index: 1,
        aggregation_bits: vec![true],
        signature: FixedBytes([0; 96]),
    });
    let aggregator = SyncAggregator {
        aggregator_index: 8,
        pubkey: FixedBytes([8; 48]),
        selection_proof: FixedBytes([9; 96]),
    };
    let to_sign = contributions_to_sign(&vec![aggregator], &contribution);
    assert_eq!(to_sign.len(), 1);
    assert_eq!(to_sign[0].aggregator_index, 8);
    assert_eq!(to_sign[0].aggregator_pubkey, FixedBytes([8; 48]));
    assert_eq!(to_sign[0].selection_proof, FixedBytes([9; 96]));
    assert_eq!(to_sign[0].contribution, contribution);
}

#[test]
fn batches_are_published_unless_empty() {
    assert_eq!(batch_step::<u8, u8>(&Ok(vec![1])), BatchStep::Publish);
    assert_eq!(batch_step::<u8, u8>(&Ok(vec![])), BatchStep::Nothing);
    assert_eq!(batch_step::<u8, u8>(&Err(1)), BatchStep::ReportFailure);
}

#[test]
fn sync_periods() {
    assert_eq!(sync_period_of_slot::<MainnetEthSpec>(Slot(8191), &spec()), Ok(0));
    assert_eq!(sync_period_of_slot::<MainnetEthSpec>(Slot(8192), &spec()), Ok(1));
    let mut zero = spec();
    zero.epochs_per_sync_committee_period = 0;
    assert_eq!(
        sync_period_of_slot::<MainnetEthSpec>(Slot(8192), &zero),
        Err("Error computing sync period: DivisionByZero".to_string())
    );
}

#[test]
fn subscriptions_are_posted_at_epoch_starts_and_ahead() {
    let slots = |slot: u64, done: bool| {
        subscription_duty_slots::<MainnetEthSpec>(Slot(slot), done, &spec())
    };
    assert_eq!(SUBSCRIPTION_LOOKAHEAD_EPOCHS, 4);
    assert_eq!(slots(33, true), Ok(vec![]));
    assert_eq!(slots(33, false), Ok(vec![(Slot(33), 0)]));
    assert_eq!(slots(64, true), Ok(vec![(Slot(64), 0)]));
    // Four epochs before the end of the period, and one slot earlier.
    assert_eq!(slots(8192 - 128, true), Ok(vec![(Slot(8064), 0), (Slot(8192), 1)]));
    assert_eq!(slots(8192 - 129, true), Ok(vec![]));
    assert_eq!(slots(8192 - 100, true), Ok(vec![(Slot(8220), 1)]));
    let mut zero = spec();
    zero.epochs_per_sync_committee_period = 0;
    assert_eq!(
        subscription_duty_slots::<MainnetEthSpec>(Slot(1), true, &zero),
        Err("Error computing sync period: DivisionByZero".to_string())
    );
}

#[test]
fn subscriptions_last_until_the_next_period() {
    let subscriptions = subscriptions_from_sync_duties(&vec![sync_duty(5)], 2, &spec());
    assert_eq!(
        subscriptions,
        vec![SyncCommitteeSubscription {
            validator_index: 5,
            sync_committee_indices: vec![5, 105],
            until_epoch: Epoch(768),
        }]
    );
    let far = subscriptions_from_sync_duties(&vec![sync_duty(5)], u64::MAX - 1, &spec());
    assert_eq!(far[0].until_epoch, Epoch(u64::MAX));
}

struct BySlot;

impl SyncDuties for BySlot {
    fn get_duties_for_slot(&self, slot: Slot) -> Option<SlotDuties> {
        if slot.0 == 1 {
            Some(slot_duties(2))
        } else if slot.0 == 2 {
            Some(slot_duties(1))
        } else {
            None
        }
    }
}

#[test]
fn subscriptions_are_collected_from_known_duties() {
    let all = collect_subscriptions(&BySlot, &vec![(Slot(1), 0), (Slot(2), 1)], &spec());
    assert!(all.all_succeeded);
    let until: Vec<u64> = all.subscriptions.iter().map(|s| s.until_epoch.0).collect();
    assert_eq!(until, vec![256, 256, 512]);
    let some = collect_subscriptions(&BySlot, &vec![(Slot(3), 0), (Slot(2), 1)], &spec());
    assert!(!some.all_succeeded);
    assert_eq!(some.subscriptions.len(), 1);
    assert_eq!(subscription_step(&some), SubscriptionStep::Post);
    let unknown = collect_subscriptions(&BySlot, &vec![(Slot(3), 0)], &spec());
    assert_eq!(subscription_step(&unknown), SubscriptionStep::Nothing);
    let none = collect_subscriptions(&BySlot, &vec![], &spec());
    assert_eq!(subscription_step(&none), SubscriptionStep::Nothing);
    assert!(none.all_succeeded);
    assert!(none.subscriptions.is_empty());
}

#[test]
fn first_subscription_is_a_latch() {
    assert!(first_subscription_done_after(false, true, true));
    assert!(!first_subscription_done_after(false, true, false));
    assert!(!first_subscription_done_after(false, false, true));
    assert!(first_subscription_done_after(true, false, false));
}

#[test]
fn only_a_contribution_that_was_found_is_signed() {
    assert_eq!(accept_contribution::<u8>(Ok(Some(3))), Ok(3));
    assert_eq!(accept_contribution::<u8>(Ok(None)), Err(()));
    assert_eq!(accept_contribution::<u8>(Err("no node".to_string())), Err(()));
}

#[test]
fn only_known_validators_sign() {
    let data = PayloadAttestationData {
        beacon_block_root: root(1),
        slot: Slot(9),
        payload_present: true,
        blob_data_available: false,
    };
    let mut key = [0u8; 48];
    key[0] = 0xa9;
    key[47] = 0x1f;
    let key = FixedBytes(key);
    assert_eq!(
        message_to_sign(Some(7), &key, data),
        Ok(PayloadAttestationMessage {
            validator_index: 7,
            data,
            signature: FixedBytes([0; 96]),
        })
    );
    let zeros = "00".repeat(46);
    assert_eq!(
        message_to_sign(None, &key, data),
        Err(format!("Unknown validator: 0xa9{}1f", zeros))
    );
}

#[test]
fn contributions_are_asked_for_by_subnet() {
    assert_eq!(
        contribution_request(Slot(9), root(4), 3),
        SyncContributionData { slot: Slot(9), beacon_block_root: root(4), subcommittee_index: 3 }
    );
}

#[test]
fn messages_are_awaited_into_the_next_slot() {
    assert_eq!(next_message_wait(secs(5), secs(4)), Some(secs(9)));
    assert_eq!(next_message_wait(TimeSpan(MAX_NANOS), TimeSpan(1)), None);
}
