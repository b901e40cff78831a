//! When sync committee messages are sent, for what, and who subscribes to which committee.

use crate::eth_spec::{ChainSpec, EthSpec};
use crate::primitives::{Epoch, Hash256, Slot};
use crate::sync_committee_service::{
    accept_contribution, accept_head_block, altair_fork_activated, batch_step, begun,
    collect_subscriptions, contribution_request, contributions_to_sign, decide_contribution,
    delay_by_reading, delay_until_slot_offset, duties_asked, duty_subscriptions,
    first_subscription_done_after, known_subscriptions, last_processed_after, messages_to_sign,
    next_message_wait, next_slot_by_reading, next_slot_with_duration, next_sync_step, resumed,
    subscribed_until, subscription_duty_slots, subscription_step, subscription_views,
    subscriptions_from_sync_duties, sync_period_of_slot, was_read, was_read_ahead, BatchStep,
    CollectedSubscriptions, ContributionRun, ContributionStep, ContributionToSign, HeadBlock,
    HeadEvent, SkipReason, SlotDuties, SlotReading, SubscriptionModel, SubscriptionStep,
    SyncAggregator, SyncCommitteeContribution, SyncCommitteeSubscription, SyncContributionData,
    SyncDuties, SyncDuty, SyncMessageToSign, SyncStep,
};
use crate::text::decimal;
use crate::time_span::{SlotClock, TimeSpan};
use std::sync::Arc;
use vstd::prelude::*;

verus! {

/// The longest time that can be measured, in nanoseconds.
pub open spec fn longest() -> int {
    18_446_744_073_709_551_615_999_999_999
}

/// Whether a clock was asked for the time, for the slot at that time and, if that is `slot`, for
/// the start of that slot.
pub open spec fn clock_said<T: SlotClock>(
    clock: T,
    slot: Slot,
    now: Option<TimeSpan>,
    current: Option<Slot>,
    start: Option<TimeSpan>,
) -> bool {
    &&& call_ensures(T::now_duration, (&clock,), now)
    &&& now is Some ==> call_ensures(T::slot_of, (&clock, now->0), current)
    &&& now is Some && current == Some(slot) ==> call_ensures(T::start_of, (&clock, slot), start)
}

/// How long it is until `due` past the start of `slot`, by what a clock said: nothing once that has
/// passed, and unknown if the slot is not the current one.
pub open spec fn time_left(
    slot: Slot,
    due: TimeSpan,
    now: Option<TimeSpan>,
    current: Option<Slot>,
    start: Option<TimeSpan>,
    left: Option<TimeSpan>,
) -> bool {
    match (now, current, start) {
        (Some(now), Some(current), Some(start)) => if current.0 != slot.0 || start.0 + due.0
            > longest() {
            left is None
        } else if start.0 + due.0 <= now.0 {
            left == Some(TimeSpan(0))
        } else {
            left matches Some(left) && now.0 + left.0 == start.0 + due.0
        },
        _ => left is None,
    }
}

/// The time left until something is due in a slot is told from one reading of the clock.
pub proof fn lemma_time_left_is_told_by_the_clock<T: SlotClock>(
    clock: T,
    slot: Slot,
    due: TimeSpan,
    r: Option<TimeSpan>,
)
    requires
        call_ensures(delay_until_slot_offset::<T>, (&clock, slot, due), r),
    ensures
        exists|now: Option<TimeSpan>, current: Option<Slot>, start: Option<TimeSpan>| #[trigger]
            clock_said(clock, slot, now, current, start) && time_left(
                slot,
                due,
                now,
                current,
                start,
                r,
            ),
{
    let reading = choose|reading: SlotReading| #[trigger]
        was_read(clock, slot, reading) && r == delay_by_reading(slot, due, reading);
    lemma_time_left(slot, due, reading);
    assert(clock_said(clock, slot, reading.now, reading.slot, reading.start));
}

proof fn lemma_time_left(slot: Slot, due: TimeSpan, reading: SlotReading)
    ensures
        time_left(
            slot,
            due,
            reading.now,
            reading.slot,
            reading.start,
            delay_by_reading(slot, due, reading),
        ),
{
}

/// Whether a clock was asked for the time, for the slot at that time and for the start of the slot
/// after it, and `r` is that slot and how far its start lies ahead.
pub open spec fn clock_said_ahead<T: SlotClock>(
    clock: T,
    now: Option<TimeSpan>,
    current: Option<Slot>,
    start: Option<TimeSpan>,
    r: Option<(Slot, TimeSpan)>,
) -> bool {
    &&& call_ensures(T::now_duration, (&clock,), now)
    &&& now is Some ==> call_ensures(T::slot_of, (&clock, now->0), current)
    &&& match (now, current) {
        (Some(now), Some(current)) => {
            let next = if current.0 < u64::MAX {
                Slot((current.0 + 1) as u64)
            } else {
                current
            };
            &&& call_ensures(T::start_of, (&clock, next), start)
            &&& match start {
                Some(start) => r matches Some((slot, left)) && slot == next && left.0 == (
                if start.0 > now.0 {
                    start.0 - now.0
                } else {
                    0
                }),
                None => r is None,
            }
        },
        _ => r is None,
    }
}

/// The next slot is the one after the current one, and its start lies as far ahead as the clock
/// says.
pub proof fn lemma_next_slot_is_told_by_the_clock<T: SlotClock>(
    clock: T,
    r: Option<(Slot, TimeSpan)>,
)
    requires
        call_ensures(next_slot_with_duration::<T>, (&clock,), r),
    ensures
        exists|now: Option<TimeSpan>, current: Option<Slot>, start: Option<TimeSpan>|
            clock_said_ahead(clock, now, current, start, r),
{
    let reading = choose|reading: SlotReading| #[trigger]
        was_read_ahead(clock, reading) && r == next_slot_by_reading(reading);
    assert(clock_said_ahead(clock, reading.now, reading.slot, reading.start, r));
}

/// The wait for the next messages ends when they are due in the next slot.
pub proof fn lemma_messages_are_awaited_until_due(
    duration_to_next_slot: TimeSpan,
    sync_message_due: TimeSpan,
    r: Option<TimeSpan>,
)
    requires
        call_ensures(next_message_wait, (duration_to_next_slot, sync_message_due), r),
    ensures
        match r {
            Some(wait) => wait.0 == duration_to_next_slot.0 + sync_message_due.0 && wait.0
                <= longest(),
            None => duration_to_next_slot.0 + sync_message_due.0 > longest(),
        },
{
}

/// Sync committees start with the first epoch of the Altair fork, by the clock.
pub proof fn lemma_sync_committees_start_with_altair<E: EthSpec, T: SlotClock>(
    spec: ChainSpec,
    clock: T,
    r: bool,
)
    requires
        E::spec_slots_per_epoch() > 0,
        call_ensures(altair_fork_activated::<E, T>, (&spec, &clock), r),
    ensures
        match spec.altair_fork_epoch {
            None => !r,
            Some(epoch) => exists|now: Option<Slot>| #[trigger]
                call_ensures(T::now, (&clock,), now) && r == (now is Some && (now->0).0
                    / E::spec_slots_per_epoch() >= epoch.0),
        },
{
}

/// A trigger leads to messages for its own slot, or for the next one if it is no event, exactly if
/// no messages for that slot or a later one have been produced and the fork has been activated.
/// They are for the head that the event names. The slot then counts as processed; nothing else
/// does.
pub proof fn lemma_trigger_leads_to_messages_for_its_slot(
    head_event: Option<HeadEvent>,
    next_slot: Slot,
    last_processed_slot: Option<Slot>,
    altair_activated: bool,
    r: SyncStep,
    after: Option<Slot>,
)
    requires
        call_ensures(
            next_sync_step,
            (head_event, next_slot, last_processed_slot, altair_activated),
            r,
        ),
        call_ensures(last_processed_after, (last_processed_slot, &r), after),
    ensures
        ({
            let due = match head_event {
                Some(event) => event.slot,
                None => next_slot,
            };
            let done = match last_processed_slot {
                Some(last) => due.0 <= last.0,
                None => false,
            };
            match r {
                SyncStep::AlreadyProcessed { slot } => done && slot == due,
                SyncStep::BeforeAltair => !done && !altair_activated,
                SyncStep::Produce { slot, head_event_root } => {
                    &&& !done && altair_activated
                    &&& slot == due
                    &&& head_event is None ==> head_event_root is None
                    &&& head_event matches Some(event) ==> head_event_root == Some(
                        event.beacon_block_root,
                    )
                },
            }
        }),
        r matches SyncStep::Produce { slot, .. } ==> after == Some(slot),
        !(r is Produce) ==> after == last_processed_slot,
{
}

/// Where the production of messages goes on, by the duties that are known and the time that is
/// left.
pub open spec fn goes_on(
    duties: Option<SlotDuties>,
    head_root: Option<Hash256>,
    left: Option<TimeSpan>,
    r: ContributionStep,
) -> bool {
    match r {
        ContributionStep::Skip(SkipReason::NoDutiesKnown) => duties is None,
        ContributionStep::Skip(SkipReason::NoLocalValidators) => duties is Some
            && (duties->0).duties@.len() == 0,
        ContributionStep::Skip(SkipReason::Expired) => duties is Some && (duties->0).duties@.len()
            > 0 && left is None,
        ContributionStep::Skip(SkipReason::DeadlinePassed) => duties is Some
            && (duties->0).duties@.len() > 0 && left == Some(TimeSpan(0)),
        ContributionStep::Sign { duties: known, head_root: head, contribution_delay } => {
            &&& duties == Some(known)
            &&& known.duties@.len() > 0
            &&& head == head_root
            &&& left == Some(contribution_delay)
            &&& contribution_delay.0 > 0
        },
        ContributionStep::AwaitDeadline(_) => false,
    }
}

/// Messages are signed exactly if a local validator is known to have a duty and time is left to
/// aggregate them.
pub proof fn lemma_messages_are_signed_while_there_is_time(
    duties: Option<SlotDuties>,
    head_root: Option<Hash256>,
    left: Option<TimeSpan>,
    r: ContributionStep,
)
    requires
        call_ensures(decide_contribution, (duties, head_root, left), r),
    ensures
        goes_on(duties, head_root, left, r),
        r is Sign <==> duties is Some && (duties->0).duties@.len() > 0 && left is Some
            && (left->0).0 > 0,
{
}

/// When the production for a slot is triggered, the duties of that slot are asked for. If a head
/// event came before they were known, the production waits until messages are due in that slot;
/// otherwise it goes on with the head of the event and the time that is left for contributions.
pub proof fn lemma_production_begins_with_the_duties<T: SlotClock, D: SyncDuties>(
    clock: T,
    sync_duties: D,
    slot: Slot,
    head_event_root: Option<Hash256>,
    message_due: TimeSpan,
    contribution_due: TimeSpan,
    r: ContributionStep,
    run: ContributionRun,
)
    requires
        begun(
            clock,
            sync_duties,
            slot,
            head_event_root,
            message_due,
            contribution_due,
            r,
            run,
        ),
    ensures
        call_ensures(D::get_duties_for_slot, (&sync_duties, slot), run.duties),
        run.duties is None && head_event_root is Some ==> clock_said(
            clock,
            slot,
            run.message_reading.now,
            run.message_reading.slot,
            run.message_reading.start,
        ) && time_left(
            slot,
            message_due,
            run.message_reading.now,
            run.message_reading.slot,
            run.message_reading.start,
            match r {
                ContributionStep::AwaitDeadline(wait) => Some(wait),
                _ => None,
            },
        ) && (r is AwaitDeadline || r == ContributionStep::Skip(SkipReason::Expired)),
        run.duties is None && head_event_root is None ==> r == ContributionStep::Skip(
            SkipReason::NoDutiesKnown,
        ),
        run.duties is Some ==> exists|left: Option<TimeSpan>| #[trigger]
            goes_on(run.duties, head_event_root, left, r) && ((run.duties->0).duties@.len() > 0
                ==> clock_said(
                clock,
                slot,
                run.contribution_reading.now,
                run.contribution_reading.slot,
                run.contribution_reading.start,
            ) && time_left(
                slot,
                contribution_due,
                run.contribution_reading.now,
                run.contribution_reading.slot,
                run.contribution_reading.start,
                left,
            )),
{
    lemma_time_left(slot, message_due, run.message_reading);
    lemma_time_left(slot, contribution_due, run.contribution_reading);
    let left = delay_by_reading(slot, contribution_due, run.contribution_reading);
    if run.duties is Some {
        assert(goes_on(run.duties, head_event_root, left, r));
    }
}

/// After the wait the duties of the slot are asked for once more, and the production goes on with
/// the time that is left for contributions and a head that has to be fetched.
pub proof fn lemma_production_is_resumed_with_the_duties<T: SlotClock, D: SyncDuties>(
    clock: T,
    sync_duties: D,
    slot: Slot,
    contribution_due: TimeSpan,
    r: ContributionStep,
    run: ContributionRun,
)
    requires
        resumed(clock, sync_duties, slot, contribution_due, r, run),
    ensures
        call_ensures(D::get_duties_for_slot, (&sync_duties, slot), run.duties),
        exists|left: Option<TimeSpan>| #[trigger]
            goes_on(run.duties, None, left, r) && (run.duties is Some
                && (run.duties->0).duties@.len() > 0 ==> clock_said(
                clock,
                slot,
                run.contribution_reading.now,
                run.contribution_reading.slot,
                run.contribution_reading.start,
            ) && time_left(
                slot,
                contribution_due,
                run.contribution_reading.now,
                run.contribution_reading.slot,
                run.contribution_reading.start,
                left,
            )),
{
    lemma_time_left(slot, contribution_due, run.contribution_reading);
    let left = delay_by_reading(slot, contribution_due, run.contribution_reading);
    assert(goes_on(run.duties, None, left, r));
}

/// A head is signed for only if a beacon node knows that it is not optimistic.
pub proof fn lemma_optimistic_heads_are_not_signed_for(
    slot: Slot,
    reply: Result<Option<HeadBlock>, String>,
    r: Result<Hash256, String>,
)
    requires
        call_ensures(accept_head_block, (slot, reply), r),
    ensures
        match (reply, r) {
            (Ok(Some(block)), Ok(root)) => block.execution_optimistic == Some(false) && root
                == block.root,
            (Ok(Some(block)), Err(message)) => block.execution_optimistic != Some(false) && message@
                == "To sign sync committee messages for slot "@ + decimal(slot.0 as nat)
                + " a non-optimistic head block is required"@,
            (Ok(None), Err(message)) => message@ == "No block root found for slot "@ + decimal(
                slot.0 as nat,
            ),
            (Err(e), Err(message)) => message == e,
            _ => false,
        },
{
}

/// Each validator with a duty signs one message for the head, in the order of the duties; each
/// aggregator of a subnet signs its contribution with its own proof, in the order of the
/// aggregators.
pub proof fn lemma_everyone_signs_their_own(
    slot: Slot,
    beacon_block_root: Hash256,
    duties: Vec<SyncDuty>,
    messages: Vec<SyncMessageToSign>,
    aggregators: Vec<SyncAggregator>,
    contribution: Arc<SyncCommitteeContribution>,
    contributions: Vec<ContributionToSign>,
)
    requires
        call_ensures(messages_to_sign, (slot, beacon_block_root, &duties), messages),
        call_ensures(contributions_to_sign, (&aggregators, &contribution), contributions),
    ensures
        messages@.len() == duties@.len(),
        forall|i: int|
            0 <= i < duties@.len() ==> {
                let message = #[trigger] messages@[i];
                &&& message.slot == slot
                &&& message.beacon_block_root == beacon_block_root
                &&& message.validator_index == duties@[i].validator_index
                &&& message.pubkey == duties@[i].pubkey
            },
        contributions@.len() == aggregators@.len(),
        forall|i: int|
            0 <= i < aggregators@.len() ==> {
                let signed = #[trigger] contributions@[i];
                &&& signed.aggregator_index == aggregators@[i].aggregator_index
                &&& signed.aggregator_pubkey == aggregators@[i].pubkey
                &&& signed.selection_proof == aggregators@[i].selection_proof
                &&& signed.contribution == contribution
            },
{
}

/// A contribution is asked for by slot, head and subnet, and taken if a beacon node has one. A
/// batch is sent unless it is empty or could not be signed.
pub proof fn lemma_contributions_are_fetched_and_sent<C, T, E>(
    slot: Slot,
    beacon_block_root: Hash256,
    subnet_id: u64,
    request: SyncContributionData,
    reply: Result<Option<C>, String>,
    taken: Result<C, ()>,
    batch: Result<Vec<T>, E>,
    step: BatchStep,
)
    requires
        call_ensures(contribution_request, (slot, beacon_block_root, subnet_id), request),
        call_ensures(accept_contribution::<C>, (reply,), taken),
        call_ensures(batch_step::<T, E>, (&batch,), step),
    ensures
        request.slot == slot,
        request.beacon_block_root == beacon_block_root,
        request.subcommittee_index == subnet_id,
        taken is Ok <==> reply is Ok && reply->Ok_0 is Some,
        taken matches Ok(contribution) ==> reply->Ok_0 == Some(contribution),
        step is Publish <==> batch is Ok && batch->Ok_0@.len() > 0,
        step is Nothing <==> batch is Ok && batch->Ok_0@.len() == 0,
        step is ReportFailure <==> batch is Err,
{
}

/// The first epoch after a sync committee period, as far as epochs are numbered.
pub open spec fn end_of_period(period: u64, spec: ChainSpec) -> Epoch {
    let end = spec.epochs_per_sync_committee_period * (period + 1);
    if end > u64::MAX {
        Epoch(u64::MAX)
    } else {
        Epoch(end as u64)
    }
}

/// A slot lies in the sync committee period that holds its epoch; without a length of periods there
/// is none.
pub proof fn lemma_period_holds_the_slot<E: EthSpec>(
    slot: Slot,
    spec: ChainSpec,
    r: Result<u64, String>,
)
    requires
        E::spec_slots_per_epoch() > 0,
        call_ensures(sync_period_of_slot::<E>, (slot, &spec), r),
    ensures
        ({
            let epoch = slot.0 / E::spec_slots_per_epoch();
            let length = spec.epochs_per_sync_committee_period;
            match r {
                Ok(period) => length > 0 && period * length <= epoch < (period + 1) * length,
                Err(message) => length == 0 && message@ == "Error computing sync period: "@
                    + "DivisionByZero"@,
            }
        }),
{
    let epoch = (slot.0 / E::spec_slots_per_epoch()) as int;
    let length = spec.epochs_per_sync_committee_period as int;
    assert(0 <= epoch <= slot.0) by (nonlinear_arith)
        requires
            epoch == slot.0 / E::spec_slots_per_epoch(),
            E::spec_slots_per_epoch() > 0,
    ;
    if length > 0 {
        vstd::arithmetic::div_mod::lemma_fundamental_div_mod(epoch, length);
        vstd::arithmetic::div_mod::lemma_mod_bound(epoch, length);
        let period = epoch / length;
        assert(period * length == length * period && (period + 1) * length == length * period
            + length) by (nonlinear_arith);
    }
}

/// Each validator with a duty subscribes once, with its own seats, up to the end of the period.
pub proof fn lemma_validators_subscribe_until_the_end_of_the_period(
    duties: Vec<SyncDuty>,
    period: u64,
    spec: ChainSpec,
    r: Vec<SyncCommitteeSubscription>,
)
    requires
        period < u64::MAX,
        call_ensures(subscriptions_from_sync_duties, (&duties, period, &spec), r),
    ensures
        r@.len() == duties@.len(),
        forall|i: int|
            0 <= i < duties@.len() ==> {
                let subscription = #[trigger] r@[i];
                &&& subscription.validator_index == duties@[i].validator_index
                &&& subscription.sync_committee_indices@
                    == duties@[i].validator_sync_committee_indices@
                &&& subscription.until_epoch == end_of_period(period, spec)
            },
{
    let views = subscription_views(r@);
    assert(views.len() == r@.len());
    assert forall|i: int| 0 <= i < duties@.len() implies {
        let subscription = #[trigger] r@[i];
        &&& subscription.validator_index == duties@[i].validator_index
        &&& subscription.sync_committee_indices@ == duties@[i].validator_sync_committee_indices@
        &&& subscription.until_epoch == end_of_period(period, spec)
    } by {
        assert(views[i] == r@[i]@);
    }
}

/// The current slot is subscribed for at the start of every epoch, and in every slot until
/// subscriptions have succeeded once; a slot four epochs ahead is, in every slot, if it lies in a
/// later period. Each comes with its own period.
pub proof fn lemma_subscriptions_look_four_epochs_ahead<E: EthSpec>(
    slot: Slot,
    first_subscription_done: bool,
    spec: ChainSpec,
    r: Result<Vec<(Slot, u64)>, String>,
    period: Result<u64, String>,
    ahead: Slot,
    later: Result<u64, String>,
)
    requires
        E::spec_slots_per_epoch() > 0,
        slot.0 + 4 * E::spec_slots_per_epoch() <= u64::MAX,
        ahead.0 == slot.0 + 4 * E::spec_slots_per_epoch(),
        call_ensures(
            subscription_duty_slots::<E>,
            (slot, first_subscription_done, &spec),
            r,
        ),
        call_ensures(sync_period_of_slot::<E>, (slot, &spec), period),
        call_ensures(sync_period_of_slot::<E>, (ahead, &spec), later),
    ensures
        match (r, period, later) {
            (Ok(slots), Ok(period), Ok(later)) => {
                let now: int = if !first_subscription_done || slot.0 % E::spec_slots_per_epoch()
                    == 0 {
                    1
                } else {
                    0
                };
                let next: int = if later > period {
                    1
                } else {
                    0
                };
                &&& slots@.len() == now + next
                &&& now == 1 ==> slots@[0] == (slot, period)
                &&& next == 1 ==> slots@.last() == (ahead, later)
            },
            (Err(message), _, _) => spec.epochs_per_sync_committee_period == 0 && message@
                == "Error computing sync period: "@ + "DivisionByZero"@,
            _ => false,
        },
{
}

/// The subscriptions of the validators with a duty in one slot, if these duties are known.
pub open spec fn subscriptions_for(
    duties: Option<SlotDuties>,
    period: u64,
    spec: ChainSpec,
) -> Seq<SubscriptionModel> {
    match duties {
        None => Seq::empty(),
        Some(duties) => Seq::new(
            duties.duties@.len(),
            |i: int|
                SubscriptionModel {
                    validator_index: duties.duties@[i].validator_index,
                    sync_committee_indices: duties.duties@[i].validator_sync_committee_indices@,
                    until_epoch: end_of_period(period, spec),
                },
        ),
    }
}

proof fn lemma_known_subscriptions(
    slots: Seq<(Slot, u64)>,
    replies: Seq<Option<SlotDuties>>,
    spec: ChainSpec,
)
    requires
        slots.len() == replies.len(),
        forall|k: int| 0 <= k < slots.len() ==> (#[trigger] slots[k]).1 < u64::MAX,
    ensures
        known_subscriptions(slots, replies, spec) == Seq::new(
            slots.len(),
            |k: int| subscriptions_for(replies[k], slots[k].1, spec),
        ).flatten(),
    decreases slots.len(),
{
    let parts = Seq::new(
        slots.len(),
        |k: int| subscriptions_for(replies[k], slots[k].1, spec),
    );
    parts.lemma_flatten_and_flatten_alt_are_equivalent();
    if slots.len() > 0 {
        let rest = slots.drop_last();
        let rest_replies = replies.drop_last();
        assert forall|k: int| 0 <= k < rest.len() implies (#[trigger] rest[k]).1 < u64::MAX by {
            assert(rest[k] == slots[k]);
        }
        lemma_known_subscriptions(rest, rest_replies, spec);
        let rest_parts = Seq::new(
            rest.len(),
            |k: int| subscriptions_for(rest_replies[k], rest[k].1, spec),
        );
        rest_parts.lemma_flatten_and_flatten_alt_are_equivalent();
        assert(parts.drop_last() =~= rest_parts);
        assert(slots[slots.len() - 1].1 < u64::MAX);
        match replies.last() {
            Some(duties) => {
                assert(duty_subscriptions(
                    duties.duties@,
                    subscribed_until(slots.last().1, spec),
                ) =~= parts.last());
            },
            None => {
                assert(parts.last() =~= Seq::empty());
                assert(rest_parts.flatten() + parts.last() =~= rest_parts.flatten());
            },
        }
    }
}

/// The duties of each slot are asked for, and all that are known lead to subscriptions, slot after
/// slot. The attempt counts as complete only if the duties of every slot were known.
pub proof fn lemma_all_known_duties_are_subscribed_for<D: SyncDuties>(
    sync_duties: D,
    slots: Vec<(Slot, u64)>,
    spec: ChainSpec,
    r: CollectedSubscriptions,
)
    requires
        forall|k: int| 0 <= k < slots@.len() ==> (#[trigger] slots@[k]).1 < u64::MAX,
        call_ensures(collect_subscriptions::<D>, (&sync_duties, &slots, &spec), r),
    ensures
        exists|replies: Seq<Option<SlotDuties>>|
            duties_were_told(sync_duties, slots@, replies) && subscription_views(
                r.subscriptions@,
            ) == Seq::new(
                slots@.len(),
                |k: int| subscriptions_for(replies[k], slots@[k].1, spec),
            ).flatten() && (r.all_succeeded <==> forall|k: int|
                0 <= k < slots@.len() ==> #[trigger] replies[k] is Some),
{
    let replies = choose|replies: Seq<Option<SlotDuties>>| #[trigger]
        duties_asked(sync_duties, slots@, replies) && subscription_views(r.subscriptions@)
            == known_subscriptions(slots@, replies, spec) && r.all_succeeded == (forall|k: int|
            0 <= k < slots@.len() ==> (#[trigger] replies[k]) is Some);
    lemma_known_subscriptions(slots@, replies, spec);
    assert(duties_were_told(sync_duties, slots@, replies));
}

/// Whether the duties of each slot were asked for, and `replies` holds the answers.
pub open spec fn duties_were_told<D: SyncDuties>(
    sync_duties: D,
    slots: Seq<(Slot, u64)>,
    replies: Seq<Option<SlotDuties>>,
) -> bool {
    &&& replies.len() == slots.len()
    &&& forall|k: int|
        0 <= k < slots.len() ==> call_ensures(
            D::get_duties_for_slot,
            (&sync_duties, slots[k].0),
            #[trigger] replies[k],
        )
}

/// Subscriptions are posted if there are any. The first success is remembered: it takes the duties
/// of all slots and a post that went through.
pub proof fn lemma_first_subscription_is_remembered(
    collected: CollectedSubscriptions,
    step: SubscriptionStep,
    done: bool,
    all_succeeded: bool,
    posted: bool,
    after: bool,
)
    requires
        call_ensures(subscription_step, (&collected,), step),
        call_ensures(first_subscription_done_after, (done, all_succeeded, posted), after),
    ensures
        step is Post <==> collected.subscriptions@.len() > 0,
        done ==> after,
        !done ==> (after <==> all_succeeded && posted),
{
}

} // verus!
