//! Signs sync committee messages and contributions, and keeps the subscriptions alive.

use crate::arith::{quotient, ArithError};
use crate::eth_spec::{ChainSpec, EthSpec};
use crate::primitives::{saturating_product, Epoch, Hash256, PublicKeyBytes, Signature, Slot};
use crate::text::{append_decimal, decimal};
use crate::time_span::{SlotClock, TimeSpan};
use std::collections::HashMap;
use std::sync::Arc;
use vstd::prelude::*;
use vstd::string::StringExecFns;

verus! {

/// How many epochs before a sync committee period its subscriptions are posted.
pub const SUBSCRIPTION_LOOKAHEAD_EPOCHS: u64 = 4;

/// What a clock said in one reading: the time, the slot at that time, and when a slot starts.
pub struct SlotReading {
    pub now: Option<TimeSpan>,
    pub slot: Option<Slot>,
    pub start: Option<TimeSpan>,
}

/// Whether `reading` is what the clock said when asked for the time, then for its slot, then for
/// the start of `slot`, up to the first question without an answer.
pub open spec fn was_read<T: SlotClock>(clock: T, slot: Slot, reading: SlotReading) -> bool {
    &&& call_ensures(T::now_duration, (&clock,), reading.now)
    &&& reading.now matches Some(now) ==> call_ensures(T::slot_of, (&clock, now), reading.slot)
    &&& reading.now is Some && reading.slot == Some(slot) ==> call_ensures(
        T::start_of,
        (&clock, slot),
        reading.start,
    )
}

/// The time until `due` past the start of `slot`, which is none once that has passed; `None` if
/// `slot` is not the current slot.
pub open spec fn delay_by_reading(slot: Slot, due: TimeSpan, reading: SlotReading) -> Option<
    TimeSpan,
> {
    match (reading.now, reading.slot, reading.start) {
        (Some(now), Some(current), Some(start)) => if current == slot {
            match start.spec_checked_add(due) {
                Some(due_at) => Some(due_at.spec_saturating_sub(now)),
                None => None,
            }
        } else {
            None
        },
        _ => None,
    }
}

/// Duration from now until `due` past the start of `slot`, or `None` if `slot` is not the
/// current slot.
pub fn delay_until_slot_offset<T: SlotClock>(slot_clock: &T, slot: Slot, due: TimeSpan) -> (r:
    Option<TimeSpan>)
    ensures
        exists|reading: SlotReading| #[trigger]
            was_read(*slot_clock, slot, reading) && r == delay_by_reading(slot, due, reading),
{
    let ghost mut reading = SlotReading { now: None, slot: None, start: None };
    let now_reply = slot_clock.now_duration();
    proof {
        reading.now = now_reply;
    }
    let now = match now_reply {
        Some(now) => now,
        None => {
            assert(was_read(*slot_clock, slot, reading));
            return None;
        },
    };
    let slot_reply = slot_clock.slot_of(now);
    proof {
        reading.slot = slot_reply;
    }
    match slot_reply {
        Some(current) => {
            if current.0 != slot.0 {
                assert(was_read(*slot_clock, slot, reading));
                return None;
            }
        },
        None => {
            assert(was_read(*slot_clock, slot, reading));
            return None;
        },
    }
    let start_reply = slot_clock.start_of(slot);
    proof {
        reading.start = start_reply;
    }
    assert(was_read(*slot_clock, slot, reading));
    let start = match start_reply {
        Some(start) => start,
        None => {
            return None;
        },
    };
    match start.checked_add(due) {
        Some(due_at) => Some(due_at.saturating_sub(now)),
        None => None,
    }
}

/// Whether `reading` is what the clock said when asked for the time, then for its slot, then for
/// the start of the slot after that, up to the first question without an answer.
pub open spec fn was_read_ahead<T: SlotClock>(clock: T, reading: SlotReading) -> bool {
    &&& call_ensures(T::now_duration, (&clock,), reading.now)
    &&& reading.now matches Some(now) ==> call_ensures(T::slot_of, (&clock, now), reading.slot)
    &&& reading.now is Some && reading.slot is Some ==> call_ensures(
        T::start_of,
        (&clock, (reading.slot->0).spec_plus(1)),
        reading.start,
    )
}

/// The slot after the one that was read, and the time until it starts.
pub open spec fn next_slot_by_reading(reading: SlotReading) -> Option<(Slot, TimeSpan)> {
    match (reading.now, reading.slot, reading.start) {
        (Some(now), Some(current), Some(start)) => Some(
            (current.spec_plus(1), start.spec_saturating_sub(now)),
        ),
        _ => None,
    }
}

/// The next slot and the duration until it starts, derived from a single clock read so the
/// two values always describe the same slot.
pub fn next_slot_with_duration<T: SlotClock>(slot_clock: &T) -> (r: Option<(Slot, TimeSpan)>)
    ensures
        exists|reading: SlotReading| #[trigger]
            was_read_ahead(*slot_clock, reading) && r == next_slot_by_reading(reading),
{
    let ghost mut reading = SlotReading { now: None, slot: None, start: None };
    let now_reply = slot_clock.now_duration();
    proof {
        reading.now = now_reply;
    }
    let now = match now_reply {
        Some(now) => now,
        None => {
            assert(was_read_ahead(*slot_clock, reading));
            return None;
        },
    };
    let slot_reply = slot_clock.slot_of(now);
    proof {
        reading.slot = slot_reply;
    }
    let next_slot = match slot_reply {
        Some(slot) => slot.plus(1),
        None => {
            assert(was_read_ahead(*slot_clock, reading));
            return None;
        },
    };
    let start_reply = slot_clock.start_of(next_slot);
    proof {
        reading.start = start_reply;
    }
    assert(was_read_ahead(*slot_clock, reading));
    match start_reply {
        Some(start) => Some((next_slot, start.saturating_sub(now))),
        None => None,
    }
}

/// How long the service waits for a head event: until messages are due in the next slot. There is
/// no such time if it is too long to be measured.
pub fn next_message_wait(duration_to_next_slot: TimeSpan, sync_message_due: TimeSpan) -> (r: Option<
    TimeSpan,
>)
    ensures
        r == duration_to_next_slot.spec_checked_add(sync_message_due),
{
    duration_to_next_slot.checked_add(sync_message_due)
}

/// Whether the Altair fork has been activated, by the slot that the clock gave.
pub open spec fn altair_activated_at(
    altair_fork_epoch: Option<Epoch>,
    now: Option<Slot>,
    slots_per_epoch: u64,
) -> bool {
    match (altair_fork_epoch, now) {
        (Some(fork_epoch), Some(slot)) => slot.spec_epoch(slots_per_epoch).0 >= fork_epoch.0,
        _ => false,
    }
}

/// Check if the Altair fork has been activated and therefore sync duties should be performed.
///
/// Slot clock errors are mapped to `false`.
pub fn altair_fork_activated<E: EthSpec, T: SlotClock>(spec: &ChainSpec, slot_clock: &T) -> (r:
    bool)
    requires
        E::spec_slots_per_epoch() > 0,
    ensures
        spec.altair_fork_epoch is None ==> !r,
        spec.altair_fork_epoch is Some ==> exists|now: Option<Slot>|
            call_ensures(T::now, (slot_clock,), now) && r == #[trigger] altair_activated_at(
                spec.altair_fork_epoch,
                now,
                E::spec_slots_per_epoch(),
            ),
{
    let fork_epoch = match spec.altair_fork_epoch {
        Some(epoch) => epoch,
        None => {
            return false;
        },
    };
    let now = slot_clock.now();
    let ghost activated = altair_activated_at(
        spec.altair_fork_epoch,
        now,
        E::spec_slots_per_epoch(),
    );
    match now {
        Some(slot) => slot.epoch(E::slots_per_epoch()).0 >= fork_epoch.0,
        None => false,
    }
}

/// The head of the chain has changed.
#[derive(Clone, Copy, Debug, PartialEq, Eq)]
pub struct HeadEvent {
    pub slot: Slot,
    pub beacon_block_root: Hash256,
}

/// The work that a trigger leads to.
#[derive(Clone, Copy, Debug, PartialEq, Eq)]
pub enum SyncStep {
    /// Nothing: messages for the slot have been produced.
    AlreadyProcessed { slot: Slot },
    /// Nothing: sync committees come with the Altair fork.
    BeforeAltair,
    /// Messages for the slot are produced, for the head in the trigger if there is one.
    Produce { slot: Slot, head_event_root: Option<Hash256> },
}

/// The work that a trigger leads to: a head event, or the deadline in `next_slot`.
pub open spec fn sync_step(
    head_event: Option<HeadEvent>,
    next_slot: Slot,
    last_processed_slot: Option<Slot>,
    altair_activated: bool,
) -> SyncStep {
    let slot = match head_event {
        Some(event) => event.slot,
        None => next_slot,
    };
    let head_event_root = match head_event {
        Some(event) => Some(event.beacon_block_root),
        None => None,
    };
    if last_processed_slot is Some && slot.0 <= (last_processed_slot->0).0 {
        SyncStep::AlreadyProcessed { slot }
    } else if !altair_activated {
        SyncStep::BeforeAltair
    } else {
        SyncStep::Produce { slot, head_event_root }
    }
}

/// The work that a trigger leads to.
pub fn next_sync_step(
    head_event: Option<HeadEvent>,
    next_slot: Slot,
    last_processed_slot: Option<Slot>,
    altair_activated: bool,
) -> (r: SyncStep)
    ensures
        r == sync_step(head_event, next_slot, last_processed_slot, altair_activated),
{
    // Take the slot from the trigger itself rather than re-reading the clock, so a
    // head event arriving at the end of a slot is never attributed to the next slot.
    let (current_slot, head_event_root): (Slot, Option<Hash256>) = match head_event {
        Some(event) => (event.slot, Some(event.beacon_block_root)),
        None => (next_slot, None),
    };
    match last_processed_slot {
        Some(last_slot) => {
            if current_slot.0 <= last_slot.0 {
                return SyncStep::AlreadyProcessed { slot: current_slot };
            }
        },
        None => {},
    }
    // Do nothing if the Altair fork has not yet occurred.

    if !altair_activated {
        return SyncStep::BeforeAltair;
    }
    SyncStep::Produce { slot: current_slot, head_event_root }
}

/// The slot that has been processed last, once a step is done.
pub open spec fn processed_after(last_processed_slot: Option<Slot>, step: SyncStep) -> Option<
    Slot,
> {
    match step {
        SyncStep::Produce { slot, .. } => Some(slot),
        _ => last_processed_slot,
    }
}

/// The slot that has been processed last, once a step is done.
pub fn last_processed_after(last_processed_slot: Option<Slot>, step: &SyncStep) -> (r: Option<
    Slot,
>)
    ensures
        r == processed_after(last_processed_slot, *step),
{
    match step {
        SyncStep::Produce { slot, .. } => Some(*slot),
        _ => last_processed_slot,
    }
}

/// Messages are produced for later and later slots: a trigger for a slot that has been processed,
/// or for one before it, never leads to more of them.
pub proof fn lemma_slots_processed_once(
    head_event: Option<HeadEvent>,
    next_slot: Slot,
    last_processed_slot: Option<Slot>,
    altair_activated: bool,
)
    ensures
        ({
            let step = sync_step(head_event, next_slot, last_processed_slot, altair_activated);
            let after = processed_after(last_processed_slot, step);
            &&& last_processed_slot matches Some(before) ==> after matches Some(now) && before.0
                <= now.0
            &&& step matches SyncStep::Produce { slot, .. } ==> {
                &&& last_processed_slot matches Some(before) ==> before.0 < slot.0
                &&& forall|event: Option<HeadEvent>, next: Slot, activated: bool| #[trigger]
                    sync_step(event, next, after, activated) matches SyncStep::Produce {
                        slot: later,
                        ..
                    } ==> slot.0 < later.0
            }
        }),
{
}

/// The duty of a validator in a sync committee.
#[derive(Clone, Debug, PartialEq, Eq)]
pub struct SyncDuty {
    pub pubkey: PublicKeyBytes,
    pub validator_index: u64,
    pub validator_sync_committee_indices: Vec<u64>,
}

/// A validator that aggregates the contributions of a subnet.
#[derive(Clone, Copy, Debug, PartialEq, Eq)]
pub struct SyncAggregator {
    pub aggregator_index: u64,
    pub pubkey: PublicKeyBytes,
    pub selection_proof: Signature,
}

/// The duties of the local validators in a slot.
#[derive(Clone, Debug, PartialEq, Eq)]
pub struct SlotDuties {
    pub duties: Vec<SyncDuty>,
    /// The aggregators, by subnet.
    pub aggregators: HashMap<u64, Vec<SyncAggregator>>,
}

/// Knows the duties of the local validators.
pub trait SyncDuties: Sized {
    /// The duties in a slot, once they have been computed.
    fn get_duties_for_slot(&self, slot: Slot) -> Option<SlotDuties>;
}

/// Why no messages are produced for a slot.
#[derive(Clone, Copy, Debug, PartialEq, Eq)]
pub enum SkipReason {
    /// The slot has passed.
    Expired,
    /// The duties are not known.
    NoDutiesKnown,
    /// No local validator sits on the committee.
    NoLocalValidators,
    /// Messages could no longer be aggregated.
    DeadlinePassed,
}

/// Where the production of messages for a slot goes on.
#[derive(Clone, Debug, PartialEq, Eq)]
pub enum ContributionStep {
    /// Nothing is produced.
    Skip(SkipReason),
    /// Wait, then look for the duties once more.
    AwaitDeadline(TimeSpan),
    /// Sign for the given head, or for one that has to be fetched; aggregate after the given time.
    Sign { duties: SlotDuties, head_root: Option<Hash256>, contribution_delay: TimeSpan },
}

/// Whether a local validator is known to have a duty.
pub open spec fn has_local_duties(duties: Option<SlotDuties>) -> bool {
    match duties {
        Some(duties) => duties.duties@.len() > 0,
        None => false,
    }
}

/// Where the production goes on once the duties have been looked up.
pub open spec fn sign_or_skip(
    duties: Option<SlotDuties>,
    head_root: Option<Hash256>,
    contribution_delay: Option<TimeSpan>,
) -> ContributionStep {
    match duties {
        None => ContributionStep::Skip(SkipReason::NoDutiesKnown),
        Some(duties) => if duties.duties@.len() == 0 {
            ContributionStep::Skip(SkipReason::NoLocalValidators)
        } else {
            match contribution_delay {
                None => ContributionStep::Skip(SkipReason::Expired),
                Some(contribution_delay) => if contribution_delay.0 == 0 {
                    ContributionStep::Skip(SkipReason::DeadlinePassed)
                } else {
                    ContributionStep::Sign { duties, head_root, contribution_delay }
                },
            }
        },
    }
}

/// Where the production goes on when it is triggered. A head event may come before the duties
/// were computed: the production then waits until the deadline for messages.
pub open spec fn first_step(
    duties: Option<SlotDuties>,
    head_event_root: Option<Hash256>,
    delay_to_message_deadline: Option<TimeSpan>,
    contribution_delay: Option<TimeSpan>,
) -> ContributionStep {
    if duties is None && head_event_root is Some {
        match delay_to_message_deadline {
            None => ContributionStep::Skip(SkipReason::Expired),
            Some(delay) => ContributionStep::AwaitDeadline(delay),
        }
    } else {
        sign_or_skip(duties, head_event_root, contribution_delay)
    }
}

/// Where the production goes on, by what has been looked up.
pub fn decide_contribution(
    duties: Option<SlotDuties>,
    head_root: Option<Hash256>,
    contribution_delay: Option<TimeSpan>,
) -> (r: ContributionStep)
    ensures
        r == sign_or_skip(duties, head_root, contribution_delay),
{
    let slot_duties = match duties {
        Some(duties) => duties,
        None => {
            return ContributionStep::Skip(SkipReason::NoDutiesKnown);
        },
    };
    if slot_duties.duties.len() == 0 {
        return ContributionStep::Skip(SkipReason::NoLocalValidators);
    }
    let contribution_delay = match contribution_delay {
        Some(delay) => delay,
        None => {
            return ContributionStep::Skip(SkipReason::Expired);
        },
    };
    // Messages past the contribution deadline can no longer be aggregated, so a trigger
    // this late (a head event for the slot already in progress at startup) is skipped.
    if contribution_delay.is_zero() {
        return ContributionStep::Skip(SkipReason::DeadlinePassed);
    }
    ContributionStep::Sign { duties: slot_duties, head_root, contribution_delay }
}

/// What the duties and the clock said when the production was triggered.
pub struct ContributionRun {
    pub duties: Option<SlotDuties>,
    pub message_reading: SlotReading,
    pub contribution_reading: SlotReading,
}

/// Whether `r` is where the production for `slot` goes on when it is triggered, by what the
/// duties and the clock said.
pub open spec fn begun<T: SlotClock, D: SyncDuties>(
    clock: T,
    sync_duties: D,
    slot: Slot,
    head_event_root: Option<Hash256>,
    message_due: TimeSpan,
    contribution_due: TimeSpan,
    r: ContributionStep,
    run: ContributionRun,
) -> bool {
    &&& call_ensures(D::get_duties_for_slot, (&sync_duties, slot), run.duties)
    &&& run.duties is None && head_event_root is Some ==> was_read(clock, slot, run.message_reading)
    &&& has_local_duties(run.duties) ==> was_read(clock, slot, run.contribution_reading)
    &&& r == first_step(
        run.duties,
        head_event_root,
        delay_by_reading(slot, message_due, run.message_reading),
        delay_by_reading(slot, contribution_due, run.contribution_reading),
    )
}

/// Starts the production of messages for `slot`.
pub fn begin_contribution<T: SlotClock, D: SyncDuties>(
    slot_clock: &T,
    sync_duties: &D,
    slot: Slot,
    head_event_root: Option<Hash256>,
    message_due: TimeSpan,
    contribution_due: TimeSpan,
) -> (r: ContributionStep)
    ensures
        exists|run: ContributionRun| #[trigger]
            begun(
                *slot_clock,
                *sync_duties,
                slot,
                head_event_root,
                message_due,
                contribution_due,
                r,
                run,
            ),
{
    let ghost mut run: ContributionRun = arbitrary();
    let slot_duties = sync_duties.get_duties_for_slot(slot);
    proof {
        run.duties = slot_duties;
    }
    // If a head event triggered us before the duties were computed, wait until the sync
    // message deadline and check for duties once more.
    if slot_duties.is_none() && head_event_root.is_some() {
        let delay = delay_until_slot_offset(slot_clock, slot, message_due);
        proof {
            run.message_reading = choose|reading: SlotReading| #[trigger]
                was_read(*slot_clock, slot, reading) && delay == delay_by_reading(
                    slot,
                    message_due,
                    reading,
                );
        }
        let r = match delay {
            Some(duration_to_deadline) => ContributionStep::AwaitDeadline(duration_to_deadline),
            None => ContributionStep::Skip(SkipReason::Expired),
        };
        assert(begun(
            *slot_clock,
            *sync_duties,
            slot,
            head_event_root,
            message_due,
            contribution_due,
            r,
            run,
        ));
        return r;
    }
    // If a validator needs to publish a sync aggregate, they must do so at 2/3
    // through the slot. This delay triggers at this time

    let delay = match &slot_duties {
        Some(duties) => {
            if duties.duties.len() > 0 {
                let delay = delay_until_slot_offset(slot_clock, slot, contribution_due);
                proof {
                    run.contribution_reading = choose|reading: SlotReading| #[trigger]
                        was_read(*slot_clock, slot, reading) && delay == delay_by_reading(
                            slot,
                            contribution_due,
                            reading,
                        );
                }
                delay
            } else {
                None
            }
        },
        None => None,
    };
    let r = decide_contribution(slot_duties, head_event_root, delay);
    assert(begun(
        *slot_clock,
        *sync_duties,
        slot,
        head_event_root,
        message_due,
        contribution_due,
        r,
        run,
    ));
    r
}

/// Whether `r` is where the production for `slot` goes on after the wait for the deadline.
pub open spec fn resumed<T: SlotClock, D: SyncDuties>(
    clock: T,
    sync_duties: D,
    slot: Slot,
    contribution_due: TimeSpan,
    r: ContributionStep,
    run: ContributionRun,
) -> bool {
    &&& call_ensures(D::get_duties_for_slot, (&sync_duties, slot), run.duties)
    &&& has_local_duties(run.duties) ==> was_read(clock, slot, run.contribution_reading)
    &&& r == sign_or_skip(
        run.duties,
        None,
        delay_by_reading(slot, contribution_due, run.contribution_reading),
    )
}

/// Goes on with the production of messages for `slot` after the wait for the deadline.
///
/// The head may have changed while waiting, so that of the event is not used any more.
pub fn resume_contribution<T: SlotClock, D: SyncDuties>(
    slot_clock: &T,
    sync_duties: &D,
    slot: Slot,
    contribution_due: TimeSpan,
) -> (r: ContributionStep)
    ensures
        exists|run: ContributionRun| #[trigger]
            resumed(*slot_clock, *sync_duties, slot, contribution_due, r, run),
{
    let ghost mut run: ContributionRun = arbitrary();
    let slot_duties = sync_duties.get_duties_for_slot(slot);
    proof {
        run.duties = slot_duties;
    }
    let delay = match &slot_duties {
        Some(duties) => {
            if duties.duties.len() > 0 {
                let delay = delay_until_slot_offset(slot_clock, slot, contribution_due);
                proof {
                    run.contribution_reading = choose|reading: SlotReading| #[trigger]
                        was_read(*slot_clock, slot, reading) && delay == delay_by_reading(
                            slot,
                            contribution_due,
                            reading,
                        );
                }
                delay
            } else {
                None
            }
        },
        None => None,
    };
    let r = decide_contribution(slot_duties, None, delay);
    assert(resumed(*slot_clock, *sync_duties, slot, contribution_due, r, run));
    r
}

/// The head block as a beacon node knows it.
#[derive(Clone, Copy, Debug, PartialEq, Eq)]
pub struct HeadBlock {
    pub root: Hash256,
    pub execution_optimistic: Option<bool>,
}

/// The root to sign for, from what a beacon node said of its head: the head has to be known not to
/// be optimistic.
pub fn accept_head_block(slot: Slot, reply: Result<Option<HeadBlock>, String>) -> (r: Result<
    Hash256,
    String,
>)
    ensures
        match reply {
            Ok(Some(block)) => if block.execution_optimistic == Some(false) {
                r == Ok::<Hash256, String>(block.root)
            } else {
                r matches Err(message) && message@
                    == "To sign sync committee messages for slot "@ + decimal(slot.0 as nat)
                    + " a non-optimistic head block is required"@
            },
            Ok(None) => r matches Err(message) && message@ == "No block root found for slot "@
                + decimal(slot.0 as nat),
            Err(e) => r == Err::<Hash256, String>(e),
        },
{
    match reply {
        Ok(Some(block)) => match block.execution_optimistic {
            Some(false) => Ok(block.root),
            _ => {
                let mut message = "To sign sync committee messages for slot ".to_owned();
                append_decimal(&mut message, slot.0);
                message.append(" a non-optimistic head block is required");
                Err(message)
            },
        },
        Ok(None) => {
            let mut message = "No block root found for slot ".to_owned();
            append_decimal(&mut message, slot.0);
            Err(message)
        },
        Err(e) => Err(e),
    }
}

/// A sync committee message that waits for its signature.
#[derive(Clone, Copy, Debug, PartialEq, Eq)]
pub struct SyncMessageToSign {
    pub slot: Slot,
    pub beacon_block_root: Hash256,
    pub validator_index: u64,
    pub pubkey: PublicKeyBytes,
}

/// The messages that the validators with duties sign, in the order of the duties.
pub fn messages_to_sign(
    slot: Slot,
    beacon_block_root: Hash256,
    validator_duties: &Vec<SyncDuty>,
) -> (r: Vec<SyncMessageToSign>)
    ensures
        r@ == validator_duties@.map_values(
            |duty: SyncDuty|
                SyncMessageToSign {
                    slot,
                    beacon_block_root,
                    validator_index: duty.validator_index,
                    pubkey: duty.pubkey,
                },
        ),
{
    let ghost message = |duty: SyncDuty|
        SyncMessageToSign {
            slot,
            beacon_block_root,
            validator_index: duty.validator_index,
            pubkey: duty.pubkey,
        };
    let mut messages: Vec<SyncMessageToSign> = Vec::new();
    let mut i: usize = 0;
    while i < validator_duties.len()
        invariant
            i <= validator_duties@.len(),
            message == (|duty: SyncDuty|
                SyncMessageToSign {
                    slot,
                    beacon_block_root,
                    validator_index: duty.validator_index,
                    pubkey: duty.pubkey,
                }),
            messages@ == validator_duties@.take(i as int).map_values(message),
        decreases validator_duties@.len() - i,
    {
        let duty = &validator_duties[i];
        messages.push(
            SyncMessageToSign {
                slot,
                beacon_block_root,
                validator_index: duty.validator_index,
                pubkey: duty.pubkey,
            },
        );
        assert(messages@ =~= validator_duties@.take(i + 1).map_values(message));
        i = i + 1;
    }
    assert(validator_duties@.take(i as int) == validator_duties@);
    messages
}

/// What a beacon node is asked for to produce a contribution.
#[derive(Clone, Copy, Debug, PartialEq, Eq)]
pub struct SyncContributionData {
    pub slot: Slot,
    pub beacon_block_root: Hash256,
    pub subcommittee_index: u64,
}

/// The contribution of a subnet to the sync aggregate of a slot.
#[derive(Clone, Debug, PartialEq, Eq)]
pub struct SyncCommitteeContribution {
    pub slot: Slot,
    pub beacon_block_root: Hash256,
    pub subcommittee_index: u64,
    pub aggregation_bits: Vec<bool>,
    pub signature: Signature,
}

/// A contribution that waits for the signature of an aggregator.
#[derive(Clone, Debug, PartialEq, Eq)]
pub struct ContributionToSign {
    pub aggregator_index: u64,
    pub aggregator_pubkey: PublicKeyBytes,
    pub contribution: Arc<SyncCommitteeContribution>,
    pub selection_proof: Signature,
}

/// The contributions that the aggregators of a subnet sign, in the order of the aggregators.
pub fn contributions_to_sign(
    subnet_aggregators: &Vec<SyncAggregator>,
    contribution: &Arc<SyncCommitteeContribution>,
) -> (r: Vec<ContributionToSign>)
    ensures
        r@ == subnet_aggregators@.map_values(
            |aggregator: SyncAggregator|
                ContributionToSign {
                    aggregator_index: aggregator.aggregator_index,
                    aggregator_pubkey: aggregator.pubkey,
                    contribution: *contribution,
                    selection_proof: aggregator.selection_proof,
                },
        ),
{
    let ghost to_sign = |aggregator: SyncAggregator|
        ContributionToSign {
            aggregator_index: aggregator.aggregator_index,
            aggregator_pubkey: aggregator.pubkey,
            contribution: *contribution,
            selection_proof: aggregator.selection_proof,
        };
    let mut contributions: Vec<ContributionToSign> = Vec::new();
    let mut i: usize = 0;
    while i < subnet_aggregators.len()
        invariant
            i <= subnet_aggregators@.len(),
            to_sign == (|aggregator: SyncAggregator|
                ContributionToSign {
                    aggregator_index: aggregator.aggregator_index,
                    aggregator_pubkey: aggregator.pubkey,
                    contribution: *contribution,
                    selection_proof: aggregator.selection_proof,
                }),
            contributions@ == subnet_aggregators@.take(i as int).map_values(to_sign),
        decreases subnet_aggregators@.len() - i,
    {
        let aggregator = subnet_aggregators[i];
        contributions.push(
            ContributionToSign {
                aggregator_index: aggregator.aggregator_index,
                aggregator_pubkey: aggregator.pubkey,
                contribution: contribution.clone(),
                selection_proof: aggregator.selection_proof,
            },
        );
        assert(contributions@ =~= subnet_aggregators@.take(i + 1).map_values(to_sign));
        i = i + 1;
    }
    assert(subnet_aggregators@.take(i as int) == subnet_aggregators@);
    contributions
}

/// What a beacon node is asked for the contribution of a subnet.
pub fn contribution_request(slot: Slot, beacon_block_root: Hash256, subnet_id: u64) -> (r:
    SyncContributionData)
    ensures
        r == (SyncContributionData { slot, beacon_block_root, subcommittee_index: subnet_id }),
{
    SyncContributionData { slot, beacon_block_root, subcommittee_index: subnet_id }
}

/// The contribution that the aggregators of a subnet sign, if a beacon node had one.
pub fn accept_contribution<C>(reply: Result<Option<C>, String>) -> (r: Result<C, ()>)
    ensures
        r == (match reply {
            Ok(Some(contribution)) => Ok::<C, ()>(contribution),
            _ => Err::<C, ()>(()),
        }),
{
    match reply {
        Ok(Some(contribution)) => Ok(contribution),
        Ok(None) => Err(()),
        Err(_) => Err(()),
    }
}

/// What becomes of a batch that the signer has returned.
#[derive(Clone, Copy, Debug, PartialEq, Eq)]
pub enum BatchStep {
    /// The batch is sent to a beacon node.
    Publish,
    /// There is nothing to send.
    Nothing,
    /// Signing failed.
    ReportFailure,
}

/// What becomes of a batch that the signer has returned.
pub fn batch_step<T, E>(batch: &Result<Vec<T>, E>) -> (r: BatchStep)
    ensures
        r == (match batch {
            Ok(items) => if items@.len() > 0 {
                BatchStep::Publish
            } else {
                BatchStep::Nothing
            },
            Err(_) => BatchStep::ReportFailure,
        }),
{
    match batch {
        Ok(items) => {
            if items.len() > 0 {
                BatchStep::Publish
            } else {
                BatchStep::Nothing
            }
        },
        Err(_) => BatchStep::ReportFailure,
    }
}

/// A subscription of a validator to the subnets of its sync committee.
#[derive(Clone, Debug, PartialEq, Eq)]
pub struct SyncCommitteeSubscription {
    pub validator_index: u64,
    pub sync_committee_indices: Vec<u64>,
    pub until_epoch: Epoch,
}

/// The contents of a [`SyncCommitteeSubscription`].
pub struct SubscriptionModel {
    pub validator_index: u64,
    pub sync_committee_indices: Seq<u64>,
    pub until_epoch: Epoch,
}

impl View for SyncCommitteeSubscription {
    type V = SubscriptionModel;

    open spec fn view(&self) -> SubscriptionModel {
        SubscriptionModel {
            validator_index: self.validator_index,
            sync_committee_indices: self.sync_committee_indices@,
            until_epoch: self.until_epoch,
        }
    }
}

/// The contents of some subscriptions.
pub open spec fn subscription_views(
    subscriptions: Seq<SyncCommitteeSubscription>,
) -> Seq<SubscriptionModel> {
    subscriptions.map_values(|subscription: SyncCommitteeSubscription| subscription@)
}

/// The sync committee period of a slot.
pub open spec fn period_of_slot(slot: Slot, slots_per_epoch: u64, spec: ChainSpec) -> Result<
    u64,
    ArithError,
> {
    quotient(slot.spec_epoch(slots_per_epoch).0, spec.epochs_per_sync_committee_period)
}

/// The message for a period that could not be computed.
pub open spec fn period_error(e: ArithError) -> Seq<char> {
    "Error computing sync period: "@ + e.spec_name()
}

/// The sync committee period of a slot.
pub fn sync_period_of_slot<E: EthSpec>(slot: Slot, spec: &ChainSpec) -> (r: Result<u64, String>)
    requires
        E::spec_slots_per_epoch() > 0,
    ensures
        match period_of_slot(slot, E::spec_slots_per_epoch(), *spec) {
            Ok(period) => r == Ok::<u64, String>(period),
            Err(e) => r matches Err(message) && message@ == period_error(e),
        },
{
    match slot.epoch(E::slots_per_epoch()).sync_committee_period(
        spec.epochs_per_sync_committee_period,
    ) {
        Ok(period) => Ok(period),
        Err(e) => {
            let mut message = "Error computing sync period: ".to_owned();
            message.append(e.name());
            Err(message)
        },
    }
}

/// The last epoch of the subscriptions for a period: the first of the next.
pub open spec fn subscribed_until(sync_committee_period: u64, spec: ChainSpec) -> Epoch {
    Epoch(
        saturating_product(
            spec.epochs_per_sync_committee_period,
            (sync_committee_period + 1) as u64,
        ),
    )
}

/// The subscriptions for some duties, in the order of the duties.
pub open spec fn duty_subscriptions(duties: Seq<SyncDuty>, until_epoch: Epoch) -> Seq<
    SubscriptionModel,
> {
    duties.map_values(
        |duty: SyncDuty|
            SubscriptionModel {
                validator_index: duty.validator_index,
                sync_committee_indices: duty.validator_sync_committee_indices@,
                until_epoch,
            },
    )
}

/// The subscriptions for some duties in a period.
pub fn subscriptions_from_sync_duties(
    duties: &Vec<SyncDuty>,
    sync_committee_period: u64,
    spec: &ChainSpec,
) -> (r: Vec<SyncCommitteeSubscription>)
    requires
        sync_committee_period < u64::MAX,
    ensures
        subscription_views(r@) == duty_subscriptions(
            duties@,
            subscribed_until(sync_committee_period, *spec),
        ),
{
    let until_epoch: u64 = match spec.epochs_per_sync_committee_period.checked_mul(
        sync_committee_period + 1,
    ) {
        Some(epoch) => epoch,
        None => u64::MAX,
    };
    let until_epoch = Epoch(until_epoch);
    let mut subscriptions: Vec<SyncCommitteeSubscription> = Vec::new();
    let mut i: usize = 0;
    while i < duties.len()
        invariant
            i <= duties@.len(),
            until_epoch == subscribed_until(sync_committee_period, *spec),
            subscription_views(subscriptions@) == duty_subscriptions(
                duties@.take(i as int),
                until_epoch,
            ),
        decreases duties@.len() - i,
    {
        let ghost before = subscriptions@;
        let duty = &duties[i];
        let subscription = SyncCommitteeSubscription {
            validator_index: duty.validator_index,
            sync_committee_indices: duty.validator_sync_committee_indices.clone(),
            until_epoch,
        };
        assert(subscription.sync_committee_indices@ =~= duty.validator_sync_committee_indices@);
        subscriptions.push(subscription);
        assert(subscription_views(subscriptions@) =~= subscription_views(before).push(
            subscription@,
        ));
        assert(duty_subscriptions(duties@.take(i + 1), until_epoch) =~= duty_subscriptions(
            duties@.take(i as int),
            until_epoch,
        ).push(subscription@));
        i = i + 1;
    }
    assert(duties@.take(i as int) == duties@);
    subscriptions
}

/// The slots whose duties are subscribed to in `slot`, each with its period: `slot` itself at the
/// start of an epoch and until subscriptions have succeeded once, and a slot of the next period
/// near the end of the current one.
pub open spec fn duty_slots(
    slot: Slot,
    current_period: u64,
    lookahead_period: u64,
    first_subscription_done: bool,
    slots_per_epoch: u64,
) -> Seq<(Slot, u64)> {
    let now = if !first_subscription_done || slot.0 % slots_per_epoch == 0 {
        seq![(slot, current_period)]
    } else {
        Seq::empty()
    };
    let ahead = if lookahead_period > current_period {
        seq![(lookahead_slot(slot, slots_per_epoch), lookahead_period)]
    } else {
        Seq::empty()
    };
    now + ahead
}

/// The slot that is looked ahead to.
pub open spec fn lookahead_slot(slot: Slot, slots_per_epoch: u64) -> Slot {
    slot.spec_plus((SUBSCRIPTION_LOOKAHEAD_EPOCHS * slots_per_epoch) as u64)
}

/// The slots whose duties are subscribed to in `slot`, each with its period.
pub fn subscription_duty_slots<E: EthSpec>(
    slot: Slot,
    first_subscription_done: bool,
    spec: &ChainSpec,
) -> (r: Result<Vec<(Slot, u64)>, String>)
    requires
        0 < E::spec_slots_per_epoch(),
        SUBSCRIPTION_LOOKAHEAD_EPOCHS * E::spec_slots_per_epoch() <= u64::MAX,
    ensures
        ({
            let slots_per_epoch = E::spec_slots_per_epoch();
            match period_of_slot(slot, slots_per_epoch, *spec) {
                Err(e) => r matches Err(message) && message@ == period_error(e),
                Ok(current_period) => match period_of_slot(
                    lookahead_slot(slot, slots_per_epoch),
                    slots_per_epoch,
                    *spec,
                ) {
                    Err(e) => r matches Err(message) && message@ == period_error(e),
                    Ok(lookahead_period) => r matches Ok(slots) && slots@ == duty_slots(
                        slot,
                        current_period,
                        lookahead_period,
                        first_subscription_done,
                        slots_per_epoch,
                    ),
                },
            }
        }),
{
    let slots_per_epoch: u64 = E::slots_per_epoch();
    let mut slots: Vec<(Slot, u64)> = Vec::new();

    // At the start of every epoch during the current period, re-post the subscriptions
    // to the beacon node. This covers the case where the BN has forgotten the subscriptions
    // due to a restart, or where the VC has switched to a fallback BN.
    let current_period: u64 = match sync_period_of_slot::<E>(slot, spec) {
        Ok(period) => period,
        Err(e) => {
            return Err(e);
        },
    };
    if !first_subscription_done || slot.0 % slots_per_epoch == 0 {
        slots.push((slot, current_period));
    }
    // Near the end of the current period, push subscriptions for the next period to the
    // beacon node. We aggressively push every slot in the lead-up, as this is the main way
    // that we want to ensure that the BN is subscribed (well in advance).

    let ahead = slot.plus(SUBSCRIPTION_LOOKAHEAD_EPOCHS * slots_per_epoch);
    let lookahead_period: u64 = match sync_period_of_slot::<E>(ahead, spec) {
        Ok(period) => period,
        Err(e) => {
            return Err(e);
        },
    };
    if lookahead_period > current_period {
        slots.push((ahead, lookahead_period));
    }
    assert(slots@ =~= duty_slots(
        slot,
        current_period,
        lookahead_period,
        first_subscription_done,
        slots_per_epoch,
    ));
    Ok(slots)
}

/// The subscriptions for the duties that are known, in the order of the slots.
pub open spec fn known_subscriptions(
    slots: Seq<(Slot, u64)>,
    replies: Seq<Option<SlotDuties>>,
    spec: ChainSpec,
) -> Seq<SubscriptionModel>
    decreases slots.len(),
{
    if slots.len() == 0 {
        Seq::empty()
    } else {
        let earlier = known_subscriptions(slots.drop_last(), replies.drop_last(), spec);
        match replies.last() {
            Some(duties) => earlier + duty_subscriptions(
                duties.duties@,
                subscribed_until(slots.last().1, spec),
            ),
            None => earlier,
        }
    }
}

/// Whether the duties of each slot were asked for, and the answers are in `replies`.
pub open spec fn duties_asked<D: SyncDuties>(
    sync_duties: D,
    slots: Seq<(Slot, u64)>,
    replies: Seq<Option<SlotDuties>>,
) -> bool {
    &&& replies.len() == slots.len()
    &&& forall|k: int|
        0 <= k < slots.len() ==> call_ensures(
            D::get_duties_for_slot,
            (&sync_duties, slots[k].0),
            #[trigger] replies[k],
        )
}

/// Some subscriptions, and whether the duties of every slot were known.
pub struct CollectedSubscriptions {
    pub subscriptions: Vec<SyncCommitteeSubscription>,
    pub all_succeeded: bool,
}

/// Collects the subscriptions for the duties in some slots.
pub fn collect_subscriptions<D: SyncDuties>(
    sync_duties: &D,
    slots: &Vec<(Slot, u64)>,
    spec: &ChainSpec,
) -> (r: CollectedSubscriptions)
    requires
        forall|k: int| 0 <= k < slots@.len() ==> (#[trigger] slots@[k]).1 < u64::MAX,
    ensures
        exists|replies: Seq<Option<SlotDuties>>| #[trigger]
            duties_asked(*sync_duties, slots@, replies) && subscription_views(r.subscriptions@)
                == known_subscriptions(slots@, replies, *spec) && r.all_succeeded == (forall|
                k: int,
            |
                0 <= k < slots@.len() ==> (#[trigger] replies[k]) is Some),
{
    let mut subscriptions: Vec<SyncCommitteeSubscription> = Vec::new();
    let mut all_succeeded = true;
    let ghost mut replies: Seq<Option<SlotDuties>> = Seq::empty();
    let mut i: usize = 0;
    assert(subscription_views(subscriptions@) =~= known_subscriptions(
        slots@.take(0),
        replies,
        *spec,
    ));
    while i < slots.len()
        invariant
            i <= slots@.len(),
            forall|k: int| 0 <= k < slots@.len() ==> (#[trigger] slots@[k]).1 < u64::MAX,
            duties_asked(*sync_duties, slots@.take(i as int), replies),
            subscription_views(subscriptions@) == known_subscriptions(
                slots@.take(i as int),
                replies,
                *spec,
            ),
            all_succeeded == (forall|k: int| 0 <= k < i ==> (#[trigger] replies[k]) is Some),
        decreases slots@.len() - i,
    {
        let ghost before = replies;
        let ghost collected = subscriptions@;
        let (duty_slot, sync_committee_period): (Slot, u64) = slots[i];
        let reply = sync_duties.get_duties_for_slot(duty_slot);
        proof {
            replies = replies.push(reply);
            assert(replies.drop_last() =~= before);
            assert(slots@.take(i + 1).drop_last() =~= slots@.take(i as int));
            assert forall|k: int| 0 <= k < i + 1 implies call_ensures(
                D::get_duties_for_slot,
                (sync_duties, slots@.take(i + 1)[k].0),
                #[trigger] replies[k],
            ) by {
                if k < i {
                    assert(replies[k] == before[k]);
                    assert(slots@.take(i as int)[k] == slots@.take(i + 1)[k]);
                }
            }
            assert forall|k: int| 0 <= k < i implies replies[k] == #[trigger] before[k] by {}
        }
        match reply {
            Some(duties) => {
                let mut more = subscriptions_from_sync_duties(
                    &duties.duties,
                    sync_committee_period,
                    spec,
                );
                let ghost added = more@;
                subscriptions.append(&mut more);
                assert(subscription_views(subscriptions@) =~= subscription_views(collected)
                    + subscription_views(added));
            },
            None => {
                all_succeeded = false;
                assert(replies[i as int] is None);
            },
        }
        proof {
            if forall|k: int| 0 <= k < i + 1 ==> (#[trigger] replies[k]) is Some {
                assert forall|k: int| 0 <= k < i implies (#[trigger] before[k]) is Some by {
                    assert(replies[k] is Some);
                }
            }
        }
        i = i + 1;
    }
    assert(slots@.take(i as int) =~= slots@);
    CollectedSubscriptions { subscriptions, all_succeeded }
}

/// What becomes of the subscriptions that were collected.
#[derive(Clone, Copy, Debug, PartialEq, Eq)]
pub enum SubscriptionStep {
    /// They are posted to a beacon node.
    Post,
    /// There are none to post; the attempt neither succeeds nor fails.
    Nothing,
}

/// What becomes of the subscriptions that were collected.
pub fn subscription_step(collected: &CollectedSubscriptions) -> (r: SubscriptionStep)
    ensures
        r == (if collected.subscriptions@.len() > 0 {
            SubscriptionStep::Post
        } else {
            SubscriptionStep::Nothing
        }),
{
    if collected.subscriptions.len() > 0 {
        SubscriptionStep::Post
    } else {
        SubscriptionStep::Nothing
    }
}

/// Whether subscriptions have succeeded once, after another attempt: the latch stays set, and is
/// set once the duties of all slots were known and the subscriptions were posted.
pub fn first_subscription_done_after(
    first_subscription_done: bool,
    all_succeeded: bool,
    posted: bool,
) -> (r: bool)
    ensures
        r == (first_subscription_done || (all_succeeded && posted)),
{
    first_subscription_done || (all_succeeded && posted)
}

/// Until subscriptions have succeeded once, and at the start of every epoch, the current slot is
/// subscribed to; a slot of the next period is subscribed to as soon as it lies within the
/// lookahead, and no later slot ever is.
pub proof fn lemma_subscriptions_cover_current_and_next_period(
    slot: Slot,
    current_period: u64,
    lookahead_period: u64,
    first_subscription_done: bool,
    slots_per_epoch: u64,
)
    ensures
        ({
            let slots = duty_slots(
                slot,
                current_period,
                lookahead_period,
                first_subscription_done,
                slots_per_epoch,
            );
            let ahead = lookahead_slot(slot, slots_per_epoch);
            &&& !first_subscription_done ==> slots.contains((slot, current_period))
            &&& slot.0 % slots_per_epoch == 0 ==> slots.contains((slot, current_period))
            &&& lookahead_period > current_period ==> slots.contains((ahead, lookahead_period))
            &&& forall|i: int|
                0 <= i < slots.len() ==> (#[trigger] slots[i]) == (slot, current_period)
                    || slots[i] == (ahead, lookahead_period)
        }),
{
    let slots = duty_slots(
        slot,
        current_period,
        lookahead_period,
        first_subscription_done,
        slots_per_epoch,
    );
    if !first_subscription_done || slot.0 % slots_per_epoch == 0 {
        assert(slots[0] == (slot, current_period));
    }
    if lookahead_period > current_period {
        assert(slots[slots.len() - 1] == (
            lookahead_slot(slot, slots_per_epoch),
            lookahead_period,
        ));
    }
}

/// A message is signed for the head in the trigger only right away: after a wait the head is
/// fetched again.
pub proof fn lemma_head_is_fetched_again_after_a_wait<T: SlotClock, D: SyncDuties>(
    clock: T,
    sync_duties: D,
    slot: Slot,
    contribution_due: TimeSpan,
    r: ContributionStep,
    run: ContributionRun,
)
    requires
        resumed(clock, sync_duties, slot, contribution_due, r, run),
    ensures
        !(r is AwaitDeadline),
        r matches ContributionStep::Sign { head_root, .. } ==> head_root is None,
{
}

} // verus!
