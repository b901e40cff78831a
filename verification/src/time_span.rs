//! Lengths of time and the slot clock.

use crate::primitives::Slot;
use vstd::prelude::*;

verus! {

/// The number of nanoseconds in a second.
pub const NANOS_PER_SEC: u128 = 1_000_000_000;

/// The longest time that can be measured: the largest `u64` in seconds, and what falls short of
/// one more.
pub const MAX_NANOS: u128 = 18_446_744_073_709_551_615_999_999_999;

/// A length of time in nanoseconds.
#[derive(Clone, Copy, Debug, PartialEq, Eq, Structural)]
pub struct TimeSpan(pub u128);

impl TimeSpan {
    /// Whether the time can be measured.
    pub open spec fn valid(self) -> bool {
        self.0 <= MAX_NANOS
    }

    /// A number of seconds.
    pub fn from_secs(secs: u64) -> (r: Self)
        ensures
            r.0 == secs * NANOS_PER_SEC,
            r.valid(),
    {
        assert(secs * NANOS_PER_SEC <= 18_446_744_073_709_551_615 * 1_000_000_000)
            by (nonlinear_arith)
            requires
                secs <= 18_446_744_073_709_551_615,
                NANOS_PER_SEC == 1_000_000_000,
        ;
        TimeSpan(secs as u128 * NANOS_PER_SEC)
    }

    /// The time with `other` added to it, if it can be measured.
    pub open spec fn spec_checked_add(self, other: TimeSpan) -> Option<TimeSpan> {
        if self.0 + other.0 <= MAX_NANOS {
            Some(TimeSpan((self.0 + other.0) as u128))
        } else {
            None
        }
    }

    /// The time with `other` added to it, if it can be measured.
    pub fn checked_add(self, other: TimeSpan) -> (r: Option<TimeSpan>)
        ensures
            r == self.spec_checked_add(other),
    {
        match self.0.checked_add(other.0) {
            Some(nanos) => {
                if nanos <= MAX_NANOS {
                    Some(TimeSpan(nanos))
                } else {
                    None
                }
            },
            None => None,
        }
    }

    /// The time with `other` taken off it, or none at all.
    pub open spec fn spec_saturating_sub(self, other: TimeSpan) -> TimeSpan {
        if self.0 >= other.0 {
            TimeSpan((self.0 - other.0) as u128)
        } else {
            TimeSpan(0)
        }
    }

    /// The time with `other` taken off it, or none at all.
    pub fn saturating_sub(self, other: TimeSpan) -> (r: TimeSpan)
        ensures
            r == self.spec_saturating_sub(other),
    {
        if self.0 >= other.0 {
            TimeSpan(self.0 - other.0)
        } else {
            TimeSpan(0)
        }
    }

    /// Whether no time is left.
    pub fn is_zero(self) -> (r: bool)
        ensures
            r == (self.0 == 0),
    {
        self.0 == 0
    }
}

/// A clock that counts slots from genesis.
pub trait SlotClock: Sized {
    /// The current slot, if genesis has passed and the clock can be read.
    fn now(&self) -> Option<Slot>;

    /// The time since the epoch of the clock.
    fn now_duration(&self) -> Option<TimeSpan>;

    /// The slot at a time.
    fn slot_of(&self, now: TimeSpan) -> Option<Slot>;

    /// The time at which a slot starts.
    fn start_of(&self, slot: Slot) -> Option<TimeSpan>;
}

/// The current slot, or a message if the clock gives none.
pub fn current_slot<T: SlotClock>(slot_clock: &T) -> (r: Result<Slot, String>)
    ensures
        match r {
            Ok(slot) => call_ensures(T::now, (slot_clock,), Some(slot)),
            Err(message) => message@ == "Failed to read slot clock"@ && call_ensures(
                T::now,
                (slot_clock,),
                None::<Slot>,
            ),
        },
{
    match slot_clock.now() {
        Some(slot) => Ok(slot),
        None => Err("Failed to read slot clock".to_owned()),
    }
}

} // verus!
