//! Fixed-size byte strings, slots, epochs and fork names.

use crate::arith::{fits_u64, quotient, safe_add, safe_div, safe_sub, ArithError};
use vstd::prelude::*;
use vstd::std_specs::cmp::PartialEqSpecImpl;

verus! {

/// A string of exactly `N` bytes.
#[derive(Clone, Copy, Debug, Eq)]
pub struct FixedBytes<const N: usize>(pub [u8; N]);

/// A 32-byte hash.
pub type Hash256 = FixedBytes<32>;

/// The hash of an execution layer block.
pub type ExecutionBlockHash = FixedBytes<32>;

/// A 20-byte execution layer address.
pub type Address = FixedBytes<20>;

/// A compressed BLS public key.
pub type PublicKeyBytes = FixedBytes<48>;

/// A compressed BLS signature.
pub type Signature = FixedBytes<96>;

/// A KZG commitment.
pub type KzgCommitment = FixedBytes<48>;

impl<const N: usize> FixedBytes<N> {
    /// The bytes as a sequence.
    pub open spec fn bytes(self) -> Seq<u8> {
        self.0@
    }

    /// Whether every byte is zero.
    pub open spec fn is_zero(self) -> bool {
        forall|i: int| 0 <= i < N ==> self.0@[i] == 0
    }

    /// The string of zero bytes.
    pub fn zero() -> (r: Self)
        ensures
            r.is_zero(),
    {
        FixedBytes([0u8;N])
    }

    /// Appends the bytes.
    pub fn append_to(&self, out: &mut Vec<u8>)
        ensures
            final(out)@ == old(out)@ + self.bytes(),
    {
        let mut i: usize = 0;
        while i < N
            invariant
                i <= N,
                out@ == old(out)@ + self.bytes().take(i as int),
            decreases N - i,
        {
            out.push(self.0[i]);
            i = i + 1;
        }
        assert(self.bytes().take(N as int) == self.bytes());
    }
}

impl<const N: usize> PartialEq for FixedBytes<N> {
    fn eq(&self, other: &Self) -> (r: bool) {
        let mut i: usize = 0;
        while i < N
            invariant
                i <= N,
                forall|j: int| 0 <= j < i ==> self.0@[j] == other.0@[j],
            decreases N - i,
        {
            if self.0[i] != other.0[i] {
                return false;
            }
            i = i + 1;
        }
        assert(self.0@ =~= other.0@);
        assert(self.0 =~= other.0);
        true
    }
}

impl<const N: usize> PartialEqSpecImpl for FixedBytes<N> {
    open spec fn obeys_eq_spec() -> bool {
        true
    }

    open spec fn eq_spec(&self, other: &Self) -> bool {
        *self == *other
    }
}

/// Two byte strings that agree byte by byte are equal.
pub proof fn lemma_fixed_bytes_ext<const N: usize>(a: FixedBytes<N>, b: FixedBytes<N>)
    requires
        a.bytes() == b.bytes(),
    ensures
        a == b,
{
    assert(a.0 =~= b.0);
}

/// `a + b`, or the largest `u64` when the sum does not fit.
pub open spec fn saturating_sum(a: u64, b: u64) -> u64 {
    if a + b > u64::MAX {
        u64::MAX
    } else {
        (a + b) as u64
    }
}

/// `a - b`, or zero when the difference is negative.
pub open spec fn saturating_difference(a: u64, b: u64) -> u64 {
    if a < b {
        0
    } else {
        (a - b) as u64
    }
}

/// `a * b`, or the largest `u64` when the product does not fit.
pub open spec fn saturating_product(a: u64, b: u64) -> u64 {
    if a * b > u64::MAX {
        u64::MAX
    } else {
        (a * b) as u64
    }
}

/// A slot number.
#[derive(Clone, Copy, Debug, PartialEq, Eq, PartialOrd, Ord, Hash, Structural)]
pub struct Slot(pub u64);

/// An epoch number.
#[derive(Clone, Copy, Debug, PartialEq, Eq, PartialOrd, Ord, Hash, Structural)]
pub struct Epoch(pub u64);

impl Slot {
    /// The epoch that holds the slot.
    pub open spec fn spec_epoch(self, slots_per_epoch: u64) -> Epoch {
        Epoch((self.0 / slots_per_epoch) as u64)
    }

    /// The epoch that holds the slot.
    pub fn epoch(self, slots_per_epoch: u64) -> (r: Epoch)
        requires
            slots_per_epoch > 0,
        ensures
            r == self.spec_epoch(slots_per_epoch),
    {
        Epoch(self.0 / slots_per_epoch)
    }

    /// The slot `n` after this one, capped at the last slot number.
    pub open spec fn spec_plus(self, n: u64) -> Slot {
        Slot(saturating_sum(self.0, n))
    }

    /// The slot `n` after this one, capped at the last slot number.
    pub fn plus(self, n: u64) -> (r: Slot)
        ensures
            r == self.spec_plus(n),
    {
        Slot(self.0.saturating_add(n))
    }

    /// How far `other` lies before this slot; an overflow when it lies after it.
    pub fn safe_sub(self, other: Slot) -> (r: Result<u64, ArithError>)
        ensures
            r == fits_u64(self.0 - other.0),
    {
        safe_sub(self.0, other.0)
    }
}

impl Epoch {
    /// The epoch `n` after this one, capped at the last epoch number.
    pub open spec fn spec_plus(self, n: u64) -> Epoch {
        Epoch(saturating_sum(self.0, n))
    }

    /// The epoch `n` after this one, capped at the last epoch number.
    pub fn plus(self, n: u64) -> (r: Epoch)
        ensures
            r == self.spec_plus(n),
    {
        Epoch(self.0.saturating_add(n))
    }

    /// The epoch `n` before this one, or the first epoch.
    pub open spec fn spec_minus(self, n: u64) -> Epoch {
        Epoch(saturating_difference(self.0, n))
    }

    /// The epoch `n` before this one, or the first epoch.
    pub fn minus(self, n: u64) -> (r: Epoch)
        ensures
            r == self.spec_minus(n),
    {
        Epoch(self.0.saturating_sub(n))
    }

    /// The epoch `n` after this one, or an overflow.
    pub fn safe_add(self, n: u64) -> (r: Result<Epoch, ArithError>)
        ensures
            r == (match fits_u64(self.0 + n) {
                Ok(e) => Ok::<Epoch, ArithError>(Epoch(e)),
                Err(e) => Err(e),
            }),
    {
        match safe_add(self.0, n) {
            Ok(e) => Ok(Epoch(e)),
            Err(e) => Err(e),
        }
    }

    /// The first slot of the epoch.
    pub open spec fn spec_start_slot(self, slots_per_epoch: u64) -> Slot {
        Slot(saturating_product(self.0, slots_per_epoch))
    }

    /// The first slot of the epoch.
    pub fn start_slot(self, slots_per_epoch: u64) -> (r: Slot)
        ensures
            r == self.spec_start_slot(slots_per_epoch),
    {
        match self.0.checked_mul(slots_per_epoch) {
            Some(slot) => Slot(slot),
            None => Slot(u64::MAX),
        }
    }

    /// The last slot of the epoch.
    pub open spec fn spec_end_slot(self, slots_per_epoch: u64) -> Slot {
        self.spec_start_slot(slots_per_epoch).spec_plus(saturating_difference(slots_per_epoch, 1))
    }

    /// The last slot of the epoch.
    pub fn end_slot(self, slots_per_epoch: u64) -> (r: Slot)
        ensures
            r == self.spec_end_slot(slots_per_epoch),
    {
        self.start_slot(slots_per_epoch).plus(slots_per_epoch.saturating_sub(1))
    }

    /// Where `slot` stands in the epoch, counted from zero, if it belongs to the epoch.
    pub open spec fn spec_position(self, slot: Slot, slots_per_epoch: u64) -> Option<u64> {
        let start = self.spec_start_slot(slots_per_epoch);
        if start.0 <= slot.0 <= self.spec_end_slot(slots_per_epoch).0 {
            Some((slot.0 - start.0) as u64)
        } else {
            None
        }
    }

    /// Where `slot` stands in the epoch, counted from zero, if it belongs to the epoch.
    pub fn position(self, slot: Slot, slots_per_epoch: u64) -> (r: Option<u64>)
        ensures
            r == self.spec_position(slot, slots_per_epoch),
    {
        let start = self.start_slot(slots_per_epoch);
        let end = self.end_slot(slots_per_epoch);
        if start.0 <= slot.0 && slot.0 <= end.0 {
            Some(slot.0 - start.0)
        } else {
            None
        }
    }

    /// The sync committee period that holds the epoch, or a division by zero.
    pub fn sync_committee_period(self, epochs_per_sync_committee_period: u64) -> (r: Result<
        u64,
        ArithError,
    >)
        ensures
            r == quotient(self.0, epochs_per_sync_committee_period),
    {
        safe_div(self.0, epochs_per_sync_committee_period)
    }
}

/// The forks of the beacon chain, oldest first.
#[derive(Clone, Copy, Debug, PartialEq, Eq, Structural)]
pub enum ForkName {
    Base,
    Altair,
    Bellatrix,
    Capella,
    Deneb,
    Electra,
    Fulu,
    Gloas,
}

impl ForkName {
    /// Whether the rules of the Gloas fork apply.
    pub open spec fn spec_gloas_enabled(self) -> bool {
        self is Gloas
    }

    /// Whether the rules of the Gloas fork apply.
    pub fn gloas_enabled(self) -> (r: bool)
        ensures
            r == self.spec_gloas_enabled(),
    {
        matches!(self, ForkName::Gloas)
    }

    /// The name of the fork.
    pub open spec fn spec_name(self) -> Seq<char> {
        match self {
            ForkName::Base => "Base"@,
            ForkName::Altair => "Altair"@,
            ForkName::Bellatrix => "Bellatrix"@,
            ForkName::Capella => "Capella"@,
            ForkName::Deneb => "Deneb"@,
            ForkName::Electra => "Electra"@,
            ForkName::Fulu => "Fulu"@,
            ForkName::Gloas => "Gloas"@,
        }
    }

    /// The name of the fork.
    pub fn name(self) -> (r: &'static str)
        ensures
            r@ == self.spec_name(),
    {
        match self {
            ForkName::Base => "Base",
            ForkName::Altair => "Altair",
            ForkName::Bellatrix => "Bellatrix",
            ForkName::Capella => "Capella",
            ForkName::Deneb => "Deneb",
            ForkName::Electra => "Electra",
            ForkName::Fulu => "Fulu",
            ForkName::Gloas => "Gloas",
        }
    }
}

/// Where an epoch stands relative to the current one.
#[derive(Clone, Copy, Debug, PartialEq, Eq, Structural)]
pub enum RelativeEpoch {
    Previous,
    Current,
    Next,
}

/// Why an epoch is neither the previous, the current nor the next one.
#[derive(Clone, Copy, Debug, PartialEq, Eq, Structural)]
pub enum RelativeEpochError {
    EpochTooLow { base: Epoch, other: Epoch },
    EpochTooHigh { base: Epoch, other: Epoch },
    ArithError(ArithError),
}

impl RelativeEpoch {
    /// Where `other` stands relative to `base`.
    pub open spec fn spec_from_epoch(base: Epoch, other: Epoch) -> Result<
        RelativeEpoch,
        RelativeEpochError,
    > {
        if other == base {
            Ok(RelativeEpoch::Current)
        } else if other.0 == u64::MAX {
            Err(RelativeEpochError::ArithError(ArithError::Overflow))
        } else if other.0 + 1 == base.0 {
            Ok(RelativeEpoch::Previous)
        } else if base.0 == u64::MAX {
            Err(RelativeEpochError::ArithError(ArithError::Overflow))
        } else if other.0 == base.0 + 1 {
            Ok(RelativeEpoch::Next)
        } else if other.0 < base.0 {
            Err(RelativeEpochError::EpochTooLow { base, other })
        } else {
            Err(RelativeEpochError::EpochTooHigh { base, other })
        }
    }

    /// Where `other` stands relative to `base`.
    pub fn from_epoch(base: Epoch, other: Epoch) -> (r: Result<RelativeEpoch, RelativeEpochError>)
        ensures
            r == Self::spec_from_epoch(base, other),
    {
        if other == base {
            return Ok(RelativeEpoch::Current);
        }
        match other.safe_add(1) {
            Ok(after) => {
                if after == base {
                    return Ok(RelativeEpoch::Previous);
                }
            },
            Err(e) => {
                return Err(RelativeEpochError::ArithError(e));
            },
        }
        match base.safe_add(1) {
            Ok(after) => {
                if other == after {
                    return Ok(RelativeEpoch::Next);
                }
            },
            Err(e) => {
                return Err(RelativeEpochError::ArithError(e));
            },
        }
        if other.0 < base.0 {
            Err(RelativeEpochError::EpochTooLow { base, other })
        } else {
            Err(RelativeEpochError::EpochTooHigh { base, other })
        }
    }
}

} // verus!
