use gloas_consensus::arith::ArithError;
use gloas_consensus::beacon_state::{FlagBalances, ParticipationFlags, ProgressiveBalances};
use gloas_consensus::errors::BeaconStateError;
use gloas_consensus::primitives::{
    Epoch, FixedBytes, ForkName, Hash256, RelativeEpoch, RelativeEpochError, Slot,
};
use gloas_consensus::text::append_decimal;

#[test]
fn slots_and_epochs() {
    assert_eq!(Slot(33).epoch(32), Epoch(1));
    assert_eq!(Slot(u64::MAX).plus(1), Slot(u64::MAX));
    assert_eq!(Slot(5).safe_sub(Slot(2)), Ok(3));
    assert_eq!(Slot(2).safe_sub(Slot(5)), Err(ArithError::Overflow));
    assert_eq!(Epoch(3).start_slot(32), Slot(96));
    assert_eq!(Epoch(3).end_slot(32), Slot(127));
    assert_eq!(Epoch(3).position(Slot(97), 32), Some(1));
    assert_eq!(Epoch(3).position(Slot(128), 32), None);
    assert_eq!(Epoch(u64::MAX).start_slot(32), Slot(u64::MAX));
    assert_eq!(Epoch(1).minus(2), Epoch(0));
    assert_eq!(Epoch(u64::MAX).plus(2), Epoch(u64::MAX));
    assert_eq!(Epoch(1).safe_add(2), Ok(Epoch(3)));
    assert_eq!(Epoch(u64::MAX).safe_add(1), Err(ArithError::Overflow));
    assert_eq!(Epoch(511).sync_committee_period(256), Ok(1));
    assert_eq!(Epoch(511).sync_committee_period(0), Err(ArithError::DivisionByZero));
}

#[test]
fn relative_epochs() {
    assert_eq!(RelativeEpoch::from_epoch(Epoch(5), Epoch(4)), Ok(RelativeEpoch::Previous));
    assert_eq!(RelativeEpoch::from_epoch(Epoch(5), Epoch(5)), Ok(RelativeEpoch::Current));
    assert_eq!(RelativeEpoch::from_epoch(Epoch(5), Epoch(6)), Ok(RelativeEpoch::Next));
    assert_eq!(
        RelativeEpoch::from_epoch(Epoch(5), Epoch(7)),
        Err(RelativeEpochError::EpochTooHigh { base: Epoch(5), other: Epoch(7) })
    );
    assert_eq!(
        RelativeEpoch::from_epoch(Epoch(5), Epoch(3)),
        Err(RelativeEpochError::EpochTooLow { base: Epoch(5), other: Epoch(3) })
    );
}

#[test]
fn forks_from_gloas_on() {
    assert!(ForkName::Gloas.gloas_enabled());
    assert!(!ForkName::Electra.gloas_enabled());
    assert_eq!(ForkName::Gloas.name(), "Gloas");
    assert_eq!(ForkName::Bellatrix.name(), format!("{:?}", ForkName::Bellatrix));
}

#[test]
fn byte_strings_are_equal_byte_by_byte() {
    let mut other = [7u8; 32];
    assert_eq!(FixedBytes([7u8; 32]), FixedBytes(other));
    other[31] = 8;
    assert_ne!(FixedBytes([7u8; 32]), FixedBytes(other));
    assert_eq!(Hash256::zero(), FixedBytes([0u8; 32]));
    let mut bytes = vec![1u8];
    FixedBytes([2u8, 3, 4]).append_to(&mut bytes);
    assert_eq!(bytes, vec![1, 2, 3, 4]);
}

#[test]
fn participation_flags_are_bits() {
    let mut flags = ParticipationFlags { bits: 0 };
    assert_eq!(flags.has_flag(1), Ok(false));
    assert_eq!(flags.add_flag(1), Ok(()));
    assert_eq!(flags.add_flag(2), Ok(()));
    assert_eq!(flags.bits, 6);
    assert_eq!(flags.has_flag(1), Ok(true));
    assert_eq!(flags.has_flag(0), Ok(false));
    assert_eq!(flags.add_flag(3), Err(ArithError::Overflow));
    assert_eq!(flags.has_flag(3), Err(ArithError::Overflow));
}

#[test]
fn progressive_balances_follow_two_epochs() {
    let zero = FlagBalances { timely_source: 0, timely_target: 0, timely_head: 0 };
    let balances = ProgressiveBalances {
        current_epoch: Epoch(5),
        previous_epoch_balances: zero,
        current_epoch_balances: zero,
    };
    let after = balances.on_new_attestation(Epoch(5), 1, 7).unwrap();
    assert_eq!(after.current_epoch_balances.timely_target, 7);
    let after = after.on_new_attestation(Epoch(4), 2, 8).unwrap();
    assert_eq!(after.previous_epoch_balances.timely_head, 8);
    assert_eq!(
        after.on_new_attestation(Epoch(3), 0, 1),
        Err(BeaconStateError::ProgressiveBalancesCacheInconsistent)
    );
    assert_eq!(
        after.on_new_attestation(Epoch(5), 3, 1),
        Err(BeaconStateError::InvalidFlagIndex(3))
    );
    assert_eq!(
        after.on_new_attestation(Epoch(5), 1, u64::MAX),
        Err(BeaconStateError::ArithError(ArithError::Overflow))
    );
}

#[test]
fn decimals() {
    for n in [0, 7, 10, 99, 1_000, 18_446_744_073_709_551_615] {
        let mut text = "n=".to_string();
        append_decimal(&mut text, n);
        assert_eq!(text, format!("n={}", n));
    }
}
