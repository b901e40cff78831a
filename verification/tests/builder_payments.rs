use gloas_consensus::arith::ArithError;
use gloas_consensus::beacon_state::{
    BeaconBlockHeader, BeaconState, BuilderPendingPayment, BuilderPendingWithdrawal, ExecutionBid,
    ExitChurn, ForkFields, StateCaches,
};
use gloas_consensus::builder_payments::{
    apply_payment, get_builder_payment_quorum_threshold, process_builder_pending_payments,
};
use gloas_consensus::errors::{BeaconStateError, EpochProcessingError, MilhouseError};
use gloas_consensus::eth_spec::{ChainSpec, MainnetEthSpec};
use gloas_consensus::primitives::{Epoch, FixedBytes, Hash256, Slot};

fn spec() -> ChainSpec {
    ChainSpec {
        altair_fork_epoch: Some(Epoch(0)),
        gloas_fork_epoch: Some(Epoch(0)),
        genesis_slot: 0,
        seconds_per_slot: 12,
        min_seed_lookahead: 1,
        min_validator_withdrawability_delay: 256,
        builder_payment_threshold_numerator: 6,
        builder_payment_threshold_denominator: 10,
        epochs_per_sync_committee_period: 256,
    }
}

fn churn() -> ExitChurn {
    ExitChurn { earliest_exit_epoch: Epoch(0), exit_balance_to_consume: 0 }
}

fn payment(weight: u64, amount: u64) -> BuilderPendingPayment {
    BuilderPendingPayment {
        weight,
        withdrawal: BuilderPendingWithdrawal {
            fee_recipient: FixedBytes([amount as u8; 20]),
            amount,
            builder_index: amount + 1,
            withdrawable_epoch: Epoch(0),
        },
    }
}

fn state(payments: Vec<BuilderPendingPayment>) -> BeaconState {
    BeaconState {
        slot: Slot(63),
        genesis_time: 0,
        latest_block_header: BeaconBlockHeader {
            slot: Slot(0),
            proposer_index: 0,
            parent_root: Hash256::zero(),
            state_root: Hash256::zero(),
            body_root: Hash256::zero(),
        },
        block_roots: vec![],
        randao_mixes: vec![],
        balances: vec![],
        total_active_balance: Some(32_000),
        exit_churn: churn(),
        caches: StateCaches {
            effective_balances: vec![],
            base_rewards: vec![],
            slashed_validators: vec![],
            progressive_balances: None,
        },
        fork: ForkFields::Gloas {
            previous_epoch_participation: vec![],
            current_epoch_participation: vec![],
            builder_pending_payments: payments,
            builder_pending_withdrawals: vec![payment(0, 99).withdrawal],
            latest_block_hash: Hash256::zero(),
            latest_execution_bid: ExecutionBid::default(),
            latest_withdrawals_root: Hash256::zero(),
        },
    }
}

fn payments() -> Vec<BuilderPendingPayment> {
    let mut payments = vec![BuilderPendingPayment::default(); 64];
    payments[0] = payment(600, 1);
    payments[3] = payment(601, 2);
    payments[31] = payment(5_000, 3);
    payments[32] = payment(9_000, 4);
    payments[63] = payment(1, 5);
    payments
}

fn withdrawals(state: &BeaconState) -> Vec<BuilderPendingWithdrawal> {
    match &state.fork {
        ForkFields::Gloas { builder_pending_withdrawals, .. } => {
            builder_pending_withdrawals.clone()
        }
        _ => vec![],
    }
}

#[test]
fn quorum_is_a_share_of_the_balance_of_a_slot() {
    // 32000 / 32 * 6 / 10
    assert_eq!(
        get_builder_payment_quorum_threshold::<MainnetEthSpec>(&state(payments()), &spec()),
        Ok(600)
    );
    let mut rounded = state(payments());
    rounded.total_active_balance = Some(32 * 9 + 31);
    // 9 * 6 / 10, rounded down
    assert_eq!(
        get_builder_payment_quorum_threshold::<MainnetEthSpec>(&rounded, &spec()),
        Ok(5)
    );
}

#[test]
fn quorum_reports_missing_balances_and_bad_shares() {
    let mut s = state(payments());
    s.total_active_balance = None;
    assert_eq!(
        get_builder_payment_quorum_threshold::<MainnetEthSpec>(&s, &spec()),
        Err(EpochProcessingError::BeaconStateError(
            BeaconStateError::TotalActiveBalanceCacheUninitialized
        ))
    );
    let mut zero = spec();
    zero.builder_payment_threshold_denominator = 0;
    assert_eq!(
        get_builder_payment_quorum_threshold::<MainnetEthSpec>(&state(payments()), &zero),
        Err(EpochProcessingError::ArithError(ArithError::DivisionByZero))
    );
    let mut huge = spec();
    huge.builder_payment_threshold_numerator = u64::MAX;
    assert_eq!(
        get_builder_payment_quorum_threshold::<MainnetEthSpec>(&state(payments()), &huge),
        Err(EpochProcessingError::ArithError(ArithError::Overflow))
    );
}

#[test]
fn supported_payments_become_withdrawals_and_the_rest_move_up() {
    let mut s = state(payments());
    let r = process_builder_pending_payments::<MainnetEthSpec, _>(
        &mut s,
        &spec(),
        |state: &BeaconState, amount: u64| {
            Ok::<(Epoch, ExitChurn), BeaconStateError>((
                Epoch(10),
                ExitChurn {
                    earliest_exit_epoch: Epoch(10),
                    exit_balance_to_consume: state.exit_churn.exit_balance_to_consume + amount,
                },
            ))
        },
    );
    assert_eq!(r, Ok(()));
    // A weight of exactly the quorum is not enough, and the current epoch is not yet due.
    let waiting = withdrawals(&s);
    assert_eq!(waiting.len(), 3);
    assert_eq!(waiting[0], payment(0, 99).withdrawal);
    assert_eq!(waiting[1].amount, 2);
    assert_eq!(waiting[1].builder_index, 3);
    assert_eq!(waiting[1].withdrawable_epoch, Epoch(266));
    assert_eq!(waiting[2].amount, 3);
    assert_eq!(s.exit_churn.exit_balance_to_consume, 5);
    assert_eq!(s.exit_churn.earliest_exit_epoch, Epoch(10));

    let moved = s.builder_pending_payments().unwrap();
    assert_eq!(moved.len(), 64);
    assert_eq!(moved[0], payment(9_000, 4));
    assert_eq!(moved[31], payment(1, 5));
    for i in 32..64 {
        assert_eq!(moved[i], BuilderPendingPayment::default());
    }
}

#[test]
fn an_exit_epoch_that_cannot_be_computed_stops_the_work() {
    let mut s = state(payments());
    let r = process_builder_pending_payments::<MainnetEthSpec, _>(
        &mut s,
        &spec(),
        |_: &BeaconState, _: u64| {
            Err::<(Epoch, ExitChurn), BeaconStateError>(BeaconStateError::InsufficientValidators)
        },
    );
    assert_eq!(
        r,
        Err(EpochProcessingError::BeaconStateError(BeaconStateError::InsufficientValidators))
    );
    assert_eq!(s, state(payments()));
}

#[test]
fn a_list_of_the_wrong_length_is_refused() {
    let mut s = state(vec![BuilderPendingPayment::default(); 40]);
    let r = process_builder_pending_payments::<MainnetEthSpec, _>(
        &mut s,
        &spec(),
        |_: &BeaconState, _: u64| Ok::<(Epoch, ExitChurn), BeaconStateError>((Epoch(1), churn())),
    );
    assert_eq!(
        r,
        Err(EpochProcessingError::MilhouseError(MilhouseError::WrongVectorLength {
            len: 40,
            expected: 64
        }))
    );
}

#[test]
fn states_without_builder_payments_are_refused() {
    let mut s = state(payments());
    s.fork = ForkFields::Base {
        previous_epoch_attestations: vec![],
        current_epoch_attestations: vec![],
    };
    let r = process_builder_pending_payments::<MainnetEthSpec, _>(
        &mut s,
        &spec(),
        |_: &BeaconState, _: u64| Ok::<(Epoch, ExitChurn), BeaconStateError>((Epoch(1), churn())),
    );
    assert_eq!(
        r,
        Err(EpochProcessingError::BeaconStateError(BeaconStateError::IncorrectStateVariant))
    );
}

#[test]
fn a_payment_keeps_recipient_amount_and_builder() {
    let mut s = state(payments());
    let r = apply_payment::<MainnetEthSpec>(&mut s, &payment(1, 7), Epoch(4), churn(), &spec());
    assert_eq!(r, Ok(()));
    let last = withdrawals(&s)[1];
    assert_eq!(last.fee_recipient, FixedBytes([7; 20]));
    assert_eq!(last.amount, 7);
    assert_eq!(last.builder_index, 8);
    assert_eq!(last.withdrawable_epoch, Epoch(260));

    let mut s = state(payments());
    let r =
        apply_payment::<MainnetEthSpec>(&mut s, &payment(1, 7), Epoch(u64::MAX), churn(), &spec());
    assert_eq!(r, Err(EpochProcessingError::ArithError(ArithError::Overflow)));
}
