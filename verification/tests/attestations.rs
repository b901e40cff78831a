use gloas_consensus::arith::ArithError;
use gloas_consensus::beacon_state::{
    AttestationData, BeaconBlockHeader, BeaconState, BuilderPendingPayment, Checkpoint,
    ExecutionBid, ExitChurn, FlagBalances, ForkFields, ParticipationFlags, ProgressiveBalances,
    StateCaches,
};
use gloas_consensus::errors::{
    AttestationInvalid, AttestationVerificationError, BeaconStateError, BlockProcessingError,
    EpochCacheError, MilhouseError,
};
use gloas_consensus::eth_spec::MainnetEthSpec;
use gloas_consensus::primitives::{Epoch, FixedBytes, ForkName, Hash256, Slot};
use gloas_consensus::process_attestations::altair_gloas::{
    altair, gloas, process_attestation, process_attestations,
};
use gloas_consensus::process_attestations::base;
use gloas_consensus::process_attestations::{
    is_attestation_same_slot, Attestation, AttestationBase, AttestationElectra, ConsensusContext,
    VerifySignatures,
};

const ROOTS: usize = 8192;

fn root(n: u8) -> Hash256 {
    FixedBytes([n; 32])
}

fn header() -> BeaconBlockHeader {
    BeaconBlockHeader {
        slot: Slot(0),
        proposer_index: 0,
        parent_root: Hash256::zero(),
        state_root: Hash256::zero(),
        body_root: Hash256::zero(),
    }
}

fn no_flags(n: usize) -> Vec<ParticipationFlags> {
    vec![ParticipationFlags { bits: 0 }; n]
}

/// A state in slot 40, in epoch 1, with four validators. The block root of slot `s` is
/// `root(s % 256)`.
fn state(fork: ForkFields) -> BeaconState {
    let mut block_roots = Vec::new();
    for i in 0..ROOTS {
        block_roots.push(root((i % 256) as u8));
    }
    BeaconState {
        slot: Slot(40),
        genesis_time: 0,
        latest_block_header: header(),
        block_roots,
        randao_mixes: vec![Hash256::zero(); 4],
        balances: vec![1_000; 4],
        total_active_balance: Some(4_000),
        exit_churn: ExitChurn { earliest_exit_epoch: Epoch(0), exit_balance_to_consume: 0 },
        caches: StateCaches {
            effective_balances: vec![32, 31, 30, 29],
            base_rewards: vec![4_480, 4_480, 4_480, 4_480],
            slashed_validators: vec![3],
            progressive_balances: Some(ProgressiveBalances {
                current_epoch: Epoch(1),
                previous_epoch_balances: FlagBalances {
                    timely_source: 0,
                    timely_target: 0,
                    timely_head: 0,
                },
                current_epoch_balances: FlagBalances {
                    timely_source: 0,
                    timely_target: 0,
                    timely_head: 0,
                },
            }),
        },
        fork,
    }
}

fn altair_state() -> BeaconState {
    state(ForkFields::Altair {
        fork_name: ForkName::Deneb,
        previous_epoch_participation: no_flags(4),
        current_epoch_participation: no_flags(4),
    })
}

fn payment(amount: u64) -> BuilderPendingPayment {
    let mut payment = BuilderPendingPayment::default();
    payment.withdrawal.amount = amount;
    payment
}

fn gloas_state() -> BeaconState {
    let mut payments = vec![BuilderPendingPayment::default(); 64];
    // Slot 36 is the fifth of epoch 1, and the payments of the current epoch come second.
    payments[32 + 4] = payment(7);
    state(ForkFields::Gloas {
        previous_epoch_participation: no_flags(4),
        current_epoch_participation: no_flags(4),
        builder_pending_payments: payments,
        builder_pending_withdrawals: vec![],
        latest_block_hash: Hash256::zero(),
        latest_execution_bid: ExecutionBid::default(),
        latest_withdrawals_root: Hash256::zero(),
    })
}

fn base_state() -> BeaconState {
    state(ForkFields::Base {
        previous_epoch_attestations: vec![],
        current_epoch_attestations: vec![],
    })
}

fn data_for(slot: u64, block: Hash256, target: u64) -> AttestationData {
    AttestationData {
        slot: Slot(slot),
        index: 0,
        beacon_block_root: block,
        source: Checkpoint { epoch: Epoch(0), root: root(1) },
        target: Checkpoint { epoch: Epoch(target), root: root(2) },
    }
}

fn data() -> AttestationData {
    data_for(36, root(36), 1)
}

fn base_attestation(data: AttestationData) -> Attestation {
    Attestation::Base(AttestationBase {
        aggregation_bits: vec![true, false],
        data,
        signature: FixedBytes([0; 96]),
    })
}

fn electra_attestation(data: AttestationData) -> Attestation {
    Attestation::Electra(AttestationElectra {
        aggregation_bits: vec![true, false],
        data,
        signature: FixedBytes([0; 96]),
        committee_bits: vec![true],
    })
}

fn flags(state: &BeaconState) -> Vec<u8> {
    match &state.fork {
        ForkFields::Altair { current_epoch_participation, .. }
        | ForkFields::Gloas { current_epoch_participation, .. } => {
            current_epoch_participation.iter().map(|f| f.bits).collect()
        }
        ForkFields::Base { .. } => vec![],
    }
}

fn previous_flags(state: &BeaconState) -> Vec<u8> {
    match &state.fork {
        ForkFields::Altair { previous_epoch_participation, .. }
        | ForkFields::Gloas { previous_epoch_participation, .. } => {
            previous_epoch_participation.iter().map(|f| f.bits).collect()
        }
        ForkFields::Base { .. } => vec![],
    }
}

fn weight(state: &BeaconState, index: usize) -> u64 {
    state.builder_pending_payments().unwrap()[index].weight
}

#[test]
fn altair_sets_flags_and_pays_the_proposer() {
    let mut s = altair_state();
    let r = altair::apply_attestation(
        &mut s, &data(), Epoch(0), Epoch(1), 2, &vec![0, 1], &vec![0, 1],
    );
    assert_eq!(r, Ok(()));
    assert_eq!(flags(&s), vec![3, 3, 0, 0]);
    assert_eq!(previous_flags(&s), vec![0, 0, 0, 0]);
    // 2 * 4480 * (14 + 26) / ((64 - 8) * 64 / 8) = 358400 / 448 = 800
    assert_eq!(s.balances, vec![1_000, 1_000, 1_800, 1_000]);
    let balances = s.caches.progressive_balances.unwrap().current_epoch_balances;
    assert_eq!(balances.timely_source, 63);
    assert_eq!(balances.timely_target, 63);
    assert_eq!(balances.timely_head, 0);
}

#[test]
fn altair_attestation_counts_once() {
    let mut once = altair_state();
    let r = altair::apply_attestation(
        &mut once, &data(), Epoch(0), Epoch(1), 2, &vec![0, 1], &vec![0, 1, 2],
    );
    assert_eq!(r, Ok(()));
    let mut twice = once.clone();
    let r = altair::apply_attestation(
        &mut twice, &data(), Epoch(0), Epoch(1), 2, &vec![0, 1], &vec![0, 1, 2],
    );
    assert_eq!(r, Ok(()));
    assert_eq!(once, twice);
}

#[test]
fn altair_uses_the_flags_of_the_previous_epoch() {
    let mut s = altair_state();
    let d = data_for(20, root(20), 0);
    let r =
        altair::apply_attestation(&mut s, &d, Epoch(0), Epoch(1), 2, &vec![1], &vec![1]);
    assert_eq!(r, Ok(()));
    assert_eq!(previous_flags(&s), vec![0, 2, 0, 0]);
    assert_eq!(flags(&s), vec![0, 0, 0, 0]);
    let balances = s.caches.progressive_balances.unwrap();
    assert_eq!(balances.previous_epoch_balances.timely_target, 31);
    assert_eq!(balances.current_epoch_balances.timely_target, 0);
}

#[test]
fn altair_slashed_validators_do_not_count_in_balances() {
    let mut s = altair_state();
    let r =
        altair::apply_attestation(&mut s, &data(), Epoch(0), Epoch(1), 0, &vec![3], &vec![2]);
    assert_eq!(r, Ok(()));
    assert_eq!(flags(&s), vec![0, 0, 0, 4]);
    assert_eq!(s.caches.progressive_balances.unwrap().current_epoch_balances.timely_head, 0);
    // 4480 * 14 / 448 = 140
    assert_eq!(s.balances[0], 1_140);
}

#[test]
fn altair_reports_what_is_out_of_bounds() {
    let mut s = altair_state();
    let r = altair::apply_attestation(
        &mut s, &data(), Epoch(0), Epoch(1), 2, &vec![4], &vec![0],
    );
    assert_eq!(
        r,
        Err(BlockProcessingError::EpochCacheError(EpochCacheError::ValidatorIndexOutOfBounds {
            validator_index: 4
        }))
    );

    let mut s = altair_state();
    s.caches.effective_balances.push(32);
    let r = altair::apply_attestation(
        &mut s, &data(), Epoch(0), Epoch(1), 2, &vec![4], &vec![0],
    );
    assert_eq!(
        r,
        Err(BlockProcessingError::BeaconStateError(BeaconStateError::ParticipationOutOfBounds(4)))
    );

    let mut s = altair_state();
    let r = altair::apply_attestation(
        &mut s, &data(), Epoch(0), Epoch(1), 9, &vec![0], &vec![0],
    );
    assert_eq!(
        r,
        Err(BlockProcessingError::BeaconStateError(BeaconStateError::BalancesOutOfBounds(9)))
    );

    let mut s = altair_state();
    let r = altair::apply_attestation(
        &mut s, &data(), Epoch(5), Epoch(6), 2, &vec![0], &vec![0],
    );
    assert_eq!(
        r,
        Err(BlockProcessingError::BeaconStateError(BeaconStateError::EpochOutOfBounds))
    );

    let mut s = altair_state();
    s.caches.base_rewards[0] = u64::MAX;
    let r = altair::apply_attestation(
        &mut s, &data(), Epoch(0), Epoch(1), 2, &vec![0], &vec![0],
    );
    assert_eq!(r, Err(BlockProcessingError::ArithError(ArithError::Overflow)));

    let mut s = altair_state();
    s.caches.progressive_balances = None;
    let r = altair::apply_attestation(
        &mut s, &data(), Epoch(0), Epoch(1), 2, &vec![0], &vec![0],
    );
    assert_eq!(
        r,
        Err(BlockProcessingError::BeaconStateError(
            BeaconStateError::ProgressiveBalancesCacheNotInitialized
        ))
    );
}

#[test]
fn gloas_adds_weight_for_same_slot_votes() {
    let mut s = gloas_state();
    let r = gloas::apply_attestation::<MainnetEthSpec>(
        &mut s, &data(), Epoch(0), Epoch(1), 2, &vec![0, 1], &vec![0],
    );
    assert_eq!(r, Ok(()));
    assert_eq!(flags(&s), vec![1, 1, 0, 0]);
    assert_eq!(weight(&s, 36), 63);
    assert_eq!(weight(&s, 4), 0);
    // 2 * 4480 * 14 / 448 = 280
    assert_eq!(s.balances[2], 1_280);
}

#[test]
fn gloas_validator_named_twice_counts_once() {
    let mut s = gloas_state();
    let r = gloas::apply_attestation::<MainnetEthSpec>(
        &mut s, &data(), Epoch(0), Epoch(1), 2, &vec![0, 0], &vec![0, 1, 2],
    );
    assert_eq!(r, Ok(()));
    assert_eq!(weight(&s, 36), 32);
}

#[test]
fn gloas_attestation_counts_once() {
    let mut once = gloas_state();
    let r = gloas::apply_attestation::<MainnetEthSpec>(
        &mut once, &data(), Epoch(0), Epoch(1), 2, &vec![0, 1, 2], &vec![0, 1],
    );
    assert_eq!(r, Ok(()));
    assert_eq!(weight(&once, 36), 93);
    let mut twice = once.clone();
    let r = gloas::apply_attestation::<MainnetEthSpec>(
        &mut twice, &data(), Epoch(0), Epoch(1), 2, &vec![0, 1, 2], &vec![0, 1],
    );
    assert_eq!(r, Ok(()));
    assert_eq!(once, twice);
}

#[test]
fn gloas_other_votes_add_no_weight() {
    // The vote is for the block of slot 35, attested to in slot 36.
    let mut s = gloas_state();
    let d = data_for(36, root(35), 1);
    let r = gloas::apply_attestation::<MainnetEthSpec>(
        &mut s, &d, Epoch(0), Epoch(1), 2, &vec![0], &vec![0],
    );
    assert_eq!(r, Ok(()));
    assert_eq!(flags(&s), vec![1, 0, 0, 0]);
    assert_eq!(weight(&s, 36), 0);

    // The slot of the block was skipped: slots 35 and 36 have the same root.
    let mut s = gloas_state();
    s.block_roots[35] = root(36);
    let r = gloas::apply_attestation::<MainnetEthSpec>(
        &mut s, &data(), Epoch(0), Epoch(1), 2, &vec![0], &vec![0],
    );
    assert_eq!(r, Ok(()));
    assert_eq!(weight(&s, 36), 0);
}

#[test]
fn gloas_empty_payments_gain_no_weight() {
    let mut s = gloas_state();
    let d = data_for(37, root(37), 1);
    let r = gloas::apply_attestation::<MainnetEthSpec>(
        &mut s, &d, Epoch(0), Epoch(1), 2, &vec![0], &vec![0],
    );
    assert_eq!(r, Ok(()));
    assert_eq!(weight(&s, 37), 0);
}

#[test]
fn gloas_payments_of_the_previous_epoch_come_first() {
    let mut s = gloas_state();
    if let ForkFields::Gloas { builder_pending_payments, .. } = &mut s.fork {
        builder_pending_payments[20] = payment(5);
    }
    let d = data_for(20, root(20), 0);
    let r = gloas::apply_attestation::<MainnetEthSpec>(
        &mut s, &d, Epoch(0), Epoch(1), 2, &vec![2], &vec![0],
    );
    assert_eq!(r, Ok(()));
    assert_eq!(weight(&s, 20), 30);
    assert_eq!(previous_flags(&s), vec![0, 0, 1, 0]);
}

#[test]
fn gloas_reports_a_missing_payment_and_an_overflow() {
    let mut s = gloas_state();
    if let ForkFields::Gloas { builder_pending_payments, .. } = &mut s.fork {
        builder_pending_payments.truncate(36);
    }
    let r = gloas::apply_attestation::<MainnetEthSpec>(
        &mut s, &data(), Epoch(0), Epoch(1), 2, &vec![0], &vec![],
    );
    assert_eq!(r, Err(BlockProcessingError::BuilderPaymentIndexOutOfBounds(36)));

    let mut s = gloas_state();
    if let ForkFields::Gloas { builder_pending_payments, .. } = &mut s.fork {
        builder_pending_payments[36].weight = u64::MAX;
    }
    let r = gloas::apply_attestation::<MainnetEthSpec>(
        &mut s, &data(), Epoch(0), Epoch(1), 2, &vec![0], &vec![0],
    );
    assert_eq!(r, Err(BlockProcessingError::ArithError(ArithError::Overflow)));
}

#[test]
fn attestations_are_dispatched_by_fork() {
    let ctxt = ConsensusContext {
        previous_epoch: Epoch(0),
        current_epoch: Epoch(1),
        get_proposer_index: |_: &BeaconState| Ok::<u64, BlockProcessingError>(2),
        verify_attestation_for_block_inclusion:
            |_: &BeaconState, _: &Attestation, _: VerifySignatures| {
                Ok::<Vec<u64>, AttestationVerificationError>(vec![0])
            },
        get_attestation_participation_flag_indices:
            |_: &BeaconState, _: &AttestationData, delay: u64| {
                assert_eq!(delay, 4);
                Ok::<Vec<usize>, BeaconStateError>(vec![0])
            },
    };
    let attestation = electra_attestation(data());
    let mut s = gloas_state();
    let r = process_attestation::<MainnetEthSpec, _, _, _>(
        &mut s, &attestation, 0, &ctxt, VerifySignatures::True,
    );
    assert_eq!(r, Ok(()));
    assert_eq!(weight(&s, 36), 32);

    let mut s = altair_state();
    let r = process_attestation::<MainnetEthSpec, _, _, _>(
        &mut s, &attestation, 0, &ctxt, VerifySignatures::False,
    );
    assert_eq!(r, Ok(()));
    assert_eq!(flags(&s), vec![1, 0, 0, 0]);
}

#[test]
fn attestations_stop_at_the_first_that_is_refused() {
    let ctxt = ConsensusContext {
        previous_epoch: Epoch(0),
        current_epoch: Epoch(1),
        get_proposer_index: |_: &BeaconState| Ok::<u64, BlockProcessingError>(2),
        verify_attestation_for_block_inclusion:
            |_: &BeaconState, attestation: &Attestation, _: VerifySignatures| {
                if attestation.data().index == 9 {
                    Err(AttestationVerificationError::Invalid(AttestationInvalid::TooLate))
                } else {
                    Ok(vec![attestation.data().index])
                }
            },
        get_attestation_participation_flag_indices:
            |_: &BeaconState, _: &AttestationData, _: u64| {
                Ok::<Vec<usize>, BeaconStateError>(vec![0])
            },
    };
    let mut refused = data();
    refused.index = 9;
    let mut second = data();
    second.index = 1;
    let attestations = vec![
        electra_attestation(data()),
        electra_attestation(refused),
        electra_attestation(second),
    ];
    let mut s = gloas_state();
    let r = process_attestations::<MainnetEthSpec, _, _, _>(
        &mut s, &attestations, VerifySignatures::True, &ctxt,
    );
    assert_eq!(
        r,
        Err(BlockProcessingError::AttestationInvalid {
            index: 1,
            reason: AttestationInvalid::TooLate
        })
    );
    assert_eq!(flags(&s), vec![1, 0, 0, 0]);

    let attestations = vec![electra_attestation(data()), electra_attestation(second)];
    let mut s = gloas_state();
    let r = process_attestations::<MainnetEthSpec, _, _, _>(
        &mut s, &attestations, VerifySignatures::True, &ctxt,
    );
    assert_eq!(r, Ok(()));
    assert_eq!(flags(&s), vec![1, 1, 0, 0]);
}

#[test]
fn an_attestation_that_is_processed_twice_counts_once() {
    let ctxt = ConsensusContext {
        previous_epoch: Epoch(0),
        current_epoch: Epoch(1),
        get_proposer_index: |_: &BeaconState| Ok::<u64, BlockProcessingError>(2),
        verify_attestation_for_block_inclusion:
            |_: &BeaconState, _: &Attestation, _: VerifySignatures| {
                Ok::<Vec<u64>, AttestationVerificationError>(vec![0, 1])
            },
        get_attestation_participation_flag_indices:
            |_: &BeaconState, _: &AttestationData, _: u64| {
                Ok::<Vec<usize>, BeaconStateError>(vec![0, 1, 2])
            },
    };
    let attestation = electra_attestation(data());
    let mut s = gloas_state();
    let r = process_attestation::<MainnetEthSpec, _, _, _>(
        &mut s, &attestation, 0, &ctxt, VerifySignatures::True,
    );
    assert_eq!(r, Ok(()));
    assert_ne!(s, gloas_state());
    let once = s.clone();
    let r = process_attestation::<MainnetEthSpec, _, _, _>(
        &mut s, &attestation, 0, &ctxt, VerifySignatures::True,
    );
    assert_eq!(r, Ok(()));
    assert_eq!(s, once);
}

#[test]
fn attestations_from_the_future_overflow() {
    let ctxt = ConsensusContext {
        previous_epoch: Epoch(0),
        current_epoch: Epoch(1),
        get_proposer_index: |_: &BeaconState| Ok::<u64, BlockProcessingError>(2),
        verify_attestation_for_block_inclusion:
            |_: &BeaconState, _: &Attestation, _: VerifySignatures| {
                Ok::<Vec<u64>, AttestationVerificationError>(vec![0])
            },
        get_attestation_participation_flag_indices:
            |_: &BeaconState, _: &AttestationData, _: u64| {
                Ok::<Vec<usize>, BeaconStateError>(vec![0])
            },
    };
    let mut s = gloas_state();
    let r = process_attestation::<MainnetEthSpec, _, _, _>(
        &mut s, &electra_attestation(data_for(41, root(41), 1)), 0, &ctxt, VerifySignatures::True,
    );
    assert_eq!(r, Err(BlockProcessingError::ArithError(ArithError::Overflow)));
}

#[test]
fn base_attestations_wait_in_the_list_of_their_epoch() {
    let caches = base_state().caches;
    let ctxt = ConsensusContext {
        previous_epoch: Epoch(0),
        current_epoch: Epoch(1),
        get_proposer_index: |_: &BeaconState| Ok::<u64, BlockProcessingError>(3),
        verify_attestation_for_block_inclusion:
            |_: &BeaconState, _: &Attestation, _: VerifySignatures| {
                Ok::<Vec<u64>, AttestationVerificationError>(vec![0])
            },
        get_attestation_participation_flag_indices:
            |_: &BeaconState, _: &AttestationData, _: u64| {
                Ok::<Vec<usize>, BeaconStateError>(vec![])
            },
    };
    let attestations =
        vec![base_attestation(data()), base_attestation(data_for(20, root(20), 0))];
    let mut s = base_state();
    let r = base::process_attestations::<MainnetEthSpec, _, _, _, _>(
        &mut s,
        &attestations,
        VerifySignatures::True,
        &ctxt,
        |_: &BeaconState| (caches.clone(), Ok::<(), BlockProcessingError>(())),
    );
    assert_eq!(r, Ok(()));
    match &s.fork {
        ForkFields::Base { previous_epoch_attestations, current_epoch_attestations } => {
            assert_eq!(current_epoch_attestations.len(), 1);
            assert_eq!(current_epoch_attestations[0].inclusion_delay, 4);
            assert_eq!(current_epoch_attestations[0].proposer_index, 3);
            assert_eq!(current_epoch_attestations[0].aggregation_bits, vec![true, false]);
            assert_eq!(previous_epoch_attestations.len(), 1);
            assert_eq!(previous_epoch_attestations[0].inclusion_delay, 20);
        }
        _ => panic!("the fork has changed"),
    }
}

#[test]
fn base_refuses_the_later_format_and_a_full_list() {
    let caches = base_state().caches;
    let ctxt = ConsensusContext {
        previous_epoch: Epoch(0),
        current_epoch: Epoch(1),
        get_proposer_index: |_: &BeaconState| Ok::<u64, BlockProcessingError>(3),
        verify_attestation_for_block_inclusion:
            |_: &BeaconState, _: &Attestation, _: VerifySignatures| {
                Ok::<Vec<u64>, AttestationVerificationError>(vec![0])
            },
        get_attestation_participation_flag_indices:
            |_: &BeaconState, _: &AttestationData, _: u64| {
                Ok::<Vec<usize>, BeaconStateError>(vec![])
            },
    };
    let build = |_: &BeaconState| (caches.clone(), Ok::<(), BlockProcessingError>(()));
    let mut s = base_state();
    let r = base::process_attestations::<MainnetEthSpec, _, _, _, _>(
        &mut s, &vec![electra_attestation(data())], VerifySignatures::True, &ctxt, build,
    );
    assert_eq!(r, Err(BlockProcessingError::PendingAttestationInElectra));
    assert_eq!(s, base_state());

    let many = vec![base_attestation(data()); 4_097];
    let mut s = base_state();
    let r = base::process_attestations::<MainnetEthSpec, _, _, _, _>(
        &mut s, &many, VerifySignatures::True, &ctxt, build,
    );
    assert_eq!(
        r,
        Err(BlockProcessingError::MilhouseError(MilhouseError::ListFull { len: 4_096 }))
    );

    let mut s = gloas_state();
    let r = base::process_attestations::<MainnetEthSpec, _, _, _, _>(
        &mut s, &vec![base_attestation(data())], VerifySignatures::True, &ctxt, build,
    );
    assert_eq!(
        r,
        Err(BlockProcessingError::BeaconStateError(BeaconStateError::IncorrectStateVariant))
    );
}

#[test]
fn base_stops_when_caches_or_proposer_are_missing() {
    let caches = base_state().caches;
    let ctxt = ConsensusContext {
        previous_epoch: Epoch(0),
        current_epoch: Epoch(1),
        get_proposer_index: |_: &BeaconState| {
            Err::<u64, BlockProcessingError>(BlockProcessingError::BeaconStateError(
                BeaconStateError::InsufficientValidators,
            ))
        },
        verify_attestation_for_block_inclusion:
            |_: &BeaconState, _: &Attestation, _: VerifySignatures| {
                Ok::<Vec<u64>, AttestationVerificationError>(vec![0])
            },
        get_attestation_participation_flag_indices:
            |_: &BeaconState, _: &AttestationData, _: u64| {
                Ok::<Vec<usize>, BeaconStateError>(vec![])
            },
    };
    let mut s = base_state();
    let r = base::process_attestations::<MainnetEthSpec, _, _, _, _>(
        &mut s,
        &vec![],
        VerifySignatures::True,
        &ctxt,
        |_: &BeaconState| (caches.clone(), Ok::<(), BlockProcessingError>(())),
    );
    assert_eq!(
        r,
        Err(BlockProcessingError::BeaconStateError(BeaconStateError::InsufficientValidators))
    );
    let mut s = base_state();
    let r = base::process_attestations::<MainnetEthSpec, _, _, _, _>(
        &mut s,
        &vec![],
        VerifySignatures::True,
        &ctxt,
        |_: &BeaconState| {
            let mut built = caches.clone();
            built.slashed_validators = vec![7];
            (
                built,
                Err::<(), BlockProcessingError>(BlockProcessingError::ArithError(
                    ArithError::DivisionByZero,
                )),
            )
        },
    );
    assert_eq!(r, Err(BlockProcessingError::ArithError(ArithError::DivisionByZero)));
    // The caches that could be built stay.
    let mut left = base_state();
    left.caches.slashed_validators = vec![7];
    assert_eq!(s, left);
}

#[test]
fn same_slot_is_told_by_the_block_roots() {
    let s = gloas_state();
    assert_eq!(is_attestation_same_slot(&s, &data()), Ok(true));
    assert_eq!(is_attestation_same_slot(&s, &data_for(36, root(35), 1)), Ok(false));
    assert_eq!(is_attestation_same_slot(&s, &data_for(36, root(34), 1)), Ok(false));
    assert_eq!(is_attestation_same_slot(&s, &data_for(0, root(99), 0)), Ok(true));
    assert_eq!(
        is_attestation_same_slot(&s, &data_for(40, root(40), 1)),
        Err(BeaconStateError::SlotOutOfBounds)
    );
}
