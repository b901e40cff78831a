use gloas_consensus::beacon_state::{
    BeaconBlockHeader, BeaconState, ExecutionBid, ExitChurn, ForkFields, StateCaches,
};
use gloas_consensus::errors::{BeaconChainError, BeaconStateError};
use gloas_consensus::eth_spec::{ChainSpec, MainnetEthSpec};
use gloas_consensus::primitives::{
    Epoch, FixedBytes, Hash256, RelativeEpoch, RelativeEpochError, Slot,
};
use gloas_consensus::ptc_cache::{PTCCache, PtcSource, PTC};
use gloas_consensus::ptc_duties::{
    convert_to_api_response, ptc_duties, route_request, ClockReading, DutiesResponse, PtcDutiesChain,
    PtcDutiesError, PtcDuty, RequestRoute, ValidatorPtcDuties,
};

fn spec() -> ChainSpec {
    ChainSpec {
        altair_fork_epoch: Some(Epoch(0)),
        gloas_fork_epoch: Some(Epoch(0)),
        genesis_slot: 0,
        seconds_per_slot: 12,
        min_seed_lookahead: 1,
        min_validator_withdrawability_delay: 256,
        builder_payment_threshold_numerator: 6,
        builder_payment_threshold_denominator: 10,
        epochs_per_sync_committee_period: 256,
    }
}

fn gloas_fields() -> ForkFields {
    ForkFields::Gloas {
        previous_epoch_participation: vec![],
        current_epoch_participation: vec![],
        builder_pending_payments: vec![],
        builder_pending_withdrawals: vec![],
        latest_block_hash: Hash256::zero(),
        latest_execution_bid: ExecutionBid::default(),
        latest_withdrawals_root: Hash256::zero(),
    }
}

/// A state in slot 321, in epoch 10.
fn state() -> BeaconState {
    BeaconState {
        slot: Slot(321),
        genesis_time: 0,
        latest_block_header: BeaconBlockHeader {
            slot: Slot(0),
            proposer_index: 0,
            parent_root: Hash256::zero(),
            state_root: Hash256::zero(),
            body_root: Hash256::zero(),
        },
        block_roots: vec![],
        randao_mixes: vec![Hash256::zero(); 65_536],
        balances: vec![],
        total_active_balance: None,
        exit_churn: ExitChurn { earliest_exit_epoch: Epoch(0), exit_balance_to_consume: 0 },
        caches: StateCaches {
            effective_balances: vec![],
            base_rewards: vec![],
            slashed_validators: vec![],
            progressive_balances: None,
        },
        fork: gloas_fields(),
    }
}

/// Two committees of one member in each slot, who share the seats.
fn cache_at(state: &BeaconState, epoch: Epoch) -> Result<PTCCache, BeaconStateError> {
    let source = PtcSource {
        get_cached_active_validator_indices: |_: RelativeEpoch| {
            Ok::<Vec<usize>, BeaconStateError>(vec![1, 2, 3])
        },
        get_ptc_attester_seed: |slot: Slot| {
            Ok::<Hash256, BeaconStateError>(FixedBytes([(slot.0 / 32) as u8; 32]))
        },
        get_committee_count_at_slot: |_: Slot| Ok::<u64, BeaconStateError>(2),
        get_beacon_committee: |slot: Slot, index: u64| {
            // The committees of the last slot of the epoch repeat those of the first.
            let n = if slot.0 % 32 == 31 { slot.0 - 31 } else { slot.0 };
            Ok::<Vec<usize>, BeaconStateError>(vec![(10 * n + index) as usize])
        },
        compute_balance_weighted_selection:
            |candidates: &Vec<usize>, seed: &Hash256, size: usize| {
                assert_eq!(candidates.len(), 2);
                assert_eq!(seed.0[0], 10);
                let mut seats = vec![candidates[1]; size];
                seats[0] = candidates[0];
                Ok::<Vec<usize>, BeaconStateError>(seats)
            },
    };
    PTCCache::initialized::<MainnetEthSpec, _, _, _, _, _>(state, epoch, &spec(), &source)
        .map(|cache| (*cache).clone())
}

fn ptc(first: usize, others: usize) -> PTC {
    let mut seats = vec![others; 512];
    seats[0] = first;
    PTC(seats)
}

#[test]
fn committees_are_drawn_for_every_slot() {
    let cache = cache_at(&state(), Epoch(10)).unwrap();
    assert_eq!(cache.initialized_epoch(), Some(Epoch(10)));
    assert!(cache.is_initialized_at(Epoch(10)));
    assert!(!cache.is_initialized_at(Epoch(11)));
    assert_eq!(cache.get_ptc::<MainnetEthSpec>(Slot(320)), Ok(ptc(3200, 3201)));
    assert_eq!(cache.get_ptc::<MainnetEthSpec>(Slot(322)), Ok(ptc(3220, 3221)));
    assert_eq!(cache.get_ptc::<MainnetEthSpec>(Slot(351)), Ok(ptc(3200, 3201)));
    assert_eq!(
        cache.get_ptc::<MainnetEthSpec>(Slot(352)),
        Err(BeaconStateError::SlotOutOfBounds)
    );
    assert_eq!(
        cache.get_ptc::<MainnetEthSpec>(Slot(319)),
        Err(BeaconStateError::SlotOutOfBounds)
    );
}

#[test]
fn assignments_name_the_first_seat() {
    let cache = cache_at(&state(), Epoch(10)).unwrap();
    for validator in [3200, 3201, 3210, 3221, 3500, 3510, 7] {
        assert_eq!(
            cache.get_ptc_assignment(validator),
            cache.get_ptc_assignment_optimized(validator)
        );
    }
    assert_eq!(cache.get_ptc_assignment(3200), Some(Slot(320)));
    assert_eq!(cache.get_ptc_assignment(3221), Some(Slot(322)));
    assert_eq!(cache.get_ptc_assignment(3500), Some(Slot(350)));
    assert_eq!(cache.get_ptc_assignment(3510), None);
}

#[test]
fn an_empty_cache_knows_nothing() {
    let cache = PTCCache::default();
    assert_eq!(cache.initialized_epoch(), None);
    assert!(!cache.is_initialized_at(Epoch(0)));
    assert_eq!(
        cache.get_ptc::<MainnetEthSpec>(Slot(0)),
        Err(BeaconStateError::PTCCacheUninitialized(None))
    );
    assert_eq!(cache.get_ptc_assignment(0), None);
    assert_eq!(cache.get_ptc_assignment_optimized(0), None);
}

#[test]
fn states_before_gloas_have_an_empty_cache() {
    let mut s = state();
    s.fork = ForkFields::Base {
        previous_epoch_attestations: vec![],
        current_epoch_attestations: vec![],
    };
    assert_eq!(cache_at(&s, Epoch(10)).unwrap(), PTCCache::default());
}

#[test]
fn epochs_out_of_reach_are_refused() {
    assert_eq!(
        cache_at(&state(), Epoch(12)).err(),
        Some(BeaconStateError::RelativeEpochError(RelativeEpochError::EpochTooHigh {
            base: Epoch(10),
            other: Epoch(12)
        }))
    );
    assert_eq!(
        cache_at(&state(), Epoch(8)).err(),
        Some(BeaconStateError::RelativeEpochError(RelativeEpochError::EpochTooLow {
            base: Epoch(10),
            other: Epoch(8)
        }))
    );
}

#[test]
fn failures_on_the_way_to_a_committee_are_passed_on() {
    let seedless = PtcSource {
        get_cached_active_validator_indices: |_: RelativeEpoch| {
            Ok::<Vec<usize>, BeaconStateError>(vec![1])
        },
        get_ptc_attester_seed: |_: Slot| {
            Err::<Hash256, BeaconStateError>(BeaconStateError::RandaoMixesOutOfBounds(7))
        },
        get_committee_count_at_slot: |_: Slot| Ok::<u64, BeaconStateError>(0),
        get_beacon_committee: |_: Slot, _: u64| Ok::<Vec<usize>, BeaconStateError>(vec![]),
        compute_balance_weighted_selection: |_: &Vec<usize>, _: &Hash256, size: usize| {
            Ok::<Vec<usize>, BeaconStateError>(vec![0; size])
        },
    };
    assert_eq!(
        PTCCache::initialized::<MainnetEthSpec, _, _, _, _, _>(&state(), Epoch(10), &spec(), &seedless).err(),
        Some(BeaconStateError::RandaoMixesOutOfBounds(7))
    );
    let nobody = PtcSource {
        get_cached_active_validator_indices: |_: RelativeEpoch| {
            Ok::<Vec<usize>, BeaconStateError>(vec![])
        },
        get_ptc_attester_seed: |_: Slot| Ok::<Hash256, BeaconStateError>(Hash256::zero()),
        get_committee_count_at_slot: |_: Slot| Ok::<u64, BeaconStateError>(0),
        get_beacon_committee: |_: Slot, _: u64| Ok::<Vec<usize>, BeaconStateError>(vec![]),
        compute_balance_weighted_selection: |_: &Vec<usize>, _: &Hash256, size: usize| {
            Ok::<Vec<usize>, BeaconStateError>(vec![0; size])
        },
    };
    assert_eq!(
        PTCCache::initialized::<MainnetEthSpec, _, _, _, _, _>(&state(), Epoch(10), &spec(), &nobody).err(),
        Some(BeaconStateError::InsufficientValidators)
    );
}

fn clock(slot: u64, ahead: u64) -> ClockReading {
    ClockReading {
        now_or_genesis: Some(Slot(slot)),
        is_prior_to_genesis: Some(false),
        now_with_future_tolerance: Some(Slot(ahead)),
    }
}

fn route(epoch: u64, clock: &ClockReading) -> Result<RequestRoute, PtcDutiesError> {
    route_request::<MainnetEthSpec>(Epoch(epoch), clock)
}

#[test]
fn requests_are_routed_by_epoch() {
    let now = clock(330, 330);
    assert_eq!(route(10, &now), Ok(RequestRoute::Compute));
    assert_eq!(route(11, &now), Ok(RequestRoute::Compute));
    assert_eq!(
        route(12, &now),
        Err(PtcDutiesError::BadRequest(
            "request epoch 12 is more than one epoch past the current epoch 10".to_string()
        ))
    );
    assert_eq!(route(9, &now), Ok(RequestRoute::Historic));
    assert_eq!(route(0, &now), Ok(RequestRoute::Historic));
}

#[test]
fn requests_near_the_end_of_an_epoch_are_tolerated() {
    let now = clock(351, 352);
    assert_eq!(route(12, &now), Ok(RequestRoute::Compute));
    assert_eq!(
        route(13, &now),
        Err(PtcDutiesError::BadRequest(
            "request epoch 13 is more than one epoch past the current epoch 10".to_string()
        ))
    );
    // Before genesis there is no tolerance.
    let mut early = clock(0, 640);
    early.is_prior_to_genesis = Some(true);
    assert!(matches!(route(2, &early), Err(PtcDutiesError::BadRequest(_))));
    early.is_prior_to_genesis = None;
    assert!(matches!(route(2, &early), Err(PtcDutiesError::BadRequest(_))));
}

#[test]
fn requests_need_a_clock() {
    let mut broken = clock(330, 330);
    broken.now_or_genesis = None;
    assert_eq!(
        route(10, &broken),
        Err(PtcDutiesError::Unhandled(BeaconChainError::UnableToReadSlot))
    );
    let mut broken = clock(330, 330);
    broken.now_with_future_tolerance = None;
    assert_eq!(
        route(10, &broken),
        Err(PtcDutiesError::ServerError("unable to read slot clock".to_string()))
    );
}

fn duty(index: u64) -> PtcDuty {
    PtcDuty { validator_index: index, slot: Slot(5), pubkey: FixedBytes([index as u8; 48]) }
}

#[test]
fn responses_hold_the_duties_that_exist() {
    let response =
        convert_to_api_response(&vec![Some(duty(1)), None, Some(duty(3))], FixedBytes([2; 32]), true);
    assert_eq!(
        response,
        DutiesResponse {
            dependent_root: FixedBytes([2; 32]),
            execution_optimistic: Some(true),
            data: vec![duty(1), duty(3)],
        }
    );
}

struct Duties(Result<ValidatorPtcDuties, BeaconChainError>);

impl PtcDutiesChain for Duties {
    fn validator_ptc_duties(
        &self,
        validators: &Vec<u64>,
        epoch: Epoch,
    ) -> Result<ValidatorPtcDuties, BeaconChainError> {
        assert_eq!(*validators, vec![1, 2]);
        assert_eq!(epoch, Epoch(11));
        self.0.clone()
    }
}

#[test]
fn duties_are_served() {
    let chain = Duties(Ok(ValidatorPtcDuties {
        duties: vec![None, Some(duty(2))],
        dependent_root: FixedBytes([2; 32]),
        is_optimistic_or_invalid: false,
    }));
    let r = ptc_duties::<MainnetEthSpec, _>(Epoch(11), &vec![1, 2], &clock(330, 330), &chain);
    assert_eq!(
        r,
        Ok(DutiesResponse {
            dependent_root: FixedBytes([2; 32]),
            execution_optimistic: Some(false),
            data: vec![duty(2)],
        })
    );
    let failing = Duties(Err(BeaconChainError::DBError));
    let r = ptc_duties::<MainnetEthSpec, _>(Epoch(11), &vec![1, 2], &clock(330, 330), &failing);
    assert_eq!(r, Err(PtcDutiesError::Unhandled(BeaconChainError::DBError)));
    let r = ptc_duties::<MainnetEthSpec, _>(Epoch(40), &vec![1, 2], &clock(330, 330), &failing);
    assert!(matches!(r, Err(PtcDutiesError::BadRequest(_))));
}

#[test]
fn members_sit_in_the_beacon_committees_of_their_slot() {
    let cache = cache_at(&state(), Epoch(10)).unwrap();
    for slot in 320..351 {
        let ptc = cache.get_ptc::<MainnetEthSpec>(Slot(slot)).unwrap();
        for member in ptc.0 {
            assert!(member == 10 * slot as usize || member == 10 * slot as usize + 1);
        }
    }
}
