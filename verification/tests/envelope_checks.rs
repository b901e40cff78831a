use gloas_consensus::arith::ArithError;
use gloas_consensus::beacon_state::{
    BeaconBlockHeader, BeaconState, ExecutionBid, ExitChurn, ForkFields, SignedExecutionBid,
    StateCaches,
};
use gloas_consensus::envelope_processing::{
    cache_header_state_root, complete_header, envelope_processing, EnvelopeRules,
};
use gloas_consensus::envelope_verification::{
    compute_timestamp_at_slot, verify_bid, verify_consistency, BeaconChain, BeaconChainTypes,
    EnvelopeRoots, ExecutionPendingEnvelope, GossipVerifiedEnvelope, IntoExecutionPendingEnvelope,
    NotifyExecutionLayer,
};
use gloas_consensus::envelope_verification_types::{
    AvailabilityPendingExecutedEnvelope, AvailableEnvelope, AvailableExecutedEnvelope,
    BlobIdentifier, EnvelopeImportData, ExecutedEnvelope, MaybeAvailableEnvelope,
    PayloadVerificationOutcome, PayloadVerificationStatus, SignedBlindedBeaconBlock,
};
use gloas_consensus::errors::{
    BeaconChainError, BeaconStateError, BlockProcessingError, EnvelopeError,
    EnvelopeProcessingError,
};
use gloas_consensus::eth_spec::{ChainSpec, MainnetEthSpec};
use gloas_consensus::execution_payload_envelope::{
    ConsolidationRequest, DepositRequest, ExecutionPayloadEnvelope, ExecutionPayloadEnvelopeGloas,
    ExecutionPayloadEnvelopeRef, ExecutionPayloadGloas, ExecutionRequests,
    SignedExecutionPayloadEnvelope, WithdrawalRequest,
};
use gloas_consensus::merkle::{hash_commitments, TreeHash};
use gloas_consensus::primitives::{Epoch, FixedBytes, Hash256, Slot};
use gloas_consensus::process_attestations::VerifySignatures;
use std::sync::Arc;

fn root(n: u8) -> Hash256 {
    FixedBytes([n; 32])
}

fn spec() -> ChainSpec {
    ChainSpec {
        altair_fork_epoch: Some(Epoch(0)),
        gloas_fork_epoch: Some(Epoch(0)),
        genesis_slot: 0,
        seconds_per_slot: 12,
        min_seed_lookahead: 1,
        min_validator_withdrawability_delay: 256,
        builder_payment_threshold_numerator: 6,
        builder_payment_threshold_denominator: 10,
        epochs_per_sync_committee_period: 256,
    }
}

/// The header of the block, with the root of the state after it.
fn header() -> BeaconBlockHeader {
    BeaconBlockHeader {
        slot: Slot(10),
        proposer_index: 1,
        parent_root: root(1),
        state_root: root(30),
        body_root: root(2),
    }
}

fn block_root() -> Hash256 {
    header().tree_hash_root()
}

fn envelope() -> ExecutionPayloadEnvelopeGloas {
    let mut payload = ExecutionPayloadGloas::default();
    payload.block_hash = root(5);
    payload.parent_hash = root(4);
    payload.prev_randao = root(8);
    payload.gas_limit = 30;
    payload.timestamp = 1_000 + 10 * 12;
    ExecutionPayloadEnvelopeGloas {
        payload,
        execution_requests: ExecutionRequests {
            deposits: vec![],
            withdrawals: vec![],
            consolidations: vec![],
        },
        builder_index: 42,
        beacon_block_root: block_root(),
        slot: Slot(10),
        blob_kzg_commitments: vec![FixedBytes([17; 48]); 2],
        state_root: root(19),
    }
}

fn signed(envelope: ExecutionPayloadEnvelopeGloas) -> SignedExecutionPayloadEnvelope {
    SignedExecutionPayloadEnvelope::from_envelope(
        ExecutionPayloadEnvelope::Gloas(envelope),
        FixedBytes([1; 96]),
    )
}

fn bid() -> ExecutionBid {
    let mut bid = ExecutionBid::default();
    bid.builder_index = 42;
    bid.block_hash = root(5);
    bid.gas_limit = 30;
    bid.blob_kzg_commitments_root =
        hash_commitments::<MainnetEthSpec>(&envelope().blob_kzg_commitments);
    bid
}

fn state() -> BeaconState {
    BeaconState {
        slot: Slot(10),
        genesis_time: 1_000,
        latest_block_header: BeaconBlockHeader { state_root: Hash256::zero(), ..header() },
        block_roots: vec![],
        randao_mixes: vec![root(8); 4],
        balances: vec![],
        total_active_balance: None,
        exit_churn: ExitChurn { earliest_exit_epoch: Epoch(0), exit_balance_to_consume: 0 },
        caches: StateCaches {
            effective_balances: vec![],
            base_rewards: vec![],
            slashed_validators: vec![],
            progressive_balances: None,
        },
        fork: ForkFields::Gloas {
            previous_epoch_participation: vec![],
            current_epoch_participation: vec![],
            builder_pending_payments: vec![],
            builder_pending_withdrawals: vec![],
            latest_block_hash: root(4),
            latest_execution_bid: bid(),
            latest_withdrawals_root: envelope().payload.withdrawals_root::<MainnetEthSpec>(),
        },
    }
}

fn base_state() -> BeaconState {
    let mut s = state();
    s.fork = ForkFields::Base {
        previous_epoch_attestations: vec![],
        current_epoch_attestations: vec![],
    };
    s
}

fn block() -> SignedBlindedBeaconBlock {
    SignedBlindedBeaconBlock {
        slot: Slot(10),
        state_root: root(30),
        signed_execution_bid: Some(SignedExecutionBid {
            message: bid(),
            signature: FixedBytes([0; 96]),
        }),
    }
}

/// A chain whose answers are written down.
#[derive(Clone)]
struct Chain {
    known: bool,
    block: Result<Option<SignedBlindedBeaconBlock>, BeaconChainError>,
    state: Result<Option<BeaconState>, BeaconChainError>,
    signature: Result<bool, BeaconStateError>,
    root: Result<Hash256, BeaconStateError>,
    deposits_fail: bool,
    withdrawals_fail: bool,
    consolidations_fail: bool,
    notifier_fails: bool,
    shutting_down: bool,
    withheld: bool,
}

fn good_chain() -> Chain {
    Chain {
        known: true,
        block: Ok(Some(block())),
        state: Ok(Some(state())),
        signature: Ok(true),
        root: Ok(root(19)),
        deposits_fail: false,
        withdrawals_fail: false,
        consolidations_fail: false,
        notifier_fails: false,
        shutting_down: false,
        withheld: false,
    }
}

fn failure(fails: bool) -> Result<(), BlockProcessingError> {
    if fails {
        Err(BlockProcessingError::ArithError(ArithError::Overflow))
    } else {
        Ok(())
    }
}

impl EnvelopeRules for Chain {
    fn verify_signature(
        &self,
        _state: &BeaconState,
        _signed_envelope: &SignedExecutionPayloadEnvelope,
    ) -> Result<bool, BeaconStateError> {
        self.signature
    }

    fn payload_withheld(&self, _signed_envelope: &SignedExecutionPayloadEnvelope) -> bool {
        self.withheld
    }

    fn canonical_root(&self, _state: &BeaconState) -> Result<Hash256, BeaconStateError> {
        self.root
    }

    fn process_deposit_requests(
        &self,
        state: &BeaconState,
        requests: &Vec<DepositRequest>,
    ) -> (BeaconState, Result<(), BlockProcessingError>) {
        let r = failure(self.deposits_fail);
        let mut next = state.clone();
        next.balances.push(requests.len() as u64);
        (next, r)
    }

    fn process_withdrawal_requests(
        &self,
        state: &BeaconState,
        requests: &Vec<WithdrawalRequest>,
    ) -> (BeaconState, Result<(), BlockProcessingError>) {
        let r = failure(self.withdrawals_fail);
        let mut next = state.clone();
        next.balances.push(10 + requests.len() as u64);
        (next, r)
    }

    fn process_consolidation_requests(
        &self,
        state: &BeaconState,
        requests: &Vec<ConsolidationRequest>,
    ) -> (BeaconState, Result<(), BlockProcessingError>) {
        let r = failure(self.consolidations_fail);
        let mut next = state.clone();
        next.balances.push(20 + requests.len() as u64);
        (next, r)
    }
}

impl BeaconChainTypes for Chain {
    type EthSpec = MainnetEthSpec;
    type PayloadNotifier = NotifyExecutionLayer;
    type PayloadVerificationHandle = (NotifyExecutionLayer, Hash256, Slot);

    fn contains_block(&self, root: &Hash256) -> bool {
        self.known && *root == block_root()
    }

    fn get_blinded_block(
        &self,
        _block_root: &Hash256,
    ) -> Result<Option<SignedBlindedBeaconBlock>, BeaconChainError> {
        self.block
    }

    fn get_state(
        &self,
        state_root: &Hash256,
        slot: Option<Slot>,
    ) -> Result<Option<BeaconState>, BeaconChainError> {
        assert_eq!(*state_root, root(30));
        assert_eq!(slot, Some(Slot(10)));
        self.state.clone()
    }

    fn payload_notifier(
        &self,
        _signed_envelope: &SignedExecutionPayloadEnvelope,
        notify_execution_layer: NotifyExecutionLayer,
    ) -> Result<NotifyExecutionLayer, EnvelopeError> {
        if self.notifier_fails {
            Err(EnvelopeError::BeaconChainError(BeaconChainError::ExecutionLayerMissing))
        } else {
            Ok(notify_execution_layer)
        }
    }

    fn spawn_payload_verification(
        &self,
        payload_notifier: NotifyExecutionLayer,
        block_root: Hash256,
        slot: Slot,
    ) -> Option<(NotifyExecutionLayer, Hash256, Slot)> {
        if self.shutting_down {
            None
        } else {
            Some((payload_notifier, block_root, slot))
        }
    }
}

fn gossip(
    mut chain: Chain,
    envelope: ExecutionPayloadEnvelopeGloas,
    withheld: bool,
) -> Result<GossipVerifiedEnvelope, EnvelopeError> {
    chain.withheld = withheld;
    GossipVerifiedEnvelope::new(
        Arc::new(signed(envelope)),
        &BeaconChain { spec: spec(), services: chain },
    )
}

#[test]
fn gossip_accepts_an_envelope_for_the_bid() {
    let verified = gossip(good_chain(), envelope(), false).unwrap();
    assert_eq!(*verified.signed_envelope, signed(envelope()));
    assert_eq!(*verified.parent_block, block());
    assert_eq!(*verified.pre_state, state());
    assert_eq!(verified.envelope_cloned(), Arc::new(signed(envelope())));
}

#[test]
fn gossip_refuses_unknown_and_missing_blocks() {
    let mut chain = good_chain();
    chain.known = false;
    assert_eq!(
        gossip(chain, envelope(), false),
        Err(EnvelopeError::BlockRootUnknown { block_root: block_root() })
    );
    let mut chain = good_chain();
    chain.block = Ok(None);
    assert_eq!(
        gossip(chain, envelope(), false),
        Err(EnvelopeError::BeaconChainError(BeaconChainError::MissingBeaconBlock(block_root())))
    );
    let mut chain = good_chain();
    chain.block = Err(BeaconChainError::DBError);
    assert_eq!(
        gossip(chain, envelope(), false),
        Err(EnvelopeError::BeaconChainError(BeaconChainError::DBError))
    );
    let mut chain = good_chain();
    let mut old = block();
    old.signed_execution_bid = None;
    chain.block = Ok(Some(old));
    assert_eq!(
        gossip(chain, envelope(), false),
        Err(EnvelopeError::BeaconStateError(BeaconStateError::IncorrectStateVariant))
    );
}

#[test]
fn gossip_refuses_another_builder() {
    let mut other = envelope();
    other.builder_index = 41;
    assert_eq!(
        gossip(good_chain(), other, false),
        Err(EnvelopeError::BuilderIndexMismatch { committed_bid: 42, envelope: 41 })
    );
}

#[test]
fn withheld_payloads_do_not_name_the_block_of_the_bid() {
    assert_eq!(
        gossip(good_chain(), envelope(), true),
        Err(EnvelopeError::PayloadWithheldBlockHashMismatch)
    );
    let mut other = envelope();
    other.payload.block_hash = root(6);
    assert!(gossip(good_chain(), other.clone(), true).is_ok());
    let envelope = ExecutionPayloadEnvelopeRef::Gloas(&other);
    assert_eq!(verify_bid(&envelope, false, &bid()), Ok(()));
    assert_eq!(verify_bid(&envelope, true, &bid()), Ok(()));
}

#[test]
fn gossip_refuses_missing_states_and_bad_signatures() {
    let mut chain = good_chain();
    chain.state = Ok(None);
    assert_eq!(
        gossip(chain, envelope(), false),
        Err(EnvelopeError::BeaconChainError(BeaconChainError::MissingBeaconState(root(30))))
    );
    let mut chain = good_chain();
    chain.state = Err(BeaconChainError::DBError);
    assert_eq!(
        gossip(chain, envelope(), false),
        Err(EnvelopeError::BeaconChainError(BeaconChainError::DBError))
    );
    let mut chain = good_chain();
    chain.signature = Ok(false);
    assert_eq!(gossip(chain, envelope(), false), Err(EnvelopeError::BadSignature));
    let mut chain = good_chain();
    chain.signature = Err(BeaconStateError::InsufficientValidators);
    assert_eq!(
        gossip(chain, envelope(), false),
        Err(EnvelopeError::BeaconStateError(BeaconStateError::InsufficientValidators))
    );
}

/// The roots of an envelope that matches its state.
fn roots() -> EnvelopeRoots {
    EnvelopeRoots {
        block_header: block_root(),
        blob_kzg_commitments: bid().blob_kzg_commitments_root,
        withdrawals: envelope().payload.withdrawals_root::<MainnetEthSpec>(),
    }
}

fn consistency(
    envelope: &ExecutionPayloadEnvelopeGloas,
    withheld: bool,
    state: &BeaconState,
    roots: &EnvelopeRoots,
) -> Result<(), EnvelopeError> {
    verify_consistency::<MainnetEthSpec>(
        &ExecutionPayloadEnvelopeRef::Gloas(envelope),
        withheld,
        state,
        roots,
        &spec(),
    )
}

#[test]
fn a_matching_envelope_is_consistent() {
    assert_eq!(consistency(&envelope(), false, &state(), &roots()), Ok(()));
    assert_eq!(consistency(&envelope(), true, &state(), &roots()), Ok(()));
}

#[test]
fn roots_have_to_match() {
    let mut r = roots();
    r.block_header = root(51);
    assert_eq!(
        consistency(&envelope(), false, &state(), &r),
        Err(EnvelopeError::LatestBlockHeaderMismatch {
            envelope_root: block_root(),
            block_header_root: root(51)
        })
    );
    let mut e = envelope();
    e.beacon_block_root = root(52);
    assert_eq!(
        consistency(&e, true, &state(), &roots()),
        Err(EnvelopeError::LatestBlockHeaderMismatch {
            envelope_root: root(52),
            block_header_root: block_root()
        })
    );
    let mut r = roots();
    r.blob_kzg_commitments = root(3);
    assert_eq!(
        consistency(&envelope(), true, &state(), &r),
        Err(EnvelopeError::BlobKzgCommitmentsRootMismatch {
            committed_bid: bid().blob_kzg_commitments_root,
            envelope: root(3)
        })
    );
    let mut r = roots();
    r.withdrawals = root(3);
    assert_eq!(
        consistency(&envelope(), false, &state(), &r),
        Err(EnvelopeError::WithdrawalsRootMismatch {
            state: roots().withdrawals,
            envelope: root(3)
        })
    );
    // Withdrawals of a withheld payload are not looked at.
    assert_eq!(consistency(&envelope(), true, &state(), &r), Ok(()));
}

#[test]
fn payload_has_to_match_bid_and_state() {
    let mut e = envelope();
    e.payload.gas_limit = 29;
    assert_eq!(
        consistency(&e, false, &state(), &roots()),
        Err(EnvelopeError::GasLimitMismatch { committed_bid: 30, envelope: 29 })
    );
    assert_eq!(consistency(&e, true, &state(), &roots()), Ok(()));

    let mut e = envelope();
    e.payload.block_hash = root(6);
    assert_eq!(
        consistency(&e, false, &state(), &roots()),
        Err(EnvelopeError::BlockHashMismatch { committed_bid: root(5), envelope: root(6) })
    );

    let mut e = envelope();
    e.payload.parent_hash = root(6);
    assert_eq!(
        consistency(&e, false, &state(), &roots()),
        Err(EnvelopeError::ParentHashMismatch { state: root(4), envelope: root(6) })
    );

    let mut e = envelope();
    e.payload.prev_randao = root(6);
    assert_eq!(
        consistency(&e, false, &state(), &roots()),
        Err(EnvelopeError::PrevRandaoMismatch { state: root(8), envelope: root(6) })
    );

    let mut e = envelope();
    e.payload.timestamp = 1_121;
    assert_eq!(
        consistency(&e, false, &state(), &roots()),
        Err(EnvelopeError::TimestampMismatch { state: 1_120, envelope: 1_121 })
    );

    let mut e = envelope();
    e.blob_kzg_commitments = vec![FixedBytes([17; 48]); 4_097];
    assert_eq!(
        consistency(&e, false, &state(), &roots()),
        Err(EnvelopeError::BlobLimitExceeded { max: 4_096, envelope: 4_097 })
    );

    assert_eq!(
        consistency(&envelope(), false, &base_state(), &roots()),
        Err(EnvelopeError::BeaconStateError(BeaconStateError::IncorrectStateVariant))
    );
}

#[test]
fn timestamp_of_a_slot() {
    assert_eq!(compute_timestamp_at_slot(&state(), Slot(10), &spec()), Ok(1_120));
    let mut late = spec();
    late.genesis_slot = 11;
    assert_eq!(
        compute_timestamp_at_slot(&state(), Slot(10), &late),
        Err(ArithError::Overflow)
    );
    let mut long = spec();
    long.seconds_per_slot = u64::MAX;
    assert_eq!(
        compute_timestamp_at_slot(&state(), Slot(2), &long),
        Err(ArithError::Overflow)
    );
}

#[test]
fn roots_are_those_of_envelope_and_state() {
    let e = envelope();
    let e = ExecutionPayloadEnvelopeRef::Gloas(&e);
    let r = EnvelopeRoots::new::<MainnetEthSpec>(&e, &state(), root(30));
    assert_eq!(r, roots());
    // A header that holds a state root keeps it.
    let mut s = state();
    s.latest_block_header.state_root = root(31);
    let r = EnvelopeRoots::new::<MainnetEthSpec>(&e, &s, root(30));
    assert_eq!(r.block_header, s.latest_block_header.tree_hash_root());
    assert_ne!(r.block_header, block_root());
}

#[test]
fn headers_are_completed_once() {
    assert_eq!(complete_header(&state().latest_block_header, root(30)), header());
    assert_eq!(complete_header(&header(), root(31)), header());
}

fn make_pending(
    mut services: Chain,
    envelope: ExecutionPayloadEnvelopeGloas,
    withheld: bool,
) -> Result<ExecutionPendingEnvelope<Chain>, EnvelopeError> {
    services.withheld = withheld;
    let chain = Arc::new(BeaconChain { spec: spec(), services });
    Arc::new(signed(envelope)).into_execution_pending_envelope(&chain, NotifyExecutionLayer::Yes)
}

fn pending_of(
    r: Result<ExecutionPendingEnvelope<Chain>, EnvelopeError>,
) -> ExecutionPendingEnvelope<Chain> {
    match r {
        Ok(pending) => pending,
        Err(e) => panic!("{:?}", e),
    }
}

#[test]
fn an_envelope_for_the_block_becomes_pending() {
    let pending = pending_of(make_pending(good_chain(), envelope(), false));
    assert_eq!(
        pending.signed_envelope,
        MaybeAvailableEnvelope::AvailabilityPending {
            block_root: block_root(),
            envelope: Arc::new(signed(envelope())),
        }
    );
    assert_eq!(pending.import_data.block_root, block_root());
    assert_eq!(*pending.import_data.parent_block, block());
    assert_eq!(pending.import_data.post_state.latest_block_hash(), Ok(root(5)));
    assert_eq!(pending.import_data.post_state.balances, vec![0, 10, 20]);
    assert_eq!(
        pending.payload_verification_handle,
        (NotifyExecutionLayer::Yes, block_root(), Slot(10))
    );

    // The same from the gossip-verified envelope.
    let chain = Arc::new(BeaconChain { spec: spec(), services: good_chain() });
    let verified = gossip(good_chain(), envelope(), false).unwrap();
    let pending =
        pending_of(verified.into_execution_pending_envelope(&chain, NotifyExecutionLayer::No));
    assert_eq!(
        pending.payload_verification_handle,
        (NotifyExecutionLayer::No, block_root(), Slot(10))
    );

    // The same where the header holds its state root already.
    let mut services = good_chain();
    let mut s = state();
    s.latest_block_header = header();
    services.state = Ok(Some(s));
    let pending = pending_of(make_pending(services, envelope(), false));
    assert_eq!(pending.import_data.block_root, block_root());
}

#[test]
fn a_withheld_payload_becomes_pending_unlooked_at() {
    let mut e = envelope();
    e.payload = ExecutionPayloadGloas::default();
    let pending = pending_of(make_pending(good_chain(), e, true));
    assert_eq!(pending.import_data.post_state.latest_block_hash(), Ok(Hash256::zero()));
}

#[test]
fn an_envelope_for_another_block_never_becomes_pending() {
    let mut services = good_chain();
    let mut s = state();
    s.latest_block_header.body_root = root(3);
    let other = BeaconBlockHeader { body_root: root(3), ..header() };
    services.state = Ok(Some(s));
    assert_eq!(
        error_of(make_pending(services, envelope(), false)),
        Some(EnvelopeError::LatestBlockHeaderMismatch {
            envelope_root: block_root(),
            block_header_root: other.tree_hash_root(),
        })
    );
}

#[test]
fn a_pending_envelope_has_passed_every_check() {
    let mut e = envelope();
    e.payload.gas_limit = 29;
    assert_eq!(
        error_of(make_pending(good_chain(), e, false)),
        Some(EnvelopeError::GasLimitMismatch { committed_bid: 30, envelope: 29 })
    );
    let mut e = envelope();
    e.blob_kzg_commitments = vec![FixedBytes([18; 48])];
    assert_eq!(
        error_of(make_pending(good_chain(), e.clone(), false)),
        Some(EnvelopeError::BlobKzgCommitmentsRootMismatch {
            committed_bid: bid().blob_kzg_commitments_root,
            envelope: hash_commitments::<MainnetEthSpec>(&e.blob_kzg_commitments),
        })
    );
    let mut services = good_chain();
    services.notifier_fails = true;
    assert_eq!(
        error_of(make_pending(services, envelope(), false)),
        Some(EnvelopeError::BeaconChainError(BeaconChainError::ExecutionLayerMissing))
    );
    let mut e = envelope();
    e.state_root = root(20);
    assert_eq!(
        error_of(make_pending(good_chain(), e, false)),
        Some(EnvelopeError::InvalidStateRoot { state: root(19), envelope: root(20) })
    );
}

#[test]
fn gossip_errors_come_before_the_rest() {
    let mut services = good_chain();
    services.known = false;
    let chain = Arc::new(BeaconChain { spec: spec(), services });
    let r = Arc::new(signed(envelope()))
        .into_execution_pending_envelope(&chain, NotifyExecutionLayer::Yes);
    assert!(matches!(r, Err(EnvelopeError::BlockRootUnknown { .. })));
}

#[test]
fn processing_applies_requests_and_records_the_block_hash() {
    let mut s = state();
    let r = envelope_processing(&mut s, &signed(envelope()), VerifySignatures::True, &good_chain());
    assert_eq!(r, Ok(()));
    assert_eq!(s.latest_block_hash(), Ok(root(5)));
    assert_eq!(s.latest_block_header.state_root, root(19));
    assert_eq!(s.balances, vec![0, 10, 20]);
}

#[test]
fn processing_keeps_a_state_root_that_is_there() {
    let mut s = state();
    s.latest_block_header.state_root = root(77);
    let r =
        envelope_processing(&mut s, &signed(envelope()), VerifySignatures::False, &good_chain());
    assert_eq!(r, Ok(()));
    assert_eq!(s.latest_block_header.state_root, root(77));

    let mut s = state();
    cache_header_state_root(&mut s, root(1));
    cache_header_state_root(&mut s, root(2));
    assert_eq!(s.latest_block_header.state_root, root(1));
}

#[test]
fn processing_looks_at_the_signature_only_if_asked() {
    let mut chain = good_chain();
    chain.signature = Ok(false);
    let mut s = state();
    let r = envelope_processing(&mut s, &signed(envelope()), VerifySignatures::True, &chain);
    assert_eq!(r, Err(EnvelopeProcessingError::BadSignature));
    assert_eq!(s, state());
    let r = envelope_processing(&mut s, &signed(envelope()), VerifySignatures::False, &chain);
    assert_eq!(r, Ok(()));
}

#[test]
fn processing_stops_at_the_first_failure() {
    let overflow = BlockProcessingError::ArithError(ArithError::Overflow);
    let mut chain = good_chain();
    chain.root = Err(BeaconStateError::InsufficientValidators);
    let mut s = state();
    assert_eq!(
        envelope_processing(&mut s, &signed(envelope()), VerifySignatures::False, &chain),
        Err(EnvelopeProcessingError::BeaconStateError(BeaconStateError::InsufficientValidators))
    );
    assert_eq!(s, state());

    let mut chain = good_chain();
    chain.deposits_fail = true;
    let mut s = state();
    assert_eq!(
        envelope_processing(&mut s, &signed(envelope()), VerifySignatures::False, &chain),
        Err(EnvelopeProcessingError::BlockProcessingError(overflow))
    );
    // What a failing rule has changed stays.
    assert_eq!(s.balances, vec![0]);
    assert_eq!(s.latest_block_header.state_root, root(19));

    let mut chain = good_chain();
    chain.withdrawals_fail = true;
    let mut s = state();
    assert_eq!(
        envelope_processing(&mut s, &signed(envelope()), VerifySignatures::False, &chain),
        Err(EnvelopeProcessingError::BlockProcessingError(overflow))
    );
    assert_eq!(s.balances, vec![0, 10]);

    let mut chain = good_chain();
    chain.consolidations_fail = true;
    let mut s = state();
    assert_eq!(
        envelope_processing(&mut s, &signed(envelope()), VerifySignatures::False, &chain),
        Err(EnvelopeProcessingError::BlockProcessingError(overflow))
    );
    assert_eq!(s.balances, vec![0, 10, 20]);

    let mut s = base_state();
    assert_eq!(
        envelope_processing(&mut s, &signed(envelope()), VerifySignatures::False, &good_chain()),
        Err(EnvelopeProcessingError::BeaconStateError(BeaconStateError::IncorrectStateVariant))
    );
}

#[test]
fn processing_errors_are_envelope_errors() {
    assert_eq!(
        EnvelopeError::from(EnvelopeProcessingError::BadSignature),
        EnvelopeError::BadSignature
    );
    assert_eq!(
        EnvelopeError::from(EnvelopeProcessingError::from(BeaconStateError::SlotOutOfBounds)),
        EnvelopeError::BeaconStateError(BeaconStateError::SlotOutOfBounds)
    );
    let e = BlockProcessingError::PendingAttestationInElectra;
    assert_eq!(
        EnvelopeError::from(EnvelopeProcessingError::from(e)),
        EnvelopeError::BlockProcessingError(e)
    );
    assert_eq!(
        EnvelopeError::from(ArithError::Overflow),
        EnvelopeError::ArithError(ArithError::Overflow)
    );
}

fn import_data() -> EnvelopeImportData {
    EnvelopeImportData {
        block_root: block_root(),
        parent_block: Arc::new(block()),
        post_state: Box::new(state()),
    }
}

#[test]
fn executed_envelopes_know_their_blobs() {
    let outcome = PayloadVerificationOutcome::for_envelope(PayloadVerificationStatus::Verified);
    assert!(!outcome.is_valid_merge_transition_block);
    let envelope = Arc::new(signed(envelope()));
    let available = AvailableExecutedEnvelope::new(
        AvailableEnvelope { block_root: block_root(), envelope: envelope.clone() },
        import_data(),
        outcome,
    );
    assert_eq!(
        available.get_all_blob_ids(),
        vec![
            BlobIdentifier { block_root: block_root(), index: 0 },
            BlobIdentifier { block_root: block_root(), index: 1 },
        ]
    );
    let pending =
        AvailabilityPendingExecutedEnvelope::new(envelope.clone(), import_data(), outcome);
    assert_eq!(pending.num_blobs_expected(), 2);
    assert_eq!(*pending.as_envelope(), *envelope);
}

#[test]
fn executed_envelopes_follow_availability() {
    let outcome = PayloadVerificationOutcome::for_envelope(PayloadVerificationStatus::Optimistic);
    let envelope = Arc::new(signed(envelope()));
    let available = ExecutedEnvelope::new(
        MaybeAvailableEnvelope::Available(AvailableEnvelope {
            block_root: block_root(),
            envelope: envelope.clone(),
        }),
        import_data(),
        outcome,
    );
    assert!(matches!(available, ExecutedEnvelope::Available(_)));
    assert_eq!(available.block_root(), block_root());
    assert_eq!(*available.as_envelope(), *envelope);
    let pending = ExecutedEnvelope::new(
        MaybeAvailableEnvelope::AvailabilityPending {
            block_root: root(99),
            envelope: envelope.clone(),
        },
        import_data(),
        outcome,
    );
    assert!(matches!(pending, ExecutedEnvelope::AvailabilityPending(_)));
    assert_eq!(pending.block_root(), block_root());
    assert_eq!(*pending.as_envelope(), *envelope);
}

fn execute(services: Chain) -> Result<ExecutionPendingEnvelope<Chain>, EnvelopeError> {
    let verified = gossip(good_chain(), envelope(), false).unwrap();
    let chain = Arc::new(BeaconChain { spec: spec(), services });
    verified.into_execution_pending_envelope(&chain, NotifyExecutionLayer::Yes)
}

fn error_of(r: Result<ExecutionPendingEnvelope<Chain>, EnvelopeError>) -> Option<EnvelopeError> {
    r.err()
}

#[test]
fn execution_fails_without_its_services() {
    let mut chain = good_chain();
    chain.notifier_fails = true;
    assert_eq!(
        error_of(execute(chain)),
        Some(EnvelopeError::BeaconChainError(BeaconChainError::ExecutionLayerMissing))
    );
    let mut chain = good_chain();
    chain.shutting_down = true;
    assert_eq!(
        error_of(execute(chain)),
        Some(EnvelopeError::BeaconChainError(BeaconChainError::RuntimeShutdown))
    );
    let mut chain = good_chain();
    chain.withdrawals_fail = true;
    assert_eq!(
        error_of(execute(chain)),
        Some(EnvelopeError::BlockProcessingError(BlockProcessingError::ArithError(
            ArithError::Overflow
        )))
    );
    let mut chain = good_chain();
    chain.root = Err(BeaconStateError::InsufficientValidators);
    assert_eq!(
        error_of(execute(chain)),
        Some(EnvelopeError::BeaconStateError(BeaconStateError::InsufficientValidators))
    );
}

#[test]
fn the_state_root_has_to_be_the_one_that_was_named() {
    let mut chain = good_chain();
    chain.root = Ok(root(20));
    assert_eq!(
        error_of(execute(chain)),
        Some(EnvelopeError::InvalidStateRoot { state: root(20), envelope: root(19) })
    );
}

#[test]
fn a_clock_before_genesis_overflows() {
    let mut late = spec();
    late.genesis_slot = 11;
    let e = envelope();
    assert_eq!(
        verify_consistency::<MainnetEthSpec>(
            &ExecutionPayloadEnvelopeRef::Gloas(&e),
            false,
            &state(),
            &roots(),
            &late,
        ),
        Err(EnvelopeError::ArithError(ArithError::Overflow))
    );
}
