//! The checks that an envelope passes before its payload is imported.
//!
//! An envelope that arrives on the network is first checked against the block that it belongs to
//! ([`GossipVerifiedEnvelope`]); it may then be passed on. Next it is checked against the state
//! of that block and applied to it, while the execution layer looks at its payload
//! ([`ExecutionPendingEnvelope`]).

use crate::arith::{fits_u64, safe_add, safe_mul, safe_sub, ArithError};
use crate::beacon_state::{BeaconState, ExecutionBid, StateModel};
use crate::envelope_processing::{
    complete_header, completed_header, envelope_processed, envelope_processing, EnvelopeRules,
    EnvelopeRun,
};
use crate::envelope_verification_types::{
    EnvelopeImportData, MaybeAvailableEnvelope, SignedBlindedBeaconBlock,
};
use crate::errors::{BeaconChainError, BeaconStateError, EnvelopeError, EnvelopeProcessingError};
use crate::eth_spec::{ChainSpec, EthSpec, MAX_LIST_LIMIT};
use crate::execution_payload_envelope::{
    ExecutionPayloadEnvelopeRef, SignedExecutionPayloadEnvelope,
};
use crate::merkle::{commitments_root, hash_commitments, list_root, TreeHash};
use crate::primitives::{Hash256, Slot};
use crate::process_attestations::VerifySignatures;
use std::sync::Arc;
use vstd::prelude::*;

verus! {

/// Whether the execution layer is to be told of a payload.
#[derive(Clone, Copy, Debug, PartialEq, Eq)]
pub enum NotifyExecutionLayer {
    Yes,
    No,
}

/// What a chain can be asked: what it has seen and stored, and to have a payload verified.
pub trait BeaconChainTypes: EnvelopeRules {
    type EthSpec: EthSpec;

    /// What hands a payload to the execution layer.
    type PayloadNotifier;

    /// What the result of the verification of a payload can be awaited from.
    type PayloadVerificationHandle;

    /// Whether fork choice knows the block.
    fn contains_block(&self, block_root: &Hash256) -> bool;

    /// The block, if it is stored.
    fn get_blinded_block(&self, block_root: &Hash256) -> Result<
        Option<SignedBlindedBeaconBlock>,
        BeaconChainError,
    >;

    /// The state, if it is stored.
    fn get_state(&self, state_root: &Hash256, slot: Option<Slot>) -> Result<
        Option<BeaconState>,
        BeaconChainError,
    >;

    /// A notifier for the payload of an envelope.
    fn payload_notifier(
        &self,
        signed_envelope: &SignedExecutionPayloadEnvelope,
        notify_execution_layer: NotifyExecutionLayer,
    ) -> Result<Self::PayloadNotifier, EnvelopeError>;

    /// Starts the verification of a payload, unless the node is shutting down.
    fn spawn_payload_verification(
        &self,
        payload_notifier: Self::PayloadNotifier,
        block_root: Hash256,
        slot: Slot,
    ) -> Option<Self::PayloadVerificationHandle>;
}

/// A chain and its settings.
pub struct BeaconChain<T: BeaconChainTypes> {
    pub spec: ChainSpec,
    pub services: T,
}

/// A wrapper around a `SignedExecutionPayloadEnvelope` that indicates it has been approved for
/// re-gossiping on the p2p network.
#[derive(Clone, Debug, PartialEq, Eq)]
pub struct GossipVerifiedEnvelope {
    pub signed_envelope: Arc<SignedExecutionPayloadEnvelope>,
    pub parent_block: Arc<SignedBlindedBeaconBlock>,
    pub pre_state: Box<BeaconState>,
}

/// What the chain answered while an envelope was checked for gossip.
pub struct GossipRun {
    pub known: bool,
    pub block: Result<Option<SignedBlindedBeaconBlock>, BeaconChainError>,
    pub payload_withheld: bool,
    pub state: Result<Option<BeaconState>, BeaconChainError>,
    pub signature: Result<bool, BeaconStateError>,
}

/// Whether the envelope is one for the bid: it comes from the same builder, and if its payload
/// is withheld, it does not name the block hash of the bid.
pub open spec fn bid_check(
    envelope: ExecutionPayloadEnvelopeRef<'_>,
    payload_withheld: bool,
    execution_bid: ExecutionBid,
) -> Result<(), EnvelopeError> {
    if envelope.spec_builder_index() != execution_bid.builder_index {
        Err(
            EnvelopeError::BuilderIndexMismatch {
                committed_bid: execution_bid.builder_index,
                envelope: envelope.spec_builder_index(),
            },
        )
    } else if payload_withheld && envelope.spec_payload().block_hash == execution_bid.block_hash {
        Err(EnvelopeError::PayloadWithheldBlockHashMismatch)
    } else {
        Ok(())
    }
}

/// Checks the envelope against the bid that its block commits to.
pub fn verify_bid(
    envelope: &ExecutionPayloadEnvelopeRef<'_>,
    payload_withheld: bool,
    execution_bid: &ExecutionBid,
) -> (r: Result<(), EnvelopeError>)
    ensures
        r == bid_check(*envelope, payload_withheld, *execution_bid),
{
    // builder index matches committed bid
    if envelope.builder_index() != execution_bid.builder_index {
        return Err(
            EnvelopeError::BuilderIndexMismatch {
                committed_bid: execution_bid.builder_index,
                envelope: envelope.builder_index(),
            },
        );
    }
    // if payload is withheld, the block hash should not match the committed bid

    if payload_withheld && envelope.payload().inner().block_hash == execution_bid.block_hash {
        return Err(EnvelopeError::PayloadWithheldBlockHashMismatch);
    }
    Ok(())
}

/// Whether `r` is the result of the gossip checks, given the chain's answers in `run`: the block
/// is known, stored and commits to a bid; the envelope is one for that bid; the state of the
/// block is stored; the signature is good. The first check that fails gives the error.
pub open spec fn gossip_checked<T: BeaconChainTypes>(
    chain: BeaconChain<T>,
    signed_envelope: SignedExecutionPayloadEnvelope,
    r: Result<GossipVerifiedEnvelope, EnvelopeError>,
    run: GossipRun,
) -> bool {
    let envelope = signed_envelope.spec_message();
    let block_root = envelope.spec_beacon_block_root();
    &&& call_ensures(T::contains_block, (&chain.services, &block_root), run.known)
    &&& if !run.known {
        r == Err::<GossipVerifiedEnvelope, EnvelopeError>(
            EnvelopeError::BlockRootUnknown { block_root },
        )
    } else {
        &&& call_ensures(T::get_blinded_block, (&chain.services, &block_root), run.block)
        &&& match run.block {
            Err(e) => r == Err::<GossipVerifiedEnvelope, EnvelopeError>(
                EnvelopeError::BeaconChainError(e),
            ),
            Ok(None) => r == Err::<GossipVerifiedEnvelope, EnvelopeError>(
                EnvelopeError::BeaconChainError(BeaconChainError::MissingBeaconBlock(block_root)),
            ),
            Ok(Some(parent_block)) => match parent_block.spec_signed_execution_bid() {
                Err(e) => r == Err::<GossipVerifiedEnvelope, EnvelopeError>(
                    EnvelopeError::BeaconStateError(e),
                ),
                Ok(bid) => {
                    &&& call_ensures(
                        T::payload_withheld,
                        (&chain.services, &signed_envelope),
                        run.payload_withheld,
                    )
                    &&& match bid_check(envelope, run.payload_withheld, bid.message) {
                        Err(e) => r == Err::<GossipVerifiedEnvelope, EnvelopeError>(e),
                        Ok(()) => gossip_state_checked(
                            chain,
                            signed_envelope,
                            parent_block,
                            r,
                            run,
                        ),
                    }
                },
            },
        }
    }
}

/// The gossip checks that follow those on the block.
pub open spec fn gossip_state_checked<T: BeaconChainTypes>(
    chain: BeaconChain<T>,
    signed_envelope: SignedExecutionPayloadEnvelope,
    parent_block: SignedBlindedBeaconBlock,
    r: Result<GossipVerifiedEnvelope, EnvelopeError>,
    run: GossipRun,
) -> bool {
    &&& call_ensures(
        T::get_state,
        (&chain.services, &parent_block.state_root, Some(parent_block.slot)),
        run.state,
    )
    &&& match run.state {
        Err(e) => r == Err::<GossipVerifiedEnvelope, EnvelopeError>(
            EnvelopeError::BeaconChainError(e),
        ),
        Ok(None) => r == Err::<GossipVerifiedEnvelope, EnvelopeError>(
            EnvelopeError::BeaconChainError(
                BeaconChainError::MissingBeaconState(parent_block.state_root),
            ),
        ),
        Ok(Some(parent_state)) => {
            &&& call_ensures(
                T::verify_signature,
                (&chain.services, &parent_state, &signed_envelope),
                run.signature,
            )
            &&& match run.signature {
                Err(e) => r == Err::<GossipVerifiedEnvelope, EnvelopeError>(
                    EnvelopeError::BeaconStateError(e),
                ),
                Ok(false) => r == Err::<GossipVerifiedEnvelope, EnvelopeError>(
                    EnvelopeError::BadSignature,
                ),
                Ok(true) => r matches Ok(verified) && *verified.signed_envelope == signed_envelope
                    && *verified.parent_block == parent_block && *verified.pre_state
                    == parent_state,
            }
        },
    }
}

impl GossipVerifiedEnvelope {
    /// Checks an envelope that has arrived on the network.
    pub fn new<T: BeaconChainTypes>(
        signed_envelope: Arc<SignedExecutionPayloadEnvelope>,
        chain: &BeaconChain<T>,
    ) -> (r: Result<Self, EnvelopeError>)
        ensures
            exists|run: GossipRun| #[trigger]
                gossip_checked(*chain, *signed_envelope, r, run),
    {
        let ghost mut run: GossipRun = arbitrary();
        let ghost signed = signed_envelope;
        let envelope = signed_envelope.message();
        let block_root = envelope.beacon_block_root();

        // check that we've seen the parent block of this envelope
        let known = chain.services.contains_block(&block_root);
        proof {
            run.known = known;
        }
        if !known {
            let r = Err(EnvelopeError::BlockRootUnknown { block_root });
            assert(gossip_checked(*chain, *signed, r, run));
            return r;
        }
        let block_reply = chain.services.get_blinded_block(&block_root);
        proof {
            run.block = block_reply;
        }
        let parent_block = match block_reply {
            Ok(Some(block)) => block,
            Ok(None) => {
                let r = Err(
                    EnvelopeError::BeaconChainError(
                        BeaconChainError::MissingBeaconBlock(block_root),
                    ),
                );
                assert(gossip_checked(*chain, *signed, r, run));
                return r;
            },
            Err(e) => {
                let r = Err(EnvelopeError::BeaconChainError(e));
                assert(gossip_checked(*chain, *signed, r, run));
                return r;
            },
        };
        let execution_bid = match parent_block.signed_execution_bid() {
            Ok(bid) => bid.message,
            Err(e) => {
                let r = Err(EnvelopeError::BeaconStateError(e));
                assert(gossip_checked(*chain, *signed, r, run));
                return r;
            },
        };

        let payload_withheld = chain.services.payload_withheld(&signed_envelope);
        proof {
            run.payload_withheld = payload_withheld;
        }
        match verify_bid(&envelope, payload_withheld, &execution_bid) {
            Ok(()) => {},
            Err(e) => {
                let r = Err(e);
                assert(gossip_checked(*chain, *signed, r, run));
                return r;
            },
        }

        let state_reply = chain.services.get_state(
            &parent_block.state_root,
            Some(parent_block.slot),
        );
        proof {
            run.state = state_reply;
        }
        let parent_state = match state_reply {
            Ok(Some(state)) => state,
            Ok(None) => {
                let r = Err(
                    EnvelopeError::BeaconChainError(
                        BeaconChainError::MissingBeaconState(parent_block.state_root),
                    ),
                );
                assert(gossip_checked(*chain, *signed, r, run));
                return r;
            },
            Err(e) => {
                let r = Err(EnvelopeError::BeaconChainError(e));
                assert(gossip_checked(*chain, *signed, r, run));
                return r;
            },
        };

        // verify the signature
        let signature_reply = chain.services.verify_signature(&parent_state, &signed_envelope);
        proof {
            run.signature = signature_reply;
        }
        let r = match signature_reply {
            Ok(true) => Ok(
                Self {
                    signed_envelope,
                    parent_block: Arc::new(parent_block),
                    pre_state: Box::new(parent_state),
                },
            ),
            Ok(false) => Err(EnvelopeError::BadSignature),
            Err(e) => Err(EnvelopeError::BeaconStateError(e)),
        };
        assert(gossip_checked(*chain, *signed, r, run));
        r
    }

    /// The envelope itself.
    pub fn envelope_cloned(&self) -> (r: Arc<SignedExecutionPayloadEnvelope>)
        ensures
            r == self.signed_envelope,
    {
        self.signed_envelope.clone()
    }
}

/// The time at which a slot starts, in seconds.
pub open spec fn timestamp_at_slot(genesis_time: u64, slot: Slot, spec: ChainSpec) -> Result<
    u64,
    ArithError,
> {
    match fits_u64(slot.0 - spec.genesis_slot) {
        Err(e) => Err(e),
        Ok(slots) => match fits_u64(slots * spec.seconds_per_slot) {
            Err(e) => Err(e),
            Ok(seconds) => fits_u64(genesis_time + seconds),
        },
    }
}

/// The time at which a slot starts, in seconds.
pub fn compute_timestamp_at_slot(state: &BeaconState, slot: Slot, spec: &ChainSpec) -> (r: Result<
    u64,
    ArithError,
>)
    ensures
        r == timestamp_at_slot(state@.genesis_time, slot, *spec),
{
    match safe_sub(slot.0, spec.genesis_slot) {
        Err(e) => Err(e),
        Ok(slots) => match safe_mul(slots, spec.seconds_per_slot) {
            Err(e) => Err(e),
            Ok(seconds) => safe_add(state.genesis_time, seconds),
        },
    }
}

/// The roots that an envelope is checked by.
#[derive(Clone, Copy, Debug, PartialEq, Eq)]
pub struct EnvelopeRoots {
    /// The root of the latest block header of the state, which is that of the block itself.
    ///
    /// In the state straight after a block the header holds no state root yet: it is cached there
    /// only when the envelope is applied. The header that is hashed here has the state root of the
    /// block in that place. A header that holds a state root is hashed as it is.
    pub block_header: Hash256,
    /// The root of the envelope's blob commitments.
    pub blob_kzg_commitments: Hash256,
    /// The root of the payload's withdrawals.
    pub withdrawals: Hash256,
}

impl EnvelopeRoots {
    /// Whether the lists of an envelope that are hashed are short enough for it.
    pub open spec fn exist_for(envelope: ExecutionPayloadEnvelopeRef<'_>) -> bool {
        &&& envelope.spec_blob_kzg_commitments()@.len() <= MAX_LIST_LIMIT
        &&& envelope.spec_payload().withdrawals@.len() <= MAX_LIST_LIMIT
    }

    /// Whether these are the roots for an envelope and a state, where the block that led to the
    /// state names `block_state_root`.
    pub open spec fn are_for<E: EthSpec>(
        self,
        envelope: ExecutionPayloadEnvelopeRef<'_>,
        state: StateModel,
        block_state_root: Hash256,
    ) -> bool {
        &&& self.block_header.bytes() == completed_header(
            state.latest_block_header,
            block_state_root,
        ).root()
        &&& self.blob_kzg_commitments.bytes() == commitments_root::<E>(
            envelope.spec_blob_kzg_commitments()@,
        )
        &&& self.withdrawals.bytes() == list_root(
            envelope.spec_payload().withdrawals@,
            E::spec_max_withdrawals_per_payload(),
        )
    }

    /// The roots for an envelope and a state, where the block that led to the state names
    /// `block_state_root`.
    pub fn new<E: EthSpec>(
        envelope: &ExecutionPayloadEnvelopeRef<'_>,
        state: &BeaconState,
        block_state_root: Hash256,
    ) -> (r: Self)
        requires
            EnvelopeRoots::exist_for(*envelope),
        ensures
            r.are_for::<E>(*envelope, state@, block_state_root),
    {
        let header = complete_header(&state.latest_block_header, block_state_root);
        EnvelopeRoots {
            block_header: header.tree_hash_root(),
            blob_kzg_commitments: hash_commitments::<E>(envelope.blob_kzg_commitments()),
            withdrawals: envelope.payload().inner().withdrawals_root::<E>(),
        }
    }
}

/// Whether a payload that was not withheld is the one that the state waits for: it agrees with
/// the committed bid, with the previous payload and with the clock.
pub open spec fn payload_check<E: EthSpec>(
    envelope: ExecutionPayloadEnvelopeRef<'_>,
    state: StateModel,
    committed_bid: ExecutionBid,
    withdrawals_root: Hash256,
    spec: ChainSpec,
) -> Result<(), EnvelopeError> {
    let payload = envelope.spec_payload();
    let epoch = state.slot.spec_epoch(E::spec_slots_per_epoch());
    match state.latest_withdrawals_root() {
        Err(e) => Err(EnvelopeError::BeaconStateError(e)),
        Ok(expected) => if withdrawals_root != expected {
            Err(
                EnvelopeError::WithdrawalsRootMismatch {
                    state: expected,
                    envelope: withdrawals_root,
                },
            )
        } else if payload.gas_limit != committed_bid.gas_limit {
            Err(
                EnvelopeError::GasLimitMismatch {
                    committed_bid: committed_bid.gas_limit,
                    envelope: payload.gas_limit,
                },
            )
        } else if committed_bid.block_hash != payload.block_hash {
            Err(
                EnvelopeError::BlockHashMismatch {
                    committed_bid: committed_bid.block_hash,
                    envelope: payload.block_hash,
                },
            )
        } else {
            match state.latest_block_hash() {
                Err(e) => Err(EnvelopeError::BeaconStateError(e)),
                Ok(latest_block_hash) => if payload.parent_hash != latest_block_hash {
                    Err(
                        EnvelopeError::ParentHashMismatch {
                            state: latest_block_hash,
                            envelope: payload.parent_hash,
                        },
                    )
                } else {
                    match state.randao_mix(epoch, E::spec_slots_per_epoch()) {
                        Err(e) => Err(EnvelopeError::BeaconStateError(e)),
                        Ok(randao_mix) => if payload.prev_randao != randao_mix {
                            Err(
                                EnvelopeError::PrevRandaoMismatch {
                                    state: randao_mix,
                                    envelope: payload.prev_randao,
                                },
                            )
                        } else {
                            match timestamp_at_slot(state.genesis_time, state.slot, spec) {
                                Err(e) => Err(EnvelopeError::ArithError(e)),
                                Ok(timestamp) => if payload.timestamp != timestamp {
                                    Err(
                                        EnvelopeError::TimestampMismatch {
                                            state: timestamp,
                                            envelope: payload.timestamp,
                                        },
                                    )
                                } else if envelope.spec_blob_kzg_commitments()@.len()
                                    > E::spec_max_blob_commitments_per_block() {
                                    Err(
                                        EnvelopeError::BlobLimitExceeded {
                                            max: E::spec_max_blob_commitments_per_block(),
                                            envelope: envelope.spec_blob_kzg_commitments()@.len()
                                                as usize,
                                        },
                                    )
                                } else {
                                    Ok(())
                                },
                            }
                        },
                    }
                },
            }
        },
    }
}

/// Whether an envelope agrees with the state of its block: it is for the block that the latest
/// header of the state is of, it has the commitments of the committed bid, and its payload, unless
/// it was withheld, is the one that the state waits for.
pub open spec fn consistency_check<E: EthSpec>(
    envelope: ExecutionPayloadEnvelopeRef<'_>,
    payload_withheld: bool,
    state: StateModel,
    roots: EnvelopeRoots,
    spec: ChainSpec,
) -> Result<(), EnvelopeError> {
    if envelope.spec_beacon_block_root() != roots.block_header {
        Err(
            EnvelopeError::LatestBlockHeaderMismatch {
                envelope_root: envelope.spec_beacon_block_root(),
                block_header_root: roots.block_header,
            },
        )
    } else {
        match state.latest_execution_bid() {
            Err(e) => Err(EnvelopeError::BeaconStateError(e)),
            Ok(committed_bid) => if committed_bid.blob_kzg_commitments_root
                != roots.blob_kzg_commitments {
                Err(
                    EnvelopeError::BlobKzgCommitmentsRootMismatch {
                        committed_bid: committed_bid.blob_kzg_commitments_root,
                        envelope: roots.blob_kzg_commitments,
                    },
                )
            } else if payload_withheld {
                Ok(())
            } else {
                payload_check::<E>(envelope, state, committed_bid, roots.withdrawals, spec)
            },
        }
    }
}

/// Checks an envelope against the state of its block, given the roots of both. The block that the
/// envelope names has to be the one whose header is the latest of the state.
pub fn verify_consistency<E: EthSpec>(
    envelope: &ExecutionPayloadEnvelopeRef<'_>,
    payload_withheld: bool,
    state: &BeaconState,
    roots: &EnvelopeRoots,
    spec: &ChainSpec,
) -> (r: Result<(), EnvelopeError>)
    requires
        E::spec_slots_per_epoch() > 0,
    ensures
        r == consistency_check::<E>(*envelope, payload_withheld, state@, *roots, *spec),
{
    let payload = envelope.payload();
    let payload = payload.inner();

    // Verify consistency with the beacon block
    if envelope.beacon_block_root() != roots.block_header {
        return Err(
            EnvelopeError::LatestBlockHeaderMismatch {
                envelope_root: envelope.beacon_block_root(),
                block_header_root: roots.block_header,
            },
        );
    }
    // Verify consistency with the committed bid

    let committed_bid = match state.latest_execution_bid() {
        Ok(bid) => bid,
        Err(e) => {
            return Err(EnvelopeError::BeaconStateError(e));
        },
    };
    // builder index match already verified
    if committed_bid.blob_kzg_commitments_root != roots.blob_kzg_commitments {
        return Err(
            EnvelopeError::BlobKzgCommitmentsRootMismatch {
                committed_bid: committed_bid.blob_kzg_commitments_root,
                envelope: roots.blob_kzg_commitments,
            },
        );
    }
    if payload_withheld {
        return Ok(());
    }
    // Verify the withdrawals root

    let latest_withdrawals_root = match state.latest_withdrawals_root() {
        Ok(root) => root,
        Err(e) => {
            return Err(EnvelopeError::BeaconStateError(e));
        },
    };
    if roots.withdrawals != latest_withdrawals_root {
        return Err(
            EnvelopeError::WithdrawalsRootMismatch {
                state: latest_withdrawals_root,
                envelope: roots.withdrawals,
            },
        );
    }
    // Verify the gas limit

    if payload.gas_limit != committed_bid.gas_limit {
        return Err(
            EnvelopeError::GasLimitMismatch {
                committed_bid: committed_bid.gas_limit,
                envelope: payload.gas_limit,
            },
        );
    }
    // Verify the block hash

    if committed_bid.block_hash != payload.block_hash {
        return Err(
            EnvelopeError::BlockHashMismatch {
                committed_bid: committed_bid.block_hash,
                envelope: payload.block_hash,
            },
        );
    }
    // Verify consistency of the parent hash with respect to the previous execution payload

    let latest_block_hash = match state.latest_block_hash() {
        Ok(hash) => hash,
        Err(e) => {
            return Err(EnvelopeError::BeaconStateError(e));
        },
    };
    if payload.parent_hash != latest_block_hash {
        return Err(
            EnvelopeError::ParentHashMismatch {
                state: latest_block_hash,
                envelope: payload.parent_hash,
            },
        );
    }
    // Verify prev_randao

    let slots_per_epoch: u64 = E::slots_per_epoch();
    let randao_mix = match state.get_randao_mix(
        state.current_epoch(slots_per_epoch),
        slots_per_epoch,
    ) {
        Ok(mix) => mix,
        Err(e) => {
            return Err(EnvelopeError::BeaconStateError(e));
        },
    };
    if payload.prev_randao != randao_mix {
        return Err(
            EnvelopeError::PrevRandaoMismatch { state: randao_mix, envelope: payload.prev_randao },
        );
    }
    // Verify the timestamp

    let state_timestamp: u64 = match compute_timestamp_at_slot(state, state.slot, spec) {
        Ok(timestamp) => timestamp,
        Err(e) => {
            return Err(EnvelopeError::ArithError(e));
        },
    };
    if payload.timestamp != state_timestamp {
        return Err(
            EnvelopeError::TimestampMismatch {
                state: state_timestamp,
                envelope: payload.timestamp,
            },
        );
    }
    // Verify the commitments are under limit

    let max: usize = E::max_blob_commitments_per_block();
    let commitments: usize = envelope.blob_kzg_commitments().len();
    if commitments > max {
        return Err(EnvelopeError::BlobLimitExceeded { max, envelope: commitments });
    }
    Ok(())
}

/// An envelope whose payload is being verified by the execution layer.
pub struct ExecutionPendingEnvelope<T: BeaconChainTypes> {
    pub signed_envelope: MaybeAvailableEnvelope,
    pub import_data: EnvelopeImportData,
    pub payload_verification_handle: T::PayloadVerificationHandle,
}

/// What the chain answered while an envelope was applied to the state of its block.
pub struct PendingRun<T: BeaconChainTypes> {
    pub roots: EnvelopeRoots,
    pub payload_withheld: bool,
    pub notifier: Result<T::PayloadNotifier, EnvelopeError>,
    pub handle: Option<T::PayloadVerificationHandle>,
    pub processing: EnvelopeRun,
    pub processed: Result<(), EnvelopeProcessingError>,
    pub post_state: BeaconState,
    pub post_state_root: Result<Hash256, BeaconStateError>,
}

/// Whether `r` is what becomes of an envelope that has passed the gossip checks, given the
/// chain's answers in `run`: it has to agree with the state of its block; its payload is handed
/// to the execution layer; it is applied to that state; the state that results has to have the
/// root that the envelope names.
pub open spec fn made_pending<T: BeaconChainTypes>(
    chain: BeaconChain<T>,
    verified: GossipVerifiedEnvelope,
    notify_execution_layer: NotifyExecutionLayer,
    r: Result<ExecutionPendingEnvelope<T>, EnvelopeError>,
    run: PendingRun<T>,
) -> bool {
    let signed_envelope = *verified.signed_envelope;
    let envelope = signed_envelope.spec_message();
    &&& run.roots.are_for::<T::EthSpec>(
        envelope,
        verified.pre_state@,
        verified.parent_block.state_root,
    )
    &&& call_ensures(
        T::payload_withheld,
        (&chain.services, &signed_envelope),
        run.payload_withheld,
    )
    &&& match consistency_check::<T::EthSpec>(
        envelope,
        run.payload_withheld,
        verified.pre_state@,
        run.roots,
        chain.spec,
    ) {
        Err(e) => r == Err::<ExecutionPendingEnvelope<T>, EnvelopeError>(e),
        Ok(()) => executed(chain, verified, notify_execution_layer, r, run),
    }
}

/// Whether `r` is what becomes of an envelope that agrees with the state of its block, given the
/// chain's answers in `run`.
pub open spec fn executed<T: BeaconChainTypes>(
    chain: BeaconChain<T>,
    verified: GossipVerifiedEnvelope,
    notify_execution_layer: NotifyExecutionLayer,
    r: Result<ExecutionPendingEnvelope<T>, EnvelopeError>,
    run: PendingRun<T>,
) -> bool {
    let signed_envelope = *verified.signed_envelope;
    let envelope = signed_envelope.spec_message();
    &&& call_ensures(
        T::payload_notifier,
        (&chain.services, &signed_envelope, notify_execution_layer),
        run.notifier,
    )
    &&& match run.notifier {
        Err(e) => r == Err::<ExecutionPendingEnvelope<T>, EnvelopeError>(e),
        Ok(notifier) => {
            &&& call_ensures(
                T::spawn_payload_verification,
                (
                    &chain.services,
                    notifier,
                    envelope.spec_beacon_block_root(),
                    verified.parent_block.slot,
                ),
                run.handle,
            )
            &&& match run.handle {
                None => r == Err::<ExecutionPendingEnvelope<T>, EnvelopeError>(
                    EnvelopeError::BeaconChainError(BeaconChainError::RuntimeShutdown),
                ),
                Some(handle) => made_pending_with(chain, verified, handle, r, run),
            }
        },
    }
}

/// The error of a check whose envelope could not be applied.
pub open spec fn processing_failure(e: EnvelopeProcessingError) -> EnvelopeError {
    match e {
        EnvelopeProcessingError::BadSignature => EnvelopeError::BadSignature,
        EnvelopeProcessingError::BeaconStateError(e) => EnvelopeError::BeaconStateError(e),
        EnvelopeProcessingError::BlockProcessingError(e) => EnvelopeError::BlockProcessingError(e),
    }
}

/// The steps that follow the start of the payload verification.
pub open spec fn made_pending_with<T: BeaconChainTypes>(
    chain: BeaconChain<T>,
    verified: GossipVerifiedEnvelope,
    handle: T::PayloadVerificationHandle,
    r: Result<ExecutionPendingEnvelope<T>, EnvelopeError>,
    run: PendingRun<T>,
) -> bool {
    let envelope = verified.signed_envelope.spec_message();
    let block_root = envelope.spec_beacon_block_root();
    &&& envelope_processed(
        chain.services,
        *verified.pre_state,
        *verified.signed_envelope,
        VerifySignatures::False,
        run.post_state,
        run.processed,
        run.processing,
    )
    &&& match run.processed {
        Err(e) => r == Err::<ExecutionPendingEnvelope<T>, EnvelopeError>(
            processing_failure(e),
        ),
        Ok(()) => {
            &&& call_ensures(
                T::canonical_root,
                (&chain.services, &run.post_state),
                run.post_state_root,
            )
            &&& match run.post_state_root {
                Err(e) => r == Err::<ExecutionPendingEnvelope<T>, EnvelopeError>(
                    EnvelopeError::BeaconStateError(e),
                ),
                Ok(state_root) => if state_root != envelope.spec_state_root() {
                    r == Err::<ExecutionPendingEnvelope<T>, EnvelopeError>(
                        EnvelopeError::InvalidStateRoot {
                            state: state_root,
                            envelope: envelope.spec_state_root(),
                        },
                    )
                } else {
                    r matches Ok(pending) && {
                        &&& pending.signed_envelope
                            == MaybeAvailableEnvelope::AvailabilityPending {
                            block_root,
                            envelope: verified.signed_envelope,
                        }
                        &&& pending.import_data.block_root == block_root
                        &&& pending.import_data.parent_block == verified.parent_block
                        &&& *pending.import_data.post_state == run.post_state
                        &&& pending.payload_verification_handle == handle
                    }
                },
            }
        },
    }
}

impl GossipVerifiedEnvelope {
    /// Has the payload of an envelope that agrees with the state of its block verified, and applies
    /// the envelope to that state.
    fn execute<T: BeaconChainTypes>(
        self,
        chain: &Arc<BeaconChain<T>>,
        notify_execution_layer: NotifyExecutionLayer,
    ) -> (r: Result<ExecutionPendingEnvelope<T>, EnvelopeError>)
        ensures
            exists|run: PendingRun<T>| #[trigger]
                executed(**chain, self, notify_execution_layer, r, run),
    {
        let ghost verified = self;
        let ghost mut run: PendingRun<T> = arbitrary();
        let signed_envelope = self.signed_envelope;
        let envelope = signed_envelope.message();

        // verify signature already done
        let mut state = *self.pre_state;

        // Verify the execution payload is valid
        let notifier_reply = chain.services.payload_notifier(
            &signed_envelope,
            notify_execution_layer,
        );
        proof {
            run.notifier = notifier_reply;
        }
        let payload_notifier = match notifier_reply {
            Ok(notifier) => notifier,
            Err(e) => {
                let r = Err(e);
                assert(executed(**chain, verified, notify_execution_layer, r, run));
                return r;
            },
        };
        let block_root = envelope.beacon_block_root();
        let slot = self.parent_block.slot;

        // Start the verification of the payload, but don't wait for it to complete. It will be
        // awaited later to ensure that it completed successfully.
        let handle_reply = chain.services.spawn_payload_verification(
            payload_notifier,
            block_root,
            slot,
        );
        proof {
            run.handle = handle_reply;
        }
        let payload_verification_handle = match handle_reply {
            Some(handle) => handle,
            None => {
                let r = Err(EnvelopeError::BeaconChainError(BeaconChainError::RuntimeShutdown));
                assert(executed(**chain, verified, notify_execution_layer, r, run));
                return r;
            },
        };

        // All the state modifications are done in envelope_processing
        let processed = envelope_processing(
            &mut state,
            &signed_envelope,
            VerifySignatures::False,
            &chain.services,
        );
        proof {
            run.processing = choose|processing: EnvelopeRun| #[trigger]
                envelope_processed(
                    chain.services,
                    *verified.pre_state,
                    *verified.signed_envelope,
                    VerifySignatures::False,
                    state,
                    processed,
                    processing,
                );
            run.processed = processed;
            run.post_state = state;
        }
        match processed {
            Ok(()) => {},
            Err(e) => {
                let r = Err(EnvelopeError::from(e));
                assert(executed(**chain, verified, notify_execution_layer, r, run));
                return r;
            },
        }

        let root_reply = chain.services.canonical_root(&state);
        proof {
            run.post_state_root = root_reply;
        }
        let state_root = match root_reply {
            Ok(root) => root,
            Err(e) => {
                let r = Err(EnvelopeError::BeaconStateError(e));
                assert(executed(**chain, verified, notify_execution_layer, r, run));
                return r;
            },
        };
        if state_root != envelope.state_root() {
            let r = Err(
                EnvelopeError::InvalidStateRoot {
                    state: state_root,
                    envelope: envelope.state_root(),
                },
            );
            assert(executed(**chain, verified, notify_execution_layer, r, run));
            return r;
        }
        let r = Ok(
            ExecutionPendingEnvelope {
                signed_envelope: MaybeAvailableEnvelope::AvailabilityPending {
                    block_root,
                    envelope: signed_envelope,
                },
                import_data: EnvelopeImportData {
                    block_root,
                    parent_block: self.parent_block,
                    post_state: Box::new(state),
                },
                payload_verification_handle,
            },
        );
        assert(executed(**chain, verified, notify_execution_layer, r, run));
        r
    }
}

/// What can be made into an [`ExecutionPendingEnvelope`].
pub trait IntoExecutionPendingEnvelope<T: BeaconChainTypes>: Sized {
    /// Whether the lists of the envelope that are hashed are short enough for it.
    spec fn hashable(self) -> bool;

    /// Whether `r` is a result that the conversion may have.
    spec fn may_become(
        self,
        chain: BeaconChain<T>,
        notify_execution_layer: NotifyExecutionLayer,
        r: Result<ExecutionPendingEnvelope<T>, EnvelopeError>,
    ) -> bool;

    /// Checks the envelope, applies it to the state of its block and has its payload verified.
    fn into_execution_pending_envelope(
        self,
        chain: &Arc<BeaconChain<T>>,
        notify_execution_layer: NotifyExecutionLayer,
    ) -> (r: Result<ExecutionPendingEnvelope<T>, EnvelopeError>)
        requires
            self.hashable(),
            <T::EthSpec as EthSpec>::spec_slots_per_epoch() > 0,
        ensures
            self.may_become(**chain, notify_execution_layer, r),
    ;
}

impl<T: BeaconChainTypes> IntoExecutionPendingEnvelope<T> for GossipVerifiedEnvelope {
    open spec fn hashable(self) -> bool {
        EnvelopeRoots::exist_for(self.signed_envelope.spec_message())
    }

    open spec fn may_become(
        self,
        chain: BeaconChain<T>,
        notify_execution_layer: NotifyExecutionLayer,
        r: Result<ExecutionPendingEnvelope<T>, EnvelopeError>,
    ) -> bool {
        exists|run: PendingRun<T>| #[trigger]
            made_pending(chain, self, notify_execution_layer, r, run)
    }

    fn into_execution_pending_envelope(
        self,
        chain: &Arc<BeaconChain<T>>,
        notify_execution_layer: NotifyExecutionLayer,
    ) -> (r: Result<ExecutionPendingEnvelope<T>, EnvelopeError>) {
        let ghost verified = self;
        let envelope = self.signed_envelope.message();
        let roots = EnvelopeRoots::new::<T::EthSpec>(
            &envelope,
            &self.pre_state,
            self.parent_block.state_root,
        );
        let payload_withheld = chain.services.payload_withheld(&self.signed_envelope);
        match verify_consistency::<T::EthSpec>(
            &envelope,
            payload_withheld,
            &self.pre_state,
            &roots,
            &chain.spec,
        ) {
            Ok(()) => {
                let r = self.execute(chain, notify_execution_layer);
                proof {
                    let answered = choose|run: PendingRun<T>| #[trigger]
                        executed(**chain, verified, notify_execution_layer, r, run);
                    let run = PendingRun { roots, payload_withheld, ..answered };
                    assert(executed(**chain, verified, notify_execution_layer, r, run));
                    assert(made_pending(
                        **chain,
                        verified,
                        notify_execution_layer,
                        r,
                        run,
                    ));
                }
                r
            },
            Err(e) => {
                let r = Err(e);
                proof {
                    let run = PendingRun { roots, payload_withheld, ..arbitrary() };
                    assert(made_pending(
                        **chain,
                        verified,
                        notify_execution_layer,
                        r,
                        run,
                    ));
                }
                r
            },
        }
    }
}

/// Whether `r` is what becomes of an envelope that has passed no check yet: the gossip checks give
/// `checked`, and an envelope that passes them is made pending.
pub open spec fn checked_and_made_pending<T: BeaconChainTypes>(
    chain: BeaconChain<T>,
    signed_envelope: SignedExecutionPayloadEnvelope,
    notify_execution_layer: NotifyExecutionLayer,
    r: Result<ExecutionPendingEnvelope<T>, EnvelopeError>,
    checked: Result<GossipVerifiedEnvelope, EnvelopeError>,
    gossip: GossipRun,
    run: PendingRun<T>,
) -> bool {
    &&& gossip_checked(chain, signed_envelope, checked, gossip)
    &&& match checked {
        Err(e) => r == Err::<ExecutionPendingEnvelope<T>, EnvelopeError>(e),
        Ok(verified) => made_pending(
            chain,
            verified,
            notify_execution_layer,
            r,
            run,
        ),
    }
}

impl<T: BeaconChainTypes> IntoExecutionPendingEnvelope<T> for Arc<SignedExecutionPayloadEnvelope> {
    open spec fn hashable(self) -> bool {
        EnvelopeRoots::exist_for(self.spec_message())
    }

    open spec fn may_become(
        self,
        chain: BeaconChain<T>,
        notify_execution_layer: NotifyExecutionLayer,
        r: Result<ExecutionPendingEnvelope<T>, EnvelopeError>,
    ) -> bool {
        exists|
            checked: Result<GossipVerifiedEnvelope, EnvelopeError>,
            gossip: GossipRun,
            run: PendingRun<T>,
        | #[trigger]
            checked_and_made_pending(
                chain,
                *self,
                notify_execution_layer,
                r,
                checked,
                gossip,
                run,
            )
    }

    fn into_execution_pending_envelope(
        self,
        chain: &Arc<BeaconChain<T>>,
        notify_execution_layer: NotifyExecutionLayer,
    ) -> (r: Result<ExecutionPendingEnvelope<T>, EnvelopeError>) {
        let ghost signed_envelope = self;
        let checked = GossipVerifiedEnvelope::new(self, chain);
        let ghost reply = checked;
        let ghost gossip = choose|gossip: GossipRun| #[trigger]
            gossip_checked(**chain, *signed_envelope, checked, gossip);
        let ghost mut run: PendingRun<T> = arbitrary();
        let r = match checked {
            Err(e) => Err(e),
            Ok(verified) => {
                let ghost before = verified;
                let r = verified.into_execution_pending_envelope(
                    chain,
                    notify_execution_layer,
                );
                proof {
                    run = choose|run: PendingRun<T>| #[trigger]
                        made_pending(
                            **chain,
                            before,
                            notify_execution_layer,
                            r,
                            run,
                        );
                }
                r
            },
        };
        assert(checked_and_made_pending(
            **chain,
            *signed_envelope,
            notify_execution_layer,
            r,
            reply,
            gossip,
            run,
        ));
        r
    }
}

/// An envelope that passes the gossip checks comes from the builder of the bid that its block
/// commits to, names the block hash of that bid only if its payload was not withheld, and is kept
/// as it came.
pub proof fn lemma_gossip_verified_envelope_matches_bid<T: BeaconChainTypes>(
    chain: BeaconChain<T>,
    signed_envelope: SignedExecutionPayloadEnvelope,
    verified: GossipVerifiedEnvelope,
    run: GossipRun,
)
    requires
        gossip_checked(chain, signed_envelope, Ok(verified), run),
    ensures
        *verified.signed_envelope == signed_envelope,
        verified.parent_block.signed_execution_bid matches Some(bid) && {
            let envelope = signed_envelope.spec_message();
            &&& envelope.spec_builder_index() == bid.message.builder_index
            &&& run.payload_withheld ==> envelope.spec_payload().block_hash
                != bid.message.block_hash
        },
{
}

/// An envelope that becomes pending agrees with the state of its block: it names the block of the
/// latest header, and agrees with the committed bid and, unless the payload was withheld, with the
/// previous payload, the RANDAO mix and the clock. The state that it leads to has the root that it
/// names, and names the payload's block as the latest.
pub proof fn lemma_pending_envelope_agrees_with_state<T: BeaconChainTypes>(
    chain: BeaconChain<T>,
    verified: GossipVerifiedEnvelope,
    notify_execution_layer: NotifyExecutionLayer,
    pending: ExecutionPendingEnvelope<T>,
    run: PendingRun<T>,
)
    requires
        made_pending(
            chain,
            verified,
            notify_execution_layer,
            Ok(pending),
            run,
        ),
    ensures
        ({
            let envelope = verified.signed_envelope.spec_message();
            let payload = envelope.spec_payload();
            let pre = verified.pre_state@;
            let slots_per_epoch = <T::EthSpec as EthSpec>::spec_slots_per_epoch();
            &&& envelope.spec_beacon_block_root() == run.roots.block_header
            &&& envelope.spec_beacon_block_root().bytes() == completed_header(
                pre.latest_block_header,
                verified.parent_block.state_root,
            ).root()
            &&& pre.latest_execution_bid() matches Ok(bid) && {
                &&& bid.blob_kzg_commitments_root == run.roots.blob_kzg_commitments
                &&& !run.payload_withheld ==> {
                    &&& payload.gas_limit == bid.gas_limit
                    &&& payload.block_hash == bid.block_hash
                    &&& pre.latest_withdrawals_root() == Ok::<Hash256, BeaconStateError>(
                        run.roots.withdrawals,
                    )
                    &&& pre.latest_block_hash() == Ok::<Hash256, BeaconStateError>(
                        payload.parent_hash,
                    )
                    &&& pre.randao_mix(pre.slot.spec_epoch(slots_per_epoch), slots_per_epoch)
                        == Ok::<Hash256, BeaconStateError>(payload.prev_randao)
                    &&& timestamp_at_slot(pre.genesis_time, pre.slot, chain.spec) == Ok::<
                        u64,
                        ArithError,
                    >(payload.timestamp)
                    &&& envelope.spec_blob_kzg_commitments()@.len()
                        <= <T::EthSpec as EthSpec>::spec_max_blob_commitments_per_block()
                }
            }
            &&& run.post_state_root == Ok::<Hash256, BeaconStateError>(envelope.spec_state_root())
            &&& pending.import_data.post_state@.latest_block_hash() == Ok::<
                Hash256,
                BeaconStateError,
            >(payload.block_hash)
        }),
{
}

/// The payload of an envelope whose payload was withheld is not looked at: any other envelope for
/// the same block, with the same roots, passes the same checks.
pub proof fn lemma_withheld_payload_is_not_checked<E: EthSpec>(
    a: ExecutionPayloadEnvelopeRef<'_>,
    b: ExecutionPayloadEnvelopeRef<'_>,
    state: StateModel,
    roots: EnvelopeRoots,
    spec: ChainSpec,
)
    requires
        a.spec_beacon_block_root() == b.spec_beacon_block_root(),
    ensures
        consistency_check::<E>(a, true, state, roots, spec) == consistency_check::<E>(
            b,
            true,
            state,
            roots,
            spec,
        ),
{
}

} // verus!
