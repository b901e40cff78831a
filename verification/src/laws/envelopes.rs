//! Which envelopes are accepted, and what becomes of them.

use crate::arith::ArithError;
use crate::beacon_state::{
    BeaconBlockHeader, BeaconState, ForkModel, SignedExecutionBid, StateModel,
};
use crate::envelope_processing::{envelope_processed, EnvelopeRules, EnvelopeRun};
use crate::envelope_verification::{
    checked_and_made_pending, consistency_check, gossip_checked, made_pending, timestamp_at_slot,
    BeaconChain, BeaconChainTypes, EnvelopeRoots, ExecutionPendingEnvelope, GossipRun,
    GossipVerifiedEnvelope, NotifyExecutionLayer, PendingRun,
};
use crate::envelope_verification_types::{
    AvailabilityPendingExecutedEnvelope, AvailableEnvelope, AvailableExecutedEnvelope,
    BlobIdentifier, EnvelopeImportData, ExecutedEnvelope, MaybeAvailableEnvelope,
    PayloadVerificationOutcome, PayloadVerificationStatus,
};
use crate::errors::{
    BeaconChainError, BeaconStateError, BlockProcessingError, EnvelopeError,
    EnvelopeProcessingError,
};
use crate::eth_spec::{ChainSpec, EthSpec};
use crate::execution_payload_envelope::{
    ExecutionPayloadEnvelope, ExecutionPayloadEnvelopeGloas, ExecutionPayloadEnvelopeRef,
    ExecutionPayloadGloas, SignedExecutionPayloadEnvelope,
};
use crate::merkle::{list_root, merkle_root_of, TreeHash};
use crate::primitives::{FixedBytes, ForkName, Hash256, Signature, Slot};
use crate::process_attestations::VerifySignatures;
use std::sync::Arc;
use vstd::prelude::*;
use vstd::std_specs::convert::FromSpec;

verus! {

/// What a borrowed envelope holds, whichever fork it is of.
pub open spec fn contents(
    envelope: ExecutionPayloadEnvelopeRef<'_>,
) -> ExecutionPayloadEnvelopeGloas {
    match envelope {
        ExecutionPayloadEnvelopeRef::Gloas(envelope) => *envelope,
        ExecutionPayloadEnvelopeRef::NextFork(envelope) => ExecutionPayloadEnvelopeGloas {
            payload: envelope.payload,
            execution_requests: envelope.execution_requests,
            builder_index: envelope.builder_index,
            beacon_block_root: envelope.beacon_block_root,
            slot: envelope.slot,
            blob_kzg_commitments: envelope.blob_kzg_commitments,
            state_root: envelope.state_root,
        },
    }
}

/// What a signed envelope holds, whichever fork it is of.
pub open spec fn signed_contents(
    signed_envelope: SignedExecutionPayloadEnvelope,
) -> ExecutionPayloadEnvelopeGloas {
    match signed_envelope {
        SignedExecutionPayloadEnvelope::Gloas(signed) => signed.message,
        SignedExecutionPayloadEnvelope::NextFork(signed) => contents(
            ExecutionPayloadEnvelopeRef::NextFork(&signed.message),
        ),
    }
}

/// Whether the mix that the payload names is the one of the state's current epoch.
pub open spec fn names_the_current_mix(
    envelope: ExecutionPayloadEnvelopeGloas,
    state: StateModel,
    slots_per_epoch: u64,
) -> bool {
    let epoch = state.slot.0 / slots_per_epoch;
    &&& state.randao_mixes.len() > 0
    &&& epoch < u64::MAX
    &&& envelope.payload.prev_randao == state.randao_mixes[epoch as int
        % state.randao_mixes.len() as int]
}

/// Whether the time that the payload names is that of the state's slot.
pub open spec fn names_the_slot_time(
    envelope: ExecutionPayloadEnvelopeGloas,
    state: StateModel,
    spec: ChainSpec,
) -> bool {
    &&& spec.genesis_slot <= state.slot.0
    &&& envelope.payload.timestamp == state.genesis_time + (state.slot.0 - spec.genesis_slot)
        * spec.seconds_per_slot
}

/// An envelope passes the check exactly when it belongs to the block of the state's latest header,
/// has the commitments of the bid and, unless its payload was withheld, has the withdrawals that
/// the state expects, the gas limit and the block hash of the bid, the state's latest block as
/// parent, the entry of the list of RANDAO mixes for the current epoch, the time of the slot, and
/// no more commitments than allowed.
pub proof fn lemma_envelope_passes_when_it_agrees<E: EthSpec>(
    envelope: ExecutionPayloadEnvelopeRef<'_>,
    payload_withheld: bool,
    state: StateModel,
    roots: EnvelopeRoots,
    spec: ChainSpec,
)
    requires
        E::spec_slots_per_epoch() > 0,
        state.slot.0 / E::spec_slots_per_epoch() <= usize::MAX,
        state.randao_mixes.len() <= usize::MAX,
    ensures
        ({
            let held = contents(envelope);
            consistency_check::<E>(envelope, payload_withheld, state, roots, spec) == Ok::<
                (),
                EnvelopeError,
            >(()) <==> held.beacon_block_root == roots.block_header && match state.fork {
                ForkModel::Gloas {
                    latest_block_hash,
                    latest_execution_bid,
                    latest_withdrawals_root,
                    ..
                } => {
                    &&& latest_execution_bid.blob_kzg_commitments_root == roots.blob_kzg_commitments
                    &&& payload_withheld || {
                        &&& roots.withdrawals == latest_withdrawals_root
                        &&& held.payload.gas_limit == latest_execution_bid.gas_limit
                        &&& held.payload.block_hash == latest_execution_bid.block_hash
                        &&& held.payload.parent_hash == latest_block_hash
                        &&& names_the_current_mix(held, state, E::spec_slots_per_epoch())
                        &&& names_the_slot_time(held, state, spec)
                        &&& held.blob_kzg_commitments@.len()
                            <= E::spec_max_blob_commitments_per_block()
                    }
                },
                _ => false,
            }
        }),
{
    lemma_slot_time(state, spec);
}

proof fn lemma_slot_time(state: StateModel, spec: ChainSpec)
    ensures
        spec.genesis_slot <= state.slot.0 ==> (state.slot.0 - spec.genesis_slot)
            * spec.seconds_per_slot >= 0,
{
    if spec.genesis_slot <= state.slot.0 {
        assert((state.slot.0 - spec.genesis_slot) * spec.seconds_per_slot >= 0) by (nonlinear_arith)
            requires
                state.slot.0 - spec.genesis_slot >= 0,
        ;
    }
}

/// An envelope that is refused is told why: the error names the first thing in which the envelope
/// differs from the block, the bid, the state or the clock, with both values.
pub proof fn lemma_refused_envelope_is_told_why<E: EthSpec>(
    envelope: ExecutionPayloadEnvelopeRef<'_>,
    payload_withheld: bool,
    state: StateModel,
    roots: EnvelopeRoots,
    spec: ChainSpec,
    error: EnvelopeError,
)
    requires
        E::spec_slots_per_epoch() > 0,
        state.slot.0 / E::spec_slots_per_epoch() <= usize::MAX,
        state.randao_mixes.len() <= usize::MAX,
        consistency_check::<E>(envelope, payload_withheld, state, roots, spec) == Err::<
            (),
            EnvelopeError,
        >(error),
    ensures
        ({
            let held = contents(envelope);
            let payload = held.payload;
            let slots_per_epoch = E::spec_slots_per_epoch();
            let max = E::spec_max_blob_commitments_per_block();
            if held.beacon_block_root != roots.block_header {
                error == EnvelopeError::LatestBlockHeaderMismatch {
                    envelope_root: held.beacon_block_root,
                    block_header_root: roots.block_header,
                }
            } else {
                match state.fork {
                    ForkModel::Gloas {
                        latest_block_hash: latest,
                        latest_execution_bid: bid,
                        latest_withdrawals_root: withdrawals,
                        ..
                    } => if bid.blob_kzg_commitments_root != roots.blob_kzg_commitments {
                        error == EnvelopeError::BlobKzgCommitmentsRootMismatch {
                            committed_bid: bid.blob_kzg_commitments_root,
                            envelope: roots.blob_kzg_commitments,
                        }
                    } else if roots.withdrawals != withdrawals {
                        error == EnvelopeError::WithdrawalsRootMismatch {
                            state: withdrawals,
                            envelope: roots.withdrawals,
                        }
                    } else if payload.gas_limit != bid.gas_limit {
                        error == EnvelopeError::GasLimitMismatch {
                            committed_bid: bid.gas_limit,
                            envelope: payload.gas_limit,
                        }
                    } else if payload.block_hash != bid.block_hash {
                        error == EnvelopeError::BlockHashMismatch {
                            committed_bid: bid.block_hash,
                            envelope: payload.block_hash,
                        }
                    } else if payload.parent_hash != latest {
                        error == EnvelopeError::ParentHashMismatch {
                            state: latest,
                            envelope: payload.parent_hash,
                        }
                    } else if !names_the_current_mix(held, state, slots_per_epoch) {
                        ||| error == EnvelopeError::PrevRandaoMismatch {
                            state: state.randao_mixes[(state.slot.0 / slots_per_epoch) as int
                                % state.randao_mixes.len() as int],
                            envelope: payload.prev_randao,
                        }
                        ||| error == EnvelopeError::BeaconStateError(
                            BeaconStateError::EpochOutOfBounds,
                        ) && (state.randao_mixes.len() == 0 || state.slot.0 / slots_per_epoch
                            == u64::MAX)
                    } else if !names_the_slot_time(held, state, spec) {
                        ||| error matches EnvelopeError::TimestampMismatch {
                            state: time,
                            envelope: named,
                        } && named == payload.timestamp && spec.genesis_slot <= state.slot.0
                            && time == state.genesis_time + (state.slot.0 - spec.genesis_slot)
                            * spec.seconds_per_slot
                        ||| error == EnvelopeError::ArithError(ArithError::Overflow) && (
                        spec.genesis_slot > state.slot.0 || state.genesis_time + (state.slot.0
                            - spec.genesis_slot) * spec.seconds_per_slot > u64::MAX)
                    } else {
                        held.blob_kzg_commitments@.len() > max && error
                            == EnvelopeError::BlobLimitExceeded {
                            max,
                            envelope: held.blob_kzg_commitments@.len() as usize,
                        }
                    },
                    _ => error == EnvelopeError::BeaconStateError(
                        BeaconStateError::IncorrectStateVariant,
                    ),
                }
            }
        }),
{
    lemma_slot_time(state, spec);
}

/// An envelope passes the gossip checks exactly when fork choice knows its block, the block is
/// stored and commits to a bid of the envelope's builder, a withheld payload does not name the
/// block hash of the bid, the state of the block is stored and the signature is good. The chain is
/// asked for the block by the root that the envelope names, and for the state by the root and the
/// slot of that block.
pub proof fn lemma_envelope_passes_gossip_when_its_block_agrees<T: BeaconChainTypes>(
    chain: BeaconChain<T>,
    signed_envelope: SignedExecutionPayloadEnvelope,
    r: Result<GossipVerifiedEnvelope, EnvelopeError>,
    run: GossipRun,
)
    requires
        gossip_checked(chain, signed_envelope, r, run),
    ensures
        ({
            let held = signed_contents(signed_envelope);
            let root = held.beacon_block_root;
            &&& call_ensures(T::contains_block, (&chain.services, &root), run.known)
            &&& run.known ==> call_ensures(
                T::get_blinded_block,
                (&chain.services, &root),
                run.block,
            )
            &&& match (run.known, run.block) {
                (true, Ok(Some(block))) => match block.signed_execution_bid {
                    Some(bid) => {
                        let for_bid = held.builder_index == bid.message.builder_index && !(
                        run.payload_withheld && held.payload.block_hash == bid.message.block_hash);
                        &&& call_ensures(
                            T::payload_withheld,
                            (&chain.services, &signed_envelope),
                            run.payload_withheld,
                        )
                        &&& for_bid ==> call_ensures(
                            T::get_state,
                            (&chain.services, &block.state_root, Some(block.slot)),
                            run.state,
                        )
                        &&& match run.state {
                            Ok(Some(state)) => {
                                &&& for_bid ==> call_ensures(
                                    T::verify_signature,
                                    (&chain.services, &state, &signed_envelope),
                                    run.signature,
                                )
                                &&& match r {
                                    Ok(verified) => for_bid && run.signature == Ok::<
                                        bool,
                                        BeaconStateError,
                                    >(true) && *verified.signed_envelope == signed_envelope
                                        && *verified.parent_block == block && *verified.pre_state
                                        == state,
                                    Err(_) => !for_bid || run.signature != Ok::<
                                        bool,
                                        BeaconStateError,
                                    >(true),
                                }
                            },
                            _ => r is Err,
                        }
                    },
                    None => r is Err,
                },
                _ => r is Err,
            }
        }),
{
}

/// An envelope that fails the gossip checks is told why.
pub proof fn lemma_gossip_refusal_is_explained<T: BeaconChainTypes>(
    chain: BeaconChain<T>,
    signed_envelope: SignedExecutionPayloadEnvelope,
    error: EnvelopeError,
    run: GossipRun,
)
    requires
        gossip_checked(chain, signed_envelope, Err(error), run),
    ensures
        ({
            let held = signed_contents(signed_envelope);
            let block_root = held.beacon_block_root;
            if !run.known {
                error == EnvelopeError::BlockRootUnknown { block_root }
            } else {
                match run.block {
                    Err(e) => error == EnvelopeError::BeaconChainError(e),
                    Ok(None) => error == EnvelopeError::BeaconChainError(
                        BeaconChainError::MissingBeaconBlock(block_root),
                    ),
                    Ok(Some(block)) => match block.signed_execution_bid {
                        None => error == EnvelopeError::BeaconStateError(
                            BeaconStateError::IncorrectStateVariant,
                        ),
                        Some(bid) => if held.builder_index != bid.message.builder_index {
                            error == EnvelopeError::BuilderIndexMismatch {
                                committed_bid: bid.message.builder_index,
                                envelope: held.builder_index,
                            }
                        } else if run.payload_withheld && held.payload.block_hash
                            == bid.message.block_hash {
                            error == EnvelopeError::PayloadWithheldBlockHashMismatch
                        } else {
                            match run.state {
                                Err(e) => error == EnvelopeError::BeaconChainError(e),
                                Ok(None) => error == EnvelopeError::BeaconChainError(
                                    BeaconChainError::MissingBeaconState(block.state_root),
                                ),
                                Ok(Some(_)) => match run.signature {
                                    Err(e) => error == EnvelopeError::BeaconStateError(e),
                                    Ok(good) => !good && error == EnvelopeError::BadSignature,
                                },
                            }
                        },
                    },
                }
            }
        }),
{
}

/// An envelope is applied in this order: its state's latest header is given the root of the state,
/// unless it has one; then the deposits, the withdrawals and the consolidations that the envelope
/// requests are processed, each on what the one before left; then the payload's block becomes the
/// latest. Nothing else changes. If all succeed, so does the whole.
pub proof fn lemma_envelope_is_applied_in_order<T: EnvelopeRules>(
    rules: T,
    pre: BeaconState,
    signed_envelope: SignedExecutionPayloadEnvelope,
    verify_signatures: VerifySignatures,
    post: BeaconState,
    r: Result<(), EnvelopeProcessingError>,
    run: EnvelopeRun,
)
    requires
        envelope_processed(rules, pre, signed_envelope, verify_signatures, post, r, run),
        verify_signatures == VerifySignatures::True ==> run.signature == Ok::<
            bool,
            BeaconStateError,
        >(true),
    ensures
        ({
            let held = signed_contents(signed_envelope);
            let requests = held.execution_requests;
            &&& verify_signatures == VerifySignatures::True ==> call_ensures(
                T::verify_signature,
                (&rules, &pre, &signed_envelope),
                run.signature,
            )
            &&& call_ensures(T::canonical_root, (&rules, &pre), run.previous_state_root)
            &&& match run.previous_state_root {
                Err(e) => r == Err::<(), EnvelopeProcessingError>(
                    EnvelopeProcessingError::BeaconStateError(e),
                ) && post == pre,
                Ok(root) => {
                    let headed = BeaconState {
                        latest_block_header: BeaconBlockHeader {
                            state_root: if pre.latest_block_header.state_root.bytes()
                                =~= Seq::new(32, |i: int| 0u8) {
                                root
                            } else {
                                pre.latest_block_header.state_root
                            },
                            ..pre.latest_block_header
                        },
                        ..pre
                    };
                    let deposited = run.deposited.0;
                    let withdrawn = run.withdrawn.0;
                    let consolidated = run.consolidated.0;
                    &&& call_ensures(
                        T::process_deposit_requests,
                        (&rules, &headed, &requests.deposits),
                        run.deposited,
                    )
                    &&& run.deposited.1 is Ok ==> call_ensures(
                        T::process_withdrawal_requests,
                        (&rules, &deposited, &requests.withdrawals),
                        run.withdrawn,
                    )
                    &&& run.deposited.1 is Ok && run.withdrawn.1 is Ok ==> call_ensures(
                        T::process_consolidation_requests,
                        (&rules, &withdrawn, &requests.consolidations),
                        run.consolidated,
                    )
                    &&& match (run.deposited.1, run.withdrawn.1, run.consolidated.1) {
                        (Err(e), _, _) => r == Err::<(), EnvelopeProcessingError>(
                            EnvelopeProcessingError::BlockProcessingError(e),
                        ) && post == deposited,
                        (Ok(_), Err(e), _) => r == Err::<(), EnvelopeProcessingError>(
                            EnvelopeProcessingError::BlockProcessingError(e),
                        ) && post == withdrawn,
                        (Ok(_), Ok(_), Err(e)) => r == Err::<(), EnvelopeProcessingError>(
                            EnvelopeProcessingError::BlockProcessingError(e),
                        ) && post == consolidated,
                        (Ok(_), Ok(_), Ok(_)) => match consolidated@.fork {
                            ForkModel::Gloas {
                                previous_epoch_participation,
                                current_epoch_participation,
                                builder_pending_payments,
                                builder_pending_withdrawals,
                                latest_block_hash,
                                latest_execution_bid,
                                latest_withdrawals_root,
                            } => r is Ok && post@ == (StateModel {
                                fork: ForkModel::Gloas {
                                    previous_epoch_participation,
                                    current_epoch_participation,
                                    builder_pending_payments,
                                    builder_pending_withdrawals,
                                    latest_block_hash: held.payload.block_hash,
                                    latest_execution_bid,
                                    latest_withdrawals_root,
                                },
                                ..consolidated@
                            }),
                            _ => r == Err::<(), EnvelopeProcessingError>(
                                EnvelopeProcessingError::BeaconStateError(
                                    BeaconStateError::IncorrectStateVariant,
                                ),
                            ) && post == consolidated,
                        },
                    }
                },
            }
        }),
{
    let header = pre.latest_block_header;
    assert(header.state_root.is_zero() == (header.state_root.bytes() =~= Seq::new(
        32,
        |i: int| 0u8,
    )));
}

/// An envelope that agrees with the state of its block has its payload handed to the execution
/// layer, for the block that it names and the slot of that block, is applied to that state, and
/// becomes pending exactly when all of that succeeds and the state that results has the root that
/// the envelope names.
pub proof fn lemma_envelope_becomes_pending_when_its_state_root_is_right<T: BeaconChainTypes>(
    chain: BeaconChain<T>,
    verified: GossipVerifiedEnvelope,
    notify_execution_layer: NotifyExecutionLayer,
    r: Result<ExecutionPendingEnvelope<T>, EnvelopeError>,
    run: PendingRun<T>,
)
    requires
        made_pending(chain, verified, notify_execution_layer, r, run),
    ensures
        ({
            let signed_envelope = *verified.signed_envelope;
            let held = signed_contents(signed_envelope);
            let root = held.beacon_block_root;
            let checked = consistency_check::<T::EthSpec>(
                signed_envelope.spec_message(),
                run.payload_withheld,
                verified.pre_state@,
                run.roots,
                chain.spec,
            );
            &&& contents(signed_envelope.spec_message()) == held
            &&& call_ensures(
                T::payload_withheld,
                (&chain.services, &signed_envelope),
                run.payload_withheld,
            )
            &&& match checked {
                Err(e) => r == Err::<ExecutionPendingEnvelope<T>, EnvelopeError>(e),
                Ok(_) => {
                    &&& call_ensures(
                        T::payload_notifier,
                        (&chain.services, &signed_envelope, notify_execution_layer),
                        run.notifier,
                    )
                    &&& match run.notifier {
                        Err(e) => r == Err::<ExecutionPendingEnvelope<T>, EnvelopeError>(e),
                        Ok(notifier) => {
                            &&& call_ensures(
                                T::spawn_payload_verification,
                                (&chain.services, notifier, root, verified.parent_block.slot),
                                run.handle,
                            )
                            &&& run.handle is None ==> r == Err::<
                                ExecutionPendingEnvelope<T>,
                                EnvelopeError,
                            >(EnvelopeError::BeaconChainError(BeaconChainError::RuntimeShutdown))
                            &&& run.handle is Some ==> envelope_processed(
                                chain.services,
                                *verified.pre_state,
                                signed_envelope,
                                VerifySignatures::False,
                                run.post_state,
                                run.processed,
                                run.processing,
                            )
                            &&& run.handle is Some && run.processed is Ok ==> call_ensures(
                                T::canonical_root,
                                (&chain.services, &run.post_state),
                                run.post_state_root,
                            )
                            &&& run.handle is Some && run.processed is Err ==> r == Err::<
                                ExecutionPendingEnvelope<T>,
                                EnvelopeError,
                            >(
                                match run.processed->Err_0 {
                                    EnvelopeProcessingError::BadSignature => {
                                        EnvelopeError::BadSignature
                                    },
                                    EnvelopeProcessingError::BeaconStateError(e) => {
                                        EnvelopeError::BeaconStateError(e)
                                    },
                                    EnvelopeProcessingError::BlockProcessingError(e) => {
                                        EnvelopeError::BlockProcessingError(e)
                                    },
                                },
                            )
                            &&& run.handle is Some && run.processed is Ok
                                ==> match run.post_state_root {
                                Err(e) => r == Err::<ExecutionPendingEnvelope<T>, EnvelopeError>(
                                    EnvelopeError::BeaconStateError(e),
                                ),
                                Ok(state_root) => if state_root == held.state_root {
                                    r matches Ok(pending) && pending.signed_envelope
                                        == MaybeAvailableEnvelope::AvailabilityPending {
                                        block_root: root,
                                        envelope: verified.signed_envelope,
                                    } && pending.import_data.block_root == root
                                        && pending.import_data.parent_block
                                        == verified.parent_block
                                        && *pending.import_data.post_state == run.post_state
                                        && Some(pending.payload_verification_handle)
                                        == run.handle
                                } else {
                                    r == Err::<ExecutionPendingEnvelope<T>, EnvelopeError>(
                                        EnvelopeError::InvalidStateRoot {
                                            state: state_root,
                                            envelope: held.state_root,
                                        },
                                    )
                                },
                            }
                        },
                    }
                },
            }
        }),
{
}

/// A borrowed envelope gives the fields of the envelope that it borrows, whichever fork that is of.
pub proof fn lemma_borrowed_envelope_gives_its_fields(
    envelope: ExecutionPayloadEnvelopeRef<'_>,
    signed_envelope: SignedExecutionPayloadEnvelope,
)
    ensures
        ({
            let held = contents(envelope);
            &&& envelope.spec_payload() == held.payload
            &&& envelope.spec_execution_requests() == held.execution_requests
            &&& envelope.spec_builder_index() == held.builder_index
            &&& envelope.spec_beacon_block_root() == held.beacon_block_root
            &&& envelope.spec_slot() == held.slot
            &&& envelope.spec_blob_kzg_commitments() == held.blob_kzg_commitments
            &&& envelope.spec_state_root() == held.state_root
        }),
        contents(signed_envelope.spec_message()) == signed_contents(signed_envelope),
        signed_envelope.spec_signature() == (match signed_envelope {
            SignedExecutionPayloadEnvelope::Gloas(signed) => signed.signature,
            SignedExecutionPayloadEnvelope::NextFork(signed) => signed.signature,
        }),
{
}

/// Whether all bytes of a string are zero.
pub open spec fn all_zero<const N: usize>(bytes: FixedBytes<N>) -> bool {
    bytes.bytes() == Seq::new(N as nat, |i: int| 0u8)
}

/// Whether a payload has nothing in it.
pub open spec fn holds_nothing(payload: ExecutionPayloadGloas) -> bool {
    &&& all_zero(payload.parent_hash) && all_zero(payload.fee_recipient) && all_zero(
        payload.state_root,
    ) && all_zero(payload.receipts_root) && all_zero(payload.logs_bloom) && all_zero(
        payload.prev_randao,
    ) && all_zero(payload.base_fee_per_gas) && all_zero(payload.block_hash)
    &&& payload.block_number == 0 && payload.gas_limit == 0 && payload.gas_used == 0
        && payload.timestamp == 0 && payload.blob_gas_used == 0 && payload.excess_blob_gas == 0
    &&& payload.extra_data@.len() == 0 && payload.transactions@.len() == 0
        && payload.withdrawals@.len() == 0
}

proof fn lemma_all_zero<const N: usize>(bytes: FixedBytes<N>)
    requires
        bytes.is_zero(),
    ensures
        all_zero(bytes),
{
    assert(bytes.bytes() =~= Seq::new(N as nat, |i: int| 0u8));
}

proof fn lemma_holds_nothing(payload: ExecutionPayloadGloas)
    requires
        payload.is_default(),
    ensures
        holds_nothing(payload),
{
    lemma_all_zero(payload.parent_hash);
    lemma_all_zero(payload.fee_recipient);
    lemma_all_zero(payload.state_root);
    lemma_all_zero(payload.receipts_root);
    lemma_all_zero(payload.logs_bloom);
    lemma_all_zero(payload.prev_randao);
    lemma_all_zero(payload.base_fee_per_gas);
    lemma_all_zero(payload.block_hash);
}

/// An empty envelope is one of the Gloas fork, for the first slot of that fork, with nothing in it;
/// a full one differs in its lists, which are as long as they may be, with nothing in their
/// entries.
pub proof fn lemma_empty_and_full_envelopes<E: EthSpec>(
    spec: ChainSpec,
    empty: ExecutionPayloadEnvelope,
    full: ExecutionPayloadEnvelope,
)
    requires
        spec.gloas_fork_epoch is Some,
        (spec.gloas_fork_epoch->0).0 * E::spec_slots_per_epoch() <= u64::MAX,
        call_ensures(ExecutionPayloadEnvelope::empty::<E>, (&spec,), empty),
        call_ensures(ExecutionPayloadEnvelope::full::<E>, (&spec,), full),
    ensures
        ({
            let start = (spec.gloas_fork_epoch->0).0 * E::spec_slots_per_epoch();
            match (empty, full) {
                (ExecutionPayloadEnvelope::Gloas(empty), ExecutionPayloadEnvelope::Gloas(full)) => {
                    &&& holds_nothing(empty.payload)
                    &&& empty.execution_requests.deposits@.len() == 0
                    &&& empty.execution_requests.withdrawals@.len() == 0
                    &&& empty.execution_requests.consolidations@.len() == 0
                    &&& empty.blob_kzg_commitments@.len() == 0
                    &&& empty.builder_index == 0
                    &&& empty.slot.0 == start
                    &&& all_zero(empty.beacon_block_root)
                    &&& all_zero(empty.state_root)
                    &&& holds_nothing(full.payload)
                    &&& full.execution_requests.deposits@.len()
                        == E::spec_max_deposit_requests_per_payload()
                    &&& full.execution_requests.withdrawals@.len()
                        == E::spec_max_withdrawal_requests_per_payload()
                    &&& full.execution_requests.consolidations@.len()
                        == E::spec_max_consolidation_requests_per_payload()
                    &&& full.blob_kzg_commitments@.len() == E::spec_max_blob_commitments_per_block()
                    &&& full.builder_index == 0
                    &&& full.slot.0 == start
                    &&& all_zero(full.beacon_block_root)
                    &&& all_zero(full.state_root)
                    &&& forall|i: int|
                        0 <= i < full.blob_kzg_commitments@.len() ==> all_zero(
                            #[trigger] full.blob_kzg_commitments@[i],
                        )
                    &&& forall|i: int|
                        0 <= i < full.execution_requests.deposits@.len() ==> {
                            let request = #[trigger] full.execution_requests.deposits@[i];
                            &&& request.amount == 0 && request.index == 0
                            &&& all_zero(request.pubkey) && all_zero(request.withdrawal_credentials)
                                && all_zero(request.signature)
                        }
                    &&& forall|i: int|
                        0 <= i < full.execution_requests.withdrawals@.len() ==> {
                            let request = #[trigger] full.execution_requests.withdrawals@[i];
                            &&& request.amount == 0
                            &&& all_zero(request.source_address) && all_zero(
                                request.validator_pubkey,
                            )
                        }
                    &&& forall|i: int|
                        0 <= i < full.execution_requests.consolidations@.len() ==> {
                            let request = #[trigger] full.execution_requests.consolidations@[i];
                            all_zero(request.source_address) && all_zero(request.source_pubkey)
                                && all_zero(request.target_pubkey)
                        }
                },
                _ => false,
            }
        }),
{
    let a = empty->Gloas_0;
    let b = full->Gloas_0;
    assert((spec.gloas_fork_epoch->0).0 * E::spec_slots_per_epoch() >= 0) by (nonlinear_arith);
    lemma_holds_nothing(a.payload);
    lemma_holds_nothing(b.payload);
    lemma_all_zero(a.beacon_block_root);
    lemma_all_zero(a.state_root);
    lemma_all_zero(b.beacon_block_root);
    lemma_all_zero(b.state_root);
    let requests = b.execution_requests;
    assert forall|i: int| 0 <= i < b.blob_kzg_commitments@.len() implies all_zero(
        #[trigger] b.blob_kzg_commitments@[i],
    ) by {
        lemma_all_zero(b.blob_kzg_commitments@[i]);
    }
    assert forall|i: int| 0 <= i < requests.deposits@.len() implies {
        let request = #[trigger] requests.deposits@[i];
        &&& request.amount == 0 && request.index == 0
        &&& all_zero(request.pubkey) && all_zero(request.withdrawal_credentials) && all_zero(
            request.signature,
        )
    } by {
        assert(requests.deposits@[i].is_zero());
        lemma_all_zero(requests.deposits@[i].pubkey);
        lemma_all_zero(requests.deposits@[i].withdrawal_credentials);
        lemma_all_zero(requests.deposits@[i].signature);
    }
    assert forall|i: int| 0 <= i < requests.withdrawals@.len() implies {
        let request = #[trigger] requests.withdrawals@[i];
        &&& request.amount == 0
        &&& all_zero(request.source_address) && all_zero(request.validator_pubkey)
    } by {
        assert(requests.withdrawals@[i].is_zero());
        lemma_all_zero(requests.withdrawals@[i].source_address);
        lemma_all_zero(requests.withdrawals@[i].validator_pubkey);
    }
    assert forall|i: int| 0 <= i < requests.consolidations@.len() implies {
        let request = #[trigger] requests.consolidations@[i];
        all_zero(request.source_address) && all_zero(request.source_pubkey) && all_zero(
            request.target_pubkey,
        )
    } by {
        assert(requests.consolidations@[i].is_zero());
        lemma_all_zero(requests.consolidations@[i].source_address);
        lemma_all_zero(requests.consolidations@[i].source_pubkey);
        lemma_all_zero(requests.consolidations@[i].target_pubkey);
    }
}

/// An envelope is taken in the context of Gloas if it is one of that fork; any other context, and
/// any other envelope, is refused with a message that names the context.
pub proof fn lemma_envelopes_belong_to_gloas(
    envelope: ExecutionPayloadEnvelope,
    signed_envelope: SignedExecutionPayloadEnvelope,
    context: ForkName,
    r: Result<ExecutionPayloadEnvelope, String>,
    signed: Result<SignedExecutionPayloadEnvelope, String>,
)
    requires
        call_ensures(ExecutionPayloadEnvelope::in_fork_context, (envelope, context), r),
        call_ensures(
            SignedExecutionPayloadEnvelope::in_fork_context,
            (signed_envelope, context),
            signed,
        ),
    ensures
        match r {
            Ok(taken) => context == ForkName::Gloas && envelope is Gloas && taken == envelope,
            Err(message) => !(context == ForkName::Gloas && envelope is Gloas) && message@
                == "ExecutionPayloadEnvelope does not support fork "@ + context.spec_name(),
        },
        match signed {
            Ok(taken) => context == ForkName::Gloas && signed_envelope is Gloas && taken
                == signed_envelope,
            Err(message) => !(context == ForkName::Gloas && signed_envelope is Gloas) && message@
                == "SignedExecutionPayloadEnvelope does not support fork "@ + context.spec_name(),
        },
{
}

/// An envelope is signed as it is, with the signature that was given.
pub proof fn lemma_envelope_is_signed_as_it_is(
    envelope: ExecutionPayloadEnvelope,
    signature: Signature,
    r: SignedExecutionPayloadEnvelope,
)
    requires
        call_ensures(SignedExecutionPayloadEnvelope::from_envelope, (envelope, signature), r),
    ensures
        match (envelope, r) {
            (
                ExecutionPayloadEnvelope::Gloas(message),
                SignedExecutionPayloadEnvelope::Gloas(signed),
            ) => signed.message == message && signed.signature == signature,
            (
                ExecutionPayloadEnvelope::NextFork(message),
                SignedExecutionPayloadEnvelope::NextFork(signed),
            ) => signed.message == message && signed.signature == signature,
            _ => false,
        },
{
}

/// The blobs of an envelope are named by its block and numbered in the order of its commitments.
pub proof fn lemma_blobs_are_numbered_by_the_commitments(
    available: AvailableExecutedEnvelope,
    ids: Vec<BlobIdentifier>,
    pending: AvailabilityPendingExecutedEnvelope,
    expected: usize,
)
    requires
        call_ensures(AvailableExecutedEnvelope::get_all_blob_ids, (&available,), ids),
        call_ensures(
            AvailabilityPendingExecutedEnvelope::num_blobs_expected,
            (&pending,),
            expected,
        ),
    ensures
        ids@.len() == signed_contents(*available.envelope.envelope).blob_kzg_commitments@.len(),
        forall|i: int|
            0 <= i < ids@.len() ==> (#[trigger] ids@[i]).block_root
                == available.import_data.block_root && ids@[i].index == i as u64,
        expected == signed_contents(*pending.envelope).blob_kzg_commitments@.len(),
{
}

/// An executed envelope keeps what it was made of: the envelope, its import data and the verdict on
/// its payload, whether or not its blobs are there. Its payload is never the one of the merge.
pub proof fn lemma_executed_envelope_keeps_its_parts(
    envelope: MaybeAvailableEnvelope,
    import_data: EnvelopeImportData,
    outcome: PayloadVerificationOutcome,
    r: ExecutedEnvelope,
    root: Hash256,
    status: PayloadVerificationStatus,
    verdict: PayloadVerificationOutcome,
)
    requires
        call_ensures(ExecutedEnvelope::new, (envelope, import_data, outcome), r),
        call_ensures(ExecutedEnvelope::block_root, (&r,), root),
        call_ensures(PayloadVerificationOutcome::for_envelope, (status,), verdict),
    ensures
        match (envelope, r) {
            (
                MaybeAvailableEnvelope::Available(available),
                ExecutedEnvelope::Available(executed),
            ) => {
                &&& executed.envelope == available
                &&& executed.import_data == import_data
                &&& executed.payload_verification_outcome == outcome
                &&& r.spec_as_envelope() == *available.envelope
            },
            (
                MaybeAvailableEnvelope::AvailabilityPending { envelope, .. },
                ExecutedEnvelope::AvailabilityPending(executed),
            ) => {
                &&& executed.envelope == envelope
                &&& executed.import_data == import_data
                &&& executed.payload_verification_outcome == outcome
                &&& r.spec_as_envelope() == *envelope
            },
            _ => false,
        },
        root == import_data.block_root,
        verdict.payload_verification_status == status,
        verdict.is_valid_merge_transition_block == false,
{
}

/// The roots that an envelope is checked by are those of its own commitments and withdrawals, and
/// that of the latest header of the state, which is given the state root of the block if it has
/// none.
pub proof fn lemma_envelope_is_checked_by_its_own_roots<E: EthSpec>(
    roots: EnvelopeRoots,
    envelope: ExecutionPayloadEnvelopeRef<'_>,
    state: StateModel,
    block_state_root: Hash256,
)
    requires
        roots.are_for::<E>(envelope, state, block_state_root),
    ensures
        ({
            let held = contents(envelope);
            let header = state.latest_block_header;
            &&& roots.blob_kzg_commitments.bytes() == list_root(
                held.blob_kzg_commitments@,
                E::spec_max_blob_commitments_per_block(),
            )
            &&& roots.withdrawals.bytes() == list_root(
                held.payload.withdrawals@,
                E::spec_max_withdrawals_per_payload(),
            )
            &&& roots.block_header.bytes() == BeaconBlockHeader {
                state_root: if header.state_root.bytes() =~= Seq::new(32, |i: int| 0u8) {
                    block_state_root
                } else {
                    header.state_root
                },
                ..header
            }.root()
        }),
{
    let header = state.latest_block_header;
    assert(header.state_root.is_zero() == (header.state_root.bytes() =~= Seq::new(
        32,
        |i: int| 0u8,
    )));
}

/// An envelope that becomes pending was checked by its own roots, against the state that the gossip
/// checks found for its block and with the state root of that block.
pub proof fn lemma_pending_envelope_was_checked_by_its_own_roots<T: BeaconChainTypes>(
    chain: BeaconChain<T>,
    verified: GossipVerifiedEnvelope,
    notify_execution_layer: NotifyExecutionLayer,
    r: Result<ExecutionPendingEnvelope<T>, EnvelopeError>,
    run: PendingRun<T>,
)
    requires
        made_pending(chain, verified, notify_execution_layer, r, run),
    ensures
        run.roots.are_for::<T::EthSpec>(
            verified.signed_envelope.spec_message(),
            verified.pre_state@,
            verified.parent_block.state_root,
        ),
{
}

/// An envelope straight from the network goes through the gossip checks first: if it fails them,
/// that is the end; if it passes, it is made pending as they left it.
pub proof fn lemma_gossip_checks_come_first<T: BeaconChainTypes>(
    chain: BeaconChain<T>,
    signed_envelope: SignedExecutionPayloadEnvelope,
    notify_execution_layer: NotifyExecutionLayer,
    r: Result<ExecutionPendingEnvelope<T>, EnvelopeError>,
    checked: Result<GossipVerifiedEnvelope, EnvelopeError>,
    gossip: GossipRun,
    run: PendingRun<T>,
)
    requires
        checked_and_made_pending(
            chain,
            signed_envelope,
            notify_execution_layer,
            r,
            checked,
            gossip,
            run,
        ),
    ensures
        gossip_checked(chain, signed_envelope, checked, gossip),
        match checked {
            Err(e) => r == Err::<ExecutionPendingEnvelope<T>, EnvelopeError>(e),
            Ok(verified) => made_pending(chain, verified, notify_execution_layer, r, run)
                && *verified.signed_envelope == signed_envelope,
        },
{
}

/// A slot starts as many slot lengths after genesis as slots have passed since; there is no such
/// time before genesis, nor if it is too large.
pub proof fn lemma_slots_start_one_after_the_other(genesis_time: u64, slot: Slot, spec: ChainSpec)
    ensures
        ({
            let start = genesis_time + (slot.0 - spec.genesis_slot) * spec.seconds_per_slot;
            match timestamp_at_slot(genesis_time, slot, spec) {
                Ok(time) => slot.0 >= spec.genesis_slot && time == start,
                Err(e) => e == ArithError::Overflow && (slot.0 < spec.genesis_slot || start
                    > u64::MAX),
            }
        }),
{
    if slot.0 >= spec.genesis_slot {
        assert((slot.0 - spec.genesis_slot) * spec.seconds_per_slot >= 0) by (nonlinear_arith)
            requires
                slot.0 - spec.genesis_slot >= 0,
        ;
    }
}

/// An envelope whose signature is to be looked at is refused if it is not good, or if that cannot
/// be told, and the state stays as it was.
pub proof fn lemma_envelope_with_a_bad_signature_is_refused<T: EnvelopeRules>(
    rules: T,
    pre: BeaconState,
    signed_envelope: SignedExecutionPayloadEnvelope,
    post: BeaconState,
    r: Result<(), EnvelopeProcessingError>,
    run: EnvelopeRun,
)
    requires
        envelope_processed(rules, pre, signed_envelope, VerifySignatures::True, post, r, run),
    ensures
        call_ensures(T::verify_signature, (&rules, &pre, &signed_envelope), run.signature),
        run.signature matches Err(e) ==> r == Err::<(), EnvelopeProcessingError>(
            EnvelopeProcessingError::BeaconStateError(e),
        ) && post == pre,
        run.signature == Ok::<bool, BeaconStateError>(false) ==> r == Err::<
            (),
            EnvelopeProcessingError,
        >(EnvelopeProcessingError::BadSignature) && post == pre,
{
}

/// Errors from elsewhere are passed on as they are.
pub proof fn lemma_errors_are_passed_on(
    chain: BeaconChainError,
    state: BeaconStateError,
    arith: ArithError,
    block: BlockProcessingError,
    processing: EnvelopeProcessingError,
)
    ensures
        <EnvelopeError as FromSpec<BeaconChainError>>::from_spec(chain)
            == EnvelopeError::BeaconChainError(chain),
        <EnvelopeError as FromSpec<BeaconStateError>>::from_spec(state)
            == EnvelopeError::BeaconStateError(state),
        <EnvelopeError as FromSpec<ArithError>>::from_spec(arith) == EnvelopeError::ArithError(
            arith,
        ),
        <EnvelopeError as FromSpec<EnvelopeProcessingError>>::from_spec(processing) == (
        match processing {
            EnvelopeProcessingError::BadSignature => EnvelopeError::BadSignature,
            EnvelopeProcessingError::BeaconStateError(e) => EnvelopeError::BeaconStateError(e),
            EnvelopeProcessingError::BlockProcessingError(e) => {
                EnvelopeError::BlockProcessingError(e)
            },
        }),
        <EnvelopeProcessingError as FromSpec<BeaconStateError>>::from_spec(state)
            == EnvelopeProcessingError::BeaconStateError(state),
        <EnvelopeProcessingError as FromSpec<BlockProcessingError>>::from_spec(block)
            == EnvelopeProcessingError::BlockProcessingError(block),
{
}

/// An executed envelope is put together from its parts, with or without its blobs.
pub proof fn lemma_executed_envelopes_are_put_together(
    available: AvailableEnvelope,
    envelope: Arc<SignedExecutionPayloadEnvelope>,
    import_data: EnvelopeImportData,
    outcome: PayloadVerificationOutcome,
    with_blobs: AvailableExecutedEnvelope,
    without: AvailabilityPendingExecutedEnvelope,
)
    requires
        call_ensures(
            AvailableExecutedEnvelope::new,
            (available, import_data, outcome),
            with_blobs,
        ),
        call_ensures(
            AvailabilityPendingExecutedEnvelope::new,
            (envelope, import_data, outcome),
            without,
        ),
    ensures
        with_blobs.envelope == available,
        with_blobs.import_data == import_data,
        with_blobs.payload_verification_outcome == outcome,
        without.envelope == envelope,
        without.import_data == import_data,
        without.payload_verification_outcome == outcome,
{
}

/// A bid that stands for none is zero throughout, and so is its signature.
pub proof fn lemma_empty_bid_is_zero_throughout(r: SignedExecutionBid)
    requires
        call_ensures(SignedExecutionBid::empty, (), r),
    ensures
        r.message.gas_limit == 0,
        r.message.builder_index == 0,
        r.message.slot.0 == 0,
        r.message.value == 0,
        all_zero(r.message.parent_block_hash),
        all_zero(r.message.parent_block_root),
        all_zero(r.message.block_hash),
        all_zero(r.message.fee_recipient),
        all_zero(r.message.blob_kzg_commitments_root),
        all_zero(r.signature),
{
    lemma_all_zero(r.message.parent_block_hash);
    lemma_all_zero(r.message.parent_block_root);
    lemma_all_zero(r.message.block_hash);
    lemma_all_zero(r.message.fee_recipient);
    lemma_all_zero(r.message.blob_kzg_commitments_root);
    lemma_all_zero(r.signature);
}

/// The root of a signed envelope is taken over that of the envelope and that of the signature.
pub proof fn lemma_root_of_a_signed_envelope<E: EthSpec>(
    signed_envelope: SignedExecutionPayloadEnvelope,
    r: Hash256,
    signature: Signature,
)
    requires
        signature == (match signed_envelope {
            SignedExecutionPayloadEnvelope::Gloas(signed) => signed.signature,
            SignedExecutionPayloadEnvelope::NextFork(signed) => signed.signature,
        }),
        call_ensures(
            SignedExecutionPayloadEnvelope::tree_hash_root::<E>,
            (&signed_envelope,),
            r,
        ),
    ensures
        r.bytes() == merkle_root_of(
            signed_envelope.spec_message().root::<E>() + merkle_root_of(signature.bytes(), 3),
            0,
        ),
{
}

} // verus!
