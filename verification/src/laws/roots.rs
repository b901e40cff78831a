//! Which leaves a Merkle root is taken over.

use super::encodings::u64_bytes;
use super::envelopes::contents;
use crate::beacon_state::{BeaconBlockHeader, ExecutionBid, SignedExecutionBid};
use crate::eth_spec::EthSpec;
use crate::execution_payload_envelope::{
    ConsolidationRequest, DepositRequest, ExecutionPayloadEnvelopeRef, ExecutionPayloadGloas,
    ExecutionRequests, Withdrawal, WithdrawalRequest,
};
use crate::merkle::{
    byte_list_root, byte_list_roots, commitments_root, item_roots, list_root, merkle_root_of,
    root_with_length, transactions_root, TreeHash,
};
use crate::payload_attestation_service::{PayloadAttestationData, PayloadAttestationMessage};
use crate::primitives::{FixedBytes, KzgCommitment};
use vstd::prelude::*;

verus! {

/// Up to 32 bytes, filled up with zeros.
pub open spec fn leaf(bytes: Seq<u8>) -> Seq<u8> {
    Seq::new(
        32,
        |i: int|
            if i < bytes.len() {
                bytes[i]
            } else {
                0u8
            },
    )
}

/// The roots of numbers and short byte strings are their bytes, filled up with zeros; longer
/// strings are cut into leaves of 32 bytes.
pub proof fn lemma_roots_of_plain_values(
    number: u64,
    flag: bool,
    address: FixedBytes<20>,
    hash: FixedBytes<32>,
    key: FixedBytes<48>,
    signature: FixedBytes<96>,
    bloom: FixedBytes<256>,
)
    ensures
        number.root() == leaf(u64_bytes(number)),
        flag.root() == leaf(
            seq![
                if flag {
                    1u8
                } else {
                    0u8
                },
            ],
        ),
        address.root() == leaf(address.bytes()),
        hash.root() == hash.bytes(),
        key.root() == merkle_root_of(key.bytes(), 2),
        signature.root() == merkle_root_of(signature.bytes(), 3),
        bloom.root() == merkle_root_of(bloom.bytes(), 8),
{
    assert(number.root() =~= leaf(u64_bytes(number)));
    assert(flag.root() =~= leaf(
        seq![
            if flag {
                1u8
            } else {
                0u8
            },
        ],
    ));
    assert(address.root() =~= leaf(address.bytes()));
}

/// The root of a block header is taken over its slot, proposer, parent, state and body, in this
/// order.
pub proof fn lemma_root_of_a_header(header: BeaconBlockHeader)
    ensures
        header.root() == merkle_root_of(
            leaf(u64_bytes(header.slot.0)) + leaf(u64_bytes(header.proposer_index))
                + header.parent_root.bytes() + header.state_root.bytes()
                + header.body_root.bytes(),
            0,
        ),
{
    assert(header.slot.root() =~= leaf(u64_bytes(header.slot.0)));
    assert(header.proposer_index.root() =~= leaf(u64_bytes(header.proposer_index)));
}

/// The roots of the items of a payload's lists are taken over their fields, in order.
pub proof fn lemma_roots_of_list_items(
    withdrawal: Withdrawal,
    deposit: DepositRequest,
    exit: WithdrawalRequest,
    consolidation: ConsolidationRequest,
)
    ensures
        withdrawal.root() == merkle_root_of(
            leaf(u64_bytes(withdrawal.index)) + leaf(u64_bytes(withdrawal.validator_index)) + leaf(
                withdrawal.address.bytes(),
            ) + leaf(u64_bytes(withdrawal.amount)),
            0,
        ),
        deposit.root() == merkle_root_of(
            merkle_root_of(deposit.pubkey.bytes(), 2) + deposit.withdrawal_credentials.bytes()
                + leaf(u64_bytes(deposit.amount)) + merkle_root_of(deposit.signature.bytes(), 3)
                + leaf(u64_bytes(deposit.index)),
            0,
        ),
        exit.root() == merkle_root_of(
            leaf(exit.source_address.bytes()) + merkle_root_of(exit.validator_pubkey.bytes(), 2)
                + leaf(u64_bytes(exit.amount)),
            0,
        ),
        consolidation.root() == merkle_root_of(
            leaf(consolidation.source_address.bytes()) + merkle_root_of(
                consolidation.source_pubkey.bytes(),
                2,
            ) + merkle_root_of(consolidation.target_pubkey.bytes(), 2),
            0,
        ),
{
    assert(withdrawal.index.root() =~= leaf(u64_bytes(withdrawal.index)));
    assert(withdrawal.validator_index.root() =~= leaf(u64_bytes(withdrawal.validator_index)));
    assert(withdrawal.address.root() =~= leaf(withdrawal.address.bytes()));
    assert(withdrawal.amount.root() =~= leaf(u64_bytes(withdrawal.amount)));
    assert(deposit.amount.root() =~= leaf(u64_bytes(deposit.amount)));
    assert(deposit.index.root() =~= leaf(u64_bytes(deposit.index)));
    assert(exit.source_address.root() =~= leaf(exit.source_address.bytes()));
    assert(exit.amount.root() =~= leaf(u64_bytes(exit.amount)));
    assert(consolidation.source_address.root() =~= leaf(consolidation.source_address.bytes()));
}

/// The root of a list is taken over the roots of its items, one after the other, in a tree as wide
/// as the limit, and then over the number of the items.
pub proof fn lemma_root_of_a_list<T: TreeHash>(items: Seq<T>, limit: usize)
    ensures
        list_root(items, limit) == root_with_length(
            merkle_root_of(
                Seq::new(items.len(), |i: int| items[i].root()).flatten(),
                limit as nat,
            ),
            items.len(),
        ),
{
    lemma_roots_one_after_the_other(items);
}

proof fn lemma_roots_one_after_the_other<T: TreeHash>(items: Seq<T>)
    ensures
        item_roots(items) == Seq::new(items.len(), |i: int| items[i].root()).flatten(),
    decreases items.len(),
{
    let roots = Seq::new(items.len(), |i: int| items[i].root());
    roots.lemma_flatten_and_flatten_alt_are_equivalent();
    if items.len() > 0 {
        let rest = items.drop_last();
        lemma_roots_one_after_the_other(rest);
        let rest_roots = Seq::new(rest.len(), |i: int| rest[i].root());
        rest_roots.lemma_flatten_and_flatten_alt_are_equivalent();
        assert(roots.drop_last() =~= rest_roots);
    }
}

/// The root of a list of bytes is taken over its bytes, in a tree with a leaf for every 32 bytes
/// that it may hold, the last of them begun or full, and then over the number of the bytes.
pub proof fn lemma_root_of_a_byte_list(bytes: Seq<u8>, limit: usize, leaves: nat)
    requires
        32 * leaves >= limit,
        32 * leaves < limit + 32,
    ensures
        byte_list_root(bytes, limit) == root_with_length(
            merkle_root_of(bytes, leaves),
            bytes.len(),
        ),
{
}

/// The root of the transactions is taken over those of the single ones, one after the other, and
/// then over their number.
pub proof fn lemma_root_of_transactions<E: EthSpec>(transactions: Seq<Vec<u8>>)
    ensures
        transactions_root::<E>(transactions) == root_with_length(
            merkle_root_of(
                Seq::new(
                    transactions.len(),
                    |i: int|
                        byte_list_root(transactions[i]@, E::spec_max_bytes_per_transaction()),
                ).flatten(),
                E::spec_max_transactions_per_payload() as nat,
            ),
            transactions.len(),
        ),
{
    lemma_byte_list_roots(transactions, E::spec_max_bytes_per_transaction());
}

proof fn lemma_byte_list_roots(lists: Seq<Vec<u8>>, limit: usize)
    ensures
        byte_list_roots(lists, limit) == Seq::new(
            lists.len(),
            |i: int| byte_list_root(lists[i]@, limit),
        ).flatten(),
    decreases lists.len(),
{
    let roots = Seq::new(lists.len(), |i: int| byte_list_root(lists[i]@, limit));
    roots.lemma_flatten_and_flatten_alt_are_equivalent();
    if lists.len() > 0 {
        let rest = lists.drop_last();
        lemma_byte_list_roots(rest, limit);
        let rest_roots = Seq::new(rest.len(), |i: int| byte_list_root(rest[i]@, limit));
        rest_roots.lemma_flatten_and_flatten_alt_are_equivalent();
        assert(roots.drop_last() =~= rest_roots);
    }
}

/// The root of a payload is taken over its seventeen fields, in order.
pub proof fn lemma_root_of_a_payload<E: EthSpec>(payload: ExecutionPayloadGloas)
    ensures
        payload.root::<E>() == merkle_root_of(
            payload.parent_hash.bytes() + leaf(payload.fee_recipient.bytes())
                + payload.state_root.bytes() + payload.receipts_root.bytes() + merkle_root_of(
                payload.logs_bloom.bytes(),
                8,
            ) + payload.prev_randao.bytes() + leaf(u64_bytes(payload.block_number)) + leaf(
                u64_bytes(payload.gas_limit),
            ) + leaf(u64_bytes(payload.gas_used)) + leaf(u64_bytes(payload.timestamp))
                + byte_list_root(payload.extra_data@, E::spec_max_extra_data_bytes())
                + payload.base_fee_per_gas.bytes() + payload.block_hash.bytes()
                + transactions_root::<E>(payload.transactions@) + list_root(
                payload.withdrawals@,
                E::spec_max_withdrawals_per_payload(),
            ) + leaf(u64_bytes(payload.blob_gas_used)) + leaf(u64_bytes(payload.excess_blob_gas)),
            0,
        ),
{
    assert(payload.fee_recipient.root() =~= leaf(payload.fee_recipient.bytes()));
    assert(payload.block_number.root() =~= leaf(u64_bytes(payload.block_number)));
    assert(payload.gas_limit.root() =~= leaf(u64_bytes(payload.gas_limit)));
    assert(payload.gas_used.root() =~= leaf(u64_bytes(payload.gas_used)));
    assert(payload.timestamp.root() =~= leaf(u64_bytes(payload.timestamp)));
    assert(payload.blob_gas_used.root() =~= leaf(u64_bytes(payload.blob_gas_used)));
    assert(payload.excess_blob_gas.root() =~= leaf(u64_bytes(payload.excess_blob_gas)));
}

/// The root of an envelope is taken over its seven fields, in order; that of its requests over
/// their three lists, and that of its commitments over a list of them.
pub proof fn lemma_root_of_an_envelope<E: EthSpec>(
    envelope: ExecutionPayloadEnvelopeRef<'_>,
    requests: ExecutionRequests,
    commitments: Seq<KzgCommitment>,
)
    ensures
        envelope.root::<E>() == merkle_root_of(
            contents(envelope).payload.root::<E>() + contents(envelope).execution_requests.root::<
                E,
            >() + leaf(u64_bytes(contents(envelope).builder_index)) + contents(
                envelope,
            ).beacon_block_root.bytes() + leaf(u64_bytes(contents(envelope).slot.0))
                + commitments_root::<E>(contents(envelope).blob_kzg_commitments@) + contents(
                envelope,
            ).state_root.bytes(),
            0,
        ),
        requests.root::<E>() == merkle_root_of(
            list_root(requests.deposits@, E::spec_max_deposit_requests_per_payload()) + list_root(
                requests.withdrawals@,
                E::spec_max_withdrawal_requests_per_payload(),
            ) + list_root(
                requests.consolidations@,
                E::spec_max_consolidation_requests_per_payload(),
            ),
            0,
        ),
        commitments_root::<E>(commitments) == list_root(
            commitments,
            E::spec_max_blob_commitments_per_block(),
        ),
{
    let held = contents(envelope);
    assert(held.builder_index.root() =~= leaf(u64_bytes(held.builder_index)));
    assert(held.slot.root() =~= leaf(u64_bytes(held.slot.0)));
}

/// The roots of bids and of payload attestations are taken over their fields, in order.
pub proof fn lemma_roots_of_messages(
    bid: ExecutionBid,
    signed_bid: SignedExecutionBid,
    data: PayloadAttestationData,
    message: PayloadAttestationMessage,
)
    ensures
        bid.root() == merkle_root_of(
            bid.parent_block_hash.bytes() + bid.parent_block_root.bytes() + bid.block_hash.bytes()
                + leaf(bid.fee_recipient.bytes()) + leaf(u64_bytes(bid.gas_limit)) + leaf(
                u64_bytes(bid.builder_index),
            ) + leaf(u64_bytes(bid.slot.0)) + leaf(u64_bytes(bid.value))
                + bid.blob_kzg_commitments_root.bytes(),
            0,
        ),
        signed_bid.root() == merkle_root_of(
            signed_bid.message.root() + merkle_root_of(signed_bid.signature.bytes(), 3),
            0,
        ),
        data.root() == merkle_root_of(
            data.beacon_block_root.bytes() + leaf(u64_bytes(data.slot.0))
                + data.payload_present.root() + data.blob_data_available.root(),
            0,
        ),
        message.root() == merkle_root_of(
            leaf(u64_bytes(message.validator_index)) + message.data.root() + merkle_root_of(
                message.signature.bytes(),
                3,
            ),
            0,
        ),
{
    assert(bid.fee_recipient.root() =~= leaf(bid.fee_recipient.bytes()));
    assert(bid.gas_limit.root() =~= leaf(u64_bytes(bid.gas_limit)));
    assert(bid.builder_index.root() =~= leaf(u64_bytes(bid.builder_index)));
    assert(bid.slot.root() =~= leaf(u64_bytes(bid.slot.0)));
    assert(bid.value.root() =~= leaf(u64_bytes(bid.value)));
    assert(data.slot.root() =~= leaf(u64_bytes(data.slot.0)));
    assert(message.validator_index.root() =~= leaf(u64_bytes(message.validator_index)));
}

} // verus!
