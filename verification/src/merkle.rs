//! Merkle roots of the values that an envelope holds.

use crate::beacon_state::BeaconBlockHeader;
use crate::eth_spec::{EthSpec, MAX_BYTE_LIST_LIMIT, MAX_LIST_LIMIT};
use crate::execution_payload_envelope::{
    ConsolidationRequest, DepositRequest, ExecutionPayloadEnvelopeRef, ExecutionPayloadGloas,
    ExecutionRequests, SignedExecutionPayloadEnvelope, Withdrawal, WithdrawalRequest,
};
use crate::primitives::{FixedBytes, Hash256, KzgCommitment, Signature, Slot};
use vstd::bytes::u64_to_le_bytes;
use vstd::prelude::*;

verus! {

/// The size of a leaf.
pub const BYTES_PER_CHUNK: usize = 32;

/// What `tree_hash::merkle_root` returns.
pub uninterp spec fn merkle_root_of(bytes: Seq<u8>, minimum_leaf_count: nat) -> Seq<u8>;

/// What `tree_hash::mix_in_length` returns.
pub uninterp spec fn root_with_length(root: Seq<u8>, length: nat) -> Seq<u8>;

/// Up to one leaf of bytes, filled up with zeros.
pub open spec fn padded_chunk(bytes: Seq<u8>) -> Seq<u8> {
    Seq::new(
        BYTES_PER_CHUNK as nat,
        |i: int|
            if i < bytes.len() {
                bytes[i]
            } else {
                0
            },
    )
}

/// Calls `tree_hash::merkle_root`: the root of the binary tree whose leaves are `bytes` cut into
/// chunks, filled up with zero leaves to `minimum_leaf_count` of them. The result is a function
/// of the two arguments; a single leaf, or none, is its own root. The bounds keep the number of
/// leaves within what the tree builder takes on every machine.
#[verifier::external_body]
pub(crate) fn merkle_root(bytes: &Vec<u8>, minimum_leaf_count: usize) -> (r: Hash256)
    requires
        bytes@.len() <= MAX_LIST_LIMIT * BYTES_PER_CHUNK,
        minimum_leaf_count <= MAX_LIST_LIMIT,
    ensures
        r.bytes() == merkle_root_of(bytes@, minimum_leaf_count as nat),
        bytes@.len() <= BYTES_PER_CHUNK && minimum_leaf_count <= 1 ==> r.bytes() == padded_chunk(
            bytes@,
        ),
{
    FixedBytes(::tree_hash::merkle_root(bytes.as_slice(), minimum_leaf_count).0)
}

/// Calls `tree_hash::mix_in_length`: the node above the root of a list and its length. The result
/// is a function of the two arguments.
#[verifier::external_body]
pub(crate) fn mix_in_length(root: Hash256, length: usize) -> (r: Hash256)
    ensures
        r.bytes() == root_with_length(root.bytes(), length as nat),
{
    FixedBytes(::tree_hash::mix_in_length(&::tree_hash::Hash256::from(root.0), length).0)
}

/// A value that has a Merkle root.
pub trait TreeHash: Sized {
    /// The bytes of the root.
    spec fn root(self) -> Seq<u8>;

    /// The root.
    fn tree_hash_root(&self) -> (r: Hash256)
        ensures
            r.bytes() == self.root(),
    ;
}

/// Appends the bytes of `root`.
pub(crate) fn push_root(bytes: &mut Vec<u8>, root: Hash256)
    ensures
        final(bytes)@ == old(bytes)@ + root.bytes(),
{
    root.append_to(bytes);
}

impl TreeHash for u64 {
    open spec fn root(self) -> Seq<u8> {
        padded_chunk(vstd::bytes::spec_u64_to_le_bytes(self))
    }

    fn tree_hash_root(&self) -> (r: Hash256) {
        let bytes = u64_to_le_bytes(*self);
        merkle_root(&bytes, 0)
    }
}

impl TreeHash for Slot {
    open spec fn root(self) -> Seq<u8> {
        self.0.root()
    }

    fn tree_hash_root(&self) -> (r: Hash256) {
        self.0.tree_hash_root()
    }
}

/// The root of `N` bytes that span `leaves` leaves.
fn fixed_bytes_root<const N: usize>(value: &FixedBytes<N>, leaves: usize) -> (r: Hash256)
    requires
        N <= 256,
        leaves <= MAX_LIST_LIMIT,
    ensures
        r.bytes() == merkle_root_of(value.bytes(), leaves as nat),
        N <= BYTES_PER_CHUNK && leaves <= 1 ==> r.bytes() == padded_chunk(value.bytes()),
{
    let mut bytes: Vec<u8> = Vec::new();
    value.append_to(&mut bytes);
    assert(bytes@ == value.bytes());
    merkle_root(&bytes, leaves)
}

impl TreeHash for FixedBytes<20> {
    open spec fn root(self) -> Seq<u8> {
        padded_chunk(self.bytes())
    }

    fn tree_hash_root(&self) -> (r: Hash256) {
        fixed_bytes_root(self, 1)
    }
}

impl TreeHash for FixedBytes<32> {
    open spec fn root(self) -> Seq<u8> {
        self.bytes()
    }

    fn tree_hash_root(&self) -> (r: Hash256) {
        *self
    }
}

impl TreeHash for FixedBytes<48> {
    open spec fn root(self) -> Seq<u8> {
        merkle_root_of(self.bytes(), 2)
    }

    fn tree_hash_root(&self) -> (r: Hash256) {
        fixed_bytes_root(self, 2)
    }
}

impl TreeHash for FixedBytes<96> {
    open spec fn root(self) -> Seq<u8> {
        merkle_root_of(self.bytes(), 3)
    }

    fn tree_hash_root(&self) -> (r: Hash256) {
        fixed_bytes_root(self, 3)
    }
}

impl TreeHash for FixedBytes<256> {
    open spec fn root(self) -> Seq<u8> {
        merkle_root_of(self.bytes(), 8)
    }

    fn tree_hash_root(&self) -> (r: Hash256) {
        fixed_bytes_root(self, 8)
    }
}

impl TreeHash for BeaconBlockHeader {
    open spec fn root(self) -> Seq<u8> {
        merkle_root_of(
            self.slot.root() + self.proposer_index.root() + self.parent_root.root()
                + self.state_root.root() + self.body_root.root(),
            0,
        )
    }

    fn tree_hash_root(&self) -> (r: Hash256) {
        let mut leaves: Vec<u8> = Vec::new();
        push_root(&mut leaves, self.slot.tree_hash_root());
        push_root(&mut leaves, self.proposer_index.tree_hash_root());
        push_root(&mut leaves, self.parent_root.tree_hash_root());
        push_root(&mut leaves, self.state_root.tree_hash_root());
        push_root(&mut leaves, self.body_root.tree_hash_root());
        assert(leaves@ == self.slot.root() + self.proposer_index.root() + self.parent_root.root()
            + self.state_root.root() + self.body_root.root());
        merkle_root(&leaves, 0)
    }
}

impl TreeHash for Withdrawal {
    open spec fn root(self) -> Seq<u8> {
        merkle_root_of(
            self.index.root() + self.validator_index.root() + self.address.root()
                + self.amount.root(),
            0,
        )
    }

    fn tree_hash_root(&self) -> (r: Hash256) {
        let mut leaves: Vec<u8> = Vec::new();
        push_root(&mut leaves, self.index.tree_hash_root());
        push_root(&mut leaves, self.validator_index.tree_hash_root());
        push_root(&mut leaves, self.address.tree_hash_root());
        push_root(&mut leaves, self.amount.tree_hash_root());
        assert(leaves@ == self.index.root() + self.validator_index.root() + self.address.root()
            + self.amount.root());
        merkle_root(&leaves, 0)
    }
}

impl TreeHash for DepositRequest {
    open spec fn root(self) -> Seq<u8> {
        merkle_root_of(
            self.pubkey.root() + self.withdrawal_credentials.root() + self.amount.root()
                + self.signature.root() + self.index.root(),
            0,
        )
    }

    fn tree_hash_root(&self) -> (r: Hash256) {
        let mut leaves: Vec<u8> = Vec::new();
        push_root(&mut leaves, self.pubkey.tree_hash_root());
        push_root(&mut leaves, self.withdrawal_credentials.tree_hash_root());
        push_root(&mut leaves, self.amount.tree_hash_root());
        push_root(&mut leaves, self.signature.tree_hash_root());
        push_root(&mut leaves, self.index.tree_hash_root());
        assert(leaves@ == self.pubkey.root() + self.withdrawal_credentials.root()
            + self.amount.root() + self.signature.root() + self.index.root());
        merkle_root(&leaves, 0)
    }
}

impl TreeHash for WithdrawalRequest {
    open spec fn root(self) -> Seq<u8> {
        merkle_root_of(
            self.source_address.root() + self.validator_pubkey.root() + self.amount.root(),
            0,
        )
    }

    fn tree_hash_root(&self) -> (r: Hash256) {
        let mut leaves: Vec<u8> = Vec::new();
        push_root(&mut leaves, self.source_address.tree_hash_root());
        push_root(&mut leaves, self.validator_pubkey.tree_hash_root());
        push_root(&mut leaves, self.amount.tree_hash_root());
        assert(leaves@ == self.source_address.root() + self.validator_pubkey.root()
            + self.amount.root());
        merkle_root(&leaves, 0)
    }
}

impl TreeHash for ConsolidationRequest {
    open spec fn root(self) -> Seq<u8> {
        merkle_root_of(
            self.source_address.root() + self.source_pubkey.root() + self.target_pubkey.root(),
            0,
        )
    }

    fn tree_hash_root(&self) -> (r: Hash256) {
        let mut leaves: Vec<u8> = Vec::new();
        push_root(&mut leaves, self.source_address.tree_hash_root());
        push_root(&mut leaves, self.source_pubkey.tree_hash_root());
        push_root(&mut leaves, self.target_pubkey.tree_hash_root());
        assert(leaves@ == self.source_address.root() + self.source_pubkey.root()
            + self.target_pubkey.root());
        merkle_root(&leaves, 0)
    }
}

/// The roots of the items, one after the other.
pub open spec fn item_roots<T: TreeHash>(items: Seq<T>) -> Seq<u8>
    decreases items.len(),
{
    if items.len() == 0 {
        Seq::empty()
    } else {
        item_roots(items.drop_last()) + items.last().root()
    }
}

/// The root of a list that holds up to `limit` items.
pub open spec fn list_root<T: TreeHash>(items: Seq<T>, limit: usize) -> Seq<u8> {
    root_with_length(merkle_root_of(item_roots(items), limit as nat), items.len())
}

/// The root of a list that holds up to `limit` items.
pub fn hash_list<T: TreeHash>(items: &Vec<T>, limit: usize) -> (r: Hash256)
    requires
        items@.len() <= MAX_LIST_LIMIT,
        limit <= MAX_LIST_LIMIT,
    ensures
        r.bytes() == list_root(items@, limit),
{
    let mut leaves: Vec<u8> = Vec::new();
    let mut i: usize = 0;
    assert(item_roots(items@.take(0)) == leaves@);
    while i < items.len()
        invariant
            i <= items@.len() <= MAX_LIST_LIMIT,
            leaves@ == item_roots(items@.take(i as int)),
            leaves@.len() == i * BYTES_PER_CHUNK,
        decreases items@.len() - i,
    {
        push_root(&mut leaves, items[i].tree_hash_root());
        assert(items@.take(i + 1).drop_last() == items@.take(i as int));
        i = i + 1;
    }
    assert(items@.take(i as int) == items@);
    mix_in_length(merkle_root(&leaves, limit), items.len())
}

/// The number of leaves that `bytes` bytes span.
pub open spec fn leaf_count(bytes: usize) -> nat {
    (if bytes % BYTES_PER_CHUNK == 0 {
        bytes as int / BYTES_PER_CHUNK as int
    } else {
        bytes as int / BYTES_PER_CHUNK as int + 1
    }) as nat
}

/// The root of a list that holds up to `limit` bytes.
pub open spec fn byte_list_root(bytes: Seq<u8>, limit: usize) -> Seq<u8> {
    root_with_length(merkle_root_of(bytes, leaf_count(limit)), bytes.len())
}

/// The root of a list that holds up to `limit` bytes.
pub fn hash_byte_list(bytes: &Vec<u8>, limit: usize) -> (r: Hash256)
    requires
        bytes@.len() <= MAX_LIST_LIMIT * BYTES_PER_CHUNK,
        limit <= MAX_BYTE_LIST_LIMIT,
    ensures
        r.bytes() == byte_list_root(bytes@, limit),
{
    let leaves: usize = if limit % BYTES_PER_CHUNK == 0 {
        limit / BYTES_PER_CHUNK
    } else {
        limit / BYTES_PER_CHUNK + 1
    };
    mix_in_length(merkle_root(bytes, leaves), bytes.len())
}

/// The roots of lists that hold up to `limit` bytes each, one after the other.
pub open spec fn byte_list_roots(lists: Seq<Vec<u8>>, limit: usize) -> Seq<u8>
    decreases lists.len(),
{
    if lists.len() == 0 {
        Seq::empty()
    } else {
        byte_list_roots(lists.drop_last(), limit) + byte_list_root(lists.last()@, limit)
    }
}

/// The root of a list of transactions.
pub open spec fn transactions_root<E: EthSpec>(transactions: Seq<Vec<u8>>) -> Seq<u8> {
    root_with_length(
        merkle_root_of(
            byte_list_roots(transactions, E::spec_max_bytes_per_transaction()),
            E::spec_max_transactions_per_payload() as nat,
        ),
        transactions.len(),
    )
}

/// The root of a list of transactions.
pub fn hash_transactions<E: EthSpec>(transactions: &Vec<Vec<u8>>) -> (r: Hash256)
    requires
        transactions@.len() <= MAX_LIST_LIMIT,
        forall|i: int|
            0 <= i < transactions@.len() ==> (#[trigger] transactions@[i])@.len() <= MAX_LIST_LIMIT
                * BYTES_PER_CHUNK,
    ensures
        r.bytes() == transactions_root::<E>(transactions@),
{
    proof {
        E::lemma_list_limits();
    }
    let limit: usize = E::max_bytes_per_transaction();
    let mut leaves: Vec<u8> = Vec::new();
    let mut i: usize = 0;
    assert(byte_list_roots(transactions@.take(0), limit) == leaves@);
    while i < transactions.len()
        invariant
            i <= transactions@.len() <= MAX_LIST_LIMIT,
            limit <= MAX_BYTE_LIST_LIMIT,
            forall|k: int|
                0 <= k < transactions@.len() ==> (#[trigger] transactions@[k])@.len()
                    <= MAX_LIST_LIMIT * BYTES_PER_CHUNK,
            leaves@ == byte_list_roots(transactions@.take(i as int), limit),
            leaves@.len() == i * BYTES_PER_CHUNK,
        decreases transactions@.len() - i,
    {
        push_root(&mut leaves, hash_byte_list(&transactions[i], limit));
        assert(transactions@.take(i + 1).drop_last() == transactions@.take(i as int));
        i = i + 1;
    }
    assert(transactions@.take(i as int) == transactions@);
    mix_in_length(
        merkle_root(&leaves, E::max_transactions_per_payload()),
        transactions.len(),
    )
}

impl ExecutionPayloadGloas {
    /// Whether the lists are short enough to be hashed.
    pub open spec fn hashable(self) -> bool {
        &&& self.extra_data@.len() <= MAX_LIST_LIMIT * BYTES_PER_CHUNK
        &&& self.transactions@.len() <= MAX_LIST_LIMIT
        &&& forall|i: int|
            0 <= i < self.transactions@.len() ==> (#[trigger] self.transactions@[i])@.len()
                <= MAX_LIST_LIMIT * BYTES_PER_CHUNK
        &&& self.withdrawals@.len() <= MAX_LIST_LIMIT
    }

    /// The bytes of the root.
    pub open spec fn root<E: EthSpec>(self) -> Seq<u8> {
        merkle_root_of(
            self.parent_hash.root() + self.fee_recipient.root() + self.state_root.root()
                + self.receipts_root.root() + self.logs_bloom.root() + self.prev_randao.root()
                + self.block_number.root() + self.gas_limit.root() + self.gas_used.root()
                + self.timestamp.root() + byte_list_root(
                self.extra_data@,
                E::spec_max_extra_data_bytes(),
            ) + self.base_fee_per_gas.root() + self.block_hash.root() + transactions_root::<E>(
                self.transactions@,
            ) + list_root(self.withdrawals@, E::spec_max_withdrawals_per_payload())
                + self.blob_gas_used.root() + self.excess_blob_gas.root(),
            0,
        )
    }

    /// The root of the list of withdrawals.
    pub fn withdrawals_root<E: EthSpec>(&self) -> (r: Hash256)
        requires
            self.withdrawals@.len() <= MAX_LIST_LIMIT,
        ensures
            r.bytes() == list_root(self.withdrawals@, E::spec_max_withdrawals_per_payload()),
    {
        proof {
            E::lemma_list_limits();
        }
        hash_list(&self.withdrawals, E::max_withdrawals_per_payload())
    }

    /// The root.
    pub fn tree_hash_root<E: EthSpec>(&self) -> (r: Hash256)
        requires
            self.hashable(),
        ensures
            r.bytes() == self.root::<E>(),
    {
        proof {
            E::lemma_list_limits();
        }
        let mut leaves: Vec<u8> = Vec::new();
        push_root(&mut leaves, self.parent_hash.tree_hash_root());
        push_root(&mut leaves, self.fee_recipient.tree_hash_root());
        push_root(&mut leaves, self.state_root.tree_hash_root());
        push_root(&mut leaves, self.receipts_root.tree_hash_root());
        push_root(&mut leaves, self.logs_bloom.tree_hash_root());
        push_root(&mut leaves, self.prev_randao.tree_hash_root());
        push_root(&mut leaves, self.block_number.tree_hash_root());
        push_root(&mut leaves, self.gas_limit.tree_hash_root());
        push_root(&mut leaves, self.gas_used.tree_hash_root());
        push_root(&mut leaves, self.timestamp.tree_hash_root());
        push_root(&mut leaves, hash_byte_list(&self.extra_data, E::max_extra_data_bytes()));
        push_root(&mut leaves, self.base_fee_per_gas.tree_hash_root());
        push_root(&mut leaves, self.block_hash.tree_hash_root());
        push_root(&mut leaves, hash_transactions::<E>(&self.transactions));
        push_root(&mut leaves, self.withdrawals_root::<E>());
        push_root(&mut leaves, self.blob_gas_used.tree_hash_root());
        push_root(&mut leaves, self.excess_blob_gas.tree_hash_root());
        assert(leaves@ == self.parent_hash.root() + self.fee_recipient.root()
            + self.state_root.root() + self.receipts_root.root() + self.logs_bloom.root()
            + self.prev_randao.root() + self.block_number.root() + self.gas_limit.root()
            + self.gas_used.root() + self.timestamp.root() + byte_list_root(
            self.extra_data@,
            E::spec_max_extra_data_bytes(),
        ) + self.base_fee_per_gas.root() + self.block_hash.root() + transactions_root::<E>(
            self.transactions@,
        ) + list_root(self.withdrawals@, E::spec_max_withdrawals_per_payload())
            + self.blob_gas_used.root() + self.excess_blob_gas.root());
        merkle_root(&leaves, 0)
    }
}

impl ExecutionRequests {
    /// Whether the lists are short enough to be hashed.
    pub open spec fn hashable(self) -> bool {
        &&& self.deposits@.len() <= MAX_LIST_LIMIT
        &&& self.withdrawals@.len() <= MAX_LIST_LIMIT
        &&& self.consolidations@.len() <= MAX_LIST_LIMIT
    }

    /// The bytes of the root.
    pub open spec fn root<E: EthSpec>(self) -> Seq<u8> {
        merkle_root_of(
            list_root(self.deposits@, E::spec_max_deposit_requests_per_payload()) + list_root(
                self.withdrawals@,
                E::spec_max_withdrawal_requests_per_payload(),
            ) + list_root(self.consolidations@, E::spec_max_consolidation_requests_per_payload()),
            0,
        )
    }

    /// The root.
    pub fn tree_hash_root<E: EthSpec>(&self) -> (r: Hash256)
        requires
            self.hashable(),
        ensures
            r.bytes() == self.root::<E>(),
    {
        proof {
            E::lemma_list_limits();
        }
        let mut leaves: Vec<u8> = Vec::new();
        push_root(&mut leaves, hash_list(&self.deposits, E::max_deposit_requests_per_payload()));
        push_root(
            &mut leaves,
            hash_list(&self.withdrawals, E::max_withdrawal_requests_per_payload()),
        );
        push_root(
            &mut leaves,
            hash_list(&self.consolidations, E::max_consolidation_requests_per_payload()),
        );
        assert(leaves@ == list_root(self.deposits@, E::spec_max_deposit_requests_per_payload())
            + list_root(self.withdrawals@, E::spec_max_withdrawal_requests_per_payload())
            + list_root(self.consolidations@, E::spec_max_consolidation_requests_per_payload()));
        merkle_root(&leaves, 0)
    }
}

/// The bytes of the root of the commitments to the blobs of a payload.
pub open spec fn commitments_root<E: EthSpec>(commitments: Seq<KzgCommitment>) -> Seq<u8> {
    list_root(commitments, E::spec_max_blob_commitments_per_block())
}

/// The root of the commitments to the blobs of a payload.
pub fn hash_commitments<E: EthSpec>(commitments: &Vec<KzgCommitment>) -> (r: Hash256)
    requires
        commitments@.len() <= MAX_LIST_LIMIT,
    ensures
        r.bytes() == commitments_root::<E>(commitments@),
{
    proof {
        E::lemma_list_limits();
    }
    hash_list(commitments, E::max_blob_commitments_per_block())
}

impl<'a> ExecutionPayloadEnvelopeRef<'a> {
    /// Whether the lists are short enough to be hashed.
    pub open spec fn hashable(self) -> bool {
        &&& self.spec_payload().hashable()
        &&& self.spec_execution_requests().hashable()
        &&& self.spec_blob_kzg_commitments()@.len() <= MAX_LIST_LIMIT
    }

    /// The bytes of the root.
    pub open spec fn root<E: EthSpec>(self) -> Seq<u8> {
        merkle_root_of(
            self.spec_payload().root::<E>() + self.spec_execution_requests().root::<E>()
                + self.spec_builder_index().root() + self.spec_beacon_block_root().root()
                + self.spec_slot().root() + commitments_root::<E>(
                self.spec_blob_kzg_commitments()@,
            ) + self.spec_state_root().root(),
            0,
        )
    }

    /// The root.
    pub fn tree_hash_root<E: EthSpec>(&self) -> (r: Hash256)
        requires
            self.hashable(),
        ensures
            r.bytes() == self.root::<E>(),
    {
        let mut leaves: Vec<u8> = Vec::new();
        push_root(&mut leaves, self.payload().inner().tree_hash_root::<E>());
        push_root(&mut leaves, self.execution_requests().tree_hash_root::<E>());
        push_root(&mut leaves, self.builder_index().tree_hash_root());
        push_root(&mut leaves, self.beacon_block_root().tree_hash_root());
        push_root(&mut leaves, self.slot().tree_hash_root());
        push_root(&mut leaves, hash_commitments::<E>(self.blob_kzg_commitments()));
        push_root(&mut leaves, self.state_root().tree_hash_root());
        assert(leaves@ == self.spec_payload().root::<E>() + self.spec_execution_requests().root::<
            E,
        >() + self.spec_builder_index().root() + self.spec_beacon_block_root().root()
            + self.spec_slot().root() + commitments_root::<E>(self.spec_blob_kzg_commitments()@)
            + self.spec_state_root().root());
        merkle_root(&leaves, 0)
    }
}

impl SignedExecutionPayloadEnvelope {
    /// The signature of the envelope.
    pub open spec fn spec_signature(self) -> Signature {
        match self {
            SignedExecutionPayloadEnvelope::Gloas(signed) => signed.signature,
            SignedExecutionPayloadEnvelope::NextFork(signed) => signed.signature,
        }
    }

    /// The signature of the envelope.
    pub fn signature(&self) -> (r: &Signature)
        ensures
            *r == self.spec_signature(),
    {
        match self {
            SignedExecutionPayloadEnvelope::Gloas(signed) => &signed.signature,
            SignedExecutionPayloadEnvelope::NextFork(signed) => &signed.signature,
        }
    }

    /// The root.
    pub fn tree_hash_root<E: EthSpec>(&self) -> (r: Hash256)
        requires
            self.spec_message().hashable(),
        ensures
            r.bytes() == merkle_root_of(
                self.spec_message().root::<E>() + self.spec_signature().root(),
                0,
            ),
    {
        let mut leaves: Vec<u8> = Vec::new();
        push_root(&mut leaves, self.message().tree_hash_root::<E>());
        push_root(&mut leaves, self.signature().tree_hash_root());
        assert(leaves@ == self.spec_message().root::<E>() + self.spec_signature().root());
        merkle_root(&leaves, 0)
    }
}

} // verus!
