//! The envelope in which a builder reveals the payload of a slot.

use crate::eth_spec::{ChainSpec, EthSpec};
use crate::primitives::{
    Address, ExecutionBlockHash, FixedBytes, ForkName, Hash256, KzgCommitment, PublicKeyBytes,
    Signature, Slot,
};
use vstd::prelude::*;
use vstd::string::StringExecFns;

verus! {

/// A withdrawal from the beacon chain.
#[derive(Clone, Copy, Debug, PartialEq, Eq)]
pub struct Withdrawal {
    pub index: u64,
    pub validator_index: u64,
    pub address: Address,
    pub amount: u64,
}

/// A request to deposit, made on the execution layer.
#[derive(Clone, Copy, Debug, PartialEq, Eq)]
pub struct DepositRequest {
    pub pubkey: PublicKeyBytes,
    pub withdrawal_credentials: Hash256,
    pub amount: u64,
    pub signature: Signature,
    pub index: u64,
}

impl DepositRequest {
    /// Whether every field is zero.
    pub open spec fn is_zero(self) -> bool {
        &&& self.pubkey.is_zero()
        &&& self.withdrawal_credentials.is_zero()
        &&& self.amount == 0
        &&& self.signature.is_zero()
        &&& self.index == 0
    }
}

/// A request to withdraw, made on the execution layer.
#[derive(Clone, Copy, Debug, PartialEq, Eq)]
pub struct WithdrawalRequest {
    pub source_address: Address,
    pub validator_pubkey: PublicKeyBytes,
    pub amount: u64,
}

impl WithdrawalRequest {
    /// Whether every field is zero.
    pub open spec fn is_zero(self) -> bool {
        self.source_address.is_zero() && self.validator_pubkey.is_zero() && self.amount == 0
    }
}

/// A request to consolidate two validators, made on the execution layer.
#[derive(Clone, Copy, Debug, PartialEq, Eq)]
pub struct ConsolidationRequest {
    pub source_address: Address,
    pub source_pubkey: PublicKeyBytes,
    pub target_pubkey: PublicKeyBytes,
}

impl ConsolidationRequest {
    /// Whether every field is zero.
    pub open spec fn is_zero(self) -> bool {
        &&& self.source_address.is_zero()
        &&& self.source_pubkey.is_zero()
        &&& self.target_pubkey.is_zero()
    }
}

/// The requests that the execution layer hands to the beacon chain.
#[derive(Clone, Debug, PartialEq, Eq)]
pub struct ExecutionRequests {
    pub deposits: Vec<DepositRequest>,
    pub withdrawals: Vec<WithdrawalRequest>,
    pub consolidations: Vec<ConsolidationRequest>,
}

/// The payload of an execution layer block.
#[derive(Clone, Debug, PartialEq, Eq)]
pub struct ExecutionPayloadGloas {
    pub parent_hash: ExecutionBlockHash,
    pub fee_recipient: Address,
    pub state_root: Hash256,
    pub receipts_root: Hash256,
    pub logs_bloom: FixedBytes<256>,
    pub prev_randao: Hash256,
    pub block_number: u64,
    pub gas_limit: u64,
    pub gas_used: u64,
    pub timestamp: u64,
    pub extra_data: Vec<u8>,
    /// A 256-bit integer, its lowest byte first.
    pub base_fee_per_gas: FixedBytes<32>,
    pub block_hash: ExecutionBlockHash,
    pub transactions: Vec<Vec<u8>>,
    pub withdrawals: Vec<Withdrawal>,
    pub blob_gas_used: u64,
    pub excess_blob_gas: u64,
}

impl ExecutionPayloadGloas {
    /// Whether every field is zero or empty.
    pub open spec fn is_default(self) -> bool {
        &&& self.parent_hash.is_zero()
        &&& self.fee_recipient.is_zero()
        &&& self.state_root.is_zero()
        &&& self.receipts_root.is_zero()
        &&& self.logs_bloom.is_zero()
        &&& self.prev_randao.is_zero()
        &&& self.block_number == 0
        &&& self.gas_limit == 0
        &&& self.gas_used == 0
        &&& self.timestamp == 0
        &&& self.extra_data@.len() == 0
        &&& self.base_fee_per_gas.is_zero()
        &&& self.block_hash.is_zero()
        &&& self.transactions@.len() == 0
        &&& self.withdrawals@.len() == 0
        &&& self.blob_gas_used == 0
        &&& self.excess_blob_gas == 0
    }
}

impl Default for ExecutionPayloadGloas {
    fn default() -> (r: Self)
        ensures
            r.is_default(),
    {
        ExecutionPayloadGloas {
            parent_hash: Hash256::zero(),
            fee_recipient: Address::zero(),
            state_root: Hash256::zero(),
            receipts_root: Hash256::zero(),
            logs_bloom: FixedBytes::<256>::zero(),
            prev_randao: Hash256::zero(),
            block_number: 0,
            gas_limit: 0,
            gas_used: 0,
            timestamp: 0,
            extra_data: Vec::new(),
            base_fee_per_gas: FixedBytes::<32>::zero(),
            block_hash: Hash256::zero(),
            transactions: Vec::new(),
            withdrawals: Vec::new(),
            blob_gas_used: 0,
            excess_blob_gas: 0,
        }
    }
}

/// The envelope of the Gloas fork.
#[derive(Clone, Debug, PartialEq, Eq)]
pub struct ExecutionPayloadEnvelopeGloas {
    pub payload: ExecutionPayloadGloas,
    pub execution_requests: ExecutionRequests,
    pub builder_index: u64,
    pub beacon_block_root: Hash256,
    pub slot: Slot,
    pub blob_kzg_commitments: Vec<KzgCommitment>,
    pub state_root: Hash256,
}

/// The envelope of the fork after Gloas.
#[derive(Clone, Debug, PartialEq, Eq)]
pub struct ExecutionPayloadEnvelopeNextFork {
    pub payload: ExecutionPayloadGloas,
    pub execution_requests: ExecutionRequests,
    pub builder_index: u64,
    pub beacon_block_root: Hash256,
    pub slot: Slot,
    pub blob_kzg_commitments: Vec<KzgCommitment>,
    pub state_root: Hash256,
}

/// An envelope of any fork that has them.
#[derive(Clone, Debug, PartialEq, Eq)]
pub enum ExecutionPayloadEnvelope {
    Gloas(ExecutionPayloadEnvelopeGloas),
    NextFork(ExecutionPayloadEnvelopeNextFork),
}

/// A borrowed envelope of any fork that has them.
#[derive(Clone, Copy, Debug, PartialEq, Eq)]
pub enum ExecutionPayloadEnvelopeRef<'a> {
    Gloas(&'a ExecutionPayloadEnvelopeGloas),
    NextFork(&'a ExecutionPayloadEnvelopeNextFork),
}

/// A borrowed payload.
#[derive(Clone, Copy, Debug, PartialEq, Eq)]
pub enum ExecutionPayloadRef<'a> {
    Gloas(&'a ExecutionPayloadGloas),
}

impl<'a> ExecutionPayloadRef<'a> {
    /// The payload itself.
    pub open spec fn spec_inner(self) -> ExecutionPayloadGloas {
        match self {
            ExecutionPayloadRef::Gloas(payload) => *payload,
        }
    }

    /// The payload itself.
    pub fn inner(&self) -> (r: &'a ExecutionPayloadGloas)
        ensures
            *r == self.spec_inner(),
    {
        match self {
            ExecutionPayloadRef::Gloas(payload) => payload,
        }
    }
}

impl<'a> ExecutionPayloadEnvelopeRef<'a> {
    /// The payload in the envelope.
    pub open spec fn spec_payload(self) -> ExecutionPayloadGloas {
        match self {
            ExecutionPayloadEnvelopeRef::Gloas(envelope) => envelope.payload,
            ExecutionPayloadEnvelopeRef::NextFork(envelope) => envelope.payload,
        }
    }

    /// The payload in the envelope.
    pub fn payload(&self) -> (r: ExecutionPayloadRef<'a>)
        ensures
            r.spec_inner() == self.spec_payload(),
    {
        match self {
            ExecutionPayloadEnvelopeRef::Gloas(envelope) => {
                ExecutionPayloadRef::Gloas(&envelope.payload)
            },
            ExecutionPayloadEnvelopeRef::NextFork(envelope) => {
                ExecutionPayloadRef::Gloas(&envelope.payload)
            },
        }
    }

    /// The requests in the envelope.
    pub open spec fn spec_execution_requests(self) -> ExecutionRequests {
        match self {
            ExecutionPayloadEnvelopeRef::Gloas(envelope) => envelope.execution_requests,
            ExecutionPayloadEnvelopeRef::NextFork(envelope) => envelope.execution_requests,
        }
    }

    /// The requests in the envelope.
    pub fn execution_requests(&self) -> (r: &'a ExecutionRequests)
        ensures
            *r == self.spec_execution_requests(),
    {
        match self {
            ExecutionPayloadEnvelopeRef::Gloas(envelope) => &envelope.execution_requests,
            ExecutionPayloadEnvelopeRef::NextFork(envelope) => &envelope.execution_requests,
        }
    }

    /// The builder of the payload.
    pub open spec fn spec_builder_index(self) -> u64 {
        match self {
            ExecutionPayloadEnvelopeRef::Gloas(envelope) => envelope.builder_index,
            ExecutionPayloadEnvelopeRef::NextFork(envelope) => envelope.builder_index,
        }
    }

    /// The builder of the payload.
    pub fn builder_index(&self) -> (r: u64)
        ensures
            r == self.spec_builder_index(),
    {
        match self {
            ExecutionPayloadEnvelopeRef::Gloas(envelope) => envelope.builder_index,
            ExecutionPayloadEnvelopeRef::NextFork(envelope) => envelope.builder_index,
        }
    }

    /// The root of the block that the envelope belongs to.
    pub open spec fn spec_beacon_block_root(self) -> Hash256 {
        match self {
            ExecutionPayloadEnvelopeRef::Gloas(envelope) => envelope.beacon_block_root,
            ExecutionPayloadEnvelopeRef::NextFork(envelope) => envelope.beacon_block_root,
        }
    }

    /// The root of the block that the envelope belongs to.
    pub fn beacon_block_root(&self) -> (r: Hash256)
        ensures
            r == self.spec_beacon_block_root(),
    {
        match self {
            ExecutionPayloadEnvelopeRef::Gloas(envelope) => envelope.beacon_block_root,
            ExecutionPayloadEnvelopeRef::NextFork(envelope) => envelope.beacon_block_root,
        }
    }

    /// The slot of the envelope.
    pub open spec fn spec_slot(self) -> Slot {
        match self {
            ExecutionPayloadEnvelopeRef::Gloas(envelope) => envelope.slot,
            ExecutionPayloadEnvelopeRef::NextFork(envelope) => envelope.slot,
        }
    }

    /// The slot of the envelope.
    pub fn slot(&self) -> (r: Slot)
        ensures
            r == self.spec_slot(),
    {
        match self {
            ExecutionPayloadEnvelopeRef::Gloas(envelope) => envelope.slot,
            ExecutionPayloadEnvelopeRef::NextFork(envelope) => envelope.slot,
        }
    }

    /// The commitments to the blobs of the payload.
    pub open spec fn spec_blob_kzg_commitments(self) -> Vec<KzgCommitment> {
        match self {
            ExecutionPayloadEnvelopeRef::Gloas(envelope) => envelope.blob_kzg_commitments,
            ExecutionPayloadEnvelopeRef::NextFork(envelope) => envelope.blob_kzg_commitments,
        }
    }

    /// The commitments to the blobs of the payload.
    pub fn blob_kzg_commitments(&self) -> (r: &'a Vec<KzgCommitment>)
        ensures
            *r == self.spec_blob_kzg_commitments(),
    {
        match self {
            ExecutionPayloadEnvelopeRef::Gloas(envelope) => &envelope.blob_kzg_commitments,
            ExecutionPayloadEnvelopeRef::NextFork(envelope) => &envelope.blob_kzg_commitments,
        }
    }

    /// The root of the state after the envelope.
    pub open spec fn spec_state_root(self) -> Hash256 {
        match self {
            ExecutionPayloadEnvelopeRef::Gloas(envelope) => envelope.state_root,
            ExecutionPayloadEnvelopeRef::NextFork(envelope) => envelope.state_root,
        }
    }

    /// The root of the state after the envelope.
    pub fn state_root(&self) -> (r: Hash256)
        ensures
            r == self.spec_state_root(),
    {
        match self {
            ExecutionPayloadEnvelopeRef::Gloas(envelope) => envelope.state_root,
            ExecutionPayloadEnvelopeRef::NextFork(envelope) => envelope.state_root,
        }
    }
}

/// The first slot of the Gloas fork.
pub open spec fn gloas_start_slot(spec: ChainSpec, slots_per_epoch: u64) -> Slot {
    spec.gloas_fork_epoch->0.spec_start_slot(slots_per_epoch)
}

/// Trait for creating empty execution payload envelopes.
pub trait EmptyEnvelope: Sized {
    /// Whether this is the empty envelope of `slot`.
    spec fn is_empty_at(self, slot: Slot) -> bool;

    /// Returns an empty envelope.
    fn empty<E: EthSpec>(spec: &ChainSpec) -> (r: Self)
        requires
            spec.gloas_fork_epoch is Some,
        ensures
            r.is_empty_at(gloas_start_slot(*spec, E::spec_slots_per_epoch())),
    ;
}

/// Trait for creating full-sized execution payload envelopes.
pub trait FullEnvelope: Sized {
    /// Whether this is the envelope of `slot` with lists of the given lengths, all entries zero.
    spec fn is_full_at(
        self,
        slot: Slot,
        deposits: nat,
        withdrawals: nat,
        consolidations: nat,
        commitments: nat,
    ) -> bool;

    /// Returns an envelope with maximum-sized variable fields.
    fn full<E: EthSpec>(spec: &ChainSpec) -> (r: Self)
        requires
            spec.gloas_fork_epoch is Some,
        ensures
            r.is_full_at(
                gloas_start_slot(*spec, E::spec_slots_per_epoch()),
                E::spec_max_deposit_requests_per_payload() as nat,
                E::spec_max_withdrawal_requests_per_payload() as nat,
                E::spec_max_consolidation_requests_per_payload() as nat,
                E::spec_max_blob_commitments_per_block() as nat,
            ),
    ;
}

impl EmptyEnvelope for ExecutionPayloadEnvelopeGloas {
    open spec fn is_empty_at(self, slot: Slot) -> bool {
        &&& self.payload.is_default()
        &&& self.execution_requests.deposits@.len() == 0
        &&& self.execution_requests.withdrawals@.len() == 0
        &&& self.execution_requests.consolidations@.len() == 0
        &&& self.builder_index == 0
        &&& self.beacon_block_root.is_zero()
        &&& self.slot == slot
        &&& self.blob_kzg_commitments@.len() == 0
        &&& self.state_root.is_zero()
    }

    /// Returns an empty Gloas execution payload envelope.
    fn empty<E: EthSpec>(spec: &ChainSpec) -> (r: Self) {
        ExecutionPayloadEnvelopeGloas {
            payload: ExecutionPayloadGloas::default(),
            execution_requests: ExecutionRequests {
                deposits: Vec::new(),
                withdrawals: Vec::new(),
                consolidations: Vec::new(),
            },
            builder_index: 0,
            beacon_block_root: Hash256::zero(),
            slot: spec.gloas_fork_epoch.unwrap().start_slot(E::slots_per_epoch()),
            blob_kzg_commitments: Vec::new(),
            state_root: Hash256::zero(),
        }
    }
}

/// A list of `n` copies of `item`.
fn repeat<T: Copy>(item: T, n: usize) -> (r: Vec<T>)
    ensures
        r@.len() == n,
        forall|i: int| 0 <= i < n ==> #[trigger] r@[i] == item,
{
    let mut list: Vec<T> = Vec::new();
    let mut i: usize = 0;
    while i < n
        invariant
            i <= n,
            list@.len() == i,
            forall|k: int| 0 <= k < i ==> #[trigger] list@[k] == item,
        decreases n - i,
    {
        list.push(item);
        i = i + 1;
    }
    list
}

impl FullEnvelope for ExecutionPayloadEnvelopeGloas {
    open spec fn is_full_at(
        self,
        slot: Slot,
        deposits: nat,
        withdrawals: nat,
        consolidations: nat,
        commitments: nat,
    ) -> bool {
        let requests = self.execution_requests;
        &&& self.payload.is_default()
        &&& requests.deposits@.len() == deposits
        &&& forall|i: int| 0 <= i < deposits ==> (#[trigger] requests.deposits@[i]).is_zero()
        &&& requests.withdrawals@.len() == withdrawals
        &&& forall|i: int| 0 <= i < withdrawals ==> (#[trigger] requests.withdrawals@[i]).is_zero()
        &&& requests.consolidations@.len() == consolidations
        &&& forall|i: int|
            0 <= i < consolidations ==> (#[trigger] requests.consolidations@[i]).is_zero()
        &&& self.builder_index == 0
        &&& self.beacon_block_root.is_zero()
        &&& self.slot == slot
        &&& self.blob_kzg_commitments@.len() == commitments
        &&& forall|i: int|
            0 <= i < commitments ==> (#[trigger] self.blob_kzg_commitments@[i]).is_zero()
        &&& self.state_root.is_zero()
    }

    /// Returns a Gloas execution payload envelope with maximum-sized variable fields.
    ///
    /// The payload itself is empty: its largest size is accounted for elsewhere.
    fn full<E: EthSpec>(spec: &ChainSpec) -> (r: Self) {
        let deposit_request = DepositRequest {
            pubkey: PublicKeyBytes::zero(),
            withdrawal_credentials: Hash256::zero(),
            amount: 0,
            signature: Signature::zero(),
            index: 0,
        };
        let withdrawal_request = WithdrawalRequest {
            source_address: Address::zero(),
            validator_pubkey: PublicKeyBytes::zero(),
            amount: 0,
        };
        let consolidation_request = ConsolidationRequest {
            source_address: Address::zero(),
            source_pubkey: PublicKeyBytes::zero(),
            target_pubkey: PublicKeyBytes::zero(),
        };
        let kzg_commitment = KzgCommitment::zero();
        ExecutionPayloadEnvelopeGloas {
            payload: ExecutionPayloadGloas::default(),
            execution_requests: ExecutionRequests {
                deposits: repeat(deposit_request, E::max_deposit_requests_per_payload()),
                withdrawals: repeat(withdrawal_request, E::max_withdrawal_requests_per_payload()),
                consolidations: repeat(
                    consolidation_request,
                    E::max_consolidation_requests_per_payload(),
                ),
            },
            builder_index: 0,
            beacon_block_root: Hash256::zero(),
            slot: spec.gloas_fork_epoch.unwrap().start_slot(E::slots_per_epoch()),
            blob_kzg_commitments: repeat(kzg_commitment, E::max_blob_commitments_per_block()),
            state_root: Hash256::zero(),
        }
    }
}

/// `message` followed by the name of the fork.
pub(crate) fn unsupported_fork(message: &str, fork_name: ForkName) -> (r: String)
    ensures
        r@ == message@ + fork_name.spec_name(),
{
    let mut text = message.to_owned();
    text.append(fork_name.name());
    text
}

impl ExecutionPayloadEnvelope {
    /// Returns an empty envelope
    pub fn empty<E: EthSpec>(spec: &ChainSpec) -> (r: Self)
        requires
            spec.gloas_fork_epoch is Some,
        ensures
            r matches ExecutionPayloadEnvelope::Gloas(envelope) && envelope.is_empty_at(
                gloas_start_slot(*spec, E::spec_slots_per_epoch()),
            ),
    {
        // For now, only Gloas is supported
        ExecutionPayloadEnvelope::Gloas(ExecutionPayloadEnvelopeGloas::empty::<E>(spec))
    }

    /// Returns an envelope with maximum-sized variable fields
    pub fn full<E: EthSpec>(spec: &ChainSpec) -> (r: Self)
        requires
            spec.gloas_fork_epoch is Some,
        ensures
            r matches ExecutionPayloadEnvelope::Gloas(envelope) && envelope.is_full_at(
                gloas_start_slot(*spec, E::spec_slots_per_epoch()),
                E::spec_max_deposit_requests_per_payload() as nat,
                E::spec_max_withdrawal_requests_per_payload() as nat,
                E::spec_max_consolidation_requests_per_payload() as nat,
                E::spec_max_blob_commitments_per_block() as nat,
            ),
    {
        // For now, only Gloas is supported
        ExecutionPayloadEnvelope::Gloas(ExecutionPayloadEnvelopeGloas::full::<E>(spec))
    }

    /// The envelope, if it was read in the context of the fork that it belongs to; otherwise a
    /// message that names the fork.
    pub fn in_fork_context(self, context: ForkName) -> (r: Result<Self, String>)
        ensures
            context is Gloas && self is Gloas ==> r == Ok::<Self, String>(self),
            !(context is Gloas && self is Gloas) ==> (r matches Err(message) && message@
                == "ExecutionPayloadEnvelope does not support fork "@ + context.spec_name()),
    {
        if context.gloas_enabled() {
            if let ExecutionPayloadEnvelope::Gloas(_) = self {
                return Ok(self);
            }
        }
        Err(unsupported_fork("ExecutionPayloadEnvelope does not support fork ", context))
    }
}

/// A signed envelope of the Gloas fork.
#[derive(Clone, Debug, PartialEq, Eq)]
pub struct SignedExecutionPayloadEnvelopeGloas {
    pub message: ExecutionPayloadEnvelopeGloas,
    pub signature: Signature,
}

/// A signed envelope of the fork after Gloas.
#[derive(Clone, Debug, PartialEq, Eq)]
pub struct SignedExecutionPayloadEnvelopeNextFork {
    pub message: ExecutionPayloadEnvelopeNextFork,
    pub signature: Signature,
}

/// A signed envelope of any fork that has them.
#[derive(Clone, Debug, PartialEq, Eq)]
pub enum SignedExecutionPayloadEnvelope {
    Gloas(SignedExecutionPayloadEnvelopeGloas),
    NextFork(SignedExecutionPayloadEnvelopeNextFork),
}

impl SignedExecutionPayloadEnvelope {
    /// Create a new `SignedExecutionPayloadEnvelope` from an `ExecutionPayloadEnvelope` and
    /// `Signature`.
    pub fn from_envelope(envelope: ExecutionPayloadEnvelope, signature: Signature) -> (r: Self)
        ensures
            r == (match envelope {
                ExecutionPayloadEnvelope::Gloas(message) => SignedExecutionPayloadEnvelope::Gloas(
                    SignedExecutionPayloadEnvelopeGloas { message, signature },
                ),
                ExecutionPayloadEnvelope::NextFork(message) => {
                    SignedExecutionPayloadEnvelope::NextFork(
                        SignedExecutionPayloadEnvelopeNextFork { message, signature },
                    )
                },
            }),
    {
        match envelope {
            ExecutionPayloadEnvelope::Gloas(message) => SignedExecutionPayloadEnvelope::Gloas(
                SignedExecutionPayloadEnvelopeGloas { message, signature },
            ),
            ExecutionPayloadEnvelope::NextFork(message) => {
                SignedExecutionPayloadEnvelope::NextFork(
                    SignedExecutionPayloadEnvelopeNextFork { message, signature },
                )
            },
        }
    }

    /// The envelope without its signature.
    pub open spec fn spec_message(&self) -> ExecutionPayloadEnvelopeRef<'_> {
        match self {
            SignedExecutionPayloadEnvelope::Gloas(signed) => {
                ExecutionPayloadEnvelopeRef::Gloas(&signed.message)
            },
            SignedExecutionPayloadEnvelope::NextFork(signed) => {
                ExecutionPayloadEnvelopeRef::NextFork(&signed.message)
            },
        }
    }

    /// The envelope without its signature.
    pub fn message(&self) -> (r: ExecutionPayloadEnvelopeRef<'_>)
        ensures
            r == self.spec_message(),
    {
        match self {
            SignedExecutionPayloadEnvelope::Gloas(signed) => {
                ExecutionPayloadEnvelopeRef::Gloas(&signed.message)
            },
            SignedExecutionPayloadEnvelope::NextFork(signed) => {
                ExecutionPayloadEnvelopeRef::NextFork(&signed.message)
            },
        }
    }

    /// The envelope, if it was read in the context of the fork that it belongs to; otherwise a
    /// message that names the fork.
    pub fn in_fork_context(self, context: ForkName) -> (r: Result<Self, String>)
        ensures
            context is Gloas && self is Gloas ==> r == Ok::<Self, String>(self),
            !(context is Gloas && self is Gloas) ==> (r matches Err(message) && message@
                == "SignedExecutionPayloadEnvelope does not support fork "@ + context.spec_name()),
    {
        if context.gloas_enabled() {
            if let SignedExecutionPayloadEnvelope::Gloas(_) = self {
                return Ok(self);
            }
        }
        Err(unsupported_fork("SignedExecutionPayloadEnvelope does not support fork ", context))
    }
}

} // verus!
