//! The SSZ encodings and the Merkle roots of signed bids and of payload attestation messages.

use crate::beacon_state::{ExecutionBid, SignedExecutionBid};
use crate::merkle::{merkle_root, merkle_root_of, padded_chunk, push_root, TreeHash};
use crate::payload_attestation_service::{PayloadAttestationData, PayloadAttestationMessage};
use crate::primitives::{lemma_fixed_bytes_ext, Hash256, Signature, Slot};
use crate::ssz::{append_u64, lemma_u64_bytes, read_bytes, read_u64, DecodeError, DecodeErrorModel};
use crate::text::{append_decimal, decimal};
use vstd::prelude::*;

verus! {

/// The byte of a truth value.
pub open spec fn bool_byte(value: bool) -> u8 {
    if value {
        1
    } else {
        0
    }
}

/// The bytes of an integer, the lowest first.
pub open spec fn le(value: u64) -> Seq<u8> {
    vstd::bytes::spec_u64_to_le_bytes(value)
}

fn byte_of(value: bool) -> (r: u8)
    ensures
        r == bool_byte(value),
{
    if value {
        1
    } else {
        0
    }
}

impl ExecutionBid {
    /// The encoding of the bid.
    pub open spec fn ssz(self) -> Seq<u8> {
        self.parent_block_hash.bytes() + self.parent_block_root.bytes() + self.block_hash.bytes()
            + self.fee_recipient.bytes() + le(self.gas_limit) + le(self.builder_index) + le(
            self.slot.0,
        ) + le(self.value) + self.blob_kzg_commitments_root.bytes()
    }
}

/// The encoding of a bid has 180 bytes, and no other bid has it.
pub proof fn lemma_bid_encoding(a: ExecutionBid, b: ExecutionBid)
    ensures
        a.ssz().len() == 180,
        a.ssz() == b.ssz() ==> a == b,
{
    lemma_u64_bytes(a.gas_limit, b.gas_limit);
    lemma_u64_bytes(a.builder_index, b.builder_index);
    lemma_u64_bytes(a.slot.0, b.slot.0);
    lemma_u64_bytes(a.value, b.value);
    if a.ssz() == b.ssz() {
        let s = a.ssz();
        let t = b.ssz();
        assert(a.parent_block_hash.bytes() =~= s.subrange(0, 32));
        assert(b.parent_block_hash.bytes() =~= t.subrange(0, 32));
        assert(a.parent_block_root.bytes() =~= s.subrange(32, 64));
        assert(b.parent_block_root.bytes() =~= t.subrange(32, 64));
        assert(a.block_hash.bytes() =~= s.subrange(64, 96));
        assert(b.block_hash.bytes() =~= t.subrange(64, 96));
        assert(a.fee_recipient.bytes() =~= s.subrange(96, 116));
        assert(b.fee_recipient.bytes() =~= t.subrange(96, 116));
        assert(le(a.gas_limit) =~= s.subrange(116, 124));
        assert(le(b.gas_limit) =~= t.subrange(116, 124));
        assert(le(a.builder_index) =~= s.subrange(124, 132));
        assert(le(b.builder_index) =~= t.subrange(124, 132));
        assert(le(a.slot.0) =~= s.subrange(132, 140));
        assert(le(b.slot.0) =~= t.subrange(132, 140));
        assert(le(a.value) =~= s.subrange(140, 148));
        assert(le(b.value) =~= t.subrange(140, 148));
        assert(a.blob_kzg_commitments_root.bytes() =~= s.subrange(148, 180));
        assert(b.blob_kzg_commitments_root.bytes() =~= t.subrange(148, 180));
        lemma_fixed_bytes_ext(a.parent_block_hash, b.parent_block_hash);
        lemma_fixed_bytes_ext(a.parent_block_root, b.parent_block_root);
        lemma_fixed_bytes_ext(a.block_hash, b.block_hash);
        lemma_fixed_bytes_ext(a.fee_recipient, b.fee_recipient);
        lemma_fixed_bytes_ext(a.blob_kzg_commitments_root, b.blob_kzg_commitments_root);
    }
}

impl SignedExecutionBid {
    /// The encoding of the signed bid.
    pub open spec fn ssz(self) -> Seq<u8> {
        self.message.ssz() + self.signature.bytes()
    }

    /// The encoding of the signed bid.
    pub fn as_ssz_bytes(&self) -> (r: Vec<u8>)
        ensures
            r@ == self.ssz(),
    {
        let bid = &self.message;
        let mut out: Vec<u8> = Vec::new();
        bid.parent_block_hash.append_to(&mut out);
        bid.parent_block_root.append_to(&mut out);
        bid.block_hash.append_to(&mut out);
        bid.fee_recipient.append_to(&mut out);
        append_u64(bid.gas_limit, &mut out);
        append_u64(bid.builder_index, &mut out);
        append_u64(bid.slot.0, &mut out);
        append_u64(bid.value, &mut out);
        bid.blob_kzg_commitments_root.append_to(&mut out);
        assert(out@ =~= bid.ssz());
        self.signature.append_to(&mut out);
        out
    }

    /// The signed bid that `bytes` encodes, if it encodes one whose signature is well-formed;
    /// `check_signature` tells what is wrong with a signature, if anything is.
    pub fn from_ssz_bytes<F: Fn(&Signature) -> Option<String>>(
        bytes: &[u8],
        check_signature: F,
    ) -> (r: Result<Self, DecodeError>)
        requires
            forall|signature: Signature| call_requires(check_signature, (&signature,)),
        ensures
            match r {
                Ok(bid) => bid.ssz() == bytes@ && call_ensures(
                    check_signature,
                    (&bid.signature,),
                    None,
                ),
                Err(e) => if bytes@.len() != 276 {
                    &&& e@ == (DecodeErrorModel::InvalidByteLength {
                        len: bytes@.len() as int,
                        expected: 276,
                    })
                    &&& forall|bid: SignedExecutionBid| #[trigger] bid.ssz() != bytes@
                } else {
                    e matches DecodeError::BytesInvalid(reason) && forall|bid: SignedExecutionBid|
                        #[trigger] bid.ssz() == bytes@ ==> call_ensures(
                            check_signature,
                            (&bid.signature,),
                            Some(reason),
                        )
                },
            },
    {
        if bytes.len() != 276 {
            assert forall|bid: SignedExecutionBid| #[trigger] bid.ssz() != bytes@ by {
                lemma_bid_encoding(bid.message, bid.message);
            }
            return Err(DecodeError::InvalidByteLength { len: bytes.len(), expected: 276 });
        }
        let bid = SignedExecutionBid {
            message: ExecutionBid {
                parent_block_hash: read_bytes(bytes, 0),
                parent_block_root: read_bytes(bytes, 32),
                block_hash: read_bytes(bytes, 64),
                fee_recipient: read_bytes(bytes, 96),
                gas_limit: read_u64(bytes, 116),
                builder_index: read_u64(bytes, 124),
                slot: Slot(read_u64(bytes, 132)),
                value: read_u64(bytes, 140),
                blob_kzg_commitments_root: read_bytes(bytes, 148),
            },
            signature: read_bytes(bytes, 180),
        };
        assert(bid.ssz() =~= bytes@);
        match check_signature(&bid.signature) {
            None => Ok(bid),
            Some(reason) => {
                proof {
                    assert forall|other: SignedExecutionBid| #[trigger]
                        other.ssz() == bytes@ implies other.signature == bid.signature by {
                        lemma_signed_bid_encoding(other, bid);
                    }
                }
                Err(DecodeError::BytesInvalid(reason))
            },
        }
    }
}

/// The encoding loses nothing: no two signed bids have the same.
pub proof fn lemma_signed_bid_encoding(a: SignedExecutionBid, b: SignedExecutionBid)
    requires
        a.ssz() == b.ssz(),
    ensures
        a == b,
{
    lemma_bid_encoding(a.message, b.message);
    lemma_bid_encoding(b.message, a.message);
    assert(a.message.ssz() =~= a.ssz().subrange(0, 180));
    assert(b.message.ssz() =~= b.ssz().subrange(0, 180));
    assert(a.signature.bytes() =~= a.ssz().subrange(180, 276));
    assert(b.signature.bytes() =~= b.ssz().subrange(180, 276));
    lemma_fixed_bytes_ext(a.signature, b.signature);
}

impl TreeHash for ExecutionBid {
    open spec fn root(self) -> Seq<u8> {
        merkle_root_of(
            self.parent_block_hash.root() + self.parent_block_root.root() + self.block_hash.root()
                + self.fee_recipient.root() + self.gas_limit.root() + self.builder_index.root()
                + self.slot.root() + self.value.root() + self.blob_kzg_commitments_root.root(),
            0,
        )
    }

    fn tree_hash_root(&self) -> (r: Hash256) {
        let mut leaves: Vec<u8> = Vec::new();
        push_root(&mut leaves, self.parent_block_hash.tree_hash_root());
        push_root(&mut leaves, self.parent_block_root.tree_hash_root());
        push_root(&mut leaves, self.block_hash.tree_hash_root());
        push_root(&mut leaves, self.fee_recipient.tree_hash_root());
        push_root(&mut leaves, self.gas_limit.tree_hash_root());
        push_root(&mut leaves, self.builder_index.tree_hash_root());
        push_root(&mut leaves, self.slot.tree_hash_root());
        push_root(&mut leaves, self.value.tree_hash_root());
        push_root(&mut leaves, self.blob_kzg_commitments_root.tree_hash_root());
        assert(leaves@ == self.parent_block_hash.root() + self.parent_block_root.root()
            + self.block_hash.root() + self.fee_recipient.root() + self.gas_limit.root()
            + self.builder_index.root() + self.slot.root() + self.value.root()
            + self.blob_kzg_commitments_root.root());
        merkle_root(&leaves, 0)
    }
}

impl TreeHash for SignedExecutionBid {
    open spec fn root(self) -> Seq<u8> {
        merkle_root_of(self.message.root() + self.signature.root(), 0)
    }

    fn tree_hash_root(&self) -> (r: Hash256) {
        let mut leaves: Vec<u8> = Vec::new();
        push_root(&mut leaves, self.message.tree_hash_root());
        push_root(&mut leaves, self.signature.tree_hash_root());
        assert(leaves@ == self.message.root() + self.signature.root());
        merkle_root(&leaves, 0)
    }
}

impl TreeHash for bool {
    open spec fn root(self) -> Seq<u8> {
        padded_chunk(seq![bool_byte(self)])
    }

    fn tree_hash_root(&self) -> (r: Hash256) {
        let bytes: Vec<u8> = vec![byte_of(*self)];
        assert(bytes@ =~= seq![bool_byte(*self)]);
        merkle_root(&bytes, 0)
    }
}

impl PayloadAttestationData {
    /// The encoding of the data.
    pub open spec fn ssz(self) -> Seq<u8> {
        self.beacon_block_root.bytes() + le(self.slot.0) + seq![
            bool_byte(self.payload_present),
            bool_byte(self.blob_data_available),
        ]
    }
}

impl TreeHash for PayloadAttestationData {
    open spec fn root(self) -> Seq<u8> {
        merkle_root_of(
            self.beacon_block_root.root() + self.slot.root() + self.payload_present.root()
                + self.blob_data_available.root(),
            0,
        )
    }

    fn tree_hash_root(&self) -> (r: Hash256) {
        let mut leaves: Vec<u8> = Vec::new();
        push_root(&mut leaves, self.beacon_block_root.tree_hash_root());
        push_root(&mut leaves, self.slot.tree_hash_root());
        push_root(&mut leaves, self.payload_present.tree_hash_root());
        push_root(&mut leaves, self.blob_data_available.tree_hash_root());
        assert(leaves@ == self.beacon_block_root.root() + self.slot.root()
            + self.payload_present.root() + self.blob_data_available.root());
        merkle_root(&leaves, 0)
    }
}

/// What is wrong with a byte that is no truth value.
pub open spec fn bool_error(byte: u8) -> DecodeErrorModel {
    DecodeErrorModel::BytesInvalid("Out-of-range for boolean: "@ + decimal(byte as nat))
}

fn out_of_range(byte: u8) -> (r: DecodeError)
    ensures
        r@ == bool_error(byte),
{
    let mut message: String = "Out-of-range for boolean: ".to_owned();
    append_decimal(&mut message, byte as u64);
    DecodeError::BytesInvalid(message)
}

/// Why `bytes` encodes no message, if it encodes none: their number is wrong, or one of the two
/// truth values is none.
pub open spec fn attestation_error(bytes: Seq<u8>) -> Option<DecodeErrorModel> {
    if bytes.len() != 146 {
        Some(DecodeErrorModel::InvalidByteLength { len: bytes.len() as int, expected: 146 })
    } else if bytes[48] > 1 {
        Some(bool_error(bytes[48]))
    } else if bytes[49] > 1 {
        Some(bool_error(bytes[49]))
    } else {
        None
    }
}

impl PayloadAttestationMessage {
    /// The encoding of the message.
    pub open spec fn ssz(self) -> Seq<u8> {
        le(self.validator_index) + self.data.ssz() + self.signature.bytes()
    }

    /// The encoding of the message.
    pub fn as_ssz_bytes(&self) -> (r: Vec<u8>)
        ensures
            r@ == self.ssz(),
    {
        let mut out: Vec<u8> = Vec::new();
        append_u64(self.validator_index, &mut out);
        self.data.beacon_block_root.append_to(&mut out);
        append_u64(self.data.slot.0, &mut out);
        out.push(byte_of(self.data.payload_present));
        out.push(byte_of(self.data.blob_data_available));
        self.signature.append_to(&mut out);
        assert(out@ =~= self.ssz());
        out
    }

    /// The message that `bytes` encodes, if it encodes one whose signature is well-formed;
    /// `check_signature` tells what is wrong with a signature, if anything is.
    pub fn from_ssz_bytes<F: Fn(&Signature) -> Option<String>>(
        bytes: &[u8],
        check_signature: F,
    ) -> (r: Result<Self, DecodeError>)
        requires
            forall|signature: Signature| call_requires(check_signature, (&signature,)),
        ensures
            match r {
                Ok(message) => message.ssz() == bytes@ && call_ensures(
                    check_signature,
                    (&message.signature,),
                    None,
                ),
                Err(e) => if attestation_error(bytes@) is Some {
                    &&& attestation_error(bytes@) == Some(e@)
                    &&& forall|message: PayloadAttestationMessage| #[trigger]
                        message.ssz() != bytes@
                } else {
                    e matches DecodeError::BytesInvalid(reason) && forall|
                        message: PayloadAttestationMessage,
                    | #[trigger]
                        message.ssz() == bytes@ ==> call_ensures(
                            check_signature,
                            (&message.signature,),
                            Some(reason),
                        )
                },
            },
    {
        proof {
            assert forall|message: PayloadAttestationMessage| #[trigger]
                message.ssz() == bytes@ implies bytes@.len() == 146 && bytes@[48] <= 1
                && bytes@[49] <= 1 by {
                lemma_u64_bytes(message.validator_index, message.data.slot.0);
                assert(message.ssz()[48] == bool_byte(message.data.payload_present));
                assert(message.ssz()[49] == bool_byte(message.data.blob_data_available));
            }
        }
        if bytes.len() != 146 {
            return Err(DecodeError::InvalidByteLength { len: bytes.len(), expected: 146 });
        }
        if bytes[48] > 1 {
            return Err(out_of_range(bytes[48]));
        }
        if bytes[49] > 1 {
            return Err(out_of_range(bytes[49]));
        }
        let message = PayloadAttestationMessage {
            validator_index: read_u64(bytes, 0),
            data: PayloadAttestationData {
                beacon_block_root: read_bytes(bytes, 8),
                slot: Slot(read_u64(bytes, 40)),
                payload_present: bytes[48] == 1,
                blob_data_available: bytes[49] == 1,
            },
            signature: read_bytes(bytes, 50),
        };
        assert(message.ssz() =~= bytes@);
        match check_signature(&message.signature) {
            None => Ok(message),
            Some(reason) => {
                proof {
                    assert forall|other: PayloadAttestationMessage| #[trigger]
                        other.ssz() == bytes@ implies other.signature == message.signature by {
                        lemma_attestation_encoding(other, message);
                    }
                }
                Err(DecodeError::BytesInvalid(reason))
            },
        }
    }
}

/// The encoding loses nothing: no two messages have the same.
pub proof fn lemma_attestation_encoding(a: PayloadAttestationMessage, b: PayloadAttestationMessage)
    requires
        a.ssz() == b.ssz(),
    ensures
        a == b,
{
    let s = a.ssz();
    let t = b.ssz();
    lemma_u64_bytes(a.validator_index, b.validator_index);
    lemma_u64_bytes(a.data.slot.0, b.data.slot.0);
    assert(le(a.validator_index) =~= s.subrange(0, 8));
    assert(le(b.validator_index) =~= t.subrange(0, 8));
    assert(a.data.beacon_block_root.bytes() =~= s.subrange(8, 40));
    assert(b.data.beacon_block_root.bytes() =~= t.subrange(8, 40));
    assert(le(a.data.slot.0) =~= s.subrange(40, 48));
    assert(le(b.data.slot.0) =~= t.subrange(40, 48));
    assert(s[48] == bool_byte(a.data.payload_present));
    assert(t[48] == bool_byte(b.data.payload_present));
    assert(s[49] == bool_byte(a.data.blob_data_available));
    assert(t[49] == bool_byte(b.data.blob_data_available));
    assert(a.signature.bytes() =~= s.subrange(50, 146));
    assert(b.signature.bytes() =~= t.subrange(50, 146));
    lemma_fixed_bytes_ext(a.data.beacon_block_root, b.data.beacon_block_root);
    lemma_fixed_bytes_ext(a.signature, b.signature);
}

impl TreeHash for PayloadAttestationMessage {
    open spec fn root(self) -> Seq<u8> {
        merkle_root_of(
            self.validator_index.root() + self.data.root() + self.signature.root(),
            0,
        )
    }

    fn tree_hash_root(&self) -> (r: Hash256) {
        let mut leaves: Vec<u8> = Vec::new();
        push_root(&mut leaves, self.validator_index.tree_hash_root());
        push_root(&mut leaves, self.data.tree_hash_root());
        push_root(&mut leaves, self.signature.tree_hash_root());
        assert(leaves@ == self.validator_index.root() + self.data.root() + self.signature.root());
        merkle_root(&leaves, 0)
    }
}

} // verus!
