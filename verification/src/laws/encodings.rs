//! Where each field stands in an encoding.

use crate::beacon_state::SignedExecutionBid;
use crate::envelope_ssz::{
    encodes_envelope, encodes_payload, encodes_requests, encodes_signed_envelope, envelope_layout,
    holds_envelope, holds_payload, holds_requests, payload_layout, requests_layout,
    signed_envelope_layout,
};
use crate::eth_spec::EthSpec;
use crate::execution_payload_envelope::{
    ConsolidationRequest, DepositRequest, ExecutionPayloadEnvelopeGloas, ExecutionPayloadGloas,
    ExecutionRequests, Withdrawal, WithdrawalRequest,
};
use crate::payload_attestation_service::PayloadAttestationMessage;
use crate::primitives::{FixedBytes, Signature};
use crate::ssz::{
    byte_list_views, entry_start, holds_field, is_container, is_list, is_list_of_byte_lists,
    lemma_tail_len_shrinks, lemma_u64_bytes, lemma_variable_layout, tail_len, variable_layout,
    FixedSsz,
};
use vstd::prelude::*;

verus! {

/// The eight bytes of an integer, the lowest first.
pub open spec fn u64_bytes(value: u64) -> Seq<u8> {
    vstd::bytes::spec_u64_to_le_bytes(value)
}

/// The integer in the four bytes from `at` on, the lowest first.
pub open spec fn u32_at(bytes: Seq<u8>, at: int) -> int {
    vstd::bytes::spec_u32_from_le_bytes(bytes.subrange(at, at + 4)) as int
}

/// A signed bid is 276 bytes long, and its fields stand one after the other.
pub proof fn lemma_bytes_of_a_signed_bid(signed: SignedExecutionBid)
    ensures
        ({
            let bytes = signed.ssz();
            let bid = signed.message;
            &&& bytes.len() == 276
            &&& bytes.subrange(0, 32) == bid.parent_block_hash.bytes()
            &&& bytes.subrange(32, 64) == bid.parent_block_root.bytes()
            &&& bytes.subrange(64, 96) == bid.block_hash.bytes()
            &&& bytes.subrange(96, 116) == bid.fee_recipient.bytes()
            &&& bytes.subrange(116, 124) == u64_bytes(bid.gas_limit)
            &&& bytes.subrange(124, 132) == u64_bytes(bid.builder_index)
            &&& bytes.subrange(132, 140) == u64_bytes(bid.slot.0)
            &&& bytes.subrange(140, 148) == u64_bytes(bid.value)
            &&& bytes.subrange(148, 180) == bid.blob_kzg_commitments_root.bytes()
            &&& bytes.subrange(180, 276) == signed.signature.bytes()
        }),
{
    let bid = signed.message;
    lemma_u64_bytes(bid.gas_limit, bid.builder_index);
    lemma_u64_bytes(bid.slot.0, bid.value);
}

/// A payload attestation message is 146 bytes long: the validator, the root, the slot, a byte each
/// for the payload and the blobs, which is one if they are there and else zero, and the signature.
pub proof fn lemma_bytes_of_a_payload_attestation(message: PayloadAttestationMessage)
    ensures
        ({
            let bytes = message.ssz();
            &&& bytes.len() == 146
            &&& bytes.subrange(0, 8) == u64_bytes(message.validator_index)
            &&& bytes.subrange(8, 40) == message.data.beacon_block_root.bytes()
            &&& bytes.subrange(40, 48) == u64_bytes(message.data.slot.0)
            &&& bytes[48] == (if message.data.payload_present {
                1u8
            } else {
                0u8
            })
            &&& bytes[49] == (if message.data.blob_data_available {
                1u8
            } else {
                0u8
            })
            &&& bytes.subrange(50, 146) == message.signature.bytes()
        }),
{
    lemma_u64_bytes(message.validator_index, message.data.slot.0);
}

/// Where the fields of the items of a payload's lists stand.
pub proof fn lemma_bytes_of_list_items(
    withdrawal: Withdrawal,
    deposit: DepositRequest,
    exit: WithdrawalRequest,
    consolidation: ConsolidationRequest,
    commitment: FixedBytes<48>,
)
    ensures
        withdrawal.ssz().len() == 44,
        withdrawal.ssz().subrange(0, 8) == u64_bytes(withdrawal.index),
        withdrawal.ssz().subrange(8, 16) == u64_bytes(withdrawal.validator_index),
        withdrawal.ssz().subrange(16, 36) == withdrawal.address.bytes(),
        withdrawal.ssz().subrange(36, 44) == u64_bytes(withdrawal.amount),
        deposit.ssz().len() == 192,
        deposit.ssz().subrange(0, 48) == deposit.pubkey.bytes(),
        deposit.ssz().subrange(48, 80) == deposit.withdrawal_credentials.bytes(),
        deposit.ssz().subrange(80, 88) == u64_bytes(deposit.amount),
        deposit.ssz().subrange(88, 184) == deposit.signature.bytes(),
        deposit.ssz().subrange(184, 192) == u64_bytes(deposit.index),
        exit.ssz().len() == 76,
        exit.ssz().subrange(0, 20) == exit.source_address.bytes(),
        exit.ssz().subrange(20, 68) == exit.validator_pubkey.bytes(),
        exit.ssz().subrange(68, 76) == u64_bytes(exit.amount),
        consolidation.ssz().len() == 116,
        consolidation.ssz().subrange(0, 20) == consolidation.source_address.bytes(),
        consolidation.ssz().subrange(20, 68) == consolidation.source_pubkey.bytes(),
        consolidation.ssz().subrange(68, 116) == consolidation.target_pubkey.bytes(),
        commitment.ssz() == commitment.bytes(),
{
    lemma_u64_bytes(withdrawal.index, withdrawal.validator_index);
    lemma_u64_bytes(withdrawal.amount, deposit.amount);
    lemma_u64_bytes(deposit.index, exit.amount);
}

/// Whether the items stand one after the other, each `size` bytes long.
pub open spec fn one_after_the_other<T: FixedSsz>(
    items: Seq<T>,
    size: int,
    bytes: Seq<u8>,
) -> bool {
    &&& bytes.len() == items.len() * size
    &&& forall|i: int|
        0 <= i < items.len() ==> (#[trigger] items[i]).ssz() == bytes.subrange(
            i * size,
            i * size + size,
        )
}

proof fn lemma_one_after_the_other<T: FixedSsz>(items: Seq<T>, size: int, bytes: Seq<u8>)
    requires
        is_list(items, bytes),
        T::ssz_len() == size,
    ensures
        one_after_the_other(items, size, bytes),
{
    assert forall|i: int| 0 <= i < items.len() implies (#[trigger] items[i]).ssz()
        == bytes.subrange(i * size, i * size + size) by {
        assert((i + 1) * size == i * size + size) by (nonlinear_arith);
    }
}

/// An envelope starts with 92 bytes: the positions of the payload, of the requests and of the
/// commitments, and the other fields. The three follow in this order, without gaps.
pub proof fn lemma_bytes_of_an_envelope<E: EthSpec>(
    envelope: ExecutionPayloadEnvelopeGloas,
    bytes: Seq<u8>,
)
    requires
        encodes_envelope::<E>(envelope, bytes),
    ensures
        ({
            let requests = u32_at(bytes, 4);
            let commitments = u32_at(bytes, 56);
            &&& 92 <= requests <= commitments <= bytes.len()
            &&& u32_at(bytes, 0) == 92
            &&& bytes.subrange(8, 16) == u64_bytes(envelope.builder_index)
            &&& bytes.subrange(16, 48) == envelope.beacon_block_root.bytes()
            &&& bytes.subrange(48, 56) == u64_bytes(envelope.slot.0)
            &&& bytes.subrange(60, 92) == envelope.state_root.bytes()
            &&& encodes_payload::<E>(envelope.payload, bytes.subrange(92, requests))
            &&& encodes_requests::<E>(
                envelope.execution_requests,
                bytes.subrange(requests, commitments),
            )
            &&& one_after_the_other(
                envelope.blob_kzg_commitments@,
                48,
                bytes.subrange(commitments, bytes.len() as int),
            )
            &&& envelope.blob_kzg_commitments@.len() <= E::spec_max_blob_commitments_per_block()
        }),
{
    let layout = envelope_layout();
    let parts = choose|parts: Seq<Seq<u8>>| #[trigger]
        is_container(layout, parts, bytes) && holds_envelope::<E>(envelope, parts);
    assert(entry_start(layout, 1) == 4 && entry_start(layout, 2) == 8 && entry_start(layout, 3)
        == 16 && entry_start(layout, 4) == 48 && entry_start(layout, 5) == 56 && entry_start(
        layout,
        6,
    ) == 60 && entry_start(layout, 7) == 92) by {
        reveal_with_fuel(entry_start, 8);
    }
    assert(tail_len(layout, parts, 0) == parts[0].len() + parts[1].len() + parts[5].len()
        && tail_len(layout, parts, 1) == parts[1].len() + parts[5].len() && tail_len(
        layout,
        parts,
        5,
    ) == parts[5].len()) by {
        reveal_with_fuel(tail_len, 8);
    }
    assert(holds_field(layout, parts, bytes, 0));
    assert(holds_field(layout, parts, bytes, 1));
    assert(holds_field(layout, parts, bytes, 2));
    assert(holds_field(layout, parts, bytes, 3));
    assert(holds_field(layout, parts, bytes, 4));
    assert(holds_field(layout, parts, bytes, 5));
    assert(holds_field(layout, parts, bytes, 6));
    lemma_one_after_the_other(envelope.blob_kzg_commitments@, 48, parts[5]);
}

/// A signed envelope starts with 100 bytes: the position of the envelope, and the signature. The
/// envelope follows.
pub proof fn lemma_bytes_of_a_signed_envelope<E: EthSpec>(
    message: ExecutionPayloadEnvelopeGloas,
    signature: Signature,
    bytes: Seq<u8>,
)
    requires
        encodes_signed_envelope::<E>(message, signature, bytes),
    ensures
        bytes.len() >= 100,
        u32_at(bytes, 0) == 100,
        bytes.subrange(4, 100) == signature.bytes(),
        encodes_envelope::<E>(message, bytes.subrange(100, bytes.len() as int)),
{
    let layout = signed_envelope_layout();
    let parts = choose|parts: Seq<Seq<u8>>| #[trigger]
        is_container(layout, parts, bytes) && encodes_envelope::<E>(message, parts[0]) && parts[1]
            == signature.bytes();
    assert(entry_start(layout, 1) == 4 && entry_start(layout, 2) == 100) by {
        reveal_with_fuel(entry_start, 3);
    }
    assert(tail_len(layout, parts, 0) == parts[0].len()) by {
        reveal_with_fuel(tail_len, 3);
    }
    assert(holds_field(layout, parts, bytes, 0));
    assert(holds_field(layout, parts, bytes, 1));
}

/// The requests of an envelope start with the positions of their three lists, which follow in
/// order: deposits, withdrawals and consolidations.
pub proof fn lemma_bytes_of_requests<E: EthSpec>(requests: ExecutionRequests, bytes: Seq<u8>)
    requires
        encodes_requests::<E>(requests, bytes),
    ensures
        ({
            let withdrawals = u32_at(bytes, 4);
            let consolidations = u32_at(bytes, 8);
            &&& 12 <= withdrawals <= consolidations <= bytes.len()
            &&& u32_at(bytes, 0) == 12
            &&& one_after_the_other(requests.deposits@, 192, bytes.subrange(12, withdrawals))
            &&& one_after_the_other(
                requests.withdrawals@,
                76,
                bytes.subrange(withdrawals, consolidations),
            )
            &&& one_after_the_other(
                requests.consolidations@,
                116,
                bytes.subrange(consolidations, bytes.len() as int),
            )
            &&& requests.deposits@.len() <= E::spec_max_deposit_requests_per_payload()
            &&& requests.withdrawals@.len() <= E::spec_max_withdrawal_requests_per_payload()
            &&& requests.consolidations@.len() <= E::spec_max_consolidation_requests_per_payload()
        }),
{
    let layout = requests_layout();
    let parts = choose|parts: Seq<Seq<u8>>| #[trigger]
        is_container(layout, parts, bytes) && holds_requests::<E>(requests, parts);
    assert(entry_start(layout, 1) == 4 && entry_start(layout, 2) == 8 && entry_start(layout, 3)
        == 12) by {
        reveal_with_fuel(entry_start, 4);
    }
    assert(tail_len(layout, parts, 0) == parts[0].len() + parts[1].len() + parts[2].len()
        && tail_len(layout, parts, 1) == parts[1].len() + parts[2].len() && tail_len(
        layout,
        parts,
        2,
    ) == parts[2].len()) by {
        reveal_with_fuel(tail_len, 4);
    }
    assert(holds_field(layout, parts, bytes, 0));
    assert(holds_field(layout, parts, bytes, 1));
    assert(holds_field(layout, parts, bytes, 2));
    lemma_one_after_the_other(requests.deposits@, 192, parts[0]);
    lemma_one_after_the_other(requests.withdrawals@, 76, parts[1]);
    lemma_one_after_the_other(requests.consolidations@, 116, parts[2]);
}

/// A payload starts with 528 bytes: its fields, and the positions of the extra data, the
/// transactions and the withdrawals, which follow in this order.
#[verifier::spinoff_prover]
#[verifier::rlimit(60)]
pub proof fn lemma_bytes_of_a_payload<E: EthSpec>(payload: ExecutionPayloadGloas, bytes: Seq<u8>)
    requires
        encodes_payload::<E>(payload, bytes),
    ensures
        ({
            let transactions = u32_at(bytes, 504);
            let withdrawals = u32_at(bytes, 508);
            &&& 528 <= transactions <= withdrawals <= bytes.len()
            &&& u32_at(bytes, 436) == 528
            &&& bytes.subrange(0, 32) == payload.parent_hash.bytes()
            &&& bytes.subrange(32, 52) == payload.fee_recipient.bytes()
            &&& bytes.subrange(52, 84) == payload.state_root.bytes()
            &&& bytes.subrange(84, 116) == payload.receipts_root.bytes()
            &&& bytes.subrange(116, 372) == payload.logs_bloom.bytes()
            &&& bytes.subrange(372, 404) == payload.prev_randao.bytes()
            &&& bytes.subrange(404, 412) == u64_bytes(payload.block_number)
            &&& bytes.subrange(412, 420) == u64_bytes(payload.gas_limit)
            &&& bytes.subrange(420, 428) == u64_bytes(payload.gas_used)
            &&& bytes.subrange(428, 436) == u64_bytes(payload.timestamp)
            &&& bytes.subrange(440, 472) == payload.base_fee_per_gas.bytes()
            &&& bytes.subrange(472, 504) == payload.block_hash.bytes()
            &&& bytes.subrange(512, 520) == u64_bytes(payload.blob_gas_used)
            &&& bytes.subrange(520, 528) == u64_bytes(payload.excess_blob_gas)
            &&& bytes.subrange(528, transactions) == payload.extra_data@
            &&& is_list_of_byte_lists(
                byte_list_views(payload.transactions@),
                bytes.subrange(transactions, withdrawals),
            )
            &&& one_after_the_other(
                payload.withdrawals@,
                44,
                bytes.subrange(withdrawals, bytes.len() as int),
            )
            &&& payload.extra_data@.len() <= E::spec_max_extra_data_bytes()
            &&& payload.transactions@.len() <= E::spec_max_transactions_per_payload()
            &&& payload.withdrawals@.len() <= E::spec_max_withdrawals_per_payload()
            &&& forall|i: int|
                0 <= i < payload.transactions@.len() ==> (
                #[trigger] payload.transactions@[i])@.len()
                    <= E::spec_max_bytes_per_transaction()
        }),
{
    let layout = payload_layout();
    let parts = choose|parts: Seq<Seq<u8>>| #[trigger]
        is_container(layout, parts, bytes) && holds_payload::<E>(payload, parts);
    assert({
        &&& entry_start(layout, 1) == 32
        &&& entry_start(layout, 2) == 52
        &&& entry_start(layout, 3) == 84
        &&& entry_start(layout, 4) == 116
        &&& entry_start(layout, 5) == 372
        &&& entry_start(layout, 6) == 404
        &&& entry_start(layout, 7) == 412
        &&& entry_start(layout, 8) == 420
        &&& entry_start(layout, 9) == 428
        &&& entry_start(layout, 10) == 436
        &&& entry_start(layout, 11) == 440
        &&& entry_start(layout, 12) == 472
        &&& entry_start(layout, 13) == 504
        &&& entry_start(layout, 14) == 508
        &&& entry_start(layout, 15) == 512
        &&& entry_start(layout, 16) == 520
        &&& entry_start(layout, 17) == 528
    }) by {
        reveal_with_fuel(entry_start, 18);
    }
    assert(tail_len(layout, parts, 0) == parts[10].len() + parts[13].len() + parts[14].len()
        && tail_len(layout, parts, 10) == parts[10].len() + parts[13].len() + parts[14].len()
        && tail_len(layout, parts, 13) == parts[13].len() + parts[14].len() && tail_len(
        layout,
        parts,
        14,
    ) == parts[14].len()) by {
        reveal_with_fuel(tail_len, 18);
    }
    assert forall|k: int| 0 <= k < 17 implies #[trigger] holds_field(layout, parts, bytes, k) by {}
    assert(holds_field(layout, parts, bytes, 0));
    assert(holds_field(layout, parts, bytes, 1));
    assert(holds_field(layout, parts, bytes, 2));
    assert(holds_field(layout, parts, bytes, 3));
    assert(holds_field(layout, parts, bytes, 4));
    assert(holds_field(layout, parts, bytes, 5));
    assert(holds_field(layout, parts, bytes, 6));
    assert(holds_field(layout, parts, bytes, 7));
    assert(holds_field(layout, parts, bytes, 8));
    assert(holds_field(layout, parts, bytes, 9));
    assert(holds_field(layout, parts, bytes, 10));
    assert(holds_field(layout, parts, bytes, 11));
    assert(holds_field(layout, parts, bytes, 12));
    assert(holds_field(layout, parts, bytes, 13));
    assert(holds_field(layout, parts, bytes, 14));
    assert(holds_field(layout, parts, bytes, 15));
    assert(holds_field(layout, parts, bytes, 16));
    lemma_one_after_the_other(payload.withdrawals@, 44, parts[14]);
    let views = byte_list_views(payload.transactions@);
    assert forall|i: int| 0 <= i < payload.transactions@.len() implies (
    #[trigger] payload.transactions@[i])@.len() <= E::spec_max_bytes_per_transaction() by {
        assert(views[i].len() <= E::spec_max_bytes_per_transaction());
    }
}

/// A list of byte lists starts with the position of each, and the lists follow in order and without
/// gaps: the first behind the positions, each next where the one before ends, the last up to the
/// end.
pub proof fn lemma_bytes_of_byte_lists(lists: Seq<Seq<u8>>, bytes: Seq<u8>, i: int)
    requires
        is_list_of_byte_lists(lists, bytes),
        0 <= i < lists.len(),
    ensures
        ({
            let start = u32_at(bytes, 4 * i);
            let end = if i + 1 < lists.len() {
                u32_at(bytes, 4 * (i + 1))
            } else {
                bytes.len() as int
            };
            &&& u32_at(bytes, 0) == 4 * lists.len()
            &&& 4 * lists.len() <= start <= end <= bytes.len()
            &&& lists[i] == bytes.subrange(start, end)
        }),
{
    let n = lists.len();
    let layout = variable_layout(n);
    lemma_variable_layout(n, 0);
    lemma_variable_layout(n, i);
    lemma_variable_layout(n, n as int);
    lemma_tail_len_shrinks(layout, lists, 0, i);
    assert(holds_field(layout, lists, bytes, 0));
    assert(holds_field(layout, lists, bytes, i));
    assert(tail_len(layout, lists, i) == lists[i].len() + tail_len(layout, lists, i + 1));
    if i + 1 < n {
        lemma_variable_layout(n, i + 1);
        assert(holds_field(layout, lists, bytes, i + 1));
    } else {
        assert(tail_len(layout, lists, i + 1) == 0);
    }
}

} // verus!
