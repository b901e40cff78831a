//! What is said of bytes that cannot be read.

use super::encodings::u32_at;
use crate::envelope_ssz::{
    byte_lists_ssz_len, envelope_error, envelope_fits, envelope_layout, envelope_ssz_len,
    payload_error, payload_layout, payload_ssz_len, requests_error, requests_layout,
    requests_ssz_len, signed_envelope_error, signed_envelope_layout,
};
use crate::eth_spec::EthSpec;
use crate::execution_payload_envelope::ExecutionPayloadEnvelopeGloas;
use crate::message_ssz::attestation_error;
use crate::ssz::{
    byte_list_views, byte_lists_error, byte_lists_error_from, container_error, container_error_from,
    entry_start, is_container, lemma_container_unique, lemma_variable_layout, list_error, offset_of,
    tail_len, variable_layout, DecodeError, DecodeErrorModel,
};
use crate::text::decimal;
use vstd::prelude::*;

verus! {

/// What an error says is what its fields hold.
pub proof fn lemma_errors_say_what_they_hold(e: DecodeError)
    ensures
        match e {
            DecodeError::InvalidByteLength { len, expected } => e@
                == (DecodeErrorModel::InvalidByteLength {
                len: len as int,
                expected: expected as int,
            }),
            DecodeError::InvalidLengthPrefix { len, expected } => e@
                == (DecodeErrorModel::InvalidLengthPrefix {
                len: len as int,
                expected: expected as int,
            }),
            DecodeError::OffsetIntoFixedPortion(at) => e@
                == DecodeErrorModel::OffsetIntoFixedPortion(at as int),
            DecodeError::OffsetSkipsVariableBytes(at) => e@
                == DecodeErrorModel::OffsetSkipsVariableBytes(at as int),
            DecodeError::OffsetsAreDecreasing(at) => e@ == DecodeErrorModel::OffsetsAreDecreasing(
                at as int,
            ),
            DecodeError::OffsetOutOfBounds(at) => e@ == DecodeErrorModel::OffsetOutOfBounds(
                at as int,
            ),
            DecodeError::InvalidListFixedBytesLen(at) => e@
                == DecodeErrorModel::InvalidListFixedBytesLen(at as int),
            DecodeError::BytesInvalid(message) => e@ == DecodeErrorModel::BytesInvalid(message@),
        },
{
}

/// The position that stands in the entry of field `j`.
pub open spec fn position_at(layout: Seq<Option<usize>>, bytes: Seq<u8>, j: int) -> int {
    u32_at(bytes, entry_start(layout, j) as int)
}

/// Whether an error about a container tells the truth: an entry is cut off, or a position lies
/// beyond the end, before an earlier one, or, if it is the first, not right behind the entries.
pub open spec fn tells_the_truth(
    layout: Seq<Option<usize>>,
    bytes: Seq<u8>,
    e: DecodeErrorModel,
) -> bool {
    let n = layout.len() as int;
    let head = entry_start(layout, n) as int;
    match e {
        DecodeErrorModel::InvalidByteLength { len, expected } => {
            &&& len == bytes.len()
            &&& len != expected
            &&& expected == head || exists|j: int|
                0 <= j < n && #[trigger] layout[j] is Some && expected == entry_start(layout, j)
                    + layout[j]->0 && len < expected
        },
        DecodeErrorModel::InvalidLengthPrefix { len, expected } => {
            &&& expected == 4
            &&& len < 4
            &&& exists|j: int|
                0 <= j < n && #[trigger] layout[j] is None && len == bytes.len() - entry_start(
                    layout,
                    j,
                )
        },
        DecodeErrorModel::OffsetOutOfBounds(at) => at > bytes.len() && exists|j: int|
            0 <= j < n && #[trigger] layout[j] is None && at == position_at(layout, bytes, j),
        DecodeErrorModel::OffsetsAreDecreasing(at) => exists|i: int, j: int|
            0 <= i < j < n && #[trigger] layout[i] is None && #[trigger] layout[j] is None && at
                == position_at(layout, bytes, j) && at < position_at(layout, bytes, i),
        DecodeErrorModel::OffsetIntoFixedPortion(at) => at < head && exists|j: int|
            0 <= j < n && #[trigger] layout[j] is None && at == position_at(layout, bytes, j),
        DecodeErrorModel::OffsetSkipsVariableBytes(at) => at > head && exists|j: int|
            0 <= j < n && #[trigger] layout[j] is None && at == position_at(layout, bytes, j),
        _ => false,
    }
}

/// What is said of bytes that are no container is true of them.
pub proof fn lemma_container_errors_tell_the_truth(layout: Seq<Option<usize>>, bytes: Seq<u8>)
    ensures
        container_error(layout, bytes) matches Some(e) ==> tells_the_truth(layout, bytes, e),
{
    lemma_container_error_from(layout, bytes, 0, None, None, 0, 0);
}

proof fn lemma_container_error_from(
    layout: Seq<Option<usize>>,
    bytes: Seq<u8>,
    k: int,
    first: Option<int>,
    previous: Option<int>,
    i: int,
    p: int,
)
    requires
        0 <= k <= layout.len(),
        first matches Some(at) ==> 0 <= i < k && layout[i] is None && at == position_at(
            layout,
            bytes,
            i,
        ),
        previous matches Some(at) ==> 0 <= p < k && layout[p] is None && at == position_at(
            layout,
            bytes,
            p,
        ),
    ensures
        container_error_from(layout, bytes, k, first, previous) matches Some(e)
            ==> tells_the_truth(layout, bytes, e),
    decreases layout.len() - k,
{
    if k < layout.len() {
        match layout[k] {
            Some(_) => {
                lemma_container_error_from(layout, bytes, k + 1, first, previous, i, p);
            },
            None => {
                let offset = offset_of(layout, bytes, k);
                assert(offset == position_at(layout, bytes, k));
                lemma_container_error_from(
                    layout,
                    bytes,
                    k + 1,
                    if first is None {
                        Some(offset)
                    } else {
                        first
                    },
                    Some(offset),
                    if first is None {
                        k
                    } else {
                        i
                    },
                    k,
                );
            },
        }
    }
}

/// A list is refused exactly if it has too many items, or if its bytes are no whole number of
/// items; the message counts the items.
pub proof fn lemma_lists_are_refused_when_too_long_or_cut_off(
    len: int,
    size: int,
    limit: usize,
    count: int,
)
    requires
        size > 0,
        count >= 0,
        count * size <= len < (count + 1) * size,
    ensures
        match list_error(len, size, limit) {
            None => count <= limit && len == count * size,
            Some(DecodeErrorModel::BytesInvalid(message)) => count > limit && message
                == "VariableList of "@ + decimal(count as nat) + " items exceeds maximum of "@
                + decimal(limit as nat),
            Some(e) => count <= limit && len > count * size && e
                == (DecodeErrorModel::InvalidByteLength {
                len: len - count * size,
                expected: size,
            }),
        },
{
    assert(len == count * size + (len - count * size));
    assert(0 <= len - count * size < size) by (nonlinear_arith)
        requires
            count * size <= len < (count + 1) * size,
    ;
    assert(count * size == size * count) by (nonlinear_arith);
    vstd::arithmetic::div_mod::lemma_fundamental_div_mod_converse(
        len,
        size,
        count,
        len - count * size,
    );
}

/// The position that stands behind `i` others.
pub open spec fn nth_position(bytes: Seq<u8>, i: int) -> int {
    u32_at(bytes, 4 * i)
}

/// What is said of bytes that are no list of byte lists is true of them: a position is cut off,
/// lies beyond the end, among the positions or before the one that precedes it, the first one does
/// not tell how many lists there are, or there is too much.
pub proof fn lemma_byte_list_errors_tell_the_truth(
    bytes: Seq<u8>,
    max_items: usize,
    max_bytes: usize,
)
    ensures
        match byte_lists_error(bytes, max_items, max_bytes) {
            None => true,
            Some(DecodeErrorModel::InvalidLengthPrefix { len, expected }) => len == bytes.len()
                && 0 < len < 4 && expected == 4,
            Some(DecodeErrorModel::InvalidListFixedBytesLen(at)) => at == u32_at(bytes, 0) && (at
                == 0 || at % 4 != 0),
            Some(DecodeErrorModel::OffsetOutOfBounds(at)) => at > bytes.len() && exists|i: int|
                i >= 0 && at == #[trigger] nth_position(bytes, i),
            Some(DecodeErrorModel::OffsetIntoFixedPortion(at)) => at < u32_at(bytes, 0) && exists|
                i: int,
            |
                i >= 1 && at == #[trigger] nth_position(bytes, i),
            Some(DecodeErrorModel::OffsetsAreDecreasing(at)) => exists|i: int|
                i >= 1 && at == #[trigger] nth_position(bytes, i) && at < nth_position(
                    bytes,
                    i - 1,
                ),
            Some(DecodeErrorModel::BytesInvalid(message)) => {
                ||| u32_at(bytes, 0) / 4 > max_items && message == "Variable length list of "@
                    + decimal((u32_at(bytes, 0) / 4) as nat) + " items exceeds maximum of Some("@
                    + decimal(max_items as nat) + ")"@
                ||| exists|len: nat|
                    len > max_bytes && message == #[trigger] too_many_bytes(len, max_bytes)
            },
            Some(_) => false,
        },
{
    let first = u32_at(bytes, 0);
    if bytes.len() >= 4 {
        assert(first == nth_position(bytes, 0));
        if 0 < first <= bytes.len() && first % 4 == 0 {
            lemma_byte_lists_error_from(bytes, first / 4, 1, first, max_bytes);
        }
    }
}

/// The message for a byte list that is too long.
pub open spec fn too_many_bytes(len: nat, max_bytes: usize) -> Seq<char> {
    "VariableList of "@ + decimal(len) + " items exceeds maximum of "@ + decimal(max_bytes as nat)
}

proof fn lemma_byte_lists_error_from(
    bytes: Seq<u8>,
    count: int,
    i: int,
    offset: int,
    max_bytes: usize,
)
    requires
        i >= 1,
        offset == nth_position(bytes, i - 1),
        offset <= bytes.len(),
    ensures
        match byte_lists_error_from(bytes, count, i, offset, max_bytes) {
            None => true,
            Some(DecodeErrorModel::OffsetOutOfBounds(at)) => at > bytes.len() && exists|i: int|
                i >= 0 && at == #[trigger] nth_position(bytes, i),
            Some(DecodeErrorModel::OffsetIntoFixedPortion(at)) => at < 4 * count && exists|i: int|
                i >= 1 && at == #[trigger] nth_position(bytes, i),
            Some(DecodeErrorModel::OffsetsAreDecreasing(at)) => exists|i: int|
                i >= 1 && at == #[trigger] nth_position(bytes, i) && at < nth_position(
                    bytes,
                    i - 1,
                ),
            Some(DecodeErrorModel::BytesInvalid(message)) => exists|len: nat|
                len > max_bytes && message == #[trigger] too_many_bytes(len, max_bytes),
            Some(_) => false,
        },
    decreases count - i,
{
    if i >= count {
        let len = bytes.len() - offset;
        assert(len / 1 == len && len % 1 == 0);
        assert(too_many_bytes(len as nat, max_bytes) == too_many_bytes(len as nat, max_bytes));
    } else {
        let next = nth_position(bytes, i);
        let len = next - offset;
        assert(len / 1 == len && len % 1 == 0);
        assert(too_many_bytes(len as nat, max_bytes) == too_many_bytes(len as nat, max_bytes));
        if offset <= next <= bytes.len() {
            assert(nth_position(bytes, i + 1 - 1) == next);
            lemma_byte_lists_error_from(bytes, count, i + 1, next, max_bytes);
        }
    }
}

/// Whether the entries of `bytes` are in order and lead to `parts`.
pub open spec fn splits_into(
    layout: Seq<Option<usize>>,
    parts: Seq<Seq<u8>>,
    bytes: Seq<u8>,
) -> bool {
    container_error(layout, bytes) is None && is_container(layout, parts, bytes)
}

/// Of all that is wrong with some requests, what is wrong with their entries is told first, and
/// then what is wrong with the deposits, with the withdrawals and with the consolidations, in this
/// order.
pub proof fn lemma_first_fault_of_requests_is_told<E: EthSpec>(
    bytes: Seq<u8>,
    parts: Seq<Seq<u8>>,
)
    ensures
        container_error(requests_layout(), bytes) is Some ==> requests_error::<E>(bytes)
            == container_error(requests_layout(), bytes),
        splits_into(requests_layout(), parts, bytes) ==> ({
            let limit_0 = E::spec_max_deposit_requests_per_payload();
            let limit_1 = E::spec_max_withdrawal_requests_per_payload();
            let limit_2 = E::spec_max_consolidation_requests_per_payload();
            let deposits = list_error(parts[0].len() as int, 192, limit_0);
            let withdrawals = list_error(parts[1].len() as int, 76, limit_1);
            let consolidations = list_error(parts[2].len() as int, 116, limit_2);
            let told = requests_error::<E>(bytes);
            &&& deposits is Some ==> told == deposits
            &&& deposits is None && withdrawals is Some ==> told == withdrawals
            &&& deposits is None && withdrawals is None ==> told == consolidations
        }),
{
    if is_container(requests_layout(), parts, bytes) {
        lemma_container_unique(
            requests_layout(),
            parts,
            choose|p: Seq<Seq<u8>>| is_container(requests_layout(), p, bytes),
            bytes,
        );
    }
}

/// Of all that is wrong with a payload, what is wrong with its entries is told first, and then what
/// is wrong with the extra data, with the transactions and with the withdrawals, in this order.
pub proof fn lemma_first_fault_of_a_payload_is_told<E: EthSpec>(
    bytes: Seq<u8>,
    parts: Seq<Seq<u8>>,
)
    ensures
        container_error(payload_layout(), bytes) is Some ==> payload_error::<E>(bytes)
            == container_error(payload_layout(), bytes),
        splits_into(payload_layout(), parts, bytes) ==> ({
            let extra_data = list_error(
                parts[10].len() as int,
                1,
                E::spec_max_extra_data_bytes(),
            );
            let transactions = byte_lists_error(
                parts[13],
                E::spec_max_transactions_per_payload(),
                E::spec_max_bytes_per_transaction(),
            );
            let withdrawals = list_error(
                parts[14].len() as int,
                44,
                E::spec_max_withdrawals_per_payload(),
            );
            let told = payload_error::<E>(bytes);
            &&& extra_data is Some ==> told == extra_data
            &&& extra_data is None && transactions is Some ==> told == transactions
            &&& extra_data is None && transactions is None ==> told == withdrawals
        }),
{
    if is_container(payload_layout(), parts, bytes) {
        lemma_container_unique(
            payload_layout(),
            parts,
            choose|p: Seq<Seq<u8>>| is_container(payload_layout(), p, bytes),
            bytes,
        );
    }
}

/// Of all that is wrong with an envelope, what is wrong with its entries is told first, and then
/// what is wrong with the payload, with the requests and with the commitments, in this order.
pub proof fn lemma_first_fault_of_an_envelope_is_told<E: EthSpec>(
    bytes: Seq<u8>,
    parts: Seq<Seq<u8>>,
)
    ensures
        container_error(envelope_layout(), bytes) is Some ==> envelope_error::<E>(bytes)
            == container_error(envelope_layout(), bytes),
        splits_into(envelope_layout(), parts, bytes) ==> ({
            let payload = payload_error::<E>(parts[0]);
            let requests = requests_error::<E>(parts[1]);
            let commitments = list_error(
                parts[5].len() as int,
                48,
                E::spec_max_blob_commitments_per_block(),
            );
            let told = envelope_error::<E>(bytes);
            &&& payload is Some ==> told == payload
            &&& payload is None && requests is Some ==> told == requests
            &&& payload is None && requests is None ==> told == commitments
        }),
{
    if is_container(envelope_layout(), parts, bytes) {
        lemma_container_unique(
            envelope_layout(),
            parts,
            choose|p: Seq<Seq<u8>>| is_container(envelope_layout(), p, bytes),
            bytes,
        );
    }
}

/// What is told of a signed envelope is what is wrong with its entries, or else with the envelope.
pub proof fn lemma_first_fault_of_a_signed_envelope_is_told<E: EthSpec>(
    bytes: Seq<u8>,
    parts: Seq<Seq<u8>>,
)
    ensures
        container_error(signed_envelope_layout(), bytes) is Some ==> signed_envelope_error::<E>(
            bytes,
        ) == container_error(signed_envelope_layout(), bytes),
        splits_into(signed_envelope_layout(), parts, bytes) ==> signed_envelope_error::<E>(bytes)
            == envelope_error::<E>(parts[0]),
{
    if is_container(signed_envelope_layout(), parts, bytes) {
        lemma_container_unique(
            signed_envelope_layout(),
            parts,
            choose|p: Seq<Seq<u8>>| is_container(signed_envelope_layout(), p, bytes),
            bytes,
        );
    }
}

/// A payload attestation is read from exactly 146 bytes, and a byte that stands for a truth value
/// is zero or one; of two that are not, the first is named.
pub proof fn lemma_payload_attestations_are_read_from_their_bytes(bytes: Seq<u8>)
    ensures
        match attestation_error(bytes) {
            None => bytes.len() == 146 && bytes[48] <= 1 && bytes[49] <= 1,
            Some(DecodeErrorModel::InvalidByteLength { len, expected }) => len == bytes.len()
                && len != 146 && expected == 146,
            Some(e) => {
                let byte = if bytes[48] > 1 {
                    bytes[48]
                } else {
                    bytes[49]
                };
                bytes.len() == 146 && byte > 1 && e == no_truth_value(byte)
            },
        },
{
}

/// What is said of a byte that is no truth value.
pub open spec fn no_truth_value(byte: u8) -> DecodeErrorModel {
    DecodeErrorModel::BytesInvalid("Out-of-range for boolean: "@ + decimal(byte as nat))
}

/// The number of bytes in some byte lists.
pub open spec fn total_len(lists: Seq<Seq<u8>>) -> nat
    decreases lists.len(),
{
    if lists.len() == 0 {
        0
    } else {
        lists.first().len() + total_len(lists.drop_first())
    }
}

proof fn lemma_tail_is_total(lists: Seq<Seq<u8>>, k: int)
    requires
        0 <= k <= lists.len(),
    ensures
        tail_len(variable_layout(lists.len()), lists, k) == total_len(lists.skip(k)),
    decreases lists.len() - k,
{
    if k < lists.len() {
        lemma_tail_is_total(lists, k + 1);
        assert(lists.skip(k).drop_first() =~= lists.skip(k + 1));
        assert(lists.skip(k).first() == lists[k]);
    } else {
        assert(lists.skip(k) =~= Seq::empty());
    }
}

/// An envelope takes as many bytes as its parts: 92 for itself, 528 for its payload and 12 for its
/// requests, and what the lists hold; a transaction takes four bytes more than it has. It can be
/// written if no list is longer than allowed.
pub proof fn lemma_length_of_an_envelope<E: EthSpec>(envelope: ExecutionPayloadEnvelopeGloas)
    ensures
        ({
            let payload = envelope.payload;
            let requests = envelope.execution_requests;
            &&& envelope_ssz_len(envelope) == 92 + 528 + 12 + payload.extra_data@.len() + 4
                * payload.transactions@.len() + total_len(byte_list_views(payload.transactions@))
                + 44 * payload.withdrawals@.len() + 192 * requests.deposits@.len() + 76
                * requests.withdrawals@.len() + 116 * requests.consolidations@.len() + 48
                * envelope.blob_kzg_commitments@.len()
            &&& envelope_fits::<E>(envelope) <==> {
                &&& payload.extra_data@.len() <= E::spec_max_extra_data_bytes()
                &&& payload.transactions@.len() <= E::spec_max_transactions_per_payload()
                &&& forall|i: int|
                    0 <= i < payload.transactions@.len() ==> (
                    #[trigger] payload.transactions@[i])@.len()
                        <= E::spec_max_bytes_per_transaction()
                &&& payload.withdrawals@.len() <= E::spec_max_withdrawals_per_payload()
                &&& requests.deposits@.len() <= E::spec_max_deposit_requests_per_payload()
                &&& requests.withdrawals@.len() <= E::spec_max_withdrawal_requests_per_payload()
                &&& requests.consolidations@.len()
                    <= E::spec_max_consolidation_requests_per_payload()
                &&& envelope.blob_kzg_commitments@.len() <= E::spec_max_blob_commitments_per_block()
            }
        }),
{
    let payload = envelope.payload;
    let views = byte_list_views(payload.transactions@);
    lemma_variable_layout(views.len(), views.len() as int);
    lemma_tail_is_total(views, 0);
    assert(views.skip(0) =~= views);
    assert(byte_lists_ssz_len(payload.transactions@) == 4 * views.len() + total_len(views));
    assert(payload_ssz_len(payload) == 528 + payload.extra_data@.len() + byte_lists_ssz_len(
        payload.transactions@,
    ) + 44 * payload.withdrawals@.len());
    assert(requests_ssz_len(envelope.execution_requests) >= 12);
    assert forall|i: int| 0 <= i < payload.transactions@.len() implies (
    #[trigger] payload.transactions@[i])@.len() == views[i].len() by {}
    if forall|i: int|
        0 <= i < payload.transactions@.len() ==> (#[trigger] payload.transactions@[i])@.len()
            <= E::spec_max_bytes_per_transaction() {
        assert forall|i: int| 0 <= i < views.len() implies (#[trigger] views[i]).len()
            <= E::spec_max_bytes_per_transaction() by {
            assert(payload.transactions@[i]@.len() == views[i].len());
        }
    }
}

} // verus!
