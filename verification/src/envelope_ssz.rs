//! The SSZ encoding of an envelope.

use crate::eth_spec::{EthSpec, MAX_LIST_LIMIT};
use crate::execution_payload_envelope::{
    unsupported_fork, ConsolidationRequest, DepositRequest, ExecutionPayloadEnvelope,
    ExecutionPayloadEnvelopeGloas, ExecutionPayloadEnvelopeNextFork, ExecutionPayloadGloas,
    ExecutionRequests, SignedExecutionPayloadEnvelopeGloas, SignedExecutionPayloadEnvelopeNextFork,
    Withdrawal, WithdrawalRequest,
};
use crate::primitives::{
    lemma_fixed_bytes_ext, FixedBytes, ForkName, Hash256, KzgCommitment, Signature, Slot,
};
use crate::ssz::{
    append_u64, byte_list_views, byte_lists_error, byte_lists_fit, bytes_field, container_error,
    copy_bytes, decode_byte_list, decode_byte_lists, decode_list, encode_container, encode_list,
    entry_start, fields_of, is_container, is_list, is_list_of_byte_lists, lemma_byte_list_count,
    lemma_container_unique, lemma_fixed_field_len, lemma_list_unique, lemma_u64_bytes,
    lemma_variable_layout, list_error, read_bytes, read_u64, slice_views, split_container,
    tail_len, u64_field, variable_layout, DecodeError, DecodeErrorModel, FixedSsz,
};
use vstd::bytes::u64_to_le_bytes;
use vstd::prelude::*;

verus! {

impl FixedSsz for FixedBytes<48> {
    open spec fn ssz_len() -> nat {
        48
    }

    open spec fn ssz(self) -> Seq<u8> {
        self.bytes()
    }

    proof fn lemma_ssz(a: Self, b: Self) {
        if a.ssz() == b.ssz() {
            lemma_fixed_bytes_ext(a, b);
        }
    }

    fn ssz_fixed_len() -> (r: usize) {
        48
    }

    fn from_ssz_bytes(bytes: &[u8]) -> (r: Self) {
        bytes_field(bytes)
    }

    fn ssz_append(&self, out: &mut Vec<u8>) {
        self.append_to(out);
    }
}

/// Two byte strings that are equal, are equal part by part.
proof fn lemma_equal_parts(a: Seq<u8>, b: Seq<u8>, c: Seq<u8>, d: Seq<u8>)
    requires
        a + b == c + d,
        a.len() == c.len(),
    ensures
        a == c,
        b == d,
{
    assert(a =~= (a + b).take(a.len() as int));
    assert(c =~= (c + d).take(c.len() as int));
    assert(b =~= (a + b).skip(a.len() as int));
    assert(d =~= (c + d).skip(c.len() as int));
}

impl FixedSsz for Withdrawal {
    open spec fn ssz_len() -> nat {
        44
    }

    open spec fn ssz(self) -> Seq<u8> {
        vstd::bytes::spec_u64_to_le_bytes(self.index) + (vstd::bytes::spec_u64_to_le_bytes(
            self.validator_index,
        ) + (self.address.bytes() + vstd::bytes::spec_u64_to_le_bytes(self.amount)))
    }

    proof fn lemma_ssz(a: Self, b: Self) {
        let le = |x: u64| vstd::bytes::spec_u64_to_le_bytes(x);
        lemma_u64_bytes(a.index, b.index);
        lemma_u64_bytes(a.validator_index, b.validator_index);
        lemma_u64_bytes(a.amount, b.amount);
        if a.ssz() == b.ssz() {
            let a3 = a.address.bytes() + le(a.amount);
            let b3 = b.address.bytes() + le(b.amount);
            let a2 = le(a.validator_index) + a3;
            let b2 = le(b.validator_index) + b3;
            lemma_equal_parts(le(a.index), a2, le(b.index), b2);
            lemma_equal_parts(le(a.validator_index), a3, le(b.validator_index), b3);
            lemma_equal_parts(a.address.bytes(), le(a.amount), b.address.bytes(), le(b.amount));
            lemma_fixed_bytes_ext(a.address, b.address);
        }
    }

    fn ssz_fixed_len() -> (r: usize) {
        44
    }

    fn from_ssz_bytes(bytes: &[u8]) -> (r: Self) {
        let r = Withdrawal {
            index: read_u64(bytes, 0),
            validator_index: read_u64(bytes, 8),
            address: read_bytes(bytes, 16),
            amount: read_u64(bytes, 36),
        };
        assert(r.ssz() =~= bytes@);
        r
    }

    fn ssz_append(&self, out: &mut Vec<u8>) {
        append_u64(self.index, out);
        append_u64(self.validator_index, out);
        self.address.append_to(out);
        append_u64(self.amount, out);
        assert(out@ =~= old(out)@ + self.ssz());
    }
}

impl FixedSsz for DepositRequest {
    open spec fn ssz_len() -> nat {
        192
    }

    open spec fn ssz(self) -> Seq<u8> {
        self.pubkey.bytes() + (self.withdrawal_credentials.bytes() + (
        vstd::bytes::spec_u64_to_le_bytes(self.amount) + (self.signature.bytes()
            + vstd::bytes::spec_u64_to_le_bytes(self.index))))
    }

    proof fn lemma_ssz(a: Self, b: Self) {
        let le = |x: u64| vstd::bytes::spec_u64_to_le_bytes(x);
        lemma_u64_bytes(a.amount, b.amount);
        lemma_u64_bytes(a.index, b.index);
        if a.ssz() == b.ssz() {
            let a4 = a.signature.bytes() + le(a.index);
            let b4 = b.signature.bytes() + le(b.index);
            let a3 = le(a.amount) + a4;
            let b3 = le(b.amount) + b4;
            let a2 = a.withdrawal_credentials.bytes() + a3;
            let b2 = b.withdrawal_credentials.bytes() + b3;
            lemma_equal_parts(a.pubkey.bytes(), a2, b.pubkey.bytes(), b2);
            lemma_equal_parts(
                a.withdrawal_credentials.bytes(),
                a3,
                b.withdrawal_credentials.bytes(),
                b3,
            );
            lemma_equal_parts(le(a.amount), a4, le(b.amount), b4);
            lemma_equal_parts(a.signature.bytes(), le(a.index), b.signature.bytes(), le(b.index));
            lemma_fixed_bytes_ext(a.pubkey, b.pubkey);
            lemma_fixed_bytes_ext(a.withdrawal_credentials, b.withdrawal_credentials);
            lemma_fixed_bytes_ext(a.signature, b.signature);
        }
    }

    fn ssz_fixed_len() -> (r: usize) {
        192
    }

    fn from_ssz_bytes(bytes: &[u8]) -> (r: Self) {
        let r = DepositRequest {
            pubkey: read_bytes(bytes, 0),
            withdrawal_credentials: read_bytes(bytes, 48),
            amount: read_u64(bytes, 80),
            signature: read_bytes(bytes, 88),
            index: read_u64(bytes, 184),
        };
        assert(r.ssz() =~= bytes@);
        r
    }

    fn ssz_append(&self, out: &mut Vec<u8>) {
        self.pubkey.append_to(out);
        self.withdrawal_credentials.append_to(out);
        append_u64(self.amount, out);
        self.signature.append_to(out);
        append_u64(self.index, out);
        assert(out@ =~= old(out)@ + self.ssz());
    }
}

impl FixedSsz for WithdrawalRequest {
    open spec fn ssz_len() -> nat {
        76
    }

    open spec fn ssz(self) -> Seq<u8> {
        self.source_address.bytes() + (self.validator_pubkey.bytes()
            + vstd::bytes::spec_u64_to_le_bytes(self.amount))
    }

    proof fn lemma_ssz(a: Self, b: Self) {
        let le = |x: u64| vstd::bytes::spec_u64_to_le_bytes(x);
        lemma_u64_bytes(a.amount, b.amount);
        if a.ssz() == b.ssz() {
            let a2 = a.validator_pubkey.bytes() + le(a.amount);
            let b2 = b.validator_pubkey.bytes() + le(b.amount);
            lemma_equal_parts(a.source_address.bytes(), a2, b.source_address.bytes(), b2);
            lemma_equal_parts(
                a.validator_pubkey.bytes(),
                le(a.amount),
                b.validator_pubkey.bytes(),
                le(b.amount),
            );
            lemma_fixed_bytes_ext(a.source_address, b.source_address);
            lemma_fixed_bytes_ext(a.validator_pubkey, b.validator_pubkey);
        }
    }

    fn ssz_fixed_len() -> (r: usize) {
        76
    }

    fn from_ssz_bytes(bytes: &[u8]) -> (r: Self) {
        let r = WithdrawalRequest {
            source_address: read_bytes(bytes, 0),
            validator_pubkey: read_bytes(bytes, 20),
            amount: read_u64(bytes, 68),
        };
        assert(r.ssz() =~= bytes@);
        r
    }

    fn ssz_append(&self, out: &mut Vec<u8>) {
        self.source_address.append_to(out);
        self.validator_pubkey.append_to(out);
        append_u64(self.amount, out);
        assert(out@ =~= old(out)@ + self.ssz());
    }
}

impl FixedSsz for ConsolidationRequest {
    open spec fn ssz_len() -> nat {
        116
    }

    open spec fn ssz(self) -> Seq<u8> {
        self.source_address.bytes() + (self.source_pubkey.bytes() + self.target_pubkey.bytes())
    }

    proof fn lemma_ssz(a: Self, b: Self) {
        if a.ssz() == b.ssz() {
            let a2 = a.source_pubkey.bytes() + a.target_pubkey.bytes();
            let b2 = b.source_pubkey.bytes() + b.target_pubkey.bytes();
            lemma_equal_parts(a.source_address.bytes(), a2, b.source_address.bytes(), b2);
            lemma_equal_parts(
                a.source_pubkey.bytes(),
                a.target_pubkey.bytes(),
                b.source_pubkey.bytes(),
                b.target_pubkey.bytes(),
            );
            lemma_fixed_bytes_ext(a.source_address, b.source_address);
            lemma_fixed_bytes_ext(a.source_pubkey, b.source_pubkey);
            lemma_fixed_bytes_ext(a.target_pubkey, b.target_pubkey);
        }
    }

    fn ssz_fixed_len() -> (r: usize) {
        116
    }

    fn from_ssz_bytes(bytes: &[u8]) -> (r: Self) {
        let r = ConsolidationRequest {
            source_address: read_bytes(bytes, 0),
            source_pubkey: read_bytes(bytes, 20),
            target_pubkey: read_bytes(bytes, 68),
        };
        assert(r.ssz() =~= bytes@);
        r
    }

    fn ssz_append(&self, out: &mut Vec<u8>) {
        self.source_address.append_to(out);
        self.source_pubkey.append_to(out);
        self.target_pubkey.append_to(out);
        assert(out@ =~= old(out)@ + self.ssz());
    }
}

/// The sizes of the fields of [`ExecutionRequests`].
pub open spec fn requests_layout() -> Seq<Option<usize>> {
    seq![None, None, None]
}

/// Whether `parts` holds the fields of the requests, each list within its limit.
pub open spec fn holds_requests<E: EthSpec>(
    requests: ExecutionRequests,
    parts: Seq<Seq<u8>>,
) -> bool {
    &&& is_list(requests.deposits@, parts[0])
    &&& requests.deposits@.len() <= E::spec_max_deposit_requests_per_payload()
    &&& is_list(requests.withdrawals@, parts[1])
    &&& requests.withdrawals@.len() <= E::spec_max_withdrawal_requests_per_payload()
    &&& is_list(requests.consolidations@, parts[2])
    &&& requests.consolidations@.len() <= E::spec_max_consolidation_requests_per_payload()
}

/// Whether `bytes` encodes the requests.
pub open spec fn encodes_requests<E: EthSpec>(
    requests: ExecutionRequests,
    bytes: Seq<u8>,
) -> bool {
    exists|parts: Seq<Seq<u8>>| #[trigger]
        is_container(requests_layout(), parts, bytes) && holds_requests::<E>(requests, parts)
}

/// The first of two errors.
pub open spec fn first_error(
    a: Option<DecodeErrorModel>,
    b: Option<DecodeErrorModel>,
) -> Option<DecodeErrorModel> {
    if a is Some {
        a
    } else {
        b
    }
}

/// Why `bytes` encodes no requests, if it encodes none: it is no container, or one of its lists,
/// which are read in order, is none.
pub open spec fn requests_error<E: EthSpec>(bytes: Seq<u8>) -> Option<DecodeErrorModel> {
    let parts = fields_of(requests_layout(), bytes);
    first_error(
        container_error(requests_layout(), bytes),
        first_error(
            list_error(parts[0].len() as int, 192, E::spec_max_deposit_requests_per_payload()),
            first_error(
                list_error(
                    parts[1].len() as int,
                    76,
                    E::spec_max_withdrawal_requests_per_payload(),
                ),
                list_error(
                    parts[2].len() as int,
                    116,
                    E::spec_max_consolidation_requests_per_payload(),
                ),
            ),
        ),
    )
}

/// The requests that `bytes` encodes, if it encodes any.
pub fn decode_requests<E: EthSpec>(bytes: &[u8]) -> (r: Result<ExecutionRequests, DecodeError>)
    ensures
        match r {
            Ok(requests) => {
                &&& requests_error::<E>(bytes@) is None
                &&& encodes_requests::<E>(requests, bytes@)
            },
            Err(e) => {
                &&& requests_error::<E>(bytes@) == Some(e@)
                &&& forall|requests: ExecutionRequests|
                    !#[trigger] encodes_requests::<E>(requests, bytes@)
            },
        },
{
    let layout: Vec<Option<usize>> = vec![None, None, None];
    assert(layout@ =~= requests_layout());
    assert(entry_start(requests_layout(), 3) == 12) by {
        reveal_with_fuel(entry_start, 4);
    }
    let parts = match split_container(bytes, &layout) {
        Ok(parts) => parts,
        Err(e) => {
            return Err(e);
        },
    };
    let ghost views = slice_views(parts@);
    assert forall|requests: ExecutionRequests| #[trigger]
        encodes_requests::<E>(requests, bytes@) implies holds_requests::<E>(
        requests,
        views,
    ) by {
        let p = choose|p: Seq<Seq<u8>>| #[trigger]
            is_container(requests_layout(), p, bytes@) && holds_requests::<E>(requests, p);
        assert(p == views);
    }
    assert(views.len() == 3);
    let deposits = match decode_list(parts[0], E::max_deposit_requests_per_payload()) {
        Ok(deposits) => deposits,
        Err(e) => {
            return Err(e);
        },
    };
    let withdrawals = match decode_list(parts[1], E::max_withdrawal_requests_per_payload()) {
        Ok(withdrawals) => withdrawals,
        Err(e) => {
            return Err(e);
        },
    };
    let consolidations = match decode_list(
        parts[2],
        E::max_consolidation_requests_per_payload(),
    ) {
        Ok(consolidations) => consolidations,
        Err(e) => {
            return Err(e);
        },
    };
    let requests = ExecutionRequests { deposits, withdrawals, consolidations };
    assert(holds_requests::<E>(requests, views));
    Ok(requests)
}

/// The sizes of the fields of [`ExecutionPayloadGloas`].
pub open spec fn payload_layout() -> Seq<Option<usize>> {
    seq![
        Some(32), Some(20), Some(32), Some(32), Some(256), Some(32), Some(8), Some(8), Some(8),
        Some(8), None, Some(32), Some(32), None, None, Some(8), Some(8),
    ]
}

/// Whether `parts` holds the fields of the payload, each list within its limit.
pub open spec fn holds_payload<E: EthSpec>(
    payload: ExecutionPayloadGloas,
    parts: Seq<Seq<u8>>,
) -> bool {
    &&& parts[0] == payload.parent_hash.bytes()
    &&& parts[1] == payload.fee_recipient.bytes()
    &&& parts[2] == payload.state_root.bytes()
    &&& parts[3] == payload.receipts_root.bytes()
    &&& parts[4] == payload.logs_bloom.bytes()
    &&& parts[5] == payload.prev_randao.bytes()
    &&& parts[6] == vstd::bytes::spec_u64_to_le_bytes(payload.block_number)
    &&& parts[7] == vstd::bytes::spec_u64_to_le_bytes(payload.gas_limit)
    &&& parts[8] == vstd::bytes::spec_u64_to_le_bytes(payload.gas_used)
    &&& parts[9] == vstd::bytes::spec_u64_to_le_bytes(payload.timestamp)
    &&& parts[10] == payload.extra_data@
    &&& payload.extra_data@.len() <= E::spec_max_extra_data_bytes()
    &&& parts[11] == payload.base_fee_per_gas.bytes()
    &&& parts[12] == payload.block_hash.bytes()
    &&& is_list_of_byte_lists(byte_list_views(payload.transactions@), parts[13])
    &&& byte_lists_fit(
        byte_list_views(payload.transactions@),
        E::spec_max_transactions_per_payload(),
        E::spec_max_bytes_per_transaction(),
    )
    &&& is_list(payload.withdrawals@, parts[14])
    &&& payload.withdrawals@.len() <= E::spec_max_withdrawals_per_payload()
    &&& parts[15] == vstd::bytes::spec_u64_to_le_bytes(payload.blob_gas_used)
    &&& parts[16] == vstd::bytes::spec_u64_to_le_bytes(payload.excess_blob_gas)
}

/// Whether `bytes` encodes the payload.
pub open spec fn encodes_payload<E: EthSpec>(
    payload: ExecutionPayloadGloas,
    bytes: Seq<u8>,
) -> bool {
    exists|parts: Seq<Seq<u8>>| #[trigger]
        is_container(payload_layout(), parts, bytes) && holds_payload::<E>(payload, parts)
}

/// The sizes of the fields of [`ExecutionPayloadGloas`].
fn payload_field_sizes() -> (r: Vec<Option<usize>>)
    ensures
        r@ == payload_layout(),
        entry_start(r@, r@.len() as int) == 528,
{
    let layout: Vec<Option<usize>> = vec![
        Some(32), Some(20), Some(32), Some(32), Some(256), Some(32), Some(8), Some(8), Some(8),
        Some(8), None, Some(32), Some(32), None, None, Some(8), Some(8),
    ];
    assert(layout@ =~= payload_layout());
    assert(entry_start(payload_layout(), 17) == 528) by {
        reveal_with_fuel(entry_start, 18);
    }
    layout
}

/// Why `bytes` encodes no payload, if it encodes none: it is no container, or one of its lists,
/// which are read in order, is none.
pub open spec fn payload_error<E: EthSpec>(bytes: Seq<u8>) -> Option<DecodeErrorModel> {
    let parts = fields_of(payload_layout(), bytes);
    first_error(
        container_error(payload_layout(), bytes),
        first_error(
            list_error(parts[10].len() as int, 1, E::spec_max_extra_data_bytes()),
            first_error(
                byte_lists_error(
                    parts[13],
                    E::spec_max_transactions_per_payload(),
                    E::spec_max_bytes_per_transaction(),
                ),
                list_error(parts[14].len() as int, 44, E::spec_max_withdrawals_per_payload()),
            ),
        ),
    )
}

/// The payload that `bytes` encodes, if it encodes one.
pub fn decode_payload<E: EthSpec>(bytes: &[u8]) -> (r: Result<ExecutionPayloadGloas, DecodeError>)
    ensures
        match r {
            Ok(payload) => {
                &&& payload_error::<E>(bytes@) is None
                &&& encodes_payload::<E>(payload, bytes@)
            },
            Err(e) => {
                &&& payload_error::<E>(bytes@) == Some(e@)
                &&& forall|payload: ExecutionPayloadGloas|
                    !#[trigger] encodes_payload::<E>(payload, bytes@)
            },
        },
{
    proof {
        E::lemma_list_limits();
    }
    let layout = payload_field_sizes();
    let parts = match split_container(bytes, &layout) {
        Ok(parts) => parts,
        Err(e) => {
            return Err(e);
        },
    };
    let ghost views = slice_views(parts@);
    proof {
        assert forall|payload: ExecutionPayloadGloas| #[trigger]
            encodes_payload::<E>(payload, bytes@) implies holds_payload::<E>(payload, views) by {
            let p = choose|p: Seq<Seq<u8>>| #[trigger]
                is_container(payload_layout(), p, bytes@) && holds_payload::<E>(payload, p);
            assert(p == views);
        }
        assert(views.len() == 17);
        assert forall|k: int| 0 <= k < 17 && payload_layout()[k] is Some implies (
        #[trigger] parts@[k])@.len() == payload_layout()[k]->0 by {
            lemma_fixed_field_len(payload_layout(), views, bytes@, k);
        }
    }
    let extra_data = match decode_byte_list(parts[10], E::max_extra_data_bytes()) {
        Ok(extra_data) => extra_data,
        Err(e) => {
            return Err(e);
        },
    };
    let transactions = match decode_byte_lists(
        parts[13],
        E::max_transactions_per_payload(),
        E::max_bytes_per_transaction(),
    ) {
        Ok(transactions) => transactions,
        Err(e) => {
            assert forall|payload: ExecutionPayloadGloas|
                !#[trigger] encodes_payload::<E>(payload, bytes@) by {
                if encodes_payload::<E>(payload, bytes@) {
                    assert(holds_payload::<E>(payload, views));
                    assert(is_list_of_byte_lists(
                        byte_list_views(payload.transactions@),
                        parts@[13]@,
                    ));
                }
            }
            return Err(e);
        },
    };
    let withdrawals = match decode_list(parts[14], E::max_withdrawals_per_payload()) {
        Ok(withdrawals) => withdrawals,
        Err(e) => {
            assert forall|payload: ExecutionPayloadGloas|
                !#[trigger] encodes_payload::<E>(payload, bytes@) by {
                if encodes_payload::<E>(payload, bytes@) {
                    assert(holds_payload::<E>(payload, views));
                    assert(is_list(payload.withdrawals@, parts@[14]@));
                }
            }
            return Err(e);
        },
    };
    let payload = ExecutionPayloadGloas {
        parent_hash: bytes_field(parts[0]),
        fee_recipient: bytes_field(parts[1]),
        state_root: bytes_field(parts[2]),
        receipts_root: bytes_field(parts[3]),
        logs_bloom: bytes_field(parts[4]),
        prev_randao: bytes_field(parts[5]),
        block_number: u64_field(parts[6]),
        gas_limit: u64_field(parts[7]),
        gas_used: u64_field(parts[8]),
        timestamp: u64_field(parts[9]),
        extra_data,
        base_fee_per_gas: bytes_field(parts[11]),
        block_hash: bytes_field(parts[12]),
        transactions,
        withdrawals,
        blob_gas_used: u64_field(parts[15]),
        excess_blob_gas: u64_field(parts[16]),
    };
    assert(holds_payload::<E>(payload, views));
    Ok(payload)
}

/// The sizes of the fields of [`ExecutionPayloadEnvelopeGloas`].
pub open spec fn envelope_layout() -> Seq<Option<usize>> {
    seq![None, None, Some(8), Some(32), Some(8), None, Some(32)]
}

/// Whether `parts` holds the fields of the envelope, each list within its limit.
pub open spec fn holds_envelope<E: EthSpec>(
    envelope: ExecutionPayloadEnvelopeGloas,
    parts: Seq<Seq<u8>>,
) -> bool {
    &&& encodes_payload::<E>(envelope.payload, parts[0])
    &&& encodes_requests::<E>(envelope.execution_requests, parts[1])
    &&& parts[2] == vstd::bytes::spec_u64_to_le_bytes(envelope.builder_index)
    &&& parts[3] == envelope.beacon_block_root.bytes()
    &&& parts[4] == vstd::bytes::spec_u64_to_le_bytes(envelope.slot.0)
    &&& is_list(envelope.blob_kzg_commitments@, parts[5])
    &&& envelope.blob_kzg_commitments@.len() <= E::spec_max_blob_commitments_per_block()
    &&& parts[6] == envelope.state_root.bytes()
}

/// Whether `bytes` encodes the envelope.
pub open spec fn encodes_envelope<E: EthSpec>(
    envelope: ExecutionPayloadEnvelopeGloas,
    bytes: Seq<u8>,
) -> bool {
    exists|parts: Seq<Seq<u8>>| #[trigger]
        is_container(envelope_layout(), parts, bytes) && holds_envelope::<E>(envelope, parts)
}

/// The sizes of the fields of [`ExecutionPayloadEnvelopeGloas`].
fn envelope_field_sizes() -> (r: Vec<Option<usize>>)
    ensures
        r@ == envelope_layout(),
        entry_start(r@, r@.len() as int) == 92,
{
    let layout: Vec<Option<usize>> = vec![
        None, None, Some(8), Some(32), Some(8), None, Some(32),
    ];
    assert(layout@ =~= envelope_layout());
    assert(entry_start(envelope_layout(), 7) == 92) by {
        reveal_with_fuel(entry_start, 8);
    }
    layout
}

/// Why `bytes` encodes no envelope, if it encodes none: it is no container, or one of its fields,
/// which are read in order, cannot be read.
pub open spec fn envelope_error<E: EthSpec>(bytes: Seq<u8>) -> Option<DecodeErrorModel> {
    let parts = fields_of(envelope_layout(), bytes);
    first_error(
        container_error(envelope_layout(), bytes),
        first_error(
            payload_error::<E>(parts[0]),
            first_error(
                requests_error::<E>(parts[1]),
                list_error(parts[5].len() as int, 48, E::spec_max_blob_commitments_per_block()),
            ),
        ),
    )
}

impl ExecutionPayloadEnvelopeGloas {
    /// The envelope that `bytes` encodes, if it encodes one.
    pub fn from_ssz_bytes<E: EthSpec>(bytes: &[u8]) -> (r: Result<Self, DecodeError>)
        ensures
            match r {
                Ok(envelope) => {
                    &&& envelope_error::<E>(bytes@) is None
                    &&& encodes_envelope::<E>(envelope, bytes@)
                },
                Err(e) => {
                    &&& envelope_error::<E>(bytes@) == Some(e@)
                    &&& forall|envelope: ExecutionPayloadEnvelopeGloas|
                        !#[trigger] encodes_envelope::<E>(envelope, bytes@)
                },
            },
    {
        let layout = envelope_field_sizes();
        let parts = match split_container(bytes, &layout) {
            Ok(parts) => parts,
            Err(e) => {
                return Err(e);
            },
        };
        let ghost views = slice_views(parts@);
        proof {
            assert forall|envelope: ExecutionPayloadEnvelopeGloas| #[trigger]
                encodes_envelope::<E>(envelope, bytes@) implies holds_envelope::<E>(
                envelope,
                views,
            ) by {
                let p = choose|p: Seq<Seq<u8>>| #[trigger]
                    is_container(envelope_layout(), p, bytes@) && holds_envelope::<E>(envelope, p);
                assert(p == views);
            }
            assert(views.len() == 7);
            assert forall|k: int| 0 <= k < 7 && envelope_layout()[k] is Some implies (
            #[trigger] parts@[k])@.len() == envelope_layout()[k]->0 by {
                lemma_fixed_field_len(envelope_layout(), views, bytes@, k);
            }
        }
        let payload = match decode_payload::<E>(parts[0]) {
            Ok(payload) => payload,
            Err(e) => {
                return Err(e);
            },
        };
        let execution_requests = match decode_requests::<E>(parts[1]) {
            Ok(execution_requests) => execution_requests,
            Err(e) => {
                return Err(e);
            },
        };
        let blob_kzg_commitments = match decode_list(
            parts[5],
            E::max_blob_commitments_per_block(),
        ) {
            Ok(blob_kzg_commitments) => blob_kzg_commitments,
            Err(e) => {
                return Err(e);
            },
        };
        let envelope = ExecutionPayloadEnvelopeGloas {
            payload,
            execution_requests,
            builder_index: u64_field(parts[2]),
            beacon_block_root: bytes_field(parts[3]),
            slot: Slot(u64_field(parts[4])),
            blob_kzg_commitments,
            state_root: bytes_field(parts[6]),
        };
        assert(holds_envelope::<E>(envelope, views));
        Ok(envelope)
    }
}

impl ExecutionPayloadEnvelope {
    /// Custom SSZ decoder that takes a `ForkName` as context.
    pub fn from_ssz_bytes_for_fork<E: EthSpec>(bytes: &[u8], fork_name: ForkName) -> (r: Result<
        Self,
        DecodeError,
    >)
        ensures
            fork_name is Gloas ==> match r {
                Ok(envelope) => envelope matches ExecutionPayloadEnvelope::Gloas(envelope)
                    && encodes_envelope::<E>(envelope, bytes@),
                Err(e) => {
                    &&& envelope_error::<E>(bytes@) == Some(e@)
                    &&& forall|envelope: ExecutionPayloadEnvelopeGloas|
                        !#[trigger] encodes_envelope::<E>(envelope, bytes@)
                },
            },
            !(fork_name is Gloas) ==> (r matches Err(DecodeError::BytesInvalid(message)) && message@
                == "ExecutionPayloadEnvelope does not support fork "@ + fork_name.spec_name()),
    {
        match fork_name {
            ForkName::Gloas => match ExecutionPayloadEnvelopeGloas::from_ssz_bytes::<E>(bytes) {
                Ok(envelope) => Ok(ExecutionPayloadEnvelope::Gloas(envelope)),
                Err(e) => Err(e),
            },
            _ => Err(
                DecodeError::BytesInvalid(
                    unsupported_fork("ExecutionPayloadEnvelope does not support fork ", fork_name),
                ),
            ),
        }
    }
}

/// The bytes of a field of fixed size.
fn fixed_field<const N: usize>(value: &FixedBytes<N>) -> (r: Vec<u8>)
    ensures
        r@ == value.bytes(),
{
    let mut r: Vec<u8> = Vec::new();
    value.append_to(&mut r);
    r
}

/// The number of bytes in the encoding of some byte lists.
pub open spec fn byte_lists_ssz_len(lists: Seq<Vec<u8>>) -> nat {
    let layout = variable_layout(lists.len());
    entry_start(layout, layout.len() as int) + tail_len(layout, byte_list_views(lists), 0)
}

/// The list of some byte lists.
fn encode_byte_lists(lists: &Vec<Vec<u8>>) -> (r: Vec<u8>)
    requires
        lists@.len() <= MAX_LIST_LIMIT,
        byte_lists_ssz_len(lists@) <= u32::MAX,
    ensures
        is_list_of_byte_lists(byte_list_views(lists@), r@),
{
    let mut layout: Vec<Option<usize>> = Vec::new();
    let mut i: usize = 0;
    while i < lists.len()
        invariant
            i <= lists@.len(),
            layout@ == variable_layout(i as nat),
        decreases lists@.len() - i,
    {
        layout.push(None);
        assert(layout@ =~= variable_layout((i + 1) as nat));
        i = i + 1;
    }
    proof {
        lemma_variable_layout(lists@.len(), lists@.len() as int);
    }
    encode_container(&layout, lists)
}

/// The number of bytes in the encoding of the requests.
pub open spec fn requests_ssz_len(requests: ExecutionRequests) -> nat {
    (12 + 192 * requests.deposits@.len() + 76 * requests.withdrawals@.len() + 116
        * requests.consolidations@.len()) as nat
}

/// The encoding of the requests.
fn encode_requests<E: EthSpec>(requests: &ExecutionRequests) -> (r: Vec<u8>)
    requires
        requests.deposits@.len() <= E::spec_max_deposit_requests_per_payload(),
        requests.withdrawals@.len() <= E::spec_max_withdrawal_requests_per_payload(),
        requests.consolidations@.len() <= E::spec_max_consolidation_requests_per_payload(),
        requests_ssz_len(*requests) <= u32::MAX,
    ensures
        encodes_requests::<E>(*requests, r@),
        r@.len() == requests_ssz_len(*requests),
{
    let layout: Vec<Option<usize>> = vec![None, None, None];
    let parts: Vec<Vec<u8>> = vec![
        encode_list(&requests.deposits),
        encode_list(&requests.withdrawals),
        encode_list(&requests.consolidations),
    ];
    let ghost views = byte_list_views(parts@);
    proof {
        assert(layout@ =~= requests_layout());
        reveal_with_fuel(entry_start, 4);
        reveal_with_fuel(tail_len, 4);
        assert(holds_requests::<E>(*requests, views));
    }
    encode_container(&layout, &parts)
}

/// The number of bytes in the encoding of the payload.
pub open spec fn payload_ssz_len(payload: ExecutionPayloadGloas) -> nat {
    (528 + payload.extra_data@.len() + byte_lists_ssz_len(payload.transactions@) + 44
        * payload.withdrawals@.len()) as nat
}

/// Whether the lists of the payload are within their limits.
pub open spec fn payload_fits<E: EthSpec>(payload: ExecutionPayloadGloas) -> bool {
    &&& payload.extra_data@.len() <= E::spec_max_extra_data_bytes()
    &&& byte_lists_fit(
        byte_list_views(payload.transactions@),
        E::spec_max_transactions_per_payload(),
        E::spec_max_bytes_per_transaction(),
    )
    &&& payload.withdrawals@.len() <= E::spec_max_withdrawals_per_payload()
}

/// The encoding of the payload.
fn encode_payload<E: EthSpec>(payload: &ExecutionPayloadGloas) -> (r: Vec<u8>)
    requires
        payload_fits::<E>(*payload),
        payload_ssz_len(*payload) <= u32::MAX,
    ensures
        encodes_payload::<E>(*payload, r@),
        r@.len() == payload_ssz_len(*payload),
{
    proof {
        E::lemma_list_limits();
    }
    let layout = payload_field_sizes();
    let parts: Vec<Vec<u8>> = vec![
        fixed_field(&payload.parent_hash),
        fixed_field(&payload.fee_recipient),
        fixed_field(&payload.state_root),
        fixed_field(&payload.receipts_root),
        fixed_field(&payload.logs_bloom),
        fixed_field(&payload.prev_randao),
        u64_to_le_bytes(payload.block_number),
        u64_to_le_bytes(payload.gas_limit),
        u64_to_le_bytes(payload.gas_used),
        u64_to_le_bytes(payload.timestamp),
        copy_bytes(payload.extra_data.as_slice()),
        fixed_field(&payload.base_fee_per_gas),
        fixed_field(&payload.block_hash),
        encode_byte_lists(&payload.transactions),
        encode_list(&payload.withdrawals),
        u64_to_le_bytes(payload.blob_gas_used),
        u64_to_le_bytes(payload.excess_blob_gas),
    ];
    let ghost views = byte_list_views(parts@);
    proof {
        reveal_with_fuel(tail_len, 18);
        assert(holds_payload::<E>(*payload, views));
    }
    encode_container(&layout, &parts)
}

/// The number of bytes in the encoding of the envelope.
pub open spec fn envelope_ssz_len(envelope: ExecutionPayloadEnvelopeGloas) -> nat {
    (92 + payload_ssz_len(envelope.payload) + requests_ssz_len(envelope.execution_requests) + 48
        * envelope.blob_kzg_commitments@.len()) as nat
}

/// Whether the lists of the envelope are within their limits.
pub open spec fn envelope_fits<E: EthSpec>(envelope: ExecutionPayloadEnvelopeGloas) -> bool {
    let requests = envelope.execution_requests;
    &&& payload_fits::<E>(envelope.payload)
    &&& requests.deposits@.len() <= E::spec_max_deposit_requests_per_payload()
    &&& requests.withdrawals@.len() <= E::spec_max_withdrawal_requests_per_payload()
    &&& requests.consolidations@.len() <= E::spec_max_consolidation_requests_per_payload()
    &&& envelope.blob_kzg_commitments@.len() <= E::spec_max_blob_commitments_per_block()
}

/// The encoding of the envelope with the given fields.
fn encode_envelope<E: EthSpec>(
    payload: &ExecutionPayloadGloas,
    execution_requests: &ExecutionRequests,
    builder_index: u64,
    beacon_block_root: &Hash256,
    slot: Slot,
    blob_kzg_commitments: &Vec<KzgCommitment>,
    state_root: &Hash256,
) -> (r: Vec<u8>)
    requires
        ({
            let envelope = ExecutionPayloadEnvelopeGloas {
                payload: *payload,
                execution_requests: *execution_requests,
                builder_index,
                beacon_block_root: *beacon_block_root,
                slot,
                blob_kzg_commitments: *blob_kzg_commitments,
                state_root: *state_root,
            };
            envelope_fits::<E>(envelope) && envelope_ssz_len(envelope) <= u32::MAX
        }),
    ensures
        ({
            let envelope = ExecutionPayloadEnvelopeGloas {
                payload: *payload,
                execution_requests: *execution_requests,
                builder_index,
                beacon_block_root: *beacon_block_root,
                slot,
                blob_kzg_commitments: *blob_kzg_commitments,
                state_root: *state_root,
            };
            encodes_envelope::<E>(envelope, r@) && r@.len() == envelope_ssz_len(envelope)
        }),
{
    let ghost envelope = ExecutionPayloadEnvelopeGloas {
        payload: *payload,
        execution_requests: *execution_requests,
        builder_index,
        beacon_block_root: *beacon_block_root,
        slot,
        blob_kzg_commitments: *blob_kzg_commitments,
        state_root: *state_root,
    };
    let layout = envelope_field_sizes();
    let parts: Vec<Vec<u8>> = vec![
        encode_payload::<E>(payload),
        encode_requests::<E>(execution_requests),
        u64_to_le_bytes(builder_index),
        fixed_field(beacon_block_root),
        u64_to_le_bytes(slot.0),
        encode_list(blob_kzg_commitments),
        fixed_field(state_root),
    ];
    let ghost views = byte_list_views(parts@);
    proof {
        reveal_with_fuel(tail_len, 8);
        assert(holds_envelope::<E>(envelope, views));
    }
    encode_container(&layout, &parts)
}

impl ExecutionPayloadEnvelopeGloas {
    /// The encoding of the envelope.
    pub fn as_ssz_bytes<E: EthSpec>(&self) -> (r: Vec<u8>)
        requires
            envelope_fits::<E>(*self),
            envelope_ssz_len(*self) <= u32::MAX,
        ensures
            encodes_envelope::<E>(*self, r@),
            r@.len() == envelope_ssz_len(*self),
    {
        encode_envelope::<E>(
            &self.payload,
            &self.execution_requests,
            self.builder_index,
            &self.beacon_block_root,
            self.slot,
            &self.blob_kzg_commitments,
            &self.state_root,
        )
    }
}

/// Whether two sets of requests hold the same.
pub open spec fn same_requests(a: ExecutionRequests, b: ExecutionRequests) -> bool {
    &&& a.deposits@ == b.deposits@
    &&& a.withdrawals@ == b.withdrawals@
    &&& a.consolidations@ == b.consolidations@
}

/// Whether two payloads hold the same.
pub open spec fn same_payload(a: ExecutionPayloadGloas, b: ExecutionPayloadGloas) -> bool {
    &&& a.parent_hash == b.parent_hash
    &&& a.fee_recipient == b.fee_recipient
    &&& a.state_root == b.state_root
    &&& a.receipts_root == b.receipts_root
    &&& a.logs_bloom == b.logs_bloom
    &&& a.prev_randao == b.prev_randao
    &&& a.block_number == b.block_number
    &&& a.gas_limit == b.gas_limit
    &&& a.gas_used == b.gas_used
    &&& a.timestamp == b.timestamp
    &&& a.extra_data@ == b.extra_data@
    &&& a.base_fee_per_gas == b.base_fee_per_gas
    &&& a.block_hash == b.block_hash
    &&& byte_list_views(a.transactions@) == byte_list_views(b.transactions@)
    &&& a.withdrawals@ == b.withdrawals@
    &&& a.blob_gas_used == b.blob_gas_used
    &&& a.excess_blob_gas == b.excess_blob_gas
}

/// Whether two envelopes hold the same.
pub open spec fn same_envelope(
    a: ExecutionPayloadEnvelopeGloas,
    b: ExecutionPayloadEnvelopeGloas,
) -> bool {
    &&& same_payload(a.payload, b.payload)
    &&& same_requests(a.execution_requests, b.execution_requests)
    &&& a.builder_index == b.builder_index
    &&& a.beacon_block_root == b.beacon_block_root
    &&& a.slot == b.slot
    &&& a.blob_kzg_commitments@ == b.blob_kzg_commitments@
    &&& a.state_root == b.state_root
}

proof fn lemma_requests_unique<E: EthSpec>(
    a: ExecutionRequests,
    b: ExecutionRequests,
    bytes: Seq<u8>,
)
    requires
        encodes_requests::<E>(a, bytes),
        encodes_requests::<E>(b, bytes),
    ensures
        same_requests(a, b),
{
    let p = choose|p: Seq<Seq<u8>>| #[trigger]
        is_container(requests_layout(), p, bytes) && holds_requests::<E>(a, p);
    let q = choose|q: Seq<Seq<u8>>| #[trigger]
        is_container(requests_layout(), q, bytes) && holds_requests::<E>(b, q);
    lemma_container_unique(requests_layout(), p, q, bytes);
    lemma_list_unique(a.deposits@, b.deposits@, p[0]);
    lemma_list_unique(a.withdrawals@, b.withdrawals@, p[1]);
    lemma_list_unique(a.consolidations@, b.consolidations@, p[2]);
}

proof fn lemma_payload_unique<E: EthSpec>(
    a: ExecutionPayloadGloas,
    b: ExecutionPayloadGloas,
    bytes: Seq<u8>,
)
    requires
        encodes_payload::<E>(a, bytes),
        encodes_payload::<E>(b, bytes),
    ensures
        same_payload(a, b),
{
    let p = choose|p: Seq<Seq<u8>>| #[trigger]
        is_container(payload_layout(), p, bytes) && holds_payload::<E>(a, p);
    let q = choose|q: Seq<Seq<u8>>| #[trigger]
        is_container(payload_layout(), q, bytes) && holds_payload::<E>(b, q);
    lemma_container_unique(payload_layout(), p, q, bytes);
    lemma_fixed_bytes_ext(a.parent_hash, b.parent_hash);
    lemma_fixed_bytes_ext(a.fee_recipient, b.fee_recipient);
    lemma_fixed_bytes_ext(a.state_root, b.state_root);
    lemma_fixed_bytes_ext(a.receipts_root, b.receipts_root);
    lemma_fixed_bytes_ext(a.logs_bloom, b.logs_bloom);
    lemma_fixed_bytes_ext(a.prev_randao, b.prev_randao);
    lemma_u64_bytes(a.block_number, b.block_number);
    lemma_u64_bytes(a.gas_limit, b.gas_limit);
    lemma_u64_bytes(a.gas_used, b.gas_used);
    lemma_u64_bytes(a.timestamp, b.timestamp);
    lemma_fixed_bytes_ext(a.base_fee_per_gas, b.base_fee_per_gas);
    lemma_fixed_bytes_ext(a.block_hash, b.block_hash);
    lemma_u64_bytes(a.blob_gas_used, b.blob_gas_used);
    lemma_u64_bytes(a.excess_blob_gas, b.excess_blob_gas);
    lemma_list_unique(a.withdrawals@, b.withdrawals@, p[14]);
    let a_lists = byte_list_views(a.transactions@);
    let b_lists = byte_list_views(b.transactions@);
    lemma_byte_list_count(a_lists, p[13]);
    lemma_byte_list_count(b_lists, p[13]);
    lemma_container_unique(variable_layout(a_lists.len()), a_lists, b_lists, p[13]);
}

/// The encoding loses nothing: a byte string encodes at most one envelope. What is read from the
/// encoding of an envelope is therefore that envelope.
pub proof fn lemma_envelope_encoding_unique<E: EthSpec>(
    a: ExecutionPayloadEnvelopeGloas,
    b: ExecutionPayloadEnvelopeGloas,
    bytes: Seq<u8>,
)
    requires
        encodes_envelope::<E>(a, bytes),
        encodes_envelope::<E>(b, bytes),
    ensures
        same_envelope(a, b),
{
    let p = choose|p: Seq<Seq<u8>>| #[trigger]
        is_container(envelope_layout(), p, bytes) && holds_envelope::<E>(a, p);
    let q = choose|q: Seq<Seq<u8>>| #[trigger]
        is_container(envelope_layout(), q, bytes) && holds_envelope::<E>(b, q);
    lemma_container_unique(envelope_layout(), p, q, bytes);
    lemma_payload_unique::<E>(a.payload, b.payload, p[0]);
    lemma_requests_unique::<E>(a.execution_requests, b.execution_requests, p[1]);
    lemma_u64_bytes(a.builder_index, b.builder_index);
    lemma_fixed_bytes_ext(a.beacon_block_root, b.beacon_block_root);
    lemma_u64_bytes(a.slot.0, b.slot.0);
    lemma_list_unique(a.blob_kzg_commitments@, b.blob_kzg_commitments@, p[5]);
    lemma_fixed_bytes_ext(a.state_root, b.state_root);
}

impl ExecutionPayloadEnvelopeNextFork {
    /// The Gloas envelope with the same fields.
    pub open spec fn spec_as_gloas(self) -> ExecutionPayloadEnvelopeGloas {
        ExecutionPayloadEnvelopeGloas {
            payload: self.payload,
            execution_requests: self.execution_requests,
            builder_index: self.builder_index,
            beacon_block_root: self.beacon_block_root,
            slot: self.slot,
            blob_kzg_commitments: self.blob_kzg_commitments,
            state_root: self.state_root,
        }
    }

    /// The envelope that `bytes` encodes, if it encodes one. The format is that of Gloas.
    pub fn from_ssz_bytes<E: EthSpec>(bytes: &[u8]) -> (r: Result<Self, DecodeError>)
        ensures
            match r {
                Ok(envelope) => encodes_envelope::<E>(envelope.spec_as_gloas(), bytes@),
                Err(e) => {
                    &&& envelope_error::<E>(bytes@) == Some(e@)
                    &&& forall|envelope: ExecutionPayloadEnvelopeNextFork|
                        !encodes_envelope::<E>(#[trigger] envelope.spec_as_gloas(), bytes@)
                },
            },
    {
        match ExecutionPayloadEnvelopeGloas::from_ssz_bytes::<E>(bytes) {
            Ok(envelope) => Ok(
                ExecutionPayloadEnvelopeNextFork {
                    payload: envelope.payload,
                    execution_requests: envelope.execution_requests,
                    builder_index: envelope.builder_index,
                    beacon_block_root: envelope.beacon_block_root,
                    slot: envelope.slot,
                    blob_kzg_commitments: envelope.blob_kzg_commitments,
                    state_root: envelope.state_root,
                },
            ),
            Err(e) => Err(e),
        }
    }

    /// The encoding of the envelope.
    pub fn as_ssz_bytes<E: EthSpec>(&self) -> (r: Vec<u8>)
        requires
            envelope_fits::<E>(self.spec_as_gloas()),
            envelope_ssz_len(self.spec_as_gloas()) <= u32::MAX,
        ensures
            encodes_envelope::<E>(self.spec_as_gloas(), r@),
            r@.len() == envelope_ssz_len(self.spec_as_gloas()),
    {
        encode_envelope::<E>(
            &self.payload,
            &self.execution_requests,
            self.builder_index,
            &self.beacon_block_root,
            self.slot,
            &self.blob_kzg_commitments,
            &self.state_root,
        )
    }
}

/// The sizes of the fields of a signed envelope.
pub open spec fn signed_envelope_layout() -> Seq<Option<usize>> {
    seq![None, Some(96)]
}

/// Whether `bytes` encodes the envelope together with the signature.
pub open spec fn encodes_signed_envelope<E: EthSpec>(
    message: ExecutionPayloadEnvelopeGloas,
    signature: Signature,
    bytes: Seq<u8>,
) -> bool {
    exists|parts: Seq<Seq<u8>>| #[trigger]
        is_container(signed_envelope_layout(), parts, bytes) && encodes_envelope::<E>(
            message,
            parts[0],
        ) && parts[1] == signature.bytes()
}

fn signed_envelope_field_sizes() -> (r: Vec<Option<usize>>)
    ensures
        r@ == signed_envelope_layout(),
        entry_start(r@, r@.len() as int) == 100,
{
    let layout: Vec<Option<usize>> = vec![None, Some(96)];
    assert(layout@ =~= signed_envelope_layout());
    assert(entry_start(signed_envelope_layout(), 2) == 100) by {
        reveal_with_fuel(entry_start, 3);
    }
    layout
}

/// Why `bytes` encodes no envelope with a signature, if it encodes none.
pub open spec fn signed_envelope_error<E: EthSpec>(bytes: Seq<u8>) -> Option<DecodeErrorModel> {
    first_error(
        container_error(signed_envelope_layout(), bytes),
        envelope_error::<E>(fields_of(signed_envelope_layout(), bytes)[0]),
    )
}

/// The envelope and the signature that `bytes` encodes, if it encodes any.
fn decode_signed_envelope<E: EthSpec>(bytes: &[u8]) -> (r: Result<
    (ExecutionPayloadEnvelopeGloas, Signature),
    DecodeError,
>)
    ensures
        match r {
            Ok((message, signature)) => {
                &&& signed_envelope_error::<E>(bytes@) is None
                &&& encodes_signed_envelope::<E>(message, signature, bytes@)
                &&& forall|m: ExecutionPayloadEnvelopeGloas, s: Signature| #[trigger]
                    encodes_signed_envelope::<E>(m, s, bytes@) ==> s == signature
            },
            Err(e) => {
                &&& signed_envelope_error::<E>(bytes@) == Some(e@)
                &&& forall|m: ExecutionPayloadEnvelopeGloas, s: Signature|
                    !#[trigger] encodes_signed_envelope::<E>(m, s, bytes@)
            },
        },
{
    let layout = signed_envelope_field_sizes();
    let parts = match split_container(bytes, &layout) {
        Ok(parts) => parts,
        Err(e) => {
            return Err(e);
        },
    };
    let ghost views = slice_views(parts@);
    proof {
        assert forall|m: ExecutionPayloadEnvelopeGloas, s: Signature| #[trigger]
            encodes_signed_envelope::<E>(m, s, bytes@) implies encodes_envelope::<E>(
            m,
            views[0],
        ) && views[1] == s.bytes() by {
            let p = choose|p: Seq<Seq<u8>>| #[trigger]
                is_container(signed_envelope_layout(), p, bytes@) && encodes_envelope::<E>(m, p[0])
                    && p[1] == s.bytes();
            assert(p == views);
        }
        assert(views.len() == 2);
        lemma_fixed_field_len(signed_envelope_layout(), views, bytes@, 1);
        assert(views[1] == parts@[1]@);
    }
    match ExecutionPayloadEnvelopeGloas::from_ssz_bytes::<E>(parts[0]) {
        Ok(message) => {
            let signature: Signature = bytes_field(parts[1]);
            proof {
                assert forall|m: ExecutionPayloadEnvelopeGloas, s: Signature| #[trigger]
                    encodes_signed_envelope::<E>(m, s, bytes@) implies s == signature by {
                    lemma_fixed_bytes_ext(s, signature);
                }
            }
            Ok((message, signature))
        },
        Err(e) => Err(e),
    }
}

/// The encoding of a signed envelope, given that of the envelope.
fn encode_signed_envelope<E: EthSpec>(
    Ghost(message): Ghost<ExecutionPayloadEnvelopeGloas>,
    message_bytes: Vec<u8>,
    signature: &Signature,
) -> (r: Vec<u8>)
    requires
        encodes_envelope::<E>(message, message_bytes@),
        message_bytes@.len() + 100 <= u32::MAX,
    ensures
        encodes_signed_envelope::<E>(message, *signature, r@),
{
    let layout = signed_envelope_field_sizes();
    let parts: Vec<Vec<u8>> = vec![message_bytes, fixed_field(signature)];
    let ghost views = byte_list_views(parts@);
    proof {
        reveal_with_fuel(tail_len, 3);
        assert(views[0] == message_bytes@);
        assert(views[1] == signature.bytes());
    }
    encode_container(&layout, &parts)
}

impl SignedExecutionPayloadEnvelopeGloas {
    /// The signed envelope that `bytes` encodes, if it encodes one whose signature is well-formed;
    /// `check_signature` tells what is wrong with a signature, if anything is.
    pub fn from_ssz_bytes<E: EthSpec, F: Fn(&Signature) -> Option<String>>(
        bytes: &[u8],
        check_signature: F,
    ) -> (r: Result<Self, DecodeError>)
        requires
            forall|signature: Signature| call_requires(check_signature, (&signature,)),
        ensures
            match r {
                Ok(signed) => {
                    &&& encodes_signed_envelope::<E>(signed.message, signed.signature, bytes@)
                    &&& call_ensures(check_signature, (&signed.signature,), None)
                },
                Err(e) => if signed_envelope_error::<E>(bytes@) is Some {
                    &&& signed_envelope_error::<E>(bytes@) == Some(e@)
                    &&& forall|m: ExecutionPayloadEnvelopeGloas, s: Signature|
                        !#[trigger] encodes_signed_envelope::<E>(m, s, bytes@)
                } else {
                    e matches DecodeError::BytesInvalid(message) && forall|
                        m: ExecutionPayloadEnvelopeGloas,
                        s: Signature,
                    | #[trigger]
                        encodes_signed_envelope::<E>(m, s, bytes@) ==> call_ensures(
                            check_signature,
                            (&s,),
                            Some(message),
                        )
                },
            },
    {
        match decode_signed_envelope::<E>(bytes) {
            Ok((message, signature)) => match check_signature(&signature) {
                None => Ok(SignedExecutionPayloadEnvelopeGloas { message, signature }),
                Some(reason) => Err(DecodeError::BytesInvalid(reason)),
            },
            Err(e) => Err(e),
        }
    }

    /// The encoding of the signed envelope.
    pub fn as_ssz_bytes<E: EthSpec>(&self) -> (r: Vec<u8>)
        requires
            envelope_fits::<E>(self.message),
            envelope_ssz_len(self.message) + 100 <= u32::MAX,
        ensures
            encodes_signed_envelope::<E>(self.message, self.signature, r@),
    {
        let message_bytes = self.message.as_ssz_bytes::<E>();
        encode_signed_envelope::<E>(Ghost(self.message), message_bytes, &self.signature)
    }
}

impl SignedExecutionPayloadEnvelopeNextFork {
    /// The signed envelope that `bytes` encodes, if it encodes one whose signature is well-formed;
    /// `check_signature` tells what is wrong with a signature, if anything is. The format is that
    /// of Gloas.
    pub fn from_ssz_bytes<E: EthSpec, F: Fn(&Signature) -> Option<String>>(
        bytes: &[u8],
        check_signature: F,
    ) -> (r: Result<Self, DecodeError>)
        requires
            forall|signature: Signature| call_requires(check_signature, (&signature,)),
        ensures
            match r {
                Ok(signed) => {
                    &&& encodes_signed_envelope::<E>(
                        signed.message.spec_as_gloas(),
                        signed.signature,
                        bytes@,
                    )
                    &&& call_ensures(check_signature, (&signed.signature,), None)
                },
                Err(e) => if signed_envelope_error::<E>(bytes@) is Some {
                    &&& signed_envelope_error::<E>(bytes@) == Some(e@)
                    &&& forall|m: ExecutionPayloadEnvelopeGloas, s: Signature|
                        !#[trigger] encodes_signed_envelope::<E>(m, s, bytes@)
                } else {
                    e matches DecodeError::BytesInvalid(message) && forall|
                        m: ExecutionPayloadEnvelopeGloas,
                        s: Signature,
                    | #[trigger]
                        encodes_signed_envelope::<E>(m, s, bytes@) ==> call_ensures(
                            check_signature,
                            (&s,),
                            Some(message),
                        )
                },
            },
    {
        match SignedExecutionPayloadEnvelopeGloas::from_ssz_bytes::<E, F>(
            bytes,
            check_signature,
        ) {
            Ok(signed) => {
                let envelope = signed.message;
                Ok(
                    SignedExecutionPayloadEnvelopeNextFork {
                        message: ExecutionPayloadEnvelopeNextFork {
                            payload: envelope.payload,
                            execution_requests: envelope.execution_requests,
                            builder_index: envelope.builder_index,
                            beacon_block_root: envelope.beacon_block_root,
                            slot: envelope.slot,
                            blob_kzg_commitments: envelope.blob_kzg_commitments,
                            state_root: envelope.state_root,
                        },
                        signature: signed.signature,
                    },
                )
            },
            Err(e) => Err(e),
        }
    }

    /// The encoding of the signed envelope.
    pub fn as_ssz_bytes<E: EthSpec>(&self) -> (r: Vec<u8>)
        requires
            envelope_fits::<E>(self.message.spec_as_gloas()),
            envelope_ssz_len(self.message.spec_as_gloas()) + 100 <= u32::MAX,
        ensures
            encodes_signed_envelope::<E>(self.message.spec_as_gloas(), self.signature, r@),
    {
        let message_bytes = self.message.as_ssz_bytes::<E>();
        encode_signed_envelope::<E>(
            Ghost(self.message.spec_as_gloas()),
            message_bytes,
            &self.signature,
        )
    }
}

/// The encoding loses nothing: a byte string encodes at most one signed envelope.
pub proof fn lemma_signed_envelope_encoding_unique<E: EthSpec>(
    a: ExecutionPayloadEnvelopeGloas,
    a_signature: Signature,
    b: ExecutionPayloadEnvelopeGloas,
    b_signature: Signature,
    bytes: Seq<u8>,
)
    requires
        encodes_signed_envelope::<E>(a, a_signature, bytes),
        encodes_signed_envelope::<E>(b, b_signature, bytes),
    ensures
        same_envelope(a, b),
        a_signature == b_signature,
{
    let p = choose|p: Seq<Seq<u8>>| #[trigger]
        is_container(signed_envelope_layout(), p, bytes) && encodes_envelope::<E>(a, p[0]) && p[1]
            == a_signature.bytes();
    let q = choose|q: Seq<Seq<u8>>| #[trigger]
        is_container(signed_envelope_layout(), q, bytes) && encodes_envelope::<E>(b, q[0]) && q[1]
            == b_signature.bytes();
    lemma_container_unique(signed_envelope_layout(), p, q, bytes);
    lemma_envelope_encoding_unique::<E>(a, b, p[0]);
    lemma_fixed_bytes_ext(a_signature, b_signature);
}

} // verus!
