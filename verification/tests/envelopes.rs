use gloas_consensus::beacon_state::{BeaconBlockHeader, SignedExecutionBid};
use gloas_consensus::eth_spec::{ChainSpec, MainnetEthSpec};
use gloas_consensus::execution_payload_envelope::{
    ConsolidationRequest, DepositRequest, EmptyEnvelope, ExecutionPayloadEnvelope,
    ExecutionPayloadEnvelopeGloas, ExecutionPayloadEnvelopeNextFork, ExecutionPayloadEnvelopeRef,
    ExecutionPayloadGloas, FullEnvelope, SignedExecutionPayloadEnvelope,
    SignedExecutionPayloadEnvelopeGloas, SignedExecutionPayloadEnvelopeNextFork, Withdrawal,
    WithdrawalRequest,
};
use gloas_consensus::merkle::{hash_byte_list, hash_commitments, hash_transactions, TreeHash};
use gloas_consensus::payload_attestation_service::{
    PayloadAttestationData, PayloadAttestationMessage,
};
use gloas_consensus::primitives::{Epoch, FixedBytes, ForkName, Hash256, Signature, Slot};
use gloas_consensus::ssz::{
    decode_byte_list, decode_byte_lists, decode_list, split_container, DecodeError,
};
use ssz_types::typenum::{U1048576, U1073741824, U16, U2, U32, U4096, U8192};
use ssz_types::VariableList;

fn spec() -> ChainSpec {
    ChainSpec {
        altair_fork_epoch: Some(Epoch(0)),
        gloas_fork_epoch: Some(Epoch(3)),
        genesis_slot: 0,
        seconds_per_slot: 12,
        min_seed_lookahead: 1,
        min_validator_withdrawability_delay: 256,
        builder_payment_threshold_numerator: 6,
        builder_payment_threshold_denominator: 10,
        epochs_per_sync_committee_period: 256,
    }
}

fn empty() -> ExecutionPayloadEnvelopeGloas {
    <ExecutionPayloadEnvelopeGloas as EmptyEnvelope>::empty::<MainnetEthSpec>(&spec())
}

fn sample() -> ExecutionPayloadEnvelopeGloas {
    let mut envelope = empty();
    envelope.payload.parent_hash = FixedBytes([1; 32]);
    envelope.payload.fee_recipient = FixedBytes([2; 20]);
    envelope.payload.logs_bloom = FixedBytes([3; 256]);
    envelope.payload.block_number = 0x0102030405060708;
    envelope.payload.gas_limit = 30_000_000;
    envelope.payload.timestamp = 77;
    envelope.payload.extra_data = vec![9, 8, 7];
    envelope.payload.base_fee_per_gas = FixedBytes([4; 32]);
    envelope.payload.block_hash = FixedBytes([5; 32]);
    envelope.payload.transactions = vec![vec![1, 2, 3], vec![], vec![4; 100]];
    envelope.payload.withdrawals = vec![
        Withdrawal { index: 1, validator_index: 2, address: FixedBytes([6; 20]), amount: 3 },
        Withdrawal { index: 4, validator_index: 5, address: FixedBytes([7; 20]), amount: 6 },
    ];
    envelope.payload.excess_blob_gas = 11;
    envelope.execution_requests.deposits = vec![DepositRequest {
        pubkey: FixedBytes([8; 48]),
        withdrawal_credentials: FixedBytes([9; 32]),
        amount: 32,
        signature: FixedBytes([10; 96]),
        index: 12,
    }];
    envelope.execution_requests.withdrawals = vec![WithdrawalRequest {
        source_address: FixedBytes([11; 20]),
        validator_pubkey: FixedBytes([12; 48]),
        amount: 13,
    }];
    envelope.execution_requests.consolidations = vec![ConsolidationRequest {
        source_address: FixedBytes([13; 20]),
        source_pubkey: FixedBytes([14; 48]),
        target_pubkey: FixedBytes([15; 48]),
    }];
    envelope.builder_index = 42;
    envelope.beacon_block_root = FixedBytes([16; 32]);
    envelope.blob_kzg_commitments = vec![FixedBytes([17; 48]), FixedBytes([18; 48])];
    envelope.state_root = FixedBytes([19; 32]);
    envelope
}

fn decode(bytes: &[u8]) -> Result<ExecutionPayloadEnvelope, DecodeError> {
    ExecutionPayloadEnvelope::from_ssz_bytes_for_fork::<MainnetEthSpec>(bytes, ForkName::Gloas)
}

fn hex(bytes: &[u8]) -> String {
    let mut text = String::new();
    for b in bytes {
        text.push_str(&format!("{:02x}", b));
    }
    text
}

#[test]
fn empty_envelope_starts_at_the_fork() {
    let envelope = empty();
    assert_eq!(envelope.slot, Slot(96));
    assert_eq!(envelope.builder_index, 0);
    assert_eq!(envelope.payload, ExecutionPayloadGloas::default());
    assert!(envelope.blob_kzg_commitments.is_empty());
    assert_eq!(
        ExecutionPayloadEnvelope::empty::<MainnetEthSpec>(&spec()),
        ExecutionPayloadEnvelope::Gloas(envelope)
    );
}

#[test]
fn full_envelope_has_lists_of_the_largest_size() {
    let envelope =
        <ExecutionPayloadEnvelopeGloas as FullEnvelope>::full::<MainnetEthSpec>(&spec());
    assert_eq!(envelope.execution_requests.deposits.len(), 8192);
    assert_eq!(envelope.execution_requests.withdrawals.len(), 16);
    assert_eq!(envelope.execution_requests.consolidations.len(), 2);
    assert_eq!(envelope.blob_kzg_commitments.len(), 4096);
    assert_eq!(envelope.blob_kzg_commitments[4095], FixedBytes([0; 48]));
    assert_eq!(envelope.slot, Slot(96));
    assert_eq!(
        ExecutionPayloadEnvelope::full::<MainnetEthSpec>(&spec()),
        ExecutionPayloadEnvelope::Gloas(envelope)
    );
}

#[test]
fn payload_is_found_in_either_fork() {
    let gloas = sample();
    assert_eq!(*ExecutionPayloadEnvelopeRef::Gloas(&gloas).payload().inner(), gloas.payload);
    let next = ExecutionPayloadEnvelopeNextFork {
        payload: gloas.payload.clone(),
        execution_requests: gloas.execution_requests.clone(),
        builder_index: 43,
        beacon_block_root: gloas.beacon_block_root,
        slot: gloas.slot,
        blob_kzg_commitments: vec![],
        state_root: gloas.state_root,
    };
    let next_ref = ExecutionPayloadEnvelopeRef::NextFork(&next);
    assert_eq!(*next_ref.payload().inner(), gloas.payload);
    assert_eq!(next_ref.builder_index(), 43);
    assert_eq!(next_ref.blob_kzg_commitments().len(), 0);
}

#[test]
fn signed_envelope_keeps_its_message() {
    let signature = FixedBytes([1; 96]);
    let signed = SignedExecutionPayloadEnvelope::from_envelope(
        ExecutionPayloadEnvelope::Gloas(sample()),
        signature,
    );
    let envelope = sample();
    let message = signed.message();
    assert_eq!(message, ExecutionPayloadEnvelopeRef::Gloas(&envelope));
    assert_eq!(message.beacon_block_root(), FixedBytes([16; 32]));
    assert_eq!(message.state_root(), FixedBytes([19; 32]));
    assert_eq!(message.slot(), Slot(96));
    assert_eq!(message.execution_requests().deposits.len(), 1);
}

#[test]
fn envelopes_are_read_in_the_context_of_their_fork() {
    let envelope = ExecutionPayloadEnvelope::Gloas(sample());
    assert_eq!(envelope.clone().in_fork_context(ForkName::Gloas), Ok(envelope.clone()));
    assert_eq!(
        envelope.clone().in_fork_context(ForkName::Deneb),
        Err("ExecutionPayloadEnvelope does not support fork Deneb".to_string())
    );
    let signed =
        SignedExecutionPayloadEnvelope::from_envelope(envelope, FixedBytes([0; 96]));
    assert_eq!(signed.clone().in_fork_context(ForkName::Gloas), Ok(signed.clone()));
    assert_eq!(
        signed.in_fork_context(ForkName::Base),
        Err("SignedExecutionPayloadEnvelope does not support fork Base".to_string())
    );
}

#[test]
fn empty_bid_is_zero() {
    let bid = SignedExecutionBid::empty();
    assert_eq!(bid.message.value, 0);
    assert_eq!(bid.message.block_hash, Hash256::zero());
    assert_eq!(bid.signature, FixedBytes([0; 96]));
}

#[test]
fn decoding_undoes_encoding() {
    for envelope in [empty(), sample()] {
        let bytes = envelope.as_ssz_bytes::<MainnetEthSpec>();
        assert_eq!(decode(&bytes), Ok(ExecutionPayloadEnvelope::Gloas(envelope)));
    }
}

#[test]
fn encoding_of_an_empty_envelope() {
    let bytes = empty().as_ssz_bytes::<MainnetEthSpec>();
    assert_eq!(bytes.len(), 92 + 528 + 12);
    // The payload starts after the fixed part, the requests after the payload.
    assert_eq!(bytes[0..4], [92, 0, 0, 0]);
    assert_eq!(bytes[4..8], [0x6c, 0x02, 0, 0]);
    // Slot 96, after the builder index and the block root.
    assert_eq!(bytes[48..56], [96, 0, 0, 0, 0, 0, 0, 0]);
    // The commitments start where the bytes end.
    assert_eq!(bytes[56..60], [0x78, 0x02, 0, 0]);
    // The extra data, the transactions and the withdrawals start where the payload ends.
    assert_eq!(bytes[92 + 436..92 + 440], [0x10, 0x02, 0, 0]);
    assert_eq!(bytes[92 + 504..92 + 512], [0x10, 0x02, 0, 0, 0x10, 0x02, 0, 0]);
    // Three empty lists of requests.
    assert_eq!(bytes[620..632], [12, 0, 0, 0, 12, 0, 0, 0, 12, 0, 0, 0]);
}

#[test]
fn encoding_agrees_with_the_ssz_encoder() {
    let envelope = sample();
    let mut requests = Vec::new();
    let mut deposit = vec![8u8; 48];
    deposit.extend([9; 32]);
    deposit.extend(32u64.to_le_bytes());
    deposit.extend([10; 96]);
    deposit.extend(12u64.to_le_bytes());
    let mut withdrawal = vec![11u8; 20];
    withdrawal.extend([12; 48]);
    withdrawal.extend(13u64.to_le_bytes());
    let mut consolidation = vec![13u8; 20];
    consolidation.extend([14; 48]);
    consolidation.extend([15; 48]);
    let mut encoder = ssz::SszEncoder::container(&mut requests, 12);
    encoder.append(&deposit);
    encoder.append(&withdrawal);
    encoder.append(&consolidation);
    encoder.finalize();
    let bytes = envelope.as_ssz_bytes::<MainnetEthSpec>();
    let start = u32::from_le_bytes([bytes[4], bytes[5], bytes[6], bytes[7]]) as usize;
    let end = u32::from_le_bytes([bytes[56], bytes[57], bytes[58], bytes[59]]) as usize;
    assert_eq!(bytes[start..end], requests);

    let mut transactions = Vec::new();
    let mut encoder = ssz::SszEncoder::container(&mut transactions, 12);
    encoder.append(&vec![1u8, 2, 3]);
    encoder.append(&Vec::<u8>::new());
    encoder.append(&vec![4u8; 100]);
    encoder.finalize();
    let payload = &bytes[92..start];
    let from = u32::from_le_bytes([payload[504], payload[505], payload[506], payload[507]]);
    let to = u32::from_le_bytes([payload[508], payload[509], payload[510], payload[511]]);
    assert_eq!(payload[from as usize..to as usize], transactions);
    assert_eq!(payload.len() - to as usize, 88);
}

#[test]
fn other_forks_have_no_envelope() {
    let bytes = sample().as_ssz_bytes::<MainnetEthSpec>();
    for (fork, name) in [
        (ForkName::Base, "Base"),
        (ForkName::Altair, "Altair"),
        (ForkName::Electra, "Electra"),
    ] {
        assert_eq!(
            ExecutionPayloadEnvelope::from_ssz_bytes_for_fork::<MainnetEthSpec>(&bytes, fork),
            Err(DecodeError::BytesInvalid(format!(
                "ExecutionPayloadEnvelope does not support fork {}",
                name
            )))
        );
    }
}

#[test]
fn malformed_bytes_are_refused() {
    let bytes = sample().as_ssz_bytes::<MainnetEthSpec>();
    // Too short, too long.
    assert_eq!(decode(&[]), Err(DecodeError::InvalidLengthPrefix { len: 0, expected: 4 }));
    assert_eq!(decode(&bytes[..91]), Err(DecodeError::OffsetOutOfBounds(92)));
    assert_eq!(
        decode(&bytes[..bytes.len() - 1]),
        Err(DecodeError::InvalidByteLength { len: 47, expected: 48 })
    );
    let mut longer = bytes.clone();
    longer.push(0);
    assert_eq!(decode(&longer), Err(DecodeError::InvalidByteLength { len: 1, expected: 48 }));
    // Too short for the last field of fixed size, with all positions at the end.
    let mut short = bytes[..80].to_vec();
    for at in [0, 4, 56] {
        short[at..at + 4].copy_from_slice(&[80, 0, 0, 0]);
    }
    assert_eq!(decode(&short), Err(DecodeError::InvalidByteLength { len: 80, expected: 92 }));
    // A first position that skips bytes, or points into the fixed part.
    let mut moved = bytes.clone();
    moved[0] = 91;
    assert_eq!(decode(&moved), Err(DecodeError::OffsetIntoFixedPortion(91)));
    moved[0] = 93;
    assert_eq!(decode(&moved), Err(DecodeError::OffsetSkipsVariableBytes(93)));
    // A position beyond the end.
    let mut beyond = bytes.clone();
    beyond[56..60].copy_from_slice(&[0, 0, 1, 0]);
    assert_eq!(decode(&beyond), Err(DecodeError::OffsetOutOfBounds(65536)));
    // Positions that decrease.
    let mut decreasing = bytes.clone();
    decreasing[56..60].copy_from_slice(&[92, 0, 0, 0]);
    assert_eq!(decode(&decreasing), Err(DecodeError::OffsetsAreDecreasing(92)));
}

#[test]
fn errors_of_lists() {
    assert_eq!(decode_byte_list(&[1, 2], 2), Ok(vec![1, 2]));
    assert_eq!(
        decode_byte_list(&[1, 2, 3], 2),
        Err(DecodeError::BytesInvalid(
            "VariableList of 3 items exceeds maximum of 2".to_string()
        ))
    );
    assert_eq!(
        decode_list::<FixedBytes<48>>(&[0; 100], 2),
        Err(DecodeError::InvalidByteLength { len: 4, expected: 48 })
    );
    assert_eq!(
        decode_list::<FixedBytes<48>>(&[0; 150], 2),
        Err(DecodeError::BytesInvalid(
            "VariableList of 3 items exceeds maximum of 2".to_string()
        ))
    );
    assert_eq!(decode_byte_lists(&[], 2, 2), Ok(vec![]));
    assert_eq!(
        decode_byte_lists(&[8, 0, 0, 0, 10, 0, 0, 0, 1, 2, 3], 2, 2),
        Ok(vec![vec![1, 2], vec![3]])
    );
    assert_eq!(
        decode_byte_lists(&[8, 0, 0], 2, 2),
        Err(DecodeError::InvalidLengthPrefix { len: 3, expected: 4 })
    );
    assert_eq!(
        decode_byte_lists(&[6, 0, 0, 0, 0, 0], 2, 2),
        Err(DecodeError::InvalidListFixedBytesLen(6))
    );
    assert_eq!(
        decode_byte_lists(&[0, 0, 0, 0], 2, 2),
        Err(DecodeError::InvalidListFixedBytesLen(0))
    );
    assert_eq!(
        decode_byte_lists(&[12, 0, 0, 0, 12, 0, 0, 0, 12, 0, 0, 0], 2, 2),
        Err(DecodeError::BytesInvalid(
            "Variable length list of 3 items exceeds maximum of Some(2)".to_string()
        ))
    );
    assert_eq!(
        decode_byte_lists(&[8, 0, 0, 0, 7, 0, 0, 0], 2, 2),
        Err(DecodeError::OffsetIntoFixedPortion(7))
    );
    // The first list is looked at before the position of the third.
    let mut lists = vec![12u8, 0, 0, 0, 15, 0, 0, 0, 13, 0, 0, 0, 1, 2, 3];
    assert_eq!(
        decode_byte_lists(&lists, 3, 2),
        Err(DecodeError::BytesInvalid(
            "VariableList of 3 items exceeds maximum of 2".to_string()
        ))
    );
    lists[4] = 14;
    assert_eq!(decode_byte_lists(&lists, 3, 2), Err(DecodeError::OffsetsAreDecreasing(13)));
    // A container of fields of fixed size only.
    assert_eq!(
        split_container(&[1, 2, 3, 4], &vec![Some(1), Some(2)]),
        Err(DecodeError::InvalidByteLength { len: 4, expected: 3 })
    );
}

type Bytes<'a> = &'a [u8];

fn read_payload(bytes: Bytes<'_>) -> Result<(), ssz::DecodeError> {
    let mut builder = ssz::SszDecoderBuilder::new(bytes);
    builder.register_type::<[u8; 32]>()?;
    builder.register_type::<[u8; 20]>()?;
    builder.register_type::<[u8; 32]>()?;
    builder.register_type::<[u8; 32]>()?;
    builder.register_type::<[u8; 256]>()?;
    builder.register_type::<[u8; 32]>()?;
    for _ in 0..4 {
        builder.register_type::<u64>()?;
    }
    builder.register_type::<VariableList<u8, U32>>()?;
    builder.register_type::<[u8; 32]>()?;
    builder.register_type::<[u8; 32]>()?;
    builder.register_type::<VariableList<VariableList<u8, U1073741824>, U1048576>>()?;
    builder.register_type::<VariableList<[u8; 44], U16>>()?;
    builder.register_type::<u64>()?;
    builder.register_type::<u64>()?;
    let mut decoder = builder.build()?;
    for _ in 0..10 {
        decoder.decode_next_with(|_: Bytes<'_>| Ok(()))?;
    }
    decoder.decode_next::<VariableList<u8, U32>>()?;
    decoder.decode_next::<[u8; 32]>()?;
    decoder.decode_next::<[u8; 32]>()?;
    decoder.decode_next::<VariableList<VariableList<u8, U1073741824>, U1048576>>()?;
    decoder.decode_next::<VariableList<[u8; 44], U16>>()?;
    decoder.decode_next::<u64>()?;
    decoder.decode_next::<u64>()?;
    Ok(())
}

fn read_requests(bytes: Bytes<'_>) -> Result<(), ssz::DecodeError> {
    let mut builder = ssz::SszDecoderBuilder::new(bytes);
    builder.register_type::<VariableList<[u8; 192], U8192>>()?;
    builder.register_type::<VariableList<[u8; 76], U16>>()?;
    builder.register_type::<VariableList<[u8; 116], U2>>()?;
    let mut decoder = builder.build()?;
    decoder.decode_next::<VariableList<[u8; 192], U8192>>()?;
    decoder.decode_next::<VariableList<[u8; 76], U16>>()?;
    decoder.decode_next::<VariableList<[u8; 116], U2>>()?;
    Ok(())
}

/// Reads an envelope with the decoders of the SSZ crates.
fn read_envelope(bytes: Bytes<'_>) -> Result<(), ssz::DecodeError> {
    let mut builder = ssz::SszDecoderBuilder::new(bytes);
    builder.register_anonymous_variable_length_item()?;
    builder.register_anonymous_variable_length_item()?;
    builder.register_type::<u64>()?;
    builder.register_type::<[u8; 32]>()?;
    builder.register_type::<u64>()?;
    builder.register_type::<VariableList<[u8; 48], U4096>>()?;
    builder.register_type::<[u8; 32]>()?;
    let mut decoder = builder.build()?;
    decoder.decode_next_with(read_payload)?;
    decoder.decode_next_with(read_requests)?;
    decoder.decode_next::<u64>()?;
    decoder.decode_next::<[u8; 32]>()?;
    decoder.decode_next::<u64>()?;
    decoder.decode_next::<VariableList<[u8; 48], U4096>>()?;
    decoder.decode_next::<[u8; 32]>()?;
    Ok(())
}

fn same_as_the_ssz_decoder(bytes: &[u8]) {
    let expected = read_envelope(bytes).map_err(|e| format!("{:?}", e));
    let found = decode(bytes).map(|_| ()).map_err(|e| format!("{:?}", e));
    assert_eq!(found, expected);
}

#[test]
fn errors_agree_with_the_ssz_decoder() {
    let bytes = sample().as_ssz_bytes::<MainnetEthSpec>();
    same_as_the_ssz_decoder(&bytes);
    for len in 0..bytes.len() {
        same_as_the_ssz_decoder(&bytes[..len]);
    }
    for extra in [1, 44, 48, 116, 4096 * 48] {
        let mut longer = bytes.clone();
        longer.extend(vec![0; extra]);
        same_as_the_ssz_decoder(&longer);
    }
    // Every position, moved about.
    let requests = u32::from_le_bytes([bytes[4], bytes[5], bytes[6], bytes[7]]) as usize;
    let lists = 92 + 528 + 3;
    let positions = [
        0,
        4,
        56,
        92 + 436,
        92 + 504,
        92 + 508,
        lists,
        lists + 4,
        lists + 8,
        requests,
        requests + 4,
        requests + 8,
    ];
    for at in positions {
        let position =
            u32::from_le_bytes([bytes[at], bytes[at + 1], bytes[at + 2], bytes[at + 3]]);
        for moved in (0..2_000).chain([1 << 20, u32::MAX]).chain([position + 4, position + 48]) {
            let mut other = bytes.clone();
            other[at..at + 4].copy_from_slice(&moved.to_le_bytes());
            same_as_the_ssz_decoder(&other);
        }
    }
}

#[test]
fn lists_beyond_their_limits_are_refused() {
    // A third consolidation request, written behind the two that are allowed.
    let mut envelope = empty();
    let request = ConsolidationRequest {
        source_address: FixedBytes([0; 20]),
        source_pubkey: FixedBytes([0; 48]),
        target_pubkey: FixedBytes([0; 48]),
    };
    envelope.execution_requests.consolidations = vec![request; 2];
    let bytes = envelope.as_ssz_bytes::<MainnetEthSpec>();
    assert!(decode(&bytes).is_ok());
    let mut longer = bytes.clone();
    longer.extend([0; 116]);
    let end = (bytes.len() + 116) as u32;
    longer[56..60].copy_from_slice(&end.to_le_bytes());
    assert_eq!(
        decode(&longer),
        Err(DecodeError::BytesInvalid(
            "VariableList of 3 items exceeds maximum of 2".to_string()
        ))
    );
}

#[test]
fn roots_of_empty_lists() {
    let payload = ExecutionPayloadGloas::default();
    assert_eq!(
        hex(&payload.withdrawals_root::<MainnetEthSpec>().0),
        "792930bbd5baac43bcc798ee49aa8185ef76bb3b44ba62b91d86ae569e4bb535"
    );
    assert_eq!(
        hex(&hash_transactions::<MainnetEthSpec>(&vec![]).0),
        "7ffe241ea60187fdb0187bfa22de35d1f9bed7ab061d9401fd47e34a54fbede1"
    );
}

#[test]
fn root_of_a_header() {
    let header = BeaconBlockHeader {
        slot: Slot(258),
        proposer_index: 7,
        parent_root: FixedBytes([1; 32]),
        state_root: FixedBytes([2; 32]),
        body_root: FixedBytes([3; 32]),
    };
    let mut hasher = tree_hash::MerkleHasher::with_leaves(5);
    let mut slot = [0u8; 32];
    slot[0] = 2;
    slot[1] = 1;
    let mut proposer = [0u8; 32];
    proposer[0] = 7;
    for leaf in [slot, proposer, [1; 32], [2; 32], [3; 32]] {
        hasher.write(&leaf).unwrap();
    }
    assert_eq!(header.tree_hash_root().0, hasher.finish().unwrap().0);
}

#[test]
fn roots_of_single_leaves_are_padded() {
    let mut expected = [0u8; 32];
    expected[0] = 0xff;
    expected[7] = 0x01;
    assert_eq!(0x01000000000000ffu64.tree_hash_root().0, expected);
    let mut address = [5u8; 32];
    for i in 20..32 {
        address[i] = 0;
    }
    assert_eq!(FixedBytes([5u8; 20]).tree_hash_root().0, address);
    assert_eq!(FixedBytes([5u8; 32]).tree_hash_root().0, [5u8; 32]);
}

#[test]
fn root_of_commitments_counts_them() {
    let one = hash_commitments::<MainnetEthSpec>(&vec![FixedBytes([0; 48])]);
    let two = hash_commitments::<MainnetEthSpec>(&vec![FixedBytes([0; 48]); 2]);
    assert_ne!(one, two);
    let mut leaf = [0u8; 64];
    leaf[0] = 1;
    let mut commitment = [0u8; 48];
    commitment[0] = 1;
    let leaf_root = tree_hash::merkle_root(&leaf, 0);
    let expected =
        tree_hash::mix_in_length(&tree_hash::merkle_root(leaf_root.as_slice(), 4096), 1);
    assert_eq!(
        hash_commitments::<MainnetEthSpec>(&vec![FixedBytes(commitment)]).0,
        expected.0
    );
}

#[test]
fn root_of_bytes_counts_them() {
    let expected =
        tree_hash::mix_in_length(&tree_hash::merkle_root(&[9, 8, 7], 1), 3);
    assert_eq!(hash_byte_list(&vec![9, 8, 7], 32).0, expected.0);
    assert_ne!(hash_byte_list(&vec![9, 8, 7, 0], 32), hash_byte_list(&vec![9, 8, 7], 32));
}

#[test]
fn root_of_an_envelope_covers_every_field() {
    let root = |envelope: &ExecutionPayloadEnvelopeGloas| {
        ExecutionPayloadEnvelopeRef::Gloas(envelope).tree_hash_root::<MainnetEthSpec>()
    };
    let base = root(&sample());
    let mut changed = Vec::new();
    let mut e = sample();
    e.payload.excess_blob_gas = 12;
    changed.push(root(&e));
    let mut e = sample();
    e.payload.transactions[1].push(0);
    changed.push(root(&e));
    let mut e = sample();
    e.execution_requests.consolidations.clear();
    changed.push(root(&e));
    let mut e = sample();
    e.builder_index = 43;
    changed.push(root(&e));
    let mut e = sample();
    e.beacon_block_root = FixedBytes([0; 32]);
    changed.push(root(&e));
    let mut e = sample();
    e.slot = Slot(97);
    changed.push(root(&e));
    let mut e = sample();
    e.blob_kzg_commitments.pop();
    changed.push(root(&e));
    let mut e = sample();
    e.state_root = FixedBytes([0; 32]);
    changed.push(root(&e));
    for (i, other) in changed.iter().enumerate() {
        assert_ne!(base, *other, "change {}", i);
    }
    let mut hasher = tree_hash::MerkleHasher::with_leaves(7);
    let e = sample();
    let mut builder = [0u8; 32];
    builder[0] = 42;
    let mut slot = [0u8; 32];
    slot[0] = 96;
    hasher.write(&e.payload.tree_hash_root::<MainnetEthSpec>().0).unwrap();
    hasher.write(&e.execution_requests.tree_hash_root::<MainnetEthSpec>().0).unwrap();
    hasher.write(&builder).unwrap();
    hasher.write(&[16; 32]).unwrap();
    hasher.write(&slot).unwrap();
    hasher.write(&hash_commitments::<MainnetEthSpec>(&e.blob_kzg_commitments).0).unwrap();
    hasher.write(&[19; 32]).unwrap();
    assert_eq!(base.0, hasher.finish().unwrap().0);
}

fn next_fork() -> ExecutionPayloadEnvelopeNextFork {
    let e = sample();
    ExecutionPayloadEnvelopeNextFork {
        payload: e.payload,
        execution_requests: e.execution_requests,
        builder_index: e.builder_index,
        beacon_block_root: e.beacon_block_root,
        slot: e.slot,
        blob_kzg_commitments: e.blob_kzg_commitments,
        state_root: e.state_root,
    }
}

#[test]
fn the_next_fork_keeps_the_format() {
    let bytes = next_fork().as_ssz_bytes::<MainnetEthSpec>();
    assert_eq!(bytes, sample().as_ssz_bytes::<MainnetEthSpec>());
    assert_eq!(
        ExecutionPayloadEnvelopeNextFork::from_ssz_bytes::<MainnetEthSpec>(&bytes),
        Ok(next_fork())
    );
    assert_eq!(
        ExecutionPayloadEnvelopeNextFork::from_ssz_bytes::<MainnetEthSpec>(&bytes[..3]),
        Err(DecodeError::InvalidLengthPrefix { len: 3, expected: 4 })
    );
}

#[test]
fn decoding_undoes_encoding_of_signed_envelopes() {
    let signature = FixedBytes([7; 96]);
    let signed = SignedExecutionPayloadEnvelopeGloas { message: sample(), signature };
    let bytes = signed.as_ssz_bytes::<MainnetEthSpec>();
    assert_eq!(bytes[0..4], [100, 0, 0, 0]);
    assert_eq!(bytes[4..100], [7; 96]);
    let read = |bytes: &[u8], fault: Option<&str>| {
        SignedExecutionPayloadEnvelopeGloas::from_ssz_bytes::<MainnetEthSpec, _>(
            bytes,
            |_: &Signature| fault.map(|f| f.to_string()),
        )
    };
    assert_eq!(read(&bytes, None), Ok(signed));
    assert_eq!(
        read(&bytes, Some("not on the curve")),
        Err(DecodeError::BytesInvalid("not on the curve".to_string()))
    );
    // The envelope is read before the signature is looked at.
    assert_eq!(
        read(&bytes[..bytes.len() - 1], Some("not on the curve")),
        Err(DecodeError::InvalidByteLength { len: 47, expected: 48 })
    );
    assert_eq!(read(&bytes[..50], None), Err(DecodeError::OffsetOutOfBounds(100)));

    let signed = SignedExecutionPayloadEnvelopeNextFork { message: next_fork(), signature };
    let bytes = signed.as_ssz_bytes::<MainnetEthSpec>();
    assert_eq!(
        SignedExecutionPayloadEnvelopeNextFork::from_ssz_bytes::<MainnetEthSpec, _>(
            &bytes,
            |s: &Signature| if s.0[0] == 7 { None } else { Some("unknown".to_string()) },
        ),
        Ok(signed)
    );
}

#[test]
fn root_of_a_signed_envelope() {
    let signed = SignedExecutionPayloadEnvelope::from_envelope(
        ExecutionPayloadEnvelope::Gloas(sample()),
        FixedBytes([7; 96]),
    );
    let mut leaves = Vec::new();
    leaves.extend(signed.message().tree_hash_root::<MainnetEthSpec>().0);
    leaves.extend(tree_hash::merkle_root(&[7; 96], 3).0);
    assert_eq!(
        signed.tree_hash_root::<MainnetEthSpec>().0,
        tree_hash::merkle_root(&leaves, 2).0
    );
}

fn signed_bid() -> SignedExecutionBid {
    let mut bid = SignedExecutionBid::empty();
    bid.message.parent_block_hash = FixedBytes([1; 32]);
    bid.message.fee_recipient = FixedBytes([2; 20]);
    bid.message.gas_limit = 3;
    bid.message.builder_index = 4;
    bid.message.slot = Slot(5);
    bid.message.value = 6;
    bid.message.blob_kzg_commitments_root = FixedBytes([7; 32]);
    bid.signature = FixedBytes([8; 96]);
    bid
}

#[test]
fn decoding_undoes_encoding_of_bids() {
    let bytes = signed_bid().as_ssz_bytes();
    assert_eq!(bytes.len(), 276);
    assert_eq!(bytes[116..148], [
        3, 0, 0, 0, 0, 0, 0, 0, 4, 0, 0, 0, 0, 0, 0, 0, 5, 0, 0, 0, 0, 0, 0, 0, 6, 0, 0, 0, 0, 0,
        0, 0
    ]);
    let valid = |_: &Signature| None;
    let invalid = |_: &Signature| Some("not on the curve".to_string());
    assert_eq!(SignedExecutionBid::from_ssz_bytes(&bytes, valid), Ok(signed_bid()));
    assert_eq!(
        SignedExecutionBid::from_ssz_bytes(&bytes[..275], invalid),
        Err(DecodeError::InvalidByteLength { len: 275, expected: 276 })
    );
    assert_eq!(
        SignedExecutionBid::from_ssz_bytes(&bytes, invalid),
        Err(DecodeError::BytesInvalid("not on the curve".to_string()))
    );
}

fn attestation() -> PayloadAttestationMessage {
    PayloadAttestationMessage {
        validator_index: 300,
        data: PayloadAttestationData {
            beacon_block_root: FixedBytes([1; 32]),
            slot: Slot(5),
            payload_present: true,
            blob_data_available: false,
        },
        signature: FixedBytes([8; 96]),
    }
}

#[test]
fn decoding_undoes_encoding_of_attestations() {
    let bytes = attestation().as_ssz_bytes();
    assert_eq!(bytes.len(), 146);
    assert_eq!(bytes[40..50], [5, 0, 0, 0, 0, 0, 0, 0, 1, 0]);
    let valid = |_: &Signature| None;
    let invalid = |_: &Signature| Some("not on the curve".to_string());
    assert_eq!(PayloadAttestationMessage::from_ssz_bytes(&bytes, valid), Ok(attestation()));
    let mut neither = bytes.clone();
    neither[49] = 2;
    assert_eq!(
        PayloadAttestationMessage::from_ssz_bytes(&neither, invalid),
        Err(DecodeError::BytesInvalid("Out-of-range for boolean: 2".to_string()))
    );
    neither[48] = 255;
    assert_eq!(
        PayloadAttestationMessage::from_ssz_bytes(&neither, valid),
        Err(DecodeError::BytesInvalid("Out-of-range for boolean: 255".to_string()))
    );
    assert_eq!(
        PayloadAttestationMessage::from_ssz_bytes(&bytes[1..], valid),
        Err(DecodeError::InvalidByteLength { len: 145, expected: 146 })
    );
    assert_eq!(
        PayloadAttestationMessage::from_ssz_bytes(&bytes, invalid),
        Err(DecodeError::BytesInvalid("not on the curve".to_string()))
    );
}

#[test]
fn roots_of_bids_and_attestations() {
    let chunk = |n: u8| {
        let mut leaf = [0u8; 32];
        leaf[0] = n;
        leaf
    };
    let mut address = [0u8; 32];
    for i in 0..20 {
        address[i] = 2;
    }
    let mut hasher = tree_hash::MerkleHasher::with_leaves(9);
    for leaf in [
        [1; 32], [0; 32], [0; 32], address, chunk(3), chunk(4), chunk(5), chunk(6), [7; 32],
    ] {
        hasher.write(&leaf).unwrap();
    }
    let message = hasher.finish().unwrap();
    assert_eq!(signed_bid().message.tree_hash_root().0, message.0);
    let mut leaves = message.to_vec();
    leaves.extend(tree_hash::merkle_root(&[8; 96], 3).0);
    assert_eq!(signed_bid().tree_hash_root().0, tree_hash::merkle_root(&leaves, 0).0);

    let mut leaves = vec![1u8; 32];
    leaves.extend(chunk(5));
    leaves.extend(chunk(1));
    leaves.extend(chunk(0));
    let data = tree_hash::merkle_root(&leaves, 0);
    assert_eq!(attestation().data.tree_hash_root().0, data.0);
    let mut index = chunk(44);
    index[1] = 1;
    let mut leaves = index.to_vec();
    leaves.extend(data.0);
    leaves.extend(tree_hash::merkle_root(&[8; 96], 3).0);
    assert_eq!(attestation().tree_hash_root().0, tree_hash::merkle_root(&leaves, 0).0);
}
