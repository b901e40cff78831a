//! Consensus rules of the Gloas fork: attestations, builder payments, the payload timeliness
//! committee, payload envelopes, and the decisions of the services that run beside a validator.

pub mod arith;
pub mod beacon_state;
pub mod builder_payments;
pub mod envelope_processing;
pub mod envelope_ssz;
pub mod envelope_verification;
pub mod envelope_verification_types;
pub mod errors;
pub mod eth_spec;
pub mod execution_payload_envelope;
pub mod laws;
pub mod merkle;
pub mod message_ssz;
pub mod payload_attestation_service;
pub mod primitives;
pub mod process_attestations;
pub mod ptc_cache;
pub mod ptc_duties;
pub mod ssz;
pub mod sync_committee_service;
pub mod text;
pub mod time_span;
