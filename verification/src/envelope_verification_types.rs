//! Envelopes that have been executed, with or without their blobs.

use crate::beacon_state::{BeaconState, SignedExecutionBid};
use crate::errors::BeaconStateError;
use crate::execution_payload_envelope::SignedExecutionPayloadEnvelope;
use crate::primitives::{Hash256, Slot};
use std::sync::Arc;
use vstd::prelude::*;

verus! {

/// A signed beacon block without its payload.
#[derive(Clone, Copy, Debug, PartialEq, Eq)]
pub struct SignedBlindedBeaconBlock {
    pub slot: Slot,
    pub state_root: Hash256,
    /// The bid that the block commits to; blocks before Gloas have none.
    pub signed_execution_bid: Option<SignedExecutionBid>,
}

impl SignedBlindedBeaconBlock {
    /// The bid that the block commits to.
    pub open spec fn spec_signed_execution_bid(self) -> Result<
        SignedExecutionBid,
        BeaconStateError,
    > {
        match self.signed_execution_bid {
            Some(bid) => Ok(bid),
            None => Err(BeaconStateError::IncorrectStateVariant),
        }
    }

    /// The bid that the block commits to.
    pub fn signed_execution_bid(&self) -> (r: Result<SignedExecutionBid, BeaconStateError>)
        ensures
            r == self.spec_signed_execution_bid(),
    {
        match self.signed_execution_bid {
            Some(bid) => Ok(bid),
            None => Err(BeaconStateError::IncorrectStateVariant),
        }
    }
}

/// What the execution layer says of a payload.
#[derive(Clone, Copy, Debug, PartialEq, Eq)]
pub enum PayloadVerificationStatus {
    /// The payload is valid.
    Verified,
    /// The payload has not been verified yet.
    Optimistic,
    /// There is no payload to verify.
    Irrelevant,
}

/// The outcome of the verification of a payload.
#[derive(Clone, Copy, Debug, PartialEq, Eq)]
pub struct PayloadVerificationOutcome {
    pub payload_verification_status: PayloadVerificationStatus,
    pub is_valid_merge_transition_block: bool,
}

impl PayloadVerificationOutcome {
    /// The outcome for the payload of an envelope.
    ///
    /// Envelopes come after the merge, so theirs is never the merge transition block.
    pub fn for_envelope(payload_verification_status: PayloadVerificationStatus) -> (r: Self)
        ensures
            r.payload_verification_status == payload_verification_status,
            !r.is_valid_merge_transition_block,
    {
        PayloadVerificationOutcome {
            payload_verification_status,
            is_valid_merge_transition_block: false,
        }
    }
}

/// The name of a blob: its block and its position there.
#[derive(Clone, Copy, Debug, PartialEq, Eq)]
pub struct BlobIdentifier {
    pub block_root: Hash256,
    pub index: u64,
}

/// An envelope whose blobs are all there.
#[derive(Clone, Debug, PartialEq, Eq)]
pub struct AvailableEnvelope {
    pub block_root: Hash256,
    pub envelope: Arc<SignedExecutionPayloadEnvelope>,
}

impl AvailableEnvelope {
    /// The envelope itself.
    pub fn envelope(&self) -> (r: &SignedExecutionPayloadEnvelope)
        ensures
            *r == *self.envelope,
    {
        &self.envelope
    }
}

/// An envelope whose blobs may still be missing.
#[derive(Clone, Debug, PartialEq, Eq)]
pub enum MaybeAvailableEnvelope {
    /// All blobs are there.
    Available(AvailableEnvelope),
    /// Some blobs may be missing.
    AvailabilityPending { block_root: Hash256, envelope: Arc<SignedExecutionPayloadEnvelope> },
}

/// What an import into fork choice needs beside the envelope.
#[derive(Clone, Debug, PartialEq, Eq)]
pub struct EnvelopeImportData {
    pub block_root: Hash256,
    pub parent_block: Arc<SignedBlindedBeaconBlock>,
    pub post_state: Box<BeaconState>,
}

/// An envelope that has completed all processing checks including verification by an EL client
/// **and** has all requisite blob data to be imported into fork choice.
#[derive(Clone, Debug, PartialEq, Eq)]
pub struct AvailableExecutedEnvelope {
    pub envelope: AvailableEnvelope,
    pub import_data: EnvelopeImportData,
    pub payload_verification_outcome: PayloadVerificationOutcome,
}

impl AvailableExecutedEnvelope {
    pub fn new(
        envelope: AvailableEnvelope,
        import_data: EnvelopeImportData,
        payload_verification_outcome: PayloadVerificationOutcome,
    ) -> (r: Self)
        ensures
            r == (AvailableExecutedEnvelope {
                envelope,
                import_data,
                payload_verification_outcome,
            }),
    {
        Self { envelope, import_data, payload_verification_outcome }
    }

    /// The names of the blobs that the envelope commits to, in the order of the commitments.
    pub fn get_all_blob_ids(&self) -> (r: Vec<BlobIdentifier>)
        ensures
            r@ == Seq::new(
                self.envelope.envelope.spec_message().spec_blob_kzg_commitments()@.len(),
                |i: int|
                    BlobIdentifier { block_root: self.import_data.block_root, index: i as u64 },
            ),
    {
        let num_blobs_expected: usize =
            self.envelope.envelope().message().blob_kzg_commitments().len();
        let mut blob_ids: Vec<BlobIdentifier> = Vec::with_capacity(num_blobs_expected);
        for i in 0..num_blobs_expected
            invariant
                blob_ids@ == Seq::new(
                    i as nat,
                    |k: int|
                        BlobIdentifier { block_root: self.import_data.block_root, index: k as u64 },
                ),
        {
            blob_ids.push(
                BlobIdentifier { block_root: self.import_data.block_root, index: i as u64 },
            );
        }
        blob_ids
    }
}

/// An executed envelope that may lack blobs.
#[derive(Clone, Debug, PartialEq, Eq)]
pub struct AvailabilityPendingExecutedEnvelope {
    pub envelope: Arc<SignedExecutionPayloadEnvelope>,
    pub import_data: EnvelopeImportData,
    pub payload_verification_outcome: PayloadVerificationOutcome,
}

impl AvailabilityPendingExecutedEnvelope {
    pub fn new(
        envelope: Arc<SignedExecutionPayloadEnvelope>,
        import_data: EnvelopeImportData,
        payload_verification_outcome: PayloadVerificationOutcome,
    ) -> (r: Self)
        ensures
            r == (AvailabilityPendingExecutedEnvelope {
                envelope,
                import_data,
                payload_verification_outcome,
            }),
    {
        Self { envelope, import_data, payload_verification_outcome }
    }

    /// The envelope itself.
    pub fn as_envelope(&self) -> (r: &SignedExecutionPayloadEnvelope)
        ensures
            *r == *self.envelope,
    {
        &self.envelope
    }

    /// The number of blobs that the envelope commits to.
    pub fn num_blobs_expected(&self) -> (r: usize)
        ensures
            r == self.envelope.spec_message().spec_blob_kzg_commitments()@.len(),
    {
        self.envelope.message().blob_kzg_commitments().len()
    }
}

/// An envelope that has gone through all envelope processing checks including envelope processing
/// and execution by an EL client. This block hasn't necessarily completed data availability checks.
///
///
/// It contains 2 variants:
/// 1. `Available`: This envelope has been executed and also contains all data to consider it a
///    fully available envelope.
/// 2. `AvailabilityPending`: This envelope hasn't received all required blobs to consider it a
///    fully available envelope.
#[derive(Clone, Debug, PartialEq, Eq)]
pub enum ExecutedEnvelope {
    Available(AvailableExecutedEnvelope),
    AvailabilityPending(AvailabilityPendingExecutedEnvelope),
}

impl ExecutedEnvelope {
    pub fn new(
        envelope: MaybeAvailableEnvelope,
        import_data: EnvelopeImportData,
        payload_verification_outcome: PayloadVerificationOutcome,
    ) -> (r: Self)
        ensures
            r == (match envelope {
                MaybeAvailableEnvelope::Available(envelope) => ExecutedEnvelope::Available(
                    AvailableExecutedEnvelope {
                        envelope,
                        import_data,
                        payload_verification_outcome,
                    },
                ),
                MaybeAvailableEnvelope::AvailabilityPending { block_root, envelope } => {
                    ExecutedEnvelope::AvailabilityPending(
                        AvailabilityPendingExecutedEnvelope {
                            envelope,
                            import_data,
                            payload_verification_outcome,
                        },
                    )
                },
            }),
    {
        match envelope {
            MaybeAvailableEnvelope::Available(available_envelope) => ExecutedEnvelope::Available(
                AvailableExecutedEnvelope::new(
                    available_envelope,
                    import_data,
                    payload_verification_outcome,
                ),
            ),
            MaybeAvailableEnvelope::AvailabilityPending { block_root: _, envelope } => {
                ExecutedEnvelope::AvailabilityPending(
                    AvailabilityPendingExecutedEnvelope::new(
                        envelope,
                        import_data,
                        payload_verification_outcome,
                    ),
                )
            },
        }
    }

    /// The envelope itself.
    pub open spec fn spec_as_envelope(self) -> SignedExecutionPayloadEnvelope {
        match self {
            ExecutedEnvelope::Available(available) => *available.envelope.envelope,
            ExecutedEnvelope::AvailabilityPending(pending) => *pending.envelope,
        }
    }

    /// The envelope itself.
    pub fn as_envelope(&self) -> (r: &SignedExecutionPayloadEnvelope)
        ensures
            *r == self.spec_as_envelope(),
    {
        match self {
            ExecutedEnvelope::Available(available) => available.envelope.envelope(),
            ExecutedEnvelope::AvailabilityPending(pending) => &pending.envelope,
        }
    }

    /// The root of the block that the envelope belongs to.
    pub open spec fn spec_block_root(self) -> Hash256 {
        match self {
            ExecutedEnvelope::Available(available) => available.import_data.block_root,
            ExecutedEnvelope::AvailabilityPending(pending) => pending.import_data.block_root,
        }
    }

    /// The root of the block that the envelope belongs to.
    pub fn block_root(&self) -> (r: Hash256)
        ensures
            r == self.spec_block_root(),
    {
        match self {
            ExecutedEnvelope::Available(available) => available.import_data.block_root,
            ExecutedEnvelope::AvailabilityPending(pending) => pending.import_data.block_root,
        }
    }
}

} // verus!
