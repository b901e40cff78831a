//! The ways in which the rules refuse an input.

use crate::arith::ArithError;
use crate::primitives::{Epoch, ExecutionBlockHash, Hash256, RelativeEpoch, RelativeEpochError};
use vstd::prelude::*;
use vstd::std_specs::convert::FromSpecImpl;

verus! {

/// Why a list or vector of a state could not take its new contents.
#[derive(Clone, Copy, Debug, PartialEq, Eq)]
pub enum MilhouseError {
    ListFull { len: usize },
    WrongVectorLength { len: usize, expected: usize },
}

/// Why a cache of balances and rewards gave no answer.
#[derive(Clone, Copy, Debug, PartialEq, Eq)]
pub enum EpochCacheError {
    ValidatorIndexOutOfBounds { validator_index: usize },
}

/// Why a read or an update of a state failed.
#[derive(Clone, Copy, Debug, PartialEq, Eq)]
pub enum BeaconStateError {
    /// The state belongs to a fork that lacks the field.
    IncorrectStateVariant,
    EpochOutOfBounds,
    SlotOutOfBounds,
    ZeroSlotsPerEpoch,
    InsufficientValidators,
    TotalActiveBalanceCacheUninitialized,
    ProgressiveBalancesCacheNotInitialized,
    ProgressiveBalancesCacheInconsistent,
    CommitteeCacheUninitialized(Option<RelativeEpoch>),
    PTCCacheUninitialized(Option<RelativeEpoch>),
    BlockRootsOutOfBounds(usize),
    RandaoMixesOutOfBounds(usize),
    ParticipationOutOfBounds(usize),
    BalancesOutOfBounds(usize),
    InvalidFlagIndex(usize),
    RelativeEpochError(RelativeEpochError),
    ArithError(ArithError),
}

/// Why an attestation may not enter a block.
#[derive(Clone, Copy, Debug, PartialEq, Eq)]
pub enum AttestationInvalid {
    BadCommitteeIndex,
    BadAggregationBitfieldLength,
    TooEarly,
    TooLate,
    TargetEpochSlotMismatch,
    WrongJustifiedCheckpoint,
    BadIndexedAttestation,
    BadSignature,
}

/// What stopped the verification of an attestation.
#[derive(Clone, Copy, Debug, PartialEq, Eq)]
pub enum AttestationVerificationError {
    /// The attestation breaks a rule.
    Invalid(AttestationInvalid),
    BeaconStateError(BeaconStateError),
    ArithError(ArithError),
}

/// Why a block operation was refused.
#[derive(Clone, Copy, Debug, PartialEq, Eq)]
pub enum BlockProcessingError {
    /// The attestation at position `index` of the block is invalid.
    AttestationInvalid { index: usize, reason: AttestationInvalid },
    /// A pending attestation can only be made from the attestation format that predates Electra.
    PendingAttestationInElectra,
    /// The state keeps no builder payment at this position.
    BuilderPaymentIndexOutOfBounds(usize),
    BeaconStateError(BeaconStateError),
    EpochCacheError(EpochCacheError),
    MilhouseError(MilhouseError),
    ArithError(ArithError),
}

impl AttestationVerificationError {
    /// The block processing error for the attestation at position `index`.
    pub open spec fn spec_into_with_index(self, index: usize) -> BlockProcessingError {
        match self {
            AttestationVerificationError::Invalid(reason) => {
                BlockProcessingError::AttestationInvalid { index, reason }
            },
            AttestationVerificationError::BeaconStateError(e) => {
                BlockProcessingError::BeaconStateError(e)
            },
            AttestationVerificationError::ArithError(e) => BlockProcessingError::ArithError(e),
        }
    }

    /// The block processing error for the attestation at position `index`.
    pub fn into_with_index(self, index: usize) -> (r: BlockProcessingError)
        ensures
            r == self.spec_into_with_index(index),
    {
        match self {
            AttestationVerificationError::Invalid(reason) => {
                BlockProcessingError::AttestationInvalid { index, reason }
            },
            AttestationVerificationError::BeaconStateError(e) => {
                BlockProcessingError::BeaconStateError(e)
            },
            AttestationVerificationError::ArithError(e) => BlockProcessingError::ArithError(e),
        }
    }
}

/// Why the end of an epoch could not be processed.
#[derive(Clone, Copy, Debug, PartialEq, Eq)]
pub enum EpochProcessingError {
    BeaconStateError(BeaconStateError),
    MilhouseError(MilhouseError),
    ArithError(ArithError),
}

/// Why an envelope could not be applied to a state.
#[derive(Clone, Copy, Debug, PartialEq, Eq)]
pub enum EnvelopeProcessingError {
    /// Bad signature.
    BadSignature,
    BeaconStateError(BeaconStateError),
    BlockProcessingError(BlockProcessingError),
}

impl From<BeaconStateError> for EnvelopeProcessingError {
    fn from(e: BeaconStateError) -> (r: Self) {
        EnvelopeProcessingError::BeaconStateError(e)
    }
}

impl FromSpecImpl<BeaconStateError> for EnvelopeProcessingError {
    open spec fn obeys_from_spec() -> bool {
        true
    }

    open spec fn from_spec(e: BeaconStateError) -> Self {
        EnvelopeProcessingError::BeaconStateError(e)
    }
}

impl From<BlockProcessingError> for EnvelopeProcessingError {
    fn from(e: BlockProcessingError) -> (r: Self) {
        EnvelopeProcessingError::BlockProcessingError(e)
    }
}

impl FromSpecImpl<BlockProcessingError> for EnvelopeProcessingError {
    open spec fn obeys_from_spec() -> bool {
        true
    }

    open spec fn from_spec(e: BlockProcessingError) -> Self {
        EnvelopeProcessingError::BlockProcessingError(e)
    }
}

/// Why the chain could not serve a request.
#[derive(Clone, Copy, Debug, PartialEq, Eq)]
pub enum BeaconChainError {
    MissingBeaconBlock(Hash256),
    MissingBeaconState(Hash256),
    /// The database could not be read.
    DBError,
    /// The execution layer could not be reached.
    ExecutionLayerMissing,
    RuntimeShutdown,
    UnableToReadSlot,
}

/// Why an envelope was refused.
#[derive(Clone, Copy, Debug, PartialEq, Eq)]
pub enum EnvelopeError {
    /// The envelope's block root is unknown.
    BlockRootUnknown { block_root: Hash256 },
    /// The signature is invalid.
    BadSignature,
    /// The envelope doesn't match the latest beacon block header: the block root that it names
    /// is not the root of that header.
    LatestBlockHeaderMismatch { envelope_root: Hash256, block_header_root: Hash256 },
    /// The builder index doesn't match the committed bid.
    BuilderIndexMismatch { committed_bid: u64, envelope: u64 },
    /// The blob KZG commitments root doesn't match the committed bid.
    BlobKzgCommitmentsRootMismatch { committed_bid: Hash256, envelope: Hash256 },
    /// The withdrawals root doesn't match the state's latest withdrawals root.
    WithdrawalsRootMismatch { state: Hash256, envelope: Hash256 },
    /// The gas limit doesn't match the committed bid.
    GasLimitMismatch { committed_bid: u64, envelope: u64 },
    /// The block hash doesn't match the committed bid.
    BlockHashMismatch { committed_bid: ExecutionBlockHash, envelope: ExecutionBlockHash },
    /// The parent hash doesn't match the previous execution payload.
    ParentHashMismatch { state: ExecutionBlockHash, envelope: ExecutionBlockHash },
    /// The previous RANDAO mix doesn't match the payload.
    PrevRandaoMismatch { state: Hash256, envelope: Hash256 },
    /// The timestamp doesn't match the payload.
    TimestampMismatch { state: u64, envelope: u64 },
    /// The blob commitments exceed the maximum.
    BlobLimitExceeded { max: usize, envelope: usize },
    /// The state root is invalid.
    InvalidStateRoot { state: Hash256, envelope: Hash256 },
    /// The payload was withheld but the block hash matched the committed bid.
    PayloadWithheldBlockHashMismatch,
    BeaconChainError(BeaconChainError),
    BeaconStateError(BeaconStateError),
    ArithError(ArithError),
    BlockProcessingError(BlockProcessingError),
}

impl From<BeaconChainError> for EnvelopeError {
    fn from(e: BeaconChainError) -> (r: Self) {
        EnvelopeError::BeaconChainError(e)
    }
}

impl FromSpecImpl<BeaconChainError> for EnvelopeError {
    open spec fn obeys_from_spec() -> bool {
        true
    }

    open spec fn from_spec(e: BeaconChainError) -> Self {
        EnvelopeError::BeaconChainError(e)
    }
}

impl From<BeaconStateError> for EnvelopeError {
    fn from(e: BeaconStateError) -> (r: Self) {
        EnvelopeError::BeaconStateError(e)
    }
}

impl FromSpecImpl<BeaconStateError> for EnvelopeError {
    open spec fn obeys_from_spec() -> bool {
        true
    }

    open spec fn from_spec(e: BeaconStateError) -> Self {
        EnvelopeError::BeaconStateError(e)
    }
}

impl From<ArithError> for EnvelopeError {
    fn from(e: ArithError) -> (r: Self) {
        EnvelopeError::ArithError(e)
    }
}

impl FromSpecImpl<ArithError> for EnvelopeError {
    open spec fn obeys_from_spec() -> bool {
        true
    }

    open spec fn from_spec(e: ArithError) -> Self {
        EnvelopeError::ArithError(e)
    }
}

impl From<EnvelopeProcessingError> for EnvelopeError {
    fn from(e: EnvelopeProcessingError) -> (r: Self) {
        match e {
            EnvelopeProcessingError::BadSignature => EnvelopeError::BadSignature,
            EnvelopeProcessingError::BeaconStateError(e) => EnvelopeError::BeaconStateError(e),
            EnvelopeProcessingError::BlockProcessingError(e) => {
                EnvelopeError::BlockProcessingError(e)
            },
        }
    }
}

impl FromSpecImpl<EnvelopeProcessingError> for EnvelopeError {
    open spec fn obeys_from_spec() -> bool {
        true
    }

    open spec fn from_spec(e: EnvelopeProcessingError) -> Self {
        match e {
            EnvelopeProcessingError::BadSignature => EnvelopeError::BadSignature,
            EnvelopeProcessingError::BeaconStateError(e) => EnvelopeError::BeaconStateError(e),
            EnvelopeProcessingError::BlockProcessingError(e) => {
                EnvelopeError::BlockProcessingError(e)
            },
        }
    }
}

} // verus!
