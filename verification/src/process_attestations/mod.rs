//! Applying the attestations of a block to a state.

pub mod altair_gloas;
pub mod base;

use crate::beacon_state::{AttestationData, BeaconState, StateModel};
use crate::errors::{AttestationVerificationError, BeaconStateError, BlockProcessingError};
use crate::primitives::{Epoch, Signature, Slot};
use vstd::prelude::*;

verus! {

/// Whether signatures are to be verified.
#[derive(Clone, Copy, Debug, PartialEq, Eq, Structural)]
pub enum VerifySignatures {
    True,
    False,
}

impl VerifySignatures {
    /// Whether signatures are to be verified.
    pub fn is_true(self) -> (r: bool)
        ensures
            r == (self is True),
    {
        matches!(self, VerifySignatures::True)
    }
}

/// The attestation format of the forks before Electra.
#[derive(Clone, Debug, PartialEq, Eq)]
pub struct AttestationBase {
    pub aggregation_bits: Vec<bool>,
    pub data: AttestationData,
    pub signature: Signature,
}

/// The attestation format of Electra and later forks.
#[derive(Clone, Debug, PartialEq, Eq)]
pub struct AttestationElectra {
    pub aggregation_bits: Vec<bool>,
    pub data: AttestationData,
    pub signature: Signature,
    pub committee_bits: Vec<bool>,
}

/// A vote of some validators.
#[derive(Clone, Debug, PartialEq, Eq)]
pub enum Attestation {
    Base(AttestationBase),
    Electra(AttestationElectra),
}

impl Attestation {
    /// What the attestation votes for.
    pub open spec fn spec_data(self) -> AttestationData {
        match self {
            Attestation::Base(a) => a.data,
            Attestation::Electra(a) => a.data,
        }
    }

    /// What the attestation votes for.
    pub fn data(&self) -> (r: AttestationData)
        ensures
            r == self.spec_data(),
    {
        match self {
            Attestation::Base(a) => a.data,
            Attestation::Electra(a) => a.data,
        }
    }
}

/// What is known about the block whose attestations are being processed.
///
/// The functions answer questions about a state that are settled elsewhere: who proposed the
/// block, who signed an attestation and whether it may enter the block, and which participation
/// flags it earns after a given delay.
pub struct ConsensusContext<P, V, F> {
    pub previous_epoch: Epoch,
    pub current_epoch: Epoch,
    /// The proposer of the block.
    pub get_proposer_index: P,
    /// The validators that signed an attestation, if it may enter the block.
    pub verify_attestation_for_block_inclusion: V,
    /// The participation flags that an attestation earns.
    pub get_attestation_participation_flag_indices: F,
}

/// What the functions of a [`ConsensusContext`] answered for one attestation.
pub struct AttestationCalls {
    pub proposer_index: Result<u64, BlockProcessingError>,
    pub attesting_indices: Result<Vec<u64>, AttestationVerificationError>,
    pub participation_flag_indices: Result<Vec<usize>, BeaconStateError>,
}

impl<P, V, F> ConsensusContext<P, V, F> where
    P: Fn(&BeaconState) -> Result<u64, BlockProcessingError>,
    V: Fn(&BeaconState, &Attestation, VerifySignatures) -> Result<
        Vec<u64>,
        AttestationVerificationError,
    >,
    F: Fn(&BeaconState, &AttestationData, u64) -> Result<Vec<usize>, BeaconStateError>,
 {
    /// Whether the functions answer every question.
    pub open spec fn answers(self) -> bool {
        &&& forall|state: BeaconState| call_requires(self.get_proposer_index, (&state,))
        &&& forall|state: BeaconState, attestation: Attestation, verify: VerifySignatures|
            call_requires(
                self.verify_attestation_for_block_inclusion,
                (&state, &attestation, verify),
            )
        &&& forall|state: BeaconState, data: AttestationData, delay: u64|
            call_requires(
                self.get_attestation_participation_flag_indices,
                (&state, &data, delay),
            )
    }

    /// Whether `calls` holds what the functions answered for `attestation` on `state`.
    ///
    /// They are asked in turn: the proposer, the signers, the flags for the delay between the
    /// slot of the attestation and that of the state. The first failure ends the questions.
    pub open spec fn answered(
        self,
        state: BeaconState,
        attestation: Attestation,
        verify_signatures: VerifySignatures,
        calls: AttestationCalls,
    ) -> bool {
        let data = attestation.spec_data();
        &&& call_ensures(self.get_proposer_index, (&state,), calls.proposer_index)
        &&& calls.proposer_index is Ok ==> call_ensures(
            self.verify_attestation_for_block_inclusion,
            (&state, &attestation, verify_signatures),
            calls.attesting_indices,
        )
        &&& calls.proposer_index is Ok && calls.attesting_indices is Ok && data.slot.0
            <= state.slot.0 ==> call_ensures(
            self.get_attestation_participation_flag_indices,
            (&state, &data, (state.slot.0 - data.slot.0) as u64),
            calls.participation_flag_indices,
        )
    }
}

/// Whether the attestation was for the block proposed at the attestation slot: its root is that
/// of the attestation slot and not that of the slot before.
pub open spec fn attestation_same_slot(state: StateModel, data: AttestationData) -> Result<
    bool,
    BeaconStateError,
> {
    if data.slot.0 == 0 {
        Ok(true)
    } else {
        match state.block_root(data.slot) {
            Err(e) => Err(e),
            Ok(at_slot) => match state.block_root(Slot((data.slot.0 - 1) as u64)) {
                Err(e) => Err(e),
                Ok(before) => Ok(
                    data.beacon_block_root == at_slot && data.beacon_block_root != before,
                ),
            },
        }
    }
}

/// Checks if the attestation was for the block proposed at the attestation slot.
pub fn is_attestation_same_slot(state: &BeaconState, data: &AttestationData) -> (r: Result<
    bool,
    BeaconStateError,
>)
    ensures
        r == attestation_same_slot(state@, *data),
{
    if data.slot.0 == 0 {
        return Ok(true);
    }
    let at_slot = match state.get_block_root(data.slot) {
        Ok(root) => root,
        Err(e) => {
            return Err(e);
        },
    };
    let previous_slot: u64 = match data.slot.safe_sub(Slot(1)) {
        Ok(slot) => slot,
        Err(e) => {
            return Err(BeaconStateError::ArithError(e));
        },
    };
    let before = match state.get_block_root(Slot(previous_slot)) {
        Ok(root) => root,
        Err(e) => {
            return Err(e);
        },
    };
    let is_matching_block_root = data.beacon_block_root == at_slot;
    let is_current_block_root = data.beacon_block_root != before;
    Ok(is_matching_block_root && is_current_block_root)
}

} // verus!
