//! The part of the beacon state that the rules of this library read and update.

use crate::arith::{fits_u64, safe_add, safe_rem_usize, ArithError};
use crate::errors::{BeaconStateError, EpochCacheError};
use crate::primitives::{Address, Epoch, ExecutionBlockHash, ForkName, Hash256, Signature, Slot};
use vstd::prelude::*;

verus! {

/// The number of participation flags of a validator.
pub const NUM_FLAG_INDICES: usize = 3;

/// The weight of each participation flag.
pub const PARTICIPATION_FLAG_WEIGHTS: [u64; 3] = [14, 26, 14];

/// The weight of the proposer's share.
pub const PROPOSER_WEIGHT: u64 = 8;

/// The sum of all weights.
pub const WEIGHT_DENOMINATOR: u64 = 64;

/// An epoch and the block root at its start.
#[derive(Clone, Copy, Debug, PartialEq, Eq)]
pub struct Checkpoint {
    pub epoch: Epoch,
    pub root: Hash256,
}

/// What an attestation votes for.
#[derive(Clone, Copy, Debug, PartialEq, Eq)]
pub struct AttestationData {
    pub slot: Slot,
    pub index: u64,
    pub beacon_block_root: Hash256,
    pub source: Checkpoint,
    pub target: Checkpoint,
}

/// An attestation that waits for the end of its epoch.
#[derive(Clone, Debug, PartialEq, Eq)]
pub struct PendingAttestation {
    pub aggregation_bits: Vec<bool>,
    pub data: AttestationData,
    pub inclusion_delay: u64,
    pub proposer_index: u64,
}

/// The contents of a [`PendingAttestation`].
pub struct PendingAttestationModel {
    pub aggregation_bits: Seq<bool>,
    pub data: AttestationData,
    pub inclusion_delay: u64,
    pub proposer_index: u64,
}

impl View for PendingAttestation {
    type V = PendingAttestationModel;

    open spec fn view(&self) -> PendingAttestationModel {
        PendingAttestationModel {
            aggregation_bits: self.aggregation_bits@,
            data: self.data,
            inclusion_delay: self.inclusion_delay,
            proposer_index: self.proposer_index,
        }
    }
}

/// The participation flags of one validator in one epoch, one bit each.
#[derive(Clone, Copy, Debug, PartialEq, Eq, Structural)]
pub struct ParticipationFlags {
    pub bits: u8,
}

/// The bit of a flag.
pub open spec fn flag_mask(flag_index: usize) -> u8 {
    if flag_index == 0 {
        1
    } else if flag_index == 1 {
        2
    } else {
        4
    }
}

impl ParticipationFlags {
    /// Whether the flag is set.
    pub open spec fn spec_has_flag(self, flag_index: usize) -> bool {
        self.bits & flag_mask(flag_index) == flag_mask(flag_index)
    }

    /// The flags with one more set.
    pub open spec fn spec_with_flag(self, flag_index: usize) -> ParticipationFlags {
        ParticipationFlags { bits: self.bits | flag_mask(flag_index) }
    }

    fn mask(flag_index: usize) -> (r: u8)
        ensures
            r == flag_mask(flag_index),
    {
        if flag_index == 0 {
            1
        } else if flag_index == 1 {
            2
        } else {
            4
        }
    }

    /// Whether the flag is set; an overflow when there is no such flag.
    pub fn has_flag(&self, flag_index: usize) -> (r: Result<bool, ArithError>)
        ensures
            r == (if flag_index < NUM_FLAG_INDICES {
                Ok::<bool, ArithError>(self.spec_has_flag(flag_index))
            } else {
                Err(ArithError::Overflow)
            }),
    {
        if flag_index >= NUM_FLAG_INDICES {
            return Err(ArithError::Overflow);
        }
        let mask: u8 = Self::mask(flag_index);
        Ok(self.bits & mask == mask)
    }

    /// Sets the flag; an overflow when there is no such flag.
    pub fn add_flag(&mut self, flag_index: usize) -> (r: Result<(), ArithError>)
        ensures
            flag_index < NUM_FLAG_INDICES ==> r == Ok::<(), ArithError>(()) && *final(self)
                == old(self).spec_with_flag(flag_index),
            flag_index >= NUM_FLAG_INDICES ==> r == Err::<(), ArithError>(ArithError::Overflow)
                && *final(self) == *old(self),
    {
        if flag_index >= NUM_FLAG_INDICES {
            return Err(ArithError::Overflow);
        }
        self.bits = self.bits | Self::mask(flag_index);
        Ok(())
    }
}

/// A sum of balances for each participation flag.
#[derive(Clone, Copy, Debug, PartialEq, Eq, Structural)]
pub struct FlagBalances {
    pub timely_source: u64,
    pub timely_target: u64,
    pub timely_head: u64,
}

impl FlagBalances {
    /// The sum for one flag.
    pub open spec fn spec_get(self, flag_index: usize) -> u64 {
        if flag_index == 0 {
            self.timely_source
        } else if flag_index == 1 {
            self.timely_target
        } else {
            self.timely_head
        }
    }

    /// The sums with that of one flag replaced.
    pub open spec fn spec_set(self, flag_index: usize, sum: u64) -> FlagBalances {
        if flag_index == 0 {
            FlagBalances { timely_source: sum, ..self }
        } else if flag_index == 1 {
            FlagBalances { timely_target: sum, ..self }
        } else {
            FlagBalances { timely_head: sum, ..self }
        }
    }

    /// The sums after `balance` has been added to that of one flag.
    pub open spec fn spec_on_new_attestation(self, flag_index: usize, balance: u64) -> Result<
        FlagBalances,
        BeaconStateError,
    > {
        if flag_index >= NUM_FLAG_INDICES {
            Err(BeaconStateError::InvalidFlagIndex(flag_index))
        } else {
            match fits_u64(self.spec_get(flag_index) + balance) {
                Ok(sum) => Ok(self.spec_set(flag_index, sum)),
                Err(e) => Err(BeaconStateError::ArithError(e)),
            }
        }
    }

    /// Adds `balance` to the sum of one flag.
    pub fn on_new_attestation(&self, flag_index: usize, balance: u64) -> (r: Result<
        FlagBalances,
        BeaconStateError,
    >)
        ensures
            r == self.spec_on_new_attestation(flag_index, balance),
    {
        if flag_index >= NUM_FLAG_INDICES {
            return Err(BeaconStateError::InvalidFlagIndex(flag_index));
        }
        let sum: u64 = if flag_index == 0 {
            self.timely_source
        } else if flag_index == 1 {
            self.timely_target
        } else {
            self.timely_head
        };
        match safe_add(sum, balance) {
            Ok(sum) => {
                if flag_index == 0 {
                    Ok(FlagBalances { timely_source: sum, ..*self })
                } else if flag_index == 1 {
                    Ok(FlagBalances { timely_target: sum, ..*self })
                } else {
                    Ok(FlagBalances { timely_head: sum, ..*self })
                }
            },
            Err(e) => Err(BeaconStateError::ArithError(e)),
        }
    }
}

/// The balances of the validators that attested in time, kept up to date as attestations arrive.
#[derive(Clone, Copy, Debug, PartialEq, Eq, Structural)]
pub struct ProgressiveBalances {
    pub current_epoch: Epoch,
    pub previous_epoch_balances: FlagBalances,
    pub current_epoch_balances: FlagBalances,
}

impl ProgressiveBalances {
    /// The balances after a validator has set a flag for the first time in `epoch`.
    pub open spec fn spec_on_new_attestation(
        self,
        epoch: Epoch,
        flag_index: usize,
        balance: u64,
    ) -> Result<ProgressiveBalances, BeaconStateError> {
        if epoch == self.current_epoch {
            match self.current_epoch_balances.spec_on_new_attestation(flag_index, balance) {
                Ok(sums) => Ok(ProgressiveBalances { current_epoch_balances: sums, ..self }),
                Err(e) => Err(e),
            }
        } else if epoch.0 == u64::MAX {
            Err(BeaconStateError::ArithError(ArithError::Overflow))
        } else if epoch.0 + 1 == self.current_epoch.0 {
            match self.previous_epoch_balances.spec_on_new_attestation(flag_index, balance) {
                Ok(sums) => Ok(ProgressiveBalances { previous_epoch_balances: sums, ..self }),
                Err(e) => Err(e),
            }
        } else {
            Err(BeaconStateError::ProgressiveBalancesCacheInconsistent)
        }
    }

    /// Records that a validator has set a flag for the first time in `epoch`.
    pub fn on_new_attestation(&self, epoch: Epoch, flag_index: usize, balance: u64) -> (r: Result<
        ProgressiveBalances,
        BeaconStateError,
    >)
        ensures
            r == self.spec_on_new_attestation(epoch, flag_index, balance),
    {
        if epoch == self.current_epoch {
            return match self.current_epoch_balances.on_new_attestation(flag_index, balance) {
                Ok(sums) => Ok(ProgressiveBalances { current_epoch_balances: sums, ..*self }),
                Err(e) => Err(e),
            };
        }
        match epoch.safe_add(1) {
            Ok(next_epoch) => {
                if next_epoch == self.current_epoch {
                    match self.previous_epoch_balances.on_new_attestation(flag_index, balance) {
                        Ok(sums) => Ok(
                            ProgressiveBalances { previous_epoch_balances: sums, ..*self },
                        ),
                        Err(e) => Err(e),
                    }
                } else {
                    Err(BeaconStateError::ProgressiveBalancesCacheInconsistent)
                }
            },
            Err(e) => Err(BeaconStateError::ArithError(e)),
        }
    }
}

/// A payment that a builder owes once its payload has been accepted.
#[derive(Clone, Copy, Debug, PartialEq, Eq)]
pub struct BuilderPendingWithdrawal {
    pub fee_recipient: Address,
    pub amount: u64,
    pub builder_index: u64,
    pub withdrawable_epoch: Epoch,
}

/// A builder's payment and the balance that has attested to its slot.
#[derive(Clone, Copy, Debug, PartialEq, Eq)]
pub struct BuilderPendingPayment {
    pub weight: u64,
    pub withdrawal: BuilderPendingWithdrawal,
}

impl BuilderPendingPayment {
    /// Whether this is the payment that stands for none.
    pub open spec fn is_default(self) -> bool {
        &&& self.weight == 0
        &&& self.withdrawal.fee_recipient.is_zero()
        &&& self.withdrawal.amount == 0
        &&& self.withdrawal.builder_index == 0
        &&& self.withdrawal.withdrawable_epoch == Epoch(0)
    }
}

impl Default for BuilderPendingPayment {
    fn default() -> (r: Self)
        ensures
            r.is_default(),
    {
        BuilderPendingPayment {
            weight: 0,
            withdrawal: BuilderPendingWithdrawal {
                fee_recipient: Address::zero(),
                amount: 0,
                builder_index: 0,
                withdrawable_epoch: Epoch(0),
            },
        }
    }
}

/// How much more balance may exit, and from which epoch on.
#[derive(Clone, Copy, Debug, PartialEq, Eq)]
pub struct ExitChurn {
    pub earliest_exit_epoch: Epoch,
    pub exit_balance_to_consume: u64,
}

/// The header of a beacon block.
#[derive(Clone, Copy, Debug, PartialEq, Eq)]
pub struct BeaconBlockHeader {
    pub slot: Slot,
    pub proposer_index: u64,
    pub parent_root: Hash256,
    pub state_root: Hash256,
    pub body_root: Hash256,
}

/// A builder's bid for the payload of a slot.
#[derive(Clone, Copy, Debug, PartialEq, Eq)]
pub struct ExecutionBid {
    pub parent_block_hash: ExecutionBlockHash,
    pub parent_block_root: Hash256,
    pub block_hash: ExecutionBlockHash,
    pub fee_recipient: Address,
    pub gas_limit: u64,
    pub builder_index: u64,
    pub slot: Slot,
    pub value: u64,
    pub blob_kzg_commitments_root: Hash256,
}

impl ExecutionBid {
    /// Whether this is the bid that stands for none.
    pub open spec fn is_default(self) -> bool {
        &&& self.parent_block_hash.is_zero()
        &&& self.parent_block_root.is_zero()
        &&& self.block_hash.is_zero()
        &&& self.fee_recipient.is_zero()
        &&& self.gas_limit == 0
        &&& self.builder_index == 0
        &&& self.slot == Slot(0)
        &&& self.value == 0
        &&& self.blob_kzg_commitments_root.is_zero()
    }
}

impl Default for ExecutionBid {
    fn default() -> (r: Self)
        ensures
            r.is_default(),
    {
        ExecutionBid {
            parent_block_hash: Hash256::zero(),
            parent_block_root: Hash256::zero(),
            block_hash: Hash256::zero(),
            fee_recipient: Address::zero(),
            gas_limit: 0,
            builder_index: 0,
            slot: Slot(0),
            value: 0,
            blob_kzg_commitments_root: Hash256::zero(),
        }
    }
}

/// A bid with its builder's signature.
#[derive(Clone, Copy, Debug, PartialEq, Eq)]
pub struct SignedExecutionBid {
    pub message: ExecutionBid,
    pub signature: Signature,
}

impl SignedExecutionBid {
    /// The bid that stands for none, with an empty signature.
    pub fn empty() -> (r: Self)
        ensures
            r.message.is_default(),
            r.signature.is_zero(),
    {
        SignedExecutionBid { message: ExecutionBid::default(), signature: Signature::zero() }
    }
}

/// The fields that only the states of some forks have.
#[derive(Clone, Debug, PartialEq, Eq)]
pub enum ForkFields {
    /// The first fork.
    Base {
        previous_epoch_attestations: Vec<PendingAttestation>,
        current_epoch_attestations: Vec<PendingAttestation>,
    },
    /// The forks from Altair up to the one before Gloas.
    Altair {
        fork_name: ForkName,
        previous_epoch_participation: Vec<ParticipationFlags>,
        current_epoch_participation: Vec<ParticipationFlags>,
    },
    /// The Gloas fork.
    Gloas {
        previous_epoch_participation: Vec<ParticipationFlags>,
        current_epoch_participation: Vec<ParticipationFlags>,
        builder_pending_payments: Vec<BuilderPendingPayment>,
        builder_pending_withdrawals: Vec<BuilderPendingWithdrawal>,
        latest_block_hash: ExecutionBlockHash,
        latest_execution_bid: ExecutionBid,
        latest_withdrawals_root: Hash256,
    },
}

/// What is computed once and kept beside the state.
#[derive(Clone, Debug, PartialEq, Eq)]
pub struct StateCaches {
    /// The effective balance of each validator.
    pub effective_balances: Vec<u64>,
    /// The base reward of each validator.
    pub base_rewards: Vec<u64>,
    /// The slashed validators.
    pub slashed_validators: Vec<usize>,
    /// The balances of the validators that attested in time.
    pub progressive_balances: Option<ProgressiveBalances>,
}

/// The state of the beacon chain.
#[derive(Clone, Debug, PartialEq, Eq)]
pub struct BeaconState {
    pub slot: Slot,
    pub genesis_time: u64,
    pub latest_block_header: BeaconBlockHeader,
    pub block_roots: Vec<Hash256>,
    pub randao_mixes: Vec<Hash256>,
    pub balances: Vec<u64>,
    /// The total effective balance of the validators that are active in the current epoch.
    pub total_active_balance: Option<u64>,
    pub exit_churn: ExitChurn,
    pub caches: StateCaches,
    pub fork: ForkFields,
}

/// The contents of [`ForkFields`].
#[verifier::ext_equal]
pub enum ForkModel {
    Base {
        previous_epoch_attestations: Seq<PendingAttestationModel>,
        current_epoch_attestations: Seq<PendingAttestationModel>,
    },
    Altair {
        fork_name: ForkName,
        previous_epoch_participation: Seq<ParticipationFlags>,
        current_epoch_participation: Seq<ParticipationFlags>,
    },
    Gloas {
        previous_epoch_participation: Seq<ParticipationFlags>,
        current_epoch_participation: Seq<ParticipationFlags>,
        builder_pending_payments: Seq<BuilderPendingPayment>,
        builder_pending_withdrawals: Seq<BuilderPendingWithdrawal>,
        latest_block_hash: ExecutionBlockHash,
        latest_execution_bid: ExecutionBid,
        latest_withdrawals_root: Hash256,
    },
}

/// The contents of a [`BeaconState`].
#[verifier::ext_equal]
pub struct StateModel {
    pub slot: Slot,
    pub genesis_time: u64,
    pub latest_block_header: BeaconBlockHeader,
    pub block_roots: Seq<Hash256>,
    pub randao_mixes: Seq<Hash256>,
    pub balances: Seq<u64>,
    pub total_active_balance: Option<u64>,
    pub exit_churn: ExitChurn,
    pub caches: CachesModel,
    pub fork: ForkModel,
}

/// The contents of [`StateCaches`].
#[verifier::ext_equal]
pub struct CachesModel {
    pub effective_balances: Seq<u64>,
    pub base_rewards: Seq<u64>,
    pub slashed_validators: Seq<usize>,
    pub progressive_balances: Option<ProgressiveBalances>,
}

impl View for ForkFields {
    type V = ForkModel;

    open spec fn view(&self) -> ForkModel {
        match *self {
            ForkFields::Base { previous_epoch_attestations, current_epoch_attestations } => {
                ForkModel::Base {
                    previous_epoch_attestations: previous_epoch_attestations@.map_values(
                        |a: PendingAttestation| a@,
                    ),
                    current_epoch_attestations: current_epoch_attestations@.map_values(
                        |a: PendingAttestation| a@,
                    ),
                }
            },
            ForkFields::Altair {
                fork_name,
                previous_epoch_participation,
                current_epoch_participation,
            } => ForkModel::Altair {
                fork_name,
                previous_epoch_participation: previous_epoch_participation@,
                current_epoch_participation: current_epoch_participation@,
            },
            ForkFields::Gloas {
                previous_epoch_participation,
                current_epoch_participation,
                builder_pending_payments,
                builder_pending_withdrawals,
                latest_block_hash,
                latest_execution_bid,
                latest_withdrawals_root,
            } => ForkModel::Gloas {
                previous_epoch_participation: previous_epoch_participation@,
                current_epoch_participation: current_epoch_participation@,
                builder_pending_payments: builder_pending_payments@,
                builder_pending_withdrawals: builder_pending_withdrawals@,
                latest_block_hash,
                latest_execution_bid,
                latest_withdrawals_root,
            },
        }
    }
}

impl View for StateCaches {
    type V = CachesModel;

    open spec fn view(&self) -> CachesModel {
        CachesModel {
            effective_balances: self.effective_balances@,
            base_rewards: self.base_rewards@,
            slashed_validators: self.slashed_validators@,
            progressive_balances: self.progressive_balances,
        }
    }
}

impl View for BeaconState {
    type V = StateModel;

    open spec fn view(&self) -> StateModel {
        StateModel {
            slot: self.slot,
            genesis_time: self.genesis_time,
            latest_block_header: self.latest_block_header,
            block_roots: self.block_roots@,
            randao_mixes: self.randao_mixes@,
            balances: self.balances@,
            total_active_balance: self.total_active_balance,
            exit_churn: self.exit_churn,
            caches: self.caches@,
            fork: self.fork@,
        }
    }
}

impl StateModel {
    /// The fork that the state belongs to.
    pub open spec fn fork_name(self) -> ForkName {
        match self.fork {
            ForkModel::Base { .. } => ForkName::Base,
            ForkModel::Altair { fork_name, .. } => fork_name,
            ForkModel::Gloas { .. } => ForkName::Gloas,
        }
    }

    /// The participation flags of `epoch`.
    pub open spec fn participation(
        self,
        epoch: Epoch,
        previous_epoch: Epoch,
        current_epoch: Epoch,
    ) -> Result<Seq<ParticipationFlags>, BeaconStateError> {
        if epoch == current_epoch {
            match self.fork {
                ForkModel::Base { .. } => Err(BeaconStateError::IncorrectStateVariant),
                ForkModel::Altair { current_epoch_participation, .. } => Ok(
                    current_epoch_participation,
                ),
                ForkModel::Gloas { current_epoch_participation, .. } => Ok(
                    current_epoch_participation,
                ),
            }
        } else if epoch == previous_epoch {
            match self.fork {
                ForkModel::Base { .. } => Err(BeaconStateError::IncorrectStateVariant),
                ForkModel::Altair { previous_epoch_participation, .. } => Ok(
                    previous_epoch_participation,
                ),
                ForkModel::Gloas { previous_epoch_participation, .. } => Ok(
                    previous_epoch_participation,
                ),
            }
        } else {
            Err(BeaconStateError::EpochOutOfBounds)
        }
    }

    /// The state with the flags of the current or of the previous epoch replaced.
    pub open spec fn with_participation(
        self,
        current: bool,
        flags: Seq<ParticipationFlags>,
    ) -> StateModel {
        let fork = match self.fork {
            ForkModel::Base { .. } => self.fork,
            ForkModel::Altair {
                fork_name,
                previous_epoch_participation,
                current_epoch_participation,
            } => ForkModel::Altair {
                fork_name,
                previous_epoch_participation: if current {
                    previous_epoch_participation
                } else {
                    flags
                },
                current_epoch_participation: if current {
                    flags
                } else {
                    current_epoch_participation
                },
            },
            ForkModel::Gloas {
                previous_epoch_participation,
                current_epoch_participation,
                builder_pending_payments,
                builder_pending_withdrawals,
                latest_block_hash,
                latest_execution_bid,
                latest_withdrawals_root,
            } => ForkModel::Gloas {
                previous_epoch_participation: if current {
                    previous_epoch_participation
                } else {
                    flags
                },
                current_epoch_participation: if current {
                    flags
                } else {
                    current_epoch_participation
                },
                builder_pending_payments,
                builder_pending_withdrawals,
                latest_block_hash,
                latest_execution_bid,
                latest_withdrawals_root,
            },
        };
        StateModel { fork, ..self }
    }

    /// The builder payments.
    pub open spec fn builder_pending_payments(self) -> Result<
        Seq<BuilderPendingPayment>,
        BeaconStateError,
    > {
        match self.fork {
            ForkModel::Gloas { builder_pending_payments, .. } => Ok(builder_pending_payments),
            _ => Err(BeaconStateError::IncorrectStateVariant),
        }
    }

    /// The state with its builder payments replaced.
    pub open spec fn with_builder_pending_payments(
        self,
        payments: Seq<BuilderPendingPayment>,
    ) -> StateModel {
        match self.fork {
            ForkModel::Gloas {
                previous_epoch_participation,
                current_epoch_participation,
                builder_pending_payments,
                builder_pending_withdrawals,
                latest_block_hash,
                latest_execution_bid,
                latest_withdrawals_root,
            } => StateModel {
                fork: ForkModel::Gloas {
                    previous_epoch_participation,
                    current_epoch_participation,
                    builder_pending_payments: payments,
                    builder_pending_withdrawals,
                    latest_block_hash,
                    latest_execution_bid,
                    latest_withdrawals_root,
                },
                ..self
            },
            _ => self,
        }
    }

    /// The builder withdrawals.
    pub open spec fn builder_pending_withdrawals(self) -> Result<
        Seq<BuilderPendingWithdrawal>,
        BeaconStateError,
    > {
        match self.fork {
            ForkModel::Gloas { builder_pending_withdrawals, .. } => Ok(builder_pending_withdrawals),
            _ => Err(BeaconStateError::IncorrectStateVariant),
        }
    }

    /// The state with its builder withdrawals replaced.
    pub open spec fn with_builder_pending_withdrawals(
        self,
        withdrawals: Seq<BuilderPendingWithdrawal>,
    ) -> StateModel {
        match self.fork {
            ForkModel::Gloas {
                previous_epoch_participation,
                current_epoch_participation,
                builder_pending_payments,
                builder_pending_withdrawals,
                latest_block_hash,
                latest_execution_bid,
                latest_withdrawals_root,
            } => StateModel {
                fork: ForkModel::Gloas {
                    previous_epoch_participation,
                    current_epoch_participation,
                    builder_pending_payments,
                    builder_pending_withdrawals: withdrawals,
                    latest_block_hash,
                    latest_execution_bid,
                    latest_withdrawals_root,
                },
                ..self
            },
            _ => self,
        }
    }

    /// The position of `slot` among the block roots.
    pub open spec fn block_root_index(self, slot: Slot) -> Result<int, BeaconStateError> {
        if slot.0 >= self.slot.0 {
            Err(BeaconStateError::SlotOutOfBounds)
        } else if slot.0 + self.block_roots.len() > u64::MAX {
            Err(BeaconStateError::ArithError(ArithError::Overflow))
        } else if self.slot.0 > slot.0 + self.block_roots.len() {
            Err(BeaconStateError::SlotOutOfBounds)
        } else {
            Ok((slot.0 as usize) as int % self.block_roots.len() as int)
        }
    }

    /// The root of the block at `slot` or, if there was none, of the last one before it.
    pub open spec fn block_root(self, slot: Slot) -> Result<Hash256, BeaconStateError> {
        match self.block_root_index(slot) {
            Ok(i) => Ok(self.block_roots[i]),
            Err(e) => Err(e),
        }
    }

    /// The RANDAO mix of `epoch`.
    pub open spec fn randao_mix(self, epoch: Epoch, slots_per_epoch: u64) -> Result<
        Hash256,
        BeaconStateError,
    > {
        let current_epoch = self.slot.spec_epoch(slots_per_epoch);
        if epoch.0 <= current_epoch.0 < epoch.spec_plus(self.randao_mixes.len() as u64).0 {
            Ok(self.randao_mixes[(epoch.0 as usize) as int % self.randao_mixes.len() as int])
        } else {
            Err(BeaconStateError::EpochOutOfBounds)
        }
    }

    /// The first epoch whose RANDAO mix the state still has.
    pub open spec fn min_randao_epoch(
        self,
        slots_per_epoch: u64,
        epochs_per_historical_vector: u64,
    ) -> Epoch {
        self.slot.spec_epoch(slots_per_epoch).spec_plus(1).spec_minus(epochs_per_historical_vector)
    }

    /// The total effective balance of the validators that are active in the current epoch.
    pub open spec fn get_total_active_balance(self) -> Result<u64, BeaconStateError> {
        match self.total_active_balance {
            Some(balance) => Ok(balance),
            None => Err(BeaconStateError::TotalActiveBalanceCacheUninitialized),
        }
    }

    /// The hash of the latest execution block.
    pub open spec fn latest_block_hash(self) -> Result<ExecutionBlockHash, BeaconStateError> {
        match self.fork {
            ForkModel::Gloas { latest_block_hash, .. } => Ok(latest_block_hash),
            _ => Err(BeaconStateError::IncorrectStateVariant),
        }
    }

    /// The state with the hash of the latest execution block replaced.
    pub open spec fn with_latest_block_hash(self, hash: ExecutionBlockHash) -> StateModel {
        match self.fork {
            ForkModel::Gloas {
                previous_epoch_participation,
                current_epoch_participation,
                builder_pending_payments,
                builder_pending_withdrawals,
                latest_block_hash,
                latest_execution_bid,
                latest_withdrawals_root,
            } => StateModel {
                fork: ForkModel::Gloas {
                    previous_epoch_participation,
                    current_epoch_participation,
                    builder_pending_payments,
                    builder_pending_withdrawals,
                    latest_block_hash: hash,
                    latest_execution_bid,
                    latest_withdrawals_root,
                },
                ..self
            },
            _ => self,
        }
    }

    /// The bid that the latest block committed to.
    pub open spec fn latest_execution_bid(self) -> Result<ExecutionBid, BeaconStateError> {
        match self.fork {
            ForkModel::Gloas { latest_execution_bid, .. } => Ok(latest_execution_bid),
            _ => Err(BeaconStateError::IncorrectStateVariant),
        }
    }

    /// The root of the latest withdrawals.
    pub open spec fn latest_withdrawals_root(self) -> Result<Hash256, BeaconStateError> {
        match self.fork {
            ForkModel::Gloas { latest_withdrawals_root, .. } => Ok(latest_withdrawals_root),
            _ => Err(BeaconStateError::IncorrectStateVariant),
        }
    }

    /// The effective balance of a validator.
    pub open spec fn effective_balance(self, index: usize) -> Result<u64, EpochCacheError> {
        if index < self.caches.effective_balances.len() {
            Ok(self.caches.effective_balances[index as int])
        } else {
            Err(EpochCacheError::ValidatorIndexOutOfBounds { validator_index: index })
        }
    }

    /// The base reward of a validator.
    pub open spec fn base_reward(self, index: usize) -> Result<u64, EpochCacheError> {
        if index < self.caches.base_rewards.len() {
            Ok(self.caches.base_rewards[index as int])
        } else {
            Err(EpochCacheError::ValidatorIndexOutOfBounds { validator_index: index })
        }
    }

    /// Whether a validator has been slashed.
    pub open spec fn is_slashed(self, index: usize) -> bool {
        self.caches.slashed_validators.contains(index)
    }

    /// The state after a validator has set a flag for the first time in `epoch`.
    ///
    /// The first fork keeps no progressive balances, and a slashed validator does not count.
    pub open spec fn on_new_attestation(
        self,
        epoch: Epoch,
        flag_index: usize,
        balance: u64,
        slashed: bool,
    ) -> Result<StateModel, BeaconStateError> {
        if self.fork is Base || slashed {
            Ok(self)
        } else {
            match self.caches.progressive_balances {
                None => Err(BeaconStateError::ProgressiveBalancesCacheNotInitialized),
                Some(balances) => match balances.spec_on_new_attestation(
                    epoch,
                    flag_index,
                    balance,
                ) {
                    Ok(balances) => Ok(
                        StateModel {
                            caches: CachesModel {
                                progressive_balances: Some(balances),
                                ..self.caches
                            },
                            ..self
                        },
                    ),
                    Err(e) => Err(e),
                },
            }
        }
    }

    /// The state after the balance of a validator has grown by `delta`.
    pub open spec fn increase_balance(self, index: usize, delta: u64) -> Result<
        StateModel,
        BeaconStateError,
    > {
        if index >= self.balances.len() {
            Err(BeaconStateError::BalancesOutOfBounds(index))
        } else {
            match fits_u64(self.balances[index as int] + delta) {
                Ok(balance) => Ok(
                    StateModel { balances: self.balances.update(index as int, balance), ..self },
                ),
                Err(e) => Err(BeaconStateError::ArithError(e)),
            }
        }
    }
}

impl BeaconState {
    /// The fork that the state belongs to.
    pub fn fork_name_unchecked(&self) -> (r: ForkName)
        ensures
            r == self@.fork_name(),
    {
        match &self.fork {
            ForkFields::Base { .. } => ForkName::Base,
            ForkFields::Altair { fork_name, .. } => *fork_name,
            ForkFields::Gloas { .. } => ForkName::Gloas,
        }
    }

    /// The epoch of the state's slot.
    pub fn current_epoch(&self, slots_per_epoch: u64) -> (r: Epoch)
        requires
            slots_per_epoch > 0,
        ensures
            r == self@.slot.spec_epoch(slots_per_epoch),
    {
        self.slot.epoch(slots_per_epoch)
    }

    /// The participation flags of `epoch`, for update.
    pub fn get_epoch_participation_mut(
        &mut self,
        epoch: Epoch,
        previous_epoch: Epoch,
        current_epoch: Epoch,
    ) -> (r: Result<&mut Vec<ParticipationFlags>, BeaconStateError>)
        ensures
            match r {
                Ok(flags) => {
                    &&& old(self)@.participation(epoch, previous_epoch, current_epoch) == Ok::<
                        Seq<ParticipationFlags>,
                        BeaconStateError,
                    >(flags@)
                    &&& final(self)@ == old(self)@.with_participation(
                        epoch == current_epoch,
                        final(flags)@,
                    )
                },
                Err(e) => {
                    &&& old(self)@.participation(epoch, previous_epoch, current_epoch) == Err::<
                        Seq<ParticipationFlags>,
                        BeaconStateError,
                    >(e)
                    &&& *final(self) == *old(self)
                },
            },
    {
        if epoch == current_epoch {
            match &mut self.fork {
                ForkFields::Base { .. } => Err(BeaconStateError::IncorrectStateVariant),
                ForkFields::Altair { current_epoch_participation, .. } => Ok(
                    current_epoch_participation,
                ),
                ForkFields::Gloas { current_epoch_participation, .. } => Ok(
                    current_epoch_participation,
                ),
            }
        } else if epoch == previous_epoch {
            match &mut self.fork {
                ForkFields::Base { .. } => Err(BeaconStateError::IncorrectStateVariant),
                ForkFields::Altair { previous_epoch_participation, .. } => Ok(
                    previous_epoch_participation,
                ),
                ForkFields::Gloas { previous_epoch_participation, .. } => Ok(
                    previous_epoch_participation,
                ),
            }
        } else {
            Err(BeaconStateError::EpochOutOfBounds)
        }
    }

    /// The root of the block at `slot` or, if there was none, of the last one before it.
    pub fn get_block_root(&self, slot: Slot) -> (r: Result<Hash256, BeaconStateError>)
        ensures
            r == self@.block_root(slot),
    {
        let len: usize = self.block_roots.len();
        if slot.0 >= self.slot.0 {
            return Err(BeaconStateError::SlotOutOfBounds);
        }
        match safe_add(slot.0, len as u64) {
            Ok(end) => {
                if self.slot.0 > end {
                    return Err(BeaconStateError::SlotOutOfBounds);
                }
            },
            Err(e) => {
                return Err(BeaconStateError::ArithError(e));
            },
        }
        match safe_rem_usize(slot.0 as usize, len) {
            Ok(i) => {
                if i < len {
                    Ok(self.block_roots[i])
                } else {
                    Err(BeaconStateError::BlockRootsOutOfBounds(i))
                }
            },
            Err(e) => Err(BeaconStateError::ArithError(e)),
        }
    }

    /// The RANDAO mix of `epoch`.
    pub fn get_randao_mix(&self, epoch: Epoch, slots_per_epoch: u64) -> (r: Result<
        Hash256,
        BeaconStateError,
    >)
        requires
            slots_per_epoch > 0,
        ensures
            r == self@.randao_mix(epoch, slots_per_epoch),
    {
        let current_epoch = self.current_epoch(slots_per_epoch);
        let len: usize = self.randao_mixes.len();
        if current_epoch.0 >= epoch.plus(len as u64).0 || epoch.0 > current_epoch.0 {
            return Err(BeaconStateError::EpochOutOfBounds);
        }
        match safe_rem_usize(epoch.0 as usize, len) {
            Ok(i) => {
                if i < len {
                    Ok(self.randao_mixes[i])
                } else {
                    Err(BeaconStateError::RandaoMixesOutOfBounds(i))
                }
            },
            Err(e) => Err(BeaconStateError::ArithError(e)),
        }
    }

    /// The first epoch whose RANDAO mix the state still has.
    pub fn min_randao_epoch(
        &self,
        slots_per_epoch: u64,
        epochs_per_historical_vector: u64,
    ) -> (r: Epoch)
        requires
            slots_per_epoch > 0,
        ensures
            r == self@.min_randao_epoch(slots_per_epoch, epochs_per_historical_vector),
    {
        self.current_epoch(slots_per_epoch).plus(1).minus(epochs_per_historical_vector)
    }

    /// The total effective balance of the validators that are active in the current epoch.
    pub fn get_total_active_balance(&self) -> (r: Result<u64, BeaconStateError>)
        ensures
            r == self@.get_total_active_balance(),
    {
        match self.total_active_balance {
            Some(balance) => Ok(balance),
            None => Err(BeaconStateError::TotalActiveBalanceCacheUninitialized),
        }
    }

    /// The effective balance of a validator.
    pub fn get_effective_balance(&self, index: usize) -> (r: Result<u64, EpochCacheError>)
        ensures
            r == self@.effective_balance(index),
    {
        if index < self.caches.effective_balances.len() {
            Ok(self.caches.effective_balances[index])
        } else {
            Err(EpochCacheError::ValidatorIndexOutOfBounds { validator_index: index })
        }
    }

    /// The base reward of a validator.
    pub fn get_base_reward(&self, index: usize) -> (r: Result<u64, EpochCacheError>)
        ensures
            r == self@.base_reward(index),
    {
        if index < self.caches.base_rewards.len() {
            Ok(self.caches.base_rewards[index])
        } else {
            Err(EpochCacheError::ValidatorIndexOutOfBounds { validator_index: index })
        }
    }

    /// Whether a validator has been slashed.
    pub fn is_slashed(&self, index: usize) -> (r: bool)
        ensures
            r == self@.is_slashed(index),
    {
        contains_index(&self.caches.slashed_validators, index)
    }

    /// Records that a validator has set a flag for the first time in `epoch`.
    pub fn update_progressive_balances_on_attestation(
        &mut self,
        epoch: Epoch,
        flag_index: usize,
        balance: u64,
        slashed: bool,
    ) -> (r: Result<(), BeaconStateError>)
        ensures
            match old(self)@.on_new_attestation(epoch, flag_index, balance, slashed) {
                Ok(state) => r == Ok::<(), BeaconStateError>(()) && final(self)@ == state,
                Err(e) => r == Err::<(), BeaconStateError>(e) && final(self)@ == old(self)@,
            },
    {
        if let ForkFields::Base { .. } = self.fork {
            return Ok(());
        }
        if slashed {
            return Ok(());
        }
        match self.caches.progressive_balances {
            None => Err(BeaconStateError::ProgressiveBalancesCacheNotInitialized),
            Some(balances) => match balances.on_new_attestation(epoch, flag_index, balance) {
                Ok(balances) => {
                    self.caches.progressive_balances = Some(balances);
                    Ok(())
                },
                Err(e) => Err(e),
            },
        }
    }

    /// Adds `delta` to the balance of a validator.
    pub fn increase_balance(&mut self, index: usize, delta: u64) -> (r: Result<
        (),
        BeaconStateError,
    >)
        ensures
            match old(self)@.increase_balance(index, delta) {
                Ok(state) => r == Ok::<(), BeaconStateError>(()) && final(self)@ == state,
                Err(e) => r == Err::<(), BeaconStateError>(e) && final(self)@ == old(self)@,
            },
    {
        if index >= self.balances.len() {
            return Err(BeaconStateError::BalancesOutOfBounds(index));
        }
        match safe_add(self.balances[index], delta) {
            Ok(balance) => {
                self.balances[index] = balance;
                Ok(())
            },
            Err(e) => Err(BeaconStateError::ArithError(e)),
        }
    }

    /// The builder payments.
    pub fn builder_pending_payments(&self) -> (r: Result<
        &Vec<BuilderPendingPayment>,
        BeaconStateError,
    >)
        ensures
            match r {
                Ok(payments) => self@.builder_pending_payments() == Ok::<
                    Seq<BuilderPendingPayment>,
                    BeaconStateError,
                >(payments@),
                Err(e) => self@.builder_pending_payments() == Err::<
                    Seq<BuilderPendingPayment>,
                    BeaconStateError,
                >(e),
            },
    {
        match &self.fork {
            ForkFields::Gloas { builder_pending_payments, .. } => Ok(builder_pending_payments),
            _ => Err(BeaconStateError::IncorrectStateVariant),
        }
    }

    /// The builder payments, for update.
    pub fn builder_pending_payments_mut(&mut self) -> (r: Result<
        &mut Vec<BuilderPendingPayment>,
        BeaconStateError,
    >)
        ensures
            match r {
                Ok(payments) => {
                    &&& old(self)@.builder_pending_payments() == Ok::<
                        Seq<BuilderPendingPayment>,
                        BeaconStateError,
                    >(payments@)
                    &&& final(self)@ == old(self)@.with_builder_pending_payments(final(payments)@)
                },
                Err(e) => {
                    &&& old(self)@.builder_pending_payments() == Err::<
                        Seq<BuilderPendingPayment>,
                        BeaconStateError,
                    >(e)
                    &&& *final(self) == *old(self)
                },
            },
    {
        match &mut self.fork {
            ForkFields::Gloas { builder_pending_payments, .. } => Ok(builder_pending_payments),
            _ => Err(BeaconStateError::IncorrectStateVariant),
        }
    }

    /// The builder withdrawals, for update.
    pub fn builder_pending_withdrawals_mut(&mut self) -> (r: Result<
        &mut Vec<BuilderPendingWithdrawal>,
        BeaconStateError,
    >)
        ensures
            match r {
                Ok(withdrawals) => {
                    &&& old(self)@.builder_pending_withdrawals() == Ok::<
                        Seq<BuilderPendingWithdrawal>,
                        BeaconStateError,
                    >(withdrawals@)
                    &&& final(self)@ == old(self)@.with_builder_pending_withdrawals(
                        final(withdrawals)@,
                    )
                },
                Err(e) => {
                    &&& old(self)@.builder_pending_withdrawals() == Err::<
                        Seq<BuilderPendingWithdrawal>,
                        BeaconStateError,
                    >(e)
                    &&& *final(self) == *old(self)
                },
            },
    {
        match &mut self.fork {
            ForkFields::Gloas { builder_pending_withdrawals, .. } => {
                Ok(builder_pending_withdrawals)
            },
            _ => Err(BeaconStateError::IncorrectStateVariant),
        }
    }

    /// The hash of the latest execution block.
    pub fn latest_block_hash(&self) -> (r: Result<ExecutionBlockHash, BeaconStateError>)
        ensures
            r == self@.latest_block_hash(),
    {
        match &self.fork {
            ForkFields::Gloas { latest_block_hash, .. } => Ok(*latest_block_hash),
            _ => Err(BeaconStateError::IncorrectStateVariant),
        }
    }

    /// Replaces the hash of the latest execution block.
    pub fn set_latest_block_hash(&mut self, hash: ExecutionBlockHash) -> (r: Result<
        (),
        BeaconStateError,
    >)
        ensures
            match old(self)@.latest_block_hash() {
                Ok(_) => {
                    &&& r == Ok::<(), BeaconStateError>(())
                    &&& final(self)@ == old(self)@.with_latest_block_hash(hash)
                },
                Err(e) => r == Err::<(), BeaconStateError>(e) && *final(self) == *old(self),
            },
    {
        match &mut self.fork {
            ForkFields::Gloas { latest_block_hash, .. } => {
                *latest_block_hash = hash;
                Ok(())
            },
            _ => Err(BeaconStateError::IncorrectStateVariant),
        }
    }

    /// The bid that the latest block committed to.
    pub fn latest_execution_bid(&self) -> (r: Result<ExecutionBid, BeaconStateError>)
        ensures
            r == self@.latest_execution_bid(),
    {
        match &self.fork {
            ForkFields::Gloas { latest_execution_bid, .. } => Ok(*latest_execution_bid),
            _ => Err(BeaconStateError::IncorrectStateVariant),
        }
    }

    /// The root of the latest withdrawals.
    pub fn latest_withdrawals_root(&self) -> (r: Result<Hash256, BeaconStateError>)
        ensures
            r == self@.latest_withdrawals_root(),
    {
        match &self.fork {
            ForkFields::Gloas { latest_withdrawals_root, .. } => Ok(*latest_withdrawals_root),
            _ => Err(BeaconStateError::IncorrectStateVariant),
        }
    }
}

/// Whether `index` occurs in `list`.
pub fn contains_index(list: &Vec<usize>, index: usize) -> (r: bool)
    ensures
        r == list@.contains(index),
{
    let mut i: usize = 0;
    while i < list.len()
        invariant
            i <= list.len(),
            forall|j: int| 0 <= j < i ==> list@[j] != index,
        decreases list.len() - i,
    {
        if list[i] == index {
            assert(list@[i as int] == index);
            return true;
        }
        i = i + 1;
    }
    false
}

} // verus!
