//! The sizes that are fixed when a network is compiled in, and the settings that are chosen at
//! run time.

use crate::primitives::Epoch;
use vstd::prelude::*;

verus! {

/// No list of a payload holds more items than this.
pub const MAX_LIST_LIMIT: usize = 0x1000_0000;

/// No list of bytes in a payload holds more bytes than this.
pub const MAX_BYTE_LIST_LIMIT: usize = 0x4000_0000;

/// The sizes of a network.
pub trait EthSpec {
    /// The number of slots in an epoch.
    spec fn spec_slots_per_epoch() -> u64;

    /// The number of epochs of RANDAO mixes that a state keeps.
    spec fn spec_epochs_per_historical_vector() -> u64;

    /// The number of seats in the payload timeliness committee of a slot.
    spec fn spec_ptc_size() -> usize;

    /// The largest number of blob commitments in a block.
    spec fn spec_max_blob_commitments_per_block() -> usize;

    /// The largest number of deposit requests in a payload.
    spec fn spec_max_deposit_requests_per_payload() -> usize;

    /// The largest number of withdrawal requests in a payload.
    spec fn spec_max_withdrawal_requests_per_payload() -> usize;

    /// The largest number of consolidation requests in a payload.
    spec fn spec_max_consolidation_requests_per_payload() -> usize;

    /// The largest number of withdrawals in a payload.
    spec fn spec_max_withdrawals_per_payload() -> usize;

    /// The largest number of transactions in a payload.
    spec fn spec_max_transactions_per_payload() -> usize;

    /// The largest number of bytes in a transaction.
    spec fn spec_max_bytes_per_transaction() -> usize;

    /// The largest number of extra bytes in a payload.
    spec fn spec_max_extra_data_bytes() -> usize;

    /// The largest number of attestations that may wait for the end of an epoch.
    spec fn spec_max_pending_attestations() -> usize;

    /// The number of builder payments that a state keeps.
    spec fn spec_builder_pending_payments_limit() -> usize;

    /// The largest number of builder withdrawals that may wait in a state.
    spec fn spec_builder_pending_withdrawals_limit() -> usize;

    /// The lists of a payload and of its envelope are short enough to be hashed.
    proof fn lemma_list_limits()
        ensures
            Self::spec_max_blob_commitments_per_block() <= MAX_LIST_LIMIT,
            Self::spec_max_deposit_requests_per_payload() <= MAX_LIST_LIMIT,
            Self::spec_max_withdrawal_requests_per_payload() <= MAX_LIST_LIMIT,
            Self::spec_max_consolidation_requests_per_payload() <= MAX_LIST_LIMIT,
            Self::spec_max_withdrawals_per_payload() <= MAX_LIST_LIMIT,
            Self::spec_max_transactions_per_payload() <= MAX_LIST_LIMIT,
            Self::spec_max_bytes_per_transaction() <= MAX_BYTE_LIST_LIMIT,
            Self::spec_max_extra_data_bytes() <= MAX_BYTE_LIST_LIMIT,
    ;

    fn slots_per_epoch() -> (r: u64)
        ensures
            r == Self::spec_slots_per_epoch(),
    ;

    fn epochs_per_historical_vector() -> (r: u64)
        ensures
            r == Self::spec_epochs_per_historical_vector(),
    ;

    fn ptc_size() -> (r: usize)
        ensures
            r == Self::spec_ptc_size(),
    ;

    fn max_blob_commitments_per_block() -> (r: usize)
        ensures
            r == Self::spec_max_blob_commitments_per_block(),
    ;

    fn max_deposit_requests_per_payload() -> (r: usize)
        ensures
            r == Self::spec_max_deposit_requests_per_payload(),
    ;

    fn max_withdrawal_requests_per_payload() -> (r: usize)
        ensures
            r == Self::spec_max_withdrawal_requests_per_payload(),
    ;

    fn max_consolidation_requests_per_payload() -> (r: usize)
        ensures
            r == Self::spec_max_consolidation_requests_per_payload(),
    ;

    fn max_withdrawals_per_payload() -> (r: usize)
        ensures
            r == Self::spec_max_withdrawals_per_payload(),
    ;

    fn max_transactions_per_payload() -> (r: usize)
        ensures
            r == Self::spec_max_transactions_per_payload(),
    ;

    fn max_extra_data_bytes() -> (r: usize)
        ensures
            r == Self::spec_max_extra_data_bytes(),
    ;

    fn max_bytes_per_transaction() -> (r: usize)
        ensures
            r == Self::spec_max_bytes_per_transaction(),
    ;

    fn max_pending_attestations() -> (r: usize)
        ensures
            r == Self::spec_max_pending_attestations(),
    ;

    fn builder_pending_payments_limit() -> (r: usize)
        ensures
            r == Self::spec_builder_pending_payments_limit(),
    ;

    fn builder_pending_withdrawals_limit() -> (r: usize)
        ensures
            r == Self::spec_builder_pending_withdrawals_limit(),
    ;
}

/// The sizes of the main network.
#[derive(Clone, Copy, Debug, PartialEq, Eq)]
pub struct MainnetEthSpec;

impl EthSpec for MainnetEthSpec {
    open spec fn spec_slots_per_epoch() -> u64 {
        32
    }

    open spec fn spec_epochs_per_historical_vector() -> u64 {
        65536
    }

    open spec fn spec_ptc_size() -> usize {
        512
    }

    open spec fn spec_max_blob_commitments_per_block() -> usize {
        4096
    }

    open spec fn spec_max_deposit_requests_per_payload() -> usize {
        8192
    }

    open spec fn spec_max_withdrawal_requests_per_payload() -> usize {
        16
    }

    open spec fn spec_max_consolidation_requests_per_payload() -> usize {
        2
    }

    open spec fn spec_max_withdrawals_per_payload() -> usize {
        16
    }

    open spec fn spec_max_transactions_per_payload() -> usize {
        1048576
    }

    open spec fn spec_max_bytes_per_transaction() -> usize {
        1073741824
    }

    open spec fn spec_max_extra_data_bytes() -> usize {
        32
    }

    open spec fn spec_max_pending_attestations() -> usize {
        4096
    }

    open spec fn spec_builder_pending_payments_limit() -> usize {
        64
    }

    open spec fn spec_builder_pending_withdrawals_limit() -> usize {
        1048576
    }

    proof fn lemma_list_limits() {
    }

    fn slots_per_epoch() -> u64 {
        32
    }

    fn epochs_per_historical_vector() -> u64 {
        65536
    }

    fn ptc_size() -> usize {
        512
    }

    fn max_blob_commitments_per_block() -> usize {
        4096
    }

    fn max_deposit_requests_per_payload() -> usize {
        8192
    }

    fn max_withdrawal_requests_per_payload() -> usize {
        16
    }

    fn max_consolidation_requests_per_payload() -> usize {
        2
    }

    fn max_withdrawals_per_payload() -> usize {
        16
    }

    fn max_transactions_per_payload() -> usize {
        1048576
    }

    fn max_bytes_per_transaction() -> usize {
        1073741824
    }

    fn max_extra_data_bytes() -> usize {
        32
    }

    fn max_pending_attestations() -> usize {
        4096
    }

    fn builder_pending_payments_limit() -> usize {
        64
    }

    fn builder_pending_withdrawals_limit() -> usize {
        1048576
    }
}

/// The run-time settings that the rules of this library read.
#[derive(Clone, Copy, Debug, PartialEq, Eq)]
pub struct ChainSpec {
    /// The first epoch of the Altair fork, if it is planned.
    pub altair_fork_epoch: Option<Epoch>,
    /// The first epoch of the Gloas fork, if it is planned.
    pub gloas_fork_epoch: Option<Epoch>,
    /// The slot of the genesis block.
    pub genesis_slot: u64,
    /// The length of a slot.
    pub seconds_per_slot: u64,
    /// How many epochs ahead a shuffling seed is fixed.
    pub min_seed_lookahead: u64,
    /// How many epochs an exit waits before it can be withdrawn.
    pub min_validator_withdrawability_delay: u64,
    /// The share of a slot's balance that a builder payment has to exceed, above the line.
    pub builder_payment_threshold_numerator: u64,
    /// The share of a slot's balance that a builder payment has to exceed, below the line.
    pub builder_payment_threshold_denominator: u64,
    /// The number of epochs in a sync committee period.
    pub epochs_per_sync_committee_period: u64,
}

} // verus!
