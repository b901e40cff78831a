//! What a state is asked for, and how slots and epochs are counted.

use super::attestations::votes_for_own_slot;
use crate::arith::ArithError;
use crate::beacon_state::{
    AttestationData, BeaconState, BuilderPendingPayment, ExecutionBid, ForkFields, ForkModel,
    ParticipationFlags, StateModel,
};
use crate::errors::BeaconStateError;
use crate::eth_spec::{EthSpec, MainnetEthSpec};
use crate::primitives::{Epoch, FixedBytes, ForkName, Hash256, RelativeEpoch, Slot};
use crate::process_attestations::attestation_same_slot;
use vstd::prelude::*;

verus! {

proof fn lemma_quotient_bounds(a: int, b: int)
    requires
        0 <= a,
        0 < b,
    ensures
        0 <= a / b <= a,
        (a / b) * b <= a < (a / b) * b + b,
        (a / b) * b == b * (a / b),
{
    vstd::arithmetic::div_mod::lemma_fundamental_div_mod(a, b);
    vstd::arithmetic::div_mod::lemma_mod_bound(a, b);
    assert(0 <= a / b <= a) by (nonlinear_arith)
        requires
            0 <= a,
            0 < b,
    ;
    assert((a / b) * b == b * (a / b)) by (nonlinear_arith);
}

/// A slot belongs to exactly one epoch, the one between whose first slot and that of the next it
/// lies.
pub proof fn lemma_slot_lies_in_its_epoch(slot: Slot, slots_per_epoch: u64, epoch: Epoch)
    requires
        slots_per_epoch > 0,
    ensures
        slot.spec_epoch(slots_per_epoch) == epoch <==> epoch.0 * slots_per_epoch <= slot.0 < (
        epoch.0 + 1) * slots_per_epoch,
{
    let s = slots_per_epoch as int;
    let own = slot.0 as int / s;
    lemma_quotient_bounds(slot.0 as int, s);
    assert((own + 1) * s == own * s + s) by (nonlinear_arith);
    if epoch.0 * slots_per_epoch <= slot.0 < (epoch.0 + 1) * slots_per_epoch {
        let a = epoch.0 as int;
        let t = slot.0 as int;
        assert(a == own) by (nonlinear_arith)
            requires
                a * s <= t < (a + 1) * s,
                own * s <= t < (own + 1) * s,
                s > 0,
                a >= 0,
                own >= 0,
        ;
    }
}

/// The slots of an epoch are numbered from its first slot on: a slot has a position exactly if it
/// lies in the epoch, and the position is how many slots of the epoch come before it.
pub proof fn lemma_position_counts_from_the_first_slot(
    epoch: Epoch,
    slot: Slot,
    slots_per_epoch: u64,
)
    requires
        slots_per_epoch > 0,
        epoch.0 * slots_per_epoch <= u64::MAX,
    ensures
        ({
            let start = epoch.0 * slots_per_epoch;
            &&& epoch.spec_start_slot(slots_per_epoch).0 == start
            &&& start + slots_per_epoch - 1 <= u64::MAX ==> epoch.spec_end_slot(slots_per_epoch).0
                == start + slots_per_epoch - 1
            &&& match epoch.spec_position(slot, slots_per_epoch) {
                Some(position) => start <= slot.0 < start + slots_per_epoch && slot.0 == start
                    + position,
                None => slot.0 < start || slot.0 >= start + slots_per_epoch,
            }
        }),
{
    assert(epoch.0 * slots_per_epoch >= 0) by (nonlinear_arith);
}

/// Slots and epochs are counted on without wrapping: past the last number the last number stands,
/// and before the first the first.
pub proof fn lemma_counting_does_not_wrap(slot: Slot, epoch: Epoch, n: u64)
    ensures
        slot.0 + n <= u64::MAX ==> slot.spec_plus(n).0 == slot.0 + n,
        slot.0 + n > u64::MAX ==> slot.spec_plus(n).0 == u64::MAX,
        epoch.0 + n <= u64::MAX ==> epoch.spec_plus(n).0 == epoch.0 + n,
        epoch.0 + n > u64::MAX ==> epoch.spec_plus(n).0 == u64::MAX,
        epoch.0 >= n ==> epoch.spec_minus(n).0 == epoch.0 - n,
        epoch.0 < n ==> epoch.spec_minus(n).0 == 0,
        epoch.0 * n > u64::MAX ==> epoch.spec_start_slot(n).0 == u64::MAX,
{
}

/// How far one slot lies before another, how far on an epoch lies, and in which sync committee
/// period: exact, or an error.
pub proof fn lemma_exact_counting(
    slot: Slot,
    other: Slot,
    epoch: Epoch,
    n: u64,
    distance: Result<u64, ArithError>,
    later: Result<Epoch, ArithError>,
    period: Result<u64, ArithError>,
)
    requires
        call_ensures(Slot::safe_sub, (slot, other), distance),
        call_ensures(Epoch::safe_add, (epoch, n), later),
        call_ensures(Epoch::sync_committee_period, (epoch, n), period),
    ensures
        match distance {
            Ok(d) => other.0 + d == slot.0,
            Err(e) => other.0 > slot.0 && e == ArithError::Overflow,
        },
        match later {
            Ok(l) => l.0 == epoch.0 + n,
            Err(e) => epoch.0 + n > u64::MAX && e == ArithError::Overflow,
        },
        match period {
            Ok(p) => n > 0 && p * n <= epoch.0 < (p + 1) * n,
            Err(e) => n == 0 && e == ArithError::DivisionByZero,
        },
{
    if n > 0 {
        lemma_quotient_bounds(epoch.0 as int, n as int);
        let p = period->Ok_0;
        assert((p + 1) * n == p * n + n) by (nonlinear_arith);
    }
}

/// An epoch is the previous one, the current one or the next one by one step, and no other epoch
/// has a place relative to the current one.
pub proof fn lemma_relative_epochs_are_one_step_away(base: Epoch, other: Epoch)
    requires
        other.0 < u64::MAX,
        base.0 < u64::MAX,
    ensures
        match RelativeEpoch::spec_from_epoch(base, other) {
            Ok(RelativeEpoch::Current) => other.0 == base.0,
            Ok(RelativeEpoch::Previous) => other.0 == base.0 - 1,
            Ok(RelativeEpoch::Next) => other.0 == base.0 + 1,
            Err(_) => other.0 < base.0 - 1 || other.0 > base.0 + 1,
        },
{
}

/// The root of the block at a slot is the entry of the list of roots for that slot, and can be had
/// for as many slots before the state's own as the list is long.
pub proof fn lemma_block_root_is_the_entry_of_its_slot(state: StateModel, slot: Slot)
    requires
        slot.0 <= usize::MAX,
        slot.0 + state.block_roots.len() <= u64::MAX,
    ensures
        state.block_root(slot) == (if slot.0 < state.slot.0 <= slot.0 + state.block_roots.len() {
            Ok::<Hash256, BeaconStateError>(
                state.block_roots[slot.0 as int % state.block_roots.len() as int],
            )
        } else {
            Err(BeaconStateError::SlotOutOfBounds)
        }),
{
}

/// The RANDAO mix of an epoch is the entry of the list of mixes for that epoch, and can be had for
/// the current epoch and those before it, as many as the list is long.
pub proof fn lemma_randao_mix_is_the_entry_of_its_epoch(
    state: StateModel,
    epoch: Epoch,
    slots_per_epoch: u64,
)
    requires
        slots_per_epoch > 0,
        epoch.0 <= usize::MAX,
        epoch.0 + state.randao_mixes.len() <= u64::MAX,
    ensures
        state.randao_mix(epoch, slots_per_epoch) == (if epoch.0 <= state.slot.0 / slots_per_epoch
            < epoch.0 + state.randao_mixes.len() {
            Ok::<Hash256, BeaconStateError>(
                state.randao_mixes[epoch.0 as int % state.randao_mixes.len() as int],
            )
        } else {
            Err(BeaconStateError::EpochOutOfBounds)
        }),
{
    lemma_quotient_bounds(state.slot.0 as int, slots_per_epoch as int);
}

/// The first epoch whose mix is still there lies as far back as the history reaches, counted from
/// the next epoch.
pub proof fn lemma_history_reaches_back(
    state: StateModel,
    slots_per_epoch: u64,
    epochs_per_historical_vector: u64,
)
    requires
        slots_per_epoch > 0,
        state.slot.0 < u64::MAX,
    ensures
        ({
            let first = state.min_randao_epoch(slots_per_epoch, epochs_per_historical_vector).0;
            let next = state.slot.0 / slots_per_epoch + 1;
            if epochs_per_historical_vector <= next {
                first + epochs_per_historical_vector == next
            } else {
                first == 0
            }
        }),
{
    lemma_quotient_bounds(state.slot.0 as int, slots_per_epoch as int);
}

/// A vote is for the block of its own slot exactly if it names the root at that slot and the slot
/// before has another, or if it is for the first slot. It can be told for slots whose roots, and
/// that of the slot before, are still in the list.
pub proof fn lemma_own_slot_vote_is_told_by_the_roots(state: StateModel, data: AttestationData)
    requires
        data.slot.0 <= usize::MAX,
        data.slot.0 + state.block_roots.len() <= u64::MAX,
    ensures
        attestation_same_slot(state, data) == (if data.slot.0 == 0 || data.slot.0 < state.slot.0
            <= data.slot.0 - 1 + state.block_roots.len() {
            Ok::<bool, BeaconStateError>(votes_for_own_slot(state, data))
        } else {
            Err(BeaconStateError::SlotOutOfBounds)
        }),
{
}

/// Flags are the lowest three bits: one is set if its bit is, setting one sets its bit and no
/// other, and there is no further flag.
pub proof fn lemma_flags_are_bits(
    flags: ParticipationFlags,
    flag_index: usize,
    set: Result<bool, ArithError>,
)
    requires
        call_ensures(ParticipationFlags::has_flag, (&flags, flag_index), set),
    ensures
        flag_index == 0 ==> set == Ok::<bool, ArithError>(flags.bits & 1 != 0)
            && flags.spec_with_flag(flag_index).bits == flags.bits | 1,
        flag_index == 1 ==> set == Ok::<bool, ArithError>(flags.bits & 2 != 0)
            && flags.spec_with_flag(flag_index).bits == flags.bits | 2,
        flag_index == 2 ==> set == Ok::<bool, ArithError>(flags.bits & 4 != 0)
            && flags.spec_with_flag(flag_index).bits == flags.bits | 4,
        flag_index > 2 ==> set == Err::<bool, ArithError>(ArithError::Overflow),
{
    let bits = flags.bits;
    assert((bits & 1 == 1) == (bits & 1 != 0)) by (bit_vector);
    assert((bits & 2 == 2) == (bits & 2 != 0)) by (bit_vector);
    assert((bits & 4 == 4) == (bits & 4 != 0)) by (bit_vector);
}

/// A balance that is increased grows by exactly what was asked, and no other balance changes. It is
/// refused only if there is no such validator or the sum is too large.
pub proof fn lemma_balance_grows_by_what_was_asked(state: StateModel, index: usize, delta: u64)
    ensures
        match state.increase_balance(index, delta) {
            Ok(post) => {
                &&& index < state.balances.len()
                &&& post.balances.len() == state.balances.len()
                &&& post.balances[index as int] == state.balances[index as int] + delta
                &&& forall|i: int|
                    0 <= i < state.balances.len() && i != index ==> #[trigger] post.balances[i]
                        == state.balances[i]
                &&& post == (StateModel { balances: post.balances, ..state })
            },
            Err(BeaconStateError::BalancesOutOfBounds(i)) => i == index && index
                >= state.balances.len(),
            Err(e) => e == BeaconStateError::ArithError(ArithError::Overflow)
                && state.balances[index as int] + delta > u64::MAX,
        },
{
}

/// A validator is known by its place in the lists: its effective balance and its base reward are
/// the entries there, and it is slashed if it is among the slashed.
pub proof fn lemma_validators_are_known_by_their_place(state: StateModel, index: usize)
    ensures
        state.effective_balance(index) is Ok <==> index < state.caches.effective_balances.len(),
        state.effective_balance(index) matches Ok(balance) ==> balance
            == state.caches.effective_balances[index as int],
        state.base_reward(index) is Ok <==> index < state.caches.base_rewards.len(),
        state.base_reward(index) matches Ok(reward) ==> reward
            == state.caches.base_rewards[index as int],
        state.is_slashed(index) <==> exists|i: int|
            0 <= i < state.caches.slashed_validators.len()
                && #[trigger] state.caches.slashed_validators[i] == index,
{
}

/// The contents of a state are its fields.
pub proof fn lemma_contents_of_a_state(state: BeaconState)
    ensures
        state@.slot == state.slot,
        state@.genesis_time == state.genesis_time,
        state@.latest_block_header == state.latest_block_header,
        state@.block_roots == state.block_roots@,
        state@.randao_mixes == state.randao_mixes@,
        state@.balances == state.balances@,
        state@.total_active_balance == state.total_active_balance,
        state@.exit_churn == state.exit_churn,
        state@.caches.effective_balances == state.caches.effective_balances@,
        state@.caches.base_rewards == state.caches.base_rewards@,
        state@.caches.slashed_validators == state.caches.slashed_validators@,
        state@.caches.progressive_balances == state.caches.progressive_balances,
        match (state.fork, state@.fork) {
            (
                ForkFields::Base {
                    previous_epoch_attestations: previous,
                    current_epoch_attestations: current,
                },
                ForkModel::Base { previous_epoch_attestations, current_epoch_attestations },
            ) => {
                &&& previous_epoch_attestations.len() == previous@.len()
                &&& current_epoch_attestations.len() == current@.len()
                &&& forall|i: int|
                    0 <= i < previous@.len() ==> {
                        let a = #[trigger] previous_epoch_attestations[i];
                        &&& a.aggregation_bits == previous@[i].aggregation_bits@
                        &&& a.data == previous@[i].data
                        &&& a.inclusion_delay == previous@[i].inclusion_delay
                        &&& a.proposer_index == previous@[i].proposer_index
                    }
                &&& forall|i: int|
                    0 <= i < current@.len() ==> {
                        let a = #[trigger] current_epoch_attestations[i];
                        &&& a.aggregation_bits == current@[i].aggregation_bits@
                        &&& a.data == current@[i].data
                        &&& a.inclusion_delay == current@[i].inclusion_delay
                        &&& a.proposer_index == current@[i].proposer_index
                    }
            },
            (
                ForkFields::Altair {
                    fork_name: name,
                    previous_epoch_participation: previous,
                    current_epoch_participation: current,
                },
                ForkModel::Altair {
                    fork_name,
                    previous_epoch_participation,
                    current_epoch_participation,
                },
            ) => fork_name == name && previous_epoch_participation == previous@
                && current_epoch_participation == current@,
            (
                ForkFields::Gloas {
                    previous_epoch_participation: previous,
                    current_epoch_participation: current,
                    builder_pending_payments: payments,
                    builder_pending_withdrawals: withdrawals,
                    latest_block_hash: hash,
                    latest_execution_bid: bid,
                    latest_withdrawals_root: root,
                },
                ForkModel::Gloas {
                    previous_epoch_participation,
                    current_epoch_participation,
                    builder_pending_payments,
                    builder_pending_withdrawals,
                    latest_block_hash,
                    latest_execution_bid,
                    latest_withdrawals_root,
                },
            ) => {
                &&& previous_epoch_participation == previous@
                &&& current_epoch_participation == current@
                &&& builder_pending_payments == payments@
                &&& builder_pending_withdrawals == withdrawals@
                &&& latest_block_hash == hash
                &&& latest_execution_bid == bid
                &&& latest_withdrawals_root == root
            },
            _ => false,
        },
{
}

/// What stands for nothing is zero throughout: bytes, payments and bids.
pub proof fn lemma_nothing_is_zero_throughout<const N: usize>(
    bytes: FixedBytes<N>,
    payment: BuilderPendingPayment,
    bid: ExecutionBid,
)
    ensures
        bytes.is_zero() <==> bytes.bytes() == Seq::new(N as nat, |i: int| 0u8),
        payment.is_default() <==> {
            &&& payment.weight == 0
            &&& payment.withdrawal.amount == 0
            &&& payment.withdrawal.builder_index == 0
            &&& payment.withdrawal.withdrawable_epoch.0 == 0
            &&& payment.withdrawal.fee_recipient.bytes() == Seq::new(20, |i: int| 0u8)
        },
        bid.is_default() <==> {
            &&& bid.gas_limit == 0
            &&& bid.builder_index == 0
            &&& bid.slot.0 == 0
            &&& bid.value == 0
            &&& bid.parent_block_hash.bytes() == Seq::new(32, |i: int| 0u8)
            &&& bid.parent_block_root.bytes() == Seq::new(32, |i: int| 0u8)
            &&& bid.block_hash.bytes() == Seq::new(32, |i: int| 0u8)
            &&& bid.blob_kzg_commitments_root.bytes() == Seq::new(32, |i: int| 0u8)
            &&& bid.fee_recipient.bytes() == Seq::new(20, |i: int| 0u8)
        },
{
    lemma_zero_bytes(bytes);
    lemma_zero_bytes(payment.withdrawal.fee_recipient);
    lemma_zero_bytes(bid.parent_block_hash);
    lemma_zero_bytes(bid.parent_block_root);
    lemma_zero_bytes(bid.block_hash);
    lemma_zero_bytes(bid.blob_kzg_commitments_root);
    lemma_zero_bytes(bid.fee_recipient);
}

proof fn lemma_zero_bytes<const N: usize>(bytes: FixedBytes<N>)
    ensures
        bytes.is_zero() <==> bytes.bytes() == Seq::new(N as nat, |i: int| 0u8),
{
    assert(bytes.bytes().len() == N);
    if bytes.is_zero() {
        assert(bytes.bytes() =~= Seq::new(N as nat, |i: int| 0u8));
    } else {
        let i = choose|i: int| 0 <= i < N && bytes.0@[i] != 0;
        assert(bytes.bytes()[i] != Seq::new(N as nat, |i: int| 0u8)[i]);
    }
}

/// A fork is told by the fields of the state, and the rules of Gloas apply to Gloas alone.
pub proof fn lemma_fork_is_told_by_the_fields(state: StateModel, name: ForkName)
    ensures
        state.fork is Base ==> state.fork_name() == ForkName::Base,
        state.fork is Gloas ==> state.fork_name() == ForkName::Gloas,
        state.fork matches ForkModel::Altair { fork_name, .. } ==> state.fork_name() == fork_name,
        name.spec_gloas_enabled() <==> name == ForkName::Gloas,
{
}

/// The sizes of the main network. A state keeps the builder payments of two epochs.
pub proof fn lemma_sizes_of_the_main_network()
    ensures
        MainnetEthSpec::spec_slots_per_epoch() == 32,
        MainnetEthSpec::spec_builder_pending_payments_limit() == 2
            * MainnetEthSpec::spec_slots_per_epoch(),
        MainnetEthSpec::spec_epochs_per_historical_vector() == 65536,
        MainnetEthSpec::spec_ptc_size() == 512,
        MainnetEthSpec::spec_max_blob_commitments_per_block() == 4096,
        MainnetEthSpec::spec_max_deposit_requests_per_payload() == 8192,
        MainnetEthSpec::spec_max_withdrawal_requests_per_payload() == 16,
        MainnetEthSpec::spec_max_consolidation_requests_per_payload() == 2,
        MainnetEthSpec::spec_max_withdrawals_per_payload() == 16,
        MainnetEthSpec::spec_max_transactions_per_payload() == 1048576,
        MainnetEthSpec::spec_max_bytes_per_transaction() == 1073741824,
        MainnetEthSpec::spec_max_extra_data_bytes() == 32,
        MainnetEthSpec::spec_max_pending_attestations() == 4096,
        MainnetEthSpec::spec_builder_pending_withdrawals_limit() == 1048576,
{
}

/// Forks and failures are named as they are written.
pub proof fn lemma_names_are_as_written(fork: ForkName, e: ArithError)
    ensures
        fork.spec_name() == (match fork {
            ForkName::Base => "Base"@,
            ForkName::Altair => "Altair"@,
            ForkName::Bellatrix => "Bellatrix"@,
            ForkName::Capella => "Capella"@,
            ForkName::Deneb => "Deneb"@,
            ForkName::Electra => "Electra"@,
            ForkName::Fulu => "Fulu"@,
            ForkName::Gloas => "Gloas"@,
        }),
        e.spec_name() == (match e {
            ArithError::Overflow => "Overflow"@,
            ArithError::DivisionByZero => "DivisionByZero"@,
        }),
{
}

} // verus!
