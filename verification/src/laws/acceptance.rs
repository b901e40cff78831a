//! Which attestations are accepted, and what is said of those that are not.

use super::attestations::{
    all_counted, balance_of_gainers, bits_of, flags_of, lemma_all_counted, lemma_bits,
    lemma_flag_counted, lemma_or_twice, lemma_three_bits, listed, payments_of, rewards_of_gainers,
    sum_of_distinct, unslashed_balance_of_gainers,
};
use crate::arith::ArithError;
use crate::beacon_state::{AttestationData, FlagBalances, ParticipationFlags, StateModel};
use crate::errors::{BeaconStateError, BlockProcessingError, EpochCacheError};
use crate::primitives::Epoch;
use crate::process_attestations::altair_gloas::altair::altair_outcome;
use crate::process_attestations::altair_gloas::gloas::gloas_outcome;
use crate::process_attestations::altair_gloas::{proposer_reward_denominator, Effect, Fault, Tally};
use crate::process_attestations::AttestationCalls;
use vstd::prelude::*;

verus! {

/// The effective balances of the validators.
pub open spec fn effective_balances(state: StateModel) -> spec_fn(int) -> int {
    |v: int| state.caches.effective_balances[v] as int
}

/// The base rewards of the validators for all flags together, in parts.
pub open spec fn full_rewards(state: StateModel) -> spec_fn(int) -> int {
    |v: int| state.caches.base_rewards[v] * 54
}

/// Whether each of three sums can grow by `more`.
pub open spec fn have_room(sums: FlagBalances, more: int) -> bool {
    &&& sums.timely_source + more <= u64::MAX
    &&& sums.timely_target + more <= u64::MAX
    &&& sums.timely_head + more <= u64::MAX
}

/// Whether the progressive balances are there for the epoch of a target, and can grow by `more`.
pub open spec fn progress_has_room(state: StateModel, target: Epoch, more: int) -> bool {
    &&& state.caches.progressive_balances matches Some(balances)
    &&& target.0 == balances.current_epoch.0 || target.0 + 1 == balances.current_epoch.0
    &&& target.0 == balances.current_epoch.0 ==> have_room(balances.current_epoch_balances, more)
    &&& target.0 != balances.current_epoch.0 ==> have_room(balances.previous_epoch_balances, more)
}

/// Whether it can be told if a vote is for the block of its own slot.
pub open spec fn own_slot_can_be_told(state: StateModel, data: AttestationData) -> bool {
    data.slot.0 == 0 || (data.slot.0 < state.slot.0 <= data.slot.0 - 1 + state.block_roots.len()
        && data.slot.0 + state.block_roots.len() <= u64::MAX)
}

/// Whether the validators of an attestation are known, its target is one of the two epochs, and no
/// sum that it adds to can grow too large.
pub open spec fn there_is_room(
    state: StateModel,
    data: AttestationData,
    previous_epoch: Epoch,
    current_epoch: Epoch,
    validators: Seq<u64>,
) -> bool {
    let current = data.target.epoch == current_epoch;
    &&& current || data.target.epoch == previous_epoch
    &&& !(state.fork is Base)
    &&& forall|v: int| #[trigger]
        listed(validators, v) ==> v < state.caches.effective_balances.len() && v
            < state.caches.base_rewards.len() && v < flags_of(state, current).len()
    &&& sum_of_distinct(validators, full_rewards(state)) <= u64::MAX
    &&& progress_has_room(
        state,
        data.target.epoch,
        sum_of_distinct(validators, effective_balances(state)),
    )
}

/// Whether there is a payment that an attestation counts toward, and it can grow.
spec fn payment_has_room(
    state: StateModel,
    data: AttestationData,
    payment_index: Option<usize>,
    validators: Seq<u64>,
) -> bool {
    payment_index matches Some(index) ==> {
        &&& own_slot_can_be_told(state, data)
        &&& payments_of(state) is Some
        &&& index < payments_of(state)->0.len()
        &&& payments_of(state)->0[index as int].weight + sum_of_distinct(
            validators,
            effective_balances(state),
        ) <= u64::MAX
    }
}

/// Whether the progressive balance of one flag is there for the epoch of a target, and can grow by
/// `more`.
spec fn flag_has_room(state: StateModel, target: Epoch, bit: u8, more: int) -> bool {
    &&& state.caches.progressive_balances matches Some(balances)
    &&& target.0 == balances.current_epoch.0 || target.0 + 1 == balances.current_epoch.0
    &&& ({
        let sums = if target.0 == balances.current_epoch.0 {
            balances.current_epoch_balances
        } else {
            balances.previous_epoch_balances
        };
        &&& bit == 1 ==> sums.timely_source + more <= u64::MAX
        &&& bit == 2 ==> sums.timely_target + more <= u64::MAX
        &&& bit == 4 ==> sums.timely_head + more <= u64::MAX
    })
}

proof fn lemma_flag_accepted(
    effect: Effect,
    pre: Tally,
    index: usize,
    balance: u64,
    slashed: bool,
    flag_index: usize,
    bit: u8,
    part: int,
)
    requires
        flag_index == 0 && bit == 1 && part == 14 || flag_index == 1 && bit == 2 && part == 26
            || flag_index == 2 && bit == 4 && part == 14,
        ({
            let current = effect.data.target.epoch == effect.current_epoch;
            let flags = flags_of(pre.state, current);
            &&& current || effect.data.target.epoch == effect.previous_epoch
            &&& !(pre.state.fork is Base)
            &&& index < flags.len()
            &&& effect.flag_indices.contains(flag_index) && flags[index as int].bits & bit == 0
                ==> {
                &&& index < pre.state.caches.base_rewards.len()
                &&& pre.reward_numerator + pre.state.caches.base_rewards[index as int] * part
                    <= u64::MAX
                &&& flag_has_room(pre.state, effect.data.target.epoch, bit, balance as int)
            }
        }),
    ensures
        effect.set_flag(pre, index, balance, slashed, flag_index) is Ok,
{
    let current = effect.data.target.epoch == effect.current_epoch;
    let flags = flags_of(pre.state, current);
    lemma_bits(flags[index as int].bits, bit);
    let base = pre.state.caches.base_rewards[index as int];
    assert(base * part >= 0) by (nonlinear_arith)
        requires
            part >= 0,
    ;
}

#[verifier::spinoff_prover]
#[verifier::rlimit(60)]
proof fn lemma_validator_accepted(effect: Effect, pre: Tally, validator: u64)
    requires
        ({
            let index = (validator as usize) as int;
            let current = effect.data.target.epoch == effect.current_epoch;
            let flags = flags_of(pre.state, current);
            let earned = bits_of(effect.flag_indices);
            let caches = pre.state.caches;
            &&& current || effect.data.target.epoch == effect.previous_epoch
            &&& !(pre.state.fork is Base)
            &&& index < caches.effective_balances.len()
            &&& index < flags.len()
            &&& effect.payment_index matches Some(payment_index) ==> {
                &&& own_slot_can_be_told(pre.state, effect.data)
                &&& payments_of(pre.state) is Some
                &&& payment_index < payments_of(pre.state)->0.len()
            }
            &&& flags[index].bits | earned == flags[index].bits || {
                &&& index < caches.base_rewards.len()
                &&& pre.reward_numerator + caches.base_rewards[index] * 54 <= u64::MAX
                &&& pre.weight + caches.effective_balances[index] <= u64::MAX
                &&& progress_has_room(
                    pre.state,
                    effect.data.target.epoch,
                    caches.effective_balances[index] as int,
                )
            }
        }),
    ensures
        effect.attest(pre, validator) is Ok,
{
    let index = validator as usize;
    let i = index as int;
    let balance = pre.state.effective_balance(index)->Ok_0;
    let slashed = pre.state.is_slashed(index);
    let current = effect.data.target.epoch == effect.current_epoch;
    let t0 = Tally { fresh: false, ..pre };
    let b = flags_of(t0.state, current)[i].bits;
    let x: u8 = if effect.flag_indices.contains(0) {
        1
    } else {
        0
    };
    let y: u8 = if effect.flag_indices.contains(1) {
        2
    } else {
        0
    };
    let z: u8 = if effect.flag_indices.contains(2) {
        4
    } else {
        0
    };
    lemma_three_bits(b, x, y, z);
    let base = pre.state.caches.base_rewards[i];
    assert(0 <= base * 14 && 0 <= base * 26 && base * 14 + base * 26 + base * 14 == base * 54)
        by (nonlinear_arith);
    lemma_flag_accepted(effect, t0, index, balance, slashed, 0, 1, 14);
    lemma_flag_counted(effect, t0, index, balance, slashed, 0, 1, 14);
    let t1 = effect.set_flag(t0, index, balance, slashed, 0)->Ok_0;
    assert(flags_of(t1.state, current)[i].bits == b | x);
    lemma_flag_accepted(effect, t1, index, balance, slashed, 1, 2, 26);
    lemma_flag_counted(effect, t1, index, balance, slashed, 1, 2, 26);
    let t2 = effect.set_flag(t1, index, balance, slashed, 1)->Ok_0;
    assert(flags_of(t2.state, current)[i].bits == (b | x) | y);
    lemma_flag_accepted(effect, t2, index, balance, slashed, 2, 4, 14);
    lemma_flag_counted(effect, t2, index, balance, slashed, 2, 4, 14);
    let t3 = effect.set_flag(t2, index, balance, slashed, 2)->Ok_0;
    assert(effect.set_flags(t0, index, balance, slashed, 3) == Ok::<Tally, Fault>(t3)) by {
        reveal_with_fuel(Effect::set_flags, 4);
    }
    assert(payments_of(t3.state) == payments_of(pre.state));
    assert(t3.state.block_roots == pre.state.block_roots);
    assert(t3.state.slot == pre.state.slot);
    assert(t3.weight == pre.weight);
    assert(b | (x | y | z) == b ==> !t3.fresh);
}

/// A sum of larger amounts is larger.
proof fn lemma_sum_of_larger_amounts(
    validators: Seq<u64>,
    a: spec_fn(int) -> int,
    b: spec_fn(int) -> int,
)
    requires
        forall|v: int| #[trigger] listed(validators, v) ==> 0 <= a(v) <= b(v),
    ensures
        0 <= sum_of_distinct(validators, a) <= sum_of_distinct(validators, b),
    decreases validators.len(),
{
    if validators.len() > 0 {
        let others = validators.drop_last();
        assert forall|v: int| #[trigger] listed(others, v) implies 0 <= a(v) <= b(v) by {
            let i = choose|i: int| 0 <= i < others.len() && (#[trigger] others[i]) as usize == v;
            assert(validators[i] as usize == v);
            assert(listed(validators, v));
        }
        lemma_sum_of_larger_amounts(others, a, b);
        assert(validators[validators.len() - 1] as usize == validators.last() as usize);
        assert(listed(validators, (validators.last() as usize) as int));
    }
}

#[verifier::spinoff_prover]
#[verifier::rlimit(60)]
proof fn lemma_all_accepted(effect: Effect, pre: Tally, validators: Seq<u64>)
    requires
        pre.reward_numerator == 0,
        pre.weight == 0,
        effect.payment_index is Some ==> effect.data.slot.0 <= usize::MAX,
        there_is_room(
            pre.state,
            effect.data,
            effect.previous_epoch,
            effect.current_epoch,
            validators,
        ),
        payment_has_room(pre.state, effect.data, effect.payment_index, validators),
    ensures
        effect.attest_all(pre, validators) is Ok,
    decreases validators.len(),
{
    if validators.len() > 0 {
        let others = validators.drop_last();
        let last = validators.last();
        let index = (last as usize) as int;
        let current = effect.data.target.epoch == effect.current_epoch;
        let before = flags_of(pre.state, current);
        let earned = bits_of(effect.flag_indices);
        assert forall|v: int| #[trigger] listed(others, v) implies listed(validators, v) by {
            let i = choose|i: int| 0 <= i < others.len() && (#[trigger] others[i]) as usize == v;
            assert(validators[i] as usize == v);
        }
        assert(validators[validators.len() - 1] as usize == index);
        assert(listed(validators, index));
        assert(listed(others, index) == exists|i: int|
            0 <= i < others.len() && #[trigger] others[i] as usize == last as usize);
        let rewards = full_rewards(pre.state);
        let balances = effective_balances(pre.state);
        lemma_rewards_are_positive(pre.state, index);
        lemma_sum_of_larger_amounts(others, balances, balances);
        lemma_all_accepted(effect, pre, others);
        lemma_all_counted(effect, pre, others);
        let middle = effect.attest_all(pre, others)->Ok_0;
        let between = flags_of(middle.state, current);
        assert(all_counted(effect, pre, others, middle));
        lemma_or_twice(before[index].bits, earned);
        assert forall|v: int| #[trigger] listed(others, v) implies 0 <= rewards_of_gainers(
            pre.state,
            before,
            between,
        )(v) <= rewards(v) by {
            lemma_gained_rewards(pre.state, before, between, v);
        }
        lemma_sum_of_larger_amounts(
            others,
            rewards_of_gainers(pre.state, before, between),
            rewards,
        );
        lemma_sum_of_larger_amounts(
            others,
            balance_of_gainers(pre.state, before, between),
            balances,
        );
        lemma_sum_of_larger_amounts(
            others,
            unslashed_balance_of_gainers(pre.state, before, between, 1),
            balances,
        );
        lemma_sum_of_larger_amounts(
            others,
            unslashed_balance_of_gainers(pre.state, before, between, 2),
            balances,
        );
        lemma_sum_of_larger_amounts(
            others,
            unslashed_balance_of_gainers(pre.state, before, between, 4),
            balances,
        );
        assert(payments_of(middle.state) == payments_of(pre.state));
        assert(middle.state.block_roots == pre.state.block_roots);
        assert(middle.state.slot == pre.state.slot);
        assert(!(middle.state.fork is Base));
        assert(between[index].bits == before[index].bits || between[index].bits
            == before[index].bits | earned);
        if !listed(others, index) {
            assert(sum_of_distinct(validators, rewards) == sum_of_distinct(others, rewards)
                + rewards(index));
            assert(sum_of_distinct(validators, balances) == sum_of_distinct(others, balances)
                + balances(index));
        }
        lemma_validator_accepted(effect, middle, last);
    }
}

proof fn lemma_rewards_are_positive(state: StateModel, v: int)
    ensures
        full_rewards(state)(v) >= 0,
{
    assert(state.caches.base_rewards[v] * 54 >= 0) by (nonlinear_arith);
}

proof fn lemma_gained_rewards(
    state: StateModel,
    before: Seq<ParticipationFlags>,
    after: Seq<ParticipationFlags>,
    v: int,
)
    ensures
        0 <= rewards_of_gainers(state, before, after)(v) <= full_rewards(state)(v),
{
    let base = state.caches.base_rewards[v];
    assert(0 <= base * 14 <= base * 54 && 0 <= base * 26 <= base * 54 && 0 <= base * 28 <= base
        * 54 && 0 <= base * 40 <= base * 54 && base * 0 == 0) by (nonlinear_arith);
}

/// An attestation is accepted whenever its questions were answered, it does not come from a later
/// slot, its validators and the proposer are known, its target is one of the two epochs, and no sum
/// that it adds to can grow too large (before Gloas).
pub proof fn lemma_altair_attestation_is_accepted(
    state: StateModel,
    data: AttestationData,
    att_index: usize,
    previous_epoch: Epoch,
    current_epoch: Epoch,
    calls: AttestationCalls,
)
    requires
        calls.proposer_index is Ok,
        calls.attesting_indices is Ok,
        calls.participation_flag_indices is Ok,
        data.slot.0 <= state.slot.0,
        there_is_room(
            state,
            data,
            previous_epoch,
            current_epoch,
            calls.attesting_indices->Ok_0@,
        ),
        ({
            let proposer = (calls.proposer_index->Ok_0 as usize) as int;
            &&& proposer < state.balances.len()
            &&& state.balances[proposer] + sum_of_distinct(
                calls.attesting_indices->Ok_0@,
                full_rewards(state),
            ) / 448 <= u64::MAX
        }),
    ensures
        altair_outcome(state, data, att_index, previous_epoch, current_epoch, calls).1 is Ok,
{
    let effect = Effect {
        data,
        previous_epoch,
        current_epoch,
        flag_indices: calls.participation_flag_indices->Ok_0@,
        payment_index: None,
    };
    lemma_proposer_is_paid(effect, state, calls.attesting_indices->Ok_0@);
}

/// What the proposer is owed is no more than the rewards for all flags of all validators.
proof fn lemma_proposer_is_paid(effect: Effect, state: StateModel, validators: Seq<u64>)
    requires
        effect.payment_index is Some ==> effect.data.slot.0 <= usize::MAX,
        there_is_room(
            state,
            effect.data,
            effect.previous_epoch,
            effect.current_epoch,
            validators,
        ),
        payment_has_room(state, effect.data, effect.payment_index, validators),
    ensures
        ({
            let before = Tally { state, reward_numerator: 0, weight: 0, fresh: false };
            let rewards = sum_of_distinct(validators, full_rewards(state));
            &&& effect.attest_all(before, validators) matches Ok(after)
            &&& after.reward_numerator as int / proposer_reward_denominator() <= rewards / 448
            &&& after.state.balances == state.balances
            &&& payments_of(after.state) == payments_of(state)
            &&& 0 <= after.weight <= sum_of_distinct(validators, effective_balances(state))
        }),
{
    let before = Tally { state, reward_numerator: 0, weight: 0, fresh: false };
    lemma_all_accepted(effect, before, validators);
    lemma_all_counted(effect, before, validators);
    let after = effect.attest_all(before, validators)->Ok_0;
    let current = effect.data.target.epoch == effect.current_epoch;
    let old_flags = flags_of(state, current);
    let new_flags = flags_of(after.state, current);
    assert forall|v: int| #[trigger] listed(validators, v) implies 0 <= rewards_of_gainers(
        state,
        old_flags,
        new_flags,
    )(v) <= full_rewards(state)(v) by {
        lemma_gained_rewards(state, old_flags, new_flags, v);
    }
    lemma_sum_of_larger_amounts(
        validators,
        rewards_of_gainers(state, old_flags, new_flags),
        full_rewards(state),
    );
    lemma_sum_of_larger_amounts(
        validators,
        balance_of_gainers(state, old_flags, new_flags),
        effective_balances(state),
    );
    assert(proposer_reward_denominator() == 448);
    vstd::arithmetic::div_mod::lemma_div_is_ordered(
        after.reward_numerator as int,
        sum_of_distinct(validators, full_rewards(state)),
        448,
    );
}

/// An attestation is accepted whenever its questions were answered, it does not come from a later
/// slot, its validators, the proposer and the builder payment are known, its target is one of the
/// two epochs, it can be told whether it votes for the block of its own slot, and no sum that it
/// adds to can grow too large (from Gloas on).
pub proof fn lemma_gloas_attestation_is_accepted(
    slots_per_epoch: u64,
    state: StateModel,
    data: AttestationData,
    att_index: usize,
    previous_epoch: Epoch,
    current_epoch: Epoch,
    calls: AttestationCalls,
)
    requires
        0 < slots_per_epoch <= usize::MAX,
        data.slot.0 <= usize::MAX,
        calls.proposer_index is Ok,
        calls.attesting_indices is Ok,
        calls.participation_flag_indices is Ok,
        data.slot.0 <= state.slot.0,
        own_slot_can_be_told(state, data),
        there_is_room(
            state,
            data,
            previous_epoch,
            current_epoch,
            calls.attesting_indices->Ok_0@,
        ),
        ({
            let validators = calls.attesting_indices->Ok_0@;
            let proposer = (calls.proposer_index->Ok_0 as usize) as int;
            let position = data.slot.0 % slots_per_epoch + (if data.target.epoch.0 == state.slot.0
                / slots_per_epoch {
                slots_per_epoch as int
            } else {
                0
            });
            &&& proposer < state.balances.len()
            &&& state.balances[proposer] + sum_of_distinct(validators, full_rewards(state)) / 448
                <= u64::MAX
            &&& payments_of(state) matches Some(payments)
            &&& payments.len() <= usize::MAX
            &&& position < payments.len()
            &&& payments[position].weight + sum_of_distinct(
                validators,
                effective_balances(state),
            ) <= u64::MAX
        }),
    ensures
        gloas_outcome(
            slots_per_epoch,
            state,
            data,
            att_index,
            previous_epoch,
            current_epoch,
            calls,
        ).1 is Ok,
{
    let position = data.slot.0 % slots_per_epoch + (if data.target.epoch.0 == state.slot.0
        / slots_per_epoch {
        slots_per_epoch as int
    } else {
        0
    });
    assert(state.slot.0 / slots_per_epoch <= state.slot.0) by (nonlinear_arith)
        requires
            slots_per_epoch > 0,
    ;
    let effect = Effect {
        data,
        previous_epoch,
        current_epoch,
        flag_indices: calls.participation_flag_indices->Ok_0@,
        payment_index: Some(position as usize),
    };
    lemma_proposer_is_paid(effect, state, calls.attesting_indices->Ok_0@);
}

/// Whether an error about an attestation tells the truth: what it says is missing is missing, what
/// it says is out of bounds is, and a sum is too large only if it says so.
pub open spec fn refusal_is_true(
    state: StateModel,
    data: AttestationData,
    previous_epoch: Epoch,
    current_epoch: Epoch,
    validators: Seq<u64>,
    payment: Option<int>,
    error: BlockProcessingError,
) -> bool {
    let target = data.target.epoch;
    let caches = state.caches;
    match error {
        BlockProcessingError::EpochCacheError(
            EpochCacheError::ValidatorIndexOutOfBounds { validator_index },
        ) => listed(validators, validator_index as int) && (validator_index
            >= caches.effective_balances.len() || validator_index >= caches.base_rewards.len()),
        BlockProcessingError::BeaconStateError(
            BeaconStateError::ParticipationOutOfBounds(validator_index),
        ) => listed(validators, validator_index as int) && validator_index >= flags_of(
            state,
            target == current_epoch,
        ).len(),
        BlockProcessingError::BeaconStateError(BeaconStateError::EpochOutOfBounds) => target
            != current_epoch && target != previous_epoch,
        BlockProcessingError::BeaconStateError(BeaconStateError::IncorrectStateVariant) => {
            state.fork is Base || payment is Some && payments_of(state) is None
        },
        BlockProcessingError::BeaconStateError(BeaconStateError::SlotOutOfBounds) => payment is Some
            && !own_slot_can_be_told(state, data),
        BlockProcessingError::BeaconStateError(
            BeaconStateError::ProgressiveBalancesCacheNotInitialized,
        ) => caches.progressive_balances is None,
        BlockProcessingError::BeaconStateError(
            BeaconStateError::ProgressiveBalancesCacheInconsistent,
        ) => caches.progressive_balances matches Some(balances) && target.0
            != balances.current_epoch.0 && target.0 + 1 != balances.current_epoch.0,
        BlockProcessingError::BuilderPaymentIndexOutOfBounds(index) => payment == Some(index as int)
            && payments_of(state) is Some && index >= payments_of(state)->0.len(),
        BlockProcessingError::BeaconStateError(BeaconStateError::ArithError(e)) => e
            == ArithError::Overflow,
        BlockProcessingError::ArithError(e) => e == ArithError::Overflow,
        _ => false,
    }
}

proof fn lemma_flag_fault(
    effect: Effect,
    pre: Tally,
    validator: u64,
    balance: u64,
    slashed: bool,
    flag_index: usize,
)
    requires
        flag_index < 3,
        effect.set_flag(pre, validator as usize, balance, slashed, flag_index) is Err,
    ensures
        refusal_is_true(
            pre.state,
            effect.data,
            effect.previous_epoch,
            effect.current_epoch,
            seq![validator],
            None,
            effect.set_flag(pre, validator as usize, balance, slashed, flag_index)->Err_0.error,
        ),
{
    let validators = seq![validator];
    assert(validators[0] as usize == (validator as usize) as int);
    assert(listed(validators, (validator as usize) as int));
}

#[verifier::spinoff_prover]
#[verifier::rlimit(60)]
proof fn lemma_validator_fault(effect: Effect, pre: Tally, validator: u64)
    requires
        effect.attest(pre, validator) is Err,
        effect.payment_index is Some ==> effect.data.slot.0 <= usize::MAX,
    ensures
        refusal_is_true(
            pre.state,
            effect.data,
            effect.previous_epoch,
            effect.current_epoch,
            seq![validator],
            payment_position(effect),
            effect.attest(pre, validator)->Err_0.error,
        ),
{
    let index = validator as usize;
    let validators = seq![validator];
    assert(validators[0] as usize == index as int);
    assert(listed(validators, index as int));
    let t0 = Tally { fresh: false, ..pre };
    match pre.state.effective_balance(index) {
        Err(_) => {},
        Ok(balance) => {
            let slashed = pre.state.is_slashed(index);
            let r0 = effect.set_flag(t0, index, balance, slashed, 0);
            assert(effect.set_flags(t0, index, balance, slashed, 0) == Ok::<Tally, Fault>(t0));
            assert(effect.set_flags(t0, index, balance, slashed, 1) == r0);
            match r0 {
                Err(_) => {
                    lemma_flag_fault(effect, t0, validator, balance, slashed, 0);
                    reveal_with_fuel(Effect::set_flags, 4);
                },
                Ok(t1) => {
                    lemma_flag_counted(effect, t0, index, balance, slashed, 0, 1, 14);
                    let r1 = effect.set_flag(t1, index, balance, slashed, 1);
                    assert(effect.set_flags(t0, index, balance, slashed, 2) == r1) by {
                        reveal_with_fuel(Effect::set_flags, 3);
                    }
                    match r1 {
                        Err(_) => {
                            lemma_flag_fault(effect, t1, validator, balance, slashed, 1);
                            reveal_with_fuel(Effect::set_flags, 4);
                        },
                        Ok(t2) => {
                            lemma_flag_counted(effect, t1, index, balance, slashed, 1, 2, 26);
                            let r2 = effect.set_flag(t2, index, balance, slashed, 2);
                            assert(effect.set_flags(t0, index, balance, slashed, 3) == r2) by {
                                reveal_with_fuel(Effect::set_flags, 4);
                            }
                            match r2 {
                                Err(_) => {
                                    lemma_flag_fault(effect, t2, validator, balance, slashed, 2);
                                },
                                Ok(t3) => {
                                    lemma_flag_counted(
                                        effect,
                                        t2,
                                        index,
                                        balance,
                                        slashed,
                                        2,
                                        4,
                                        14,
                                    );
                                    assert(payments_of(t3.state) == payments_of(pre.state));
                                    assert(t3.state.block_roots == pre.state.block_roots);
                                    assert(t3.state.slot == pre.state.slot);
                                },
                            }
                        },
                    }
                },
            }
        },
    }
}

spec fn payment_position(effect: Effect) -> Option<int> {
    match effect.payment_index {
        Some(index) => Some(index as int),
        None => None,
    }
}

proof fn lemma_all_faults(effect: Effect, pre: Tally, validators: Seq<u64>)
    requires
        pre.reward_numerator == 0,
        pre.weight == 0,
        effect.payment_index is Some ==> effect.data.slot.0 <= usize::MAX,
        effect.attest_all(pre, validators) is Err,
    ensures
        refusal_is_true(
            pre.state,
            effect.data,
            effect.previous_epoch,
            effect.current_epoch,
            validators,
            payment_position(effect),
            effect.attest_all(pre, validators)->Err_0.error,
        ),
    decreases validators.len(),
{
    let others = validators.drop_last();
    let last = validators.last();
    assert forall|v: int| #[trigger] listed(others, v) implies listed(validators, v) by {
        let i = choose|i: int| 0 <= i < others.len() && (#[trigger] others[i]) as usize == v;
        assert(validators[i] as usize == v);
    }
    assert forall|v: int| #[trigger] listed(seq![last], v) implies listed(validators, v) by {
        assert(validators[validators.len() - 1] as usize == v);
    }
    match effect.attest_all(pre, others) {
        Err(_) => {
            lemma_all_faults(effect, pre, others);
        },
        Ok(middle) => {
            lemma_all_counted(effect, pre, others);
            assert(all_counted(effect, pre, others, middle));
            assert(payments_of(middle.state) == payments_of(pre.state));
            assert(middle.state.block_roots == pre.state.block_roots);
            assert(middle.state.slot == pre.state.slot);
            assert(middle.state.fork is Base == pre.state.fork is Base);
            lemma_validator_fault(effect, middle, last);
        },
    }
}

/// What is said of an attestation that is refused, although all questions about it were answered
/// and it does not come from a later slot, is true of it (before Gloas).
pub proof fn lemma_altair_refusals_are_true(
    state: StateModel,
    data: AttestationData,
    att_index: usize,
    previous_epoch: Epoch,
    current_epoch: Epoch,
    calls: AttestationCalls,
    error: BlockProcessingError,
)
    requires
        calls.proposer_index is Ok,
        calls.attesting_indices is Ok,
        calls.participation_flag_indices is Ok,
        data.slot.0 <= state.slot.0,
        altair_outcome(state, data, att_index, previous_epoch, current_epoch, calls).1 == Err::<
            (),
            BlockProcessingError,
        >(error),
    ensures
        ({
            let proposer = calls.proposer_index->Ok_0 as usize;
            ||| refusal_is_true(
                state,
                data,
                previous_epoch,
                current_epoch,
                calls.attesting_indices->Ok_0@,
                None,
                error,
            )
            ||| proposer >= state.balances.len() && error
                == BlockProcessingError::BeaconStateError(
                BeaconStateError::BalancesOutOfBounds(proposer),
            )
        }),
{
    let effect = Effect {
        data,
        previous_epoch,
        current_epoch,
        flag_indices: calls.participation_flag_indices->Ok_0@,
        payment_index: None,
    };
    let before = Tally { state, reward_numerator: 0, weight: 0, fresh: false };
    let validators = calls.attesting_indices->Ok_0@;
    if effect.attest_all(before, validators) is Err {
        lemma_all_faults(effect, before, validators);
    } else {
        lemma_all_counted(effect, before, validators);
        assert(effect.attest_all(before, validators)->Ok_0.state.balances == state.balances);
    }
}

/// What is said of an attestation that is refused, although all questions about it were answered
/// and it does not come from a later slot, is true of it (from Gloas on).
pub proof fn lemma_gloas_refusals_are_true(
    slots_per_epoch: u64,
    state: StateModel,
    data: AttestationData,
    att_index: usize,
    previous_epoch: Epoch,
    current_epoch: Epoch,
    calls: AttestationCalls,
    error: BlockProcessingError,
)
    requires
        0 < slots_per_epoch,
        2 * slots_per_epoch <= usize::MAX,
        data.slot.0 <= usize::MAX,
        calls.proposer_index is Ok,
        calls.attesting_indices is Ok,
        calls.participation_flag_indices is Ok,
        data.slot.0 <= state.slot.0,
        gloas_outcome(
            slots_per_epoch,
            state,
            data,
            att_index,
            previous_epoch,
            current_epoch,
            calls,
        ).1 == Err::<(), BlockProcessingError>(error),
    ensures
        ({
            let proposer = calls.proposer_index->Ok_0 as usize;
            let position = data.slot.0 % slots_per_epoch + (if data.target.epoch.0 == state.slot.0
                / slots_per_epoch {
                slots_per_epoch as int
            } else {
                0
            });
            ||| refusal_is_true(
                state,
                data,
                previous_epoch,
                current_epoch,
                calls.attesting_indices->Ok_0@,
                Some(position),
                error,
            )
            ||| proposer >= state.balances.len() && error
                == BlockProcessingError::BeaconStateError(
                BeaconStateError::BalancesOutOfBounds(proposer),
            )
        }),
{
    let position = data.slot.0 % slots_per_epoch + (if data.target.epoch.0 == state.slot.0
        / slots_per_epoch {
        slots_per_epoch as int
    } else {
        0
    });
    assert(state.slot.0 / slots_per_epoch <= state.slot.0) by (nonlinear_arith)
        requires
            slots_per_epoch > 0,
    ;
    assert(0 <= data.slot.0 % slots_per_epoch < slots_per_epoch) by (nonlinear_arith)
        requires
            slots_per_epoch > 0,
    ;
    let effect = Effect {
        data,
        previous_epoch,
        current_epoch,
        flag_indices: calls.participation_flag_indices->Ok_0@,
        payment_index: Some(position as usize),
    };
    let before = Tally { state, reward_numerator: 0, weight: 0, fresh: false };
    let validators = calls.attesting_indices->Ok_0@;
    if effect.attest_all(before, validators) is Err {
        lemma_all_faults(effect, before, validators);
    } else {
        lemma_all_counted(effect, before, validators);
        let after = effect.attest_all(before, validators)->Ok_0;
        assert(after.state.balances == state.balances);
        assert(payments_of(after.state) == payments_of(state));
    }
}

} // verus!
