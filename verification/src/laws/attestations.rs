//! What attestations add up to.

use crate::beacon_state::{
    AttestationData, BuilderPendingPayment, FlagBalances, ForkModel, ParticipationFlags, StateModel,
};
use crate::primitives::Epoch;
use crate::process_attestations::altair_gloas::altair::altair_outcome;
use crate::process_attestations::altair_gloas::gloas::{gloas_outcome, payment_index};
use crate::process_attestations::altair_gloas::{proposer_reward_denominator, Effect, Fault, Tally};
use crate::process_attestations::AttestationCalls;
use vstd::prelude::*;

verus! {

/// The participation flags of the current or of the previous epoch; the first fork keeps none.
pub open spec fn flags_of(state: StateModel, current: bool) -> Seq<ParticipationFlags> {
    match state.fork {
        ForkModel::Base { .. } => Seq::empty(),
        ForkModel::Altair { previous_epoch_participation, current_epoch_participation, .. } => {
            if current {
                current_epoch_participation
            } else {
                previous_epoch_participation
            }
        },
        ForkModel::Gloas { previous_epoch_participation, current_epoch_participation, .. } => {
            if current {
                current_epoch_participation
            } else {
                previous_epoch_participation
            }
        },
    }
}

/// The sum of an amount over the validators in a list, each counted once however often it occurs.
pub open spec fn sum_of_distinct(validators: Seq<u64>, amount: spec_fn(int) -> int) -> int
    decreases validators.len(),
{
    if validators.len() == 0 {
        0
    } else {
        let others = validators.drop_last();
        let last = validators.last() as usize;
        if exists|i: int| 0 <= i < others.len() && #[trigger] others[i] as usize == last {
            sum_of_distinct(others, amount)
        } else {
            sum_of_distinct(others, amount) + amount(last as int)
        }
    }
}

/// Whether a validator has the flag with the given bit after, and did not have it before.
pub open spec fn gained(
    before: Seq<ParticipationFlags>,
    after: Seq<ParticipationFlags>,
    bit: u8,
    validator: int,
) -> bool {
    before[validator].bits & bit == 0 && after[validator].bits & bit != 0
}

/// The bits of the flags with the given indices: the timely source, target and head.
pub open spec fn bits_of(flag_indices: Seq<usize>) -> u8 {
    (if flag_indices.contains(0) {
        1u8
    } else {
        0u8
    }) | (if flag_indices.contains(1) {
        2u8
    } else {
        0u8
    }) | (if flag_indices.contains(2) {
        4u8
    } else {
        0u8
    })
}

/// The effective balances of the validators that gained a flag, whichever it was.
pub open spec fn balance_of_gainers(
    state: StateModel,
    before: Seq<ParticipationFlags>,
    after: Seq<ParticipationFlags>,
) -> spec_fn(int) -> int {
    |v: int|
        if before[v].bits != after[v].bits {
            state.caches.effective_balances[v] as int
        } else {
            0
        }
}

/// The effective balances of the validators that gained the flag with the given bit and have not
/// been slashed.
pub open spec fn unslashed_balance_of_gainers(
    state: StateModel,
    before: Seq<ParticipationFlags>,
    after: Seq<ParticipationFlags>,
    bit: u8,
) -> spec_fn(int) -> int {
    |v: int|
        if gained(before, after, bit, v) && !state.caches.slashed_validators.contains(v as usize) {
            state.caches.effective_balances[v] as int
        } else {
            0
        }
}

/// The base rewards of the validators for the flags that they gained: 14 parts for the source, 26
/// for the target and 14 for the head.
pub open spec fn rewards_of_gainers(
    state: StateModel,
    before: Seq<ParticipationFlags>,
    after: Seq<ParticipationFlags>,
) -> spec_fn(int) -> int {
    |v: int|
        state.caches.base_rewards[v] * ((if gained(before, after, 1, v) {
            14int
        } else {
            0
        }) + (if gained(before, after, 2, v) {
            26int
        } else {
            0
        }) + (if gained(before, after, 4, v) {
            14int
        } else {
            0
        }))
}

/// Whether the attestation votes for the block of its own slot: that block's root is the one at the
/// slot, and the slot before has another. The first slot has no slot before it.
pub open spec fn votes_for_own_slot(state: StateModel, data: AttestationData) -> bool {
    let roots = state.block_roots;
    data.slot.0 == 0 || (data.beacon_block_root == roots[data.slot.0 as int % roots.len() as int]
        && data.beacon_block_root != roots[(data.slot.0 - 1) % roots.len() as int])
}

/// What one flag of one validator does.
pub(super) open spec fn flag_counted(
    effect: Effect,
    pre: Tally,
    index: usize,
    balance: u64,
    slashed: bool,
    flag_index: usize,
    bit: u8,
    part: int,
    post: Tally,
) -> bool {
    let current = effect.data.target.epoch == effect.current_epoch;
    let before = flags_of(pre.state, current);
    let after = flags_of(post.state, current);
    let earned = effect.flag_indices.contains(flag_index);
    let new = earned && before[index as int].bits & bit == 0;
    &&& current || effect.data.target.epoch == effect.previous_epoch
    &&& !(pre.state.fork is Base)
    &&& earned ==> index < before.len()
    &&& after == (if new {
        before.update(index as int, ParticipationFlags { bits: before[index as int].bits | bit })
    } else {
        before
    })
    &&& post.weight == pre.weight
    &&& post.fresh == (pre.fresh || new)
    &&& new ==> index < pre.state.caches.base_rewards.len()
    &&& post.reward_numerator == pre.reward_numerator + (if new {
        pre.state.caches.base_rewards[index as int] * part
    } else {
        0
    })
    &&& post.state.with_participation(current, before) == (StateModel {
        caches: post.state.caches,
        ..pre.state
    })
    &&& progressed(
        effect.data.target.epoch,
        pre.state,
        post.state,
        if bit == 1 && new && !slashed {
            balance as int
        } else {
            0
        },
        if bit == 2 && new && !slashed {
            balance as int
        } else {
            0
        },
        if bit == 4 && new && !slashed {
            balance as int
        } else {
            0
        },
    )
}

/// Whether `after` are the sums in `before` with more balance of each kind.
pub open spec fn sums_grow(
    before: FlagBalances,
    after: FlagBalances,
    source: int,
    target: int,
    head: int,
) -> bool {
    &&& after.timely_source == before.timely_source + source
    &&& after.timely_target == before.timely_target + target
    &&& after.timely_head == before.timely_head + head
}

/// Whether the caches of `post` are those of `pre`, but for the progressive balances of `epoch`,
/// which have grown by the given sums.
pub open spec fn progressed(
    epoch: Epoch,
    pre: StateModel,
    post: StateModel,
    source: int,
    target: int,
    head: int,
) -> bool {
    &&& post.caches.effective_balances == pre.caches.effective_balances
    &&& post.caches.base_rewards == pre.caches.base_rewards
    &&& post.caches.slashed_validators == pre.caches.slashed_validators
    &&& match (pre.caches.progressive_balances, post.caches.progressive_balances) {
        (Some(before), Some(after)) => {
            &&& after.current_epoch == before.current_epoch
            &&& if epoch == before.current_epoch {
                &&& sums_grow(
                    before.current_epoch_balances,
                    after.current_epoch_balances,
                    source,
                    target,
                    head,
                )
                &&& after.previous_epoch_balances == before.previous_epoch_balances
            } else {
                &&& sums_grow(
                    before.previous_epoch_balances,
                    after.previous_epoch_balances,
                    source,
                    target,
                    head,
                )
                &&& after.current_epoch_balances == before.current_epoch_balances
                &&& source + target + head > 0 ==> epoch.0 + 1 == before.current_epoch.0
            }
        },
        (None, None) => source == 0 && target == 0 && head == 0,
        _ => false,
    }
}

pub(super) proof fn lemma_bits(bits: u8, bit: u8)
    requires
        bit == 1 || bit == 2 || bit == 4,
    ensures
        bits & bit == bit <==> bits & bit != 0,
        bits & bit == bit ==> bits | bit == bits,
        (bits | bit) & bit == bit,
{
    assert((bit == 1 || bit == 2 || bit == 4) ==> (bits & bit == bit <==> bits & bit != 0))
        by (bit_vector);
    assert(bits & bit == bit ==> bits | bit == bits) by (bit_vector);
    assert((bits | bit) & bit == bit) by (bit_vector);
}

pub(super) proof fn lemma_flag_counted(
    effect: Effect,
    pre: Tally,
    index: usize,
    balance: u64,
    slashed: bool,
    flag_index: usize,
    bit: u8,
    part: int,
)
    requires
        flag_index == 0 && bit == 1 && part == 14 || flag_index == 1 && bit == 2 && part == 26
            || flag_index == 2 && bit == 4 && part == 14,
        effect.set_flag(pre, index, balance, slashed, flag_index) is Ok,
    ensures
        flag_counted(
            effect,
            pre,
            index,
            balance,
            slashed,
            flag_index,
            bit,
            part,
            effect.set_flag(pre, index, balance, slashed, flag_index)->Ok_0,
        ),
{
    let post = effect.set_flag(pre, index, balance, slashed, flag_index)->Ok_0;
    let current = effect.data.target.epoch == effect.current_epoch;
    let before = flags_of(pre.state, current);
    lemma_bits(before[index as int].bits, bit);
    assert(post.state.with_participation(current, before) =~= StateModel {
        caches: post.state.caches,
        ..pre.state
    });
}

/// What an attestation does to one validator.
spec fn validator_counted(effect: Effect, pre: Tally, validator: u64, post: Tally) -> bool {
    let index = (validator as usize) as int;
    let current = effect.data.target.epoch == effect.current_epoch;
    let before = flags_of(pre.state, current);
    let after = flags_of(post.state, current);
    let earned = bits_of(effect.flag_indices);
    let caches = pre.state.caches;
    &&& current || effect.data.target.epoch == effect.previous_epoch
    &&& !(pre.state.fork is Base)
    &&& index < caches.effective_balances.len()
    &&& earned != 0 ==> index < before.len()
    &&& after == (if index < before.len() {
        before.update(index, ParticipationFlags { bits: before[index].bits | earned })
    } else {
        before
    })
    &&& post.reward_numerator == pre.reward_numerator + rewards_of_gainers(
        pre.state,
        before,
        after,
    )(index)
    &&& match effect.payment_index {
        None => post.weight == pre.weight,
        Some(payment_index) => {
            &&& payments_of(pre.state) matches Some(payments)
            &&& payment_index < payments.len()
            &&& post.weight == pre.weight + (if votes_for_own_slot(pre.state, effect.data)
                && payments[payment_index as int].withdrawal.amount > 0 {
                balance_of_gainers(pre.state, before, after)(index)
            } else {
                0
            })
        },
    }
    &&& post.state.with_participation(current, before) == (StateModel {
        caches: post.state.caches,
        ..pre.state
    })
    &&& progressed(
        effect.data.target.epoch,
        pre.state,
        post.state,
        unslashed_balance_of_gainers(pre.state, before, after, 1)(index),
        unslashed_balance_of_gainers(pre.state, before, after, 2)(index),
        unslashed_balance_of_gainers(pre.state, before, after, 4)(index),
    )
}

/// The builder payments, where there are such payments.
pub open spec fn payments_of(state: StateModel) -> Option<Seq<BuilderPendingPayment>> {
    match state.fork {
        ForkModel::Gloas { builder_pending_payments, .. } => Some(builder_pending_payments),
        _ => None,
    }
}

pub(super) proof fn lemma_three_bits(b: u8, x: u8, y: u8, z: u8)
    requires
        x == 0 || x == 1,
        y == 0 || y == 2,
        z == 0 || z == 4,
    ensures
        (b | x) & 2 == b & 2,
        ((b | x) | y) & 4 == b & 4,
        (b | x) & 1 == (b & 1) | x,
        ((b | x) | y) & 2 == (b & 2) | y,
        ((b | x) | y) | z == b | (x | y | z),
        (b | (x | y | z)) & 1 == (b & 1) | x,
        (b | (x | y | z)) & 2 == (b & 2) | y,
        (b | (x | y | z)) & 4 == (b & 4) | z,
        b | (x | y | z) == b <==> (x == 0 || b & 1 != 0) && (y == 0 || b & 2 != 0) && (z == 0 || b
            & 4 != 0),
        b | 0 == b,
        (b | x) | 0 == b | x,
        ((b | x) | y) | 0 == (b | x) | y,
        0u8 | 0u8 | 0u8 == 0,
        x | y | z == 0 ==> x == 0 && y == 0 && z == 0,
        (b & 1) | x == 0 <==> b & 1 == 0 && x == 0,
        (b & 2) | y == 0 <==> b & 2 == 0 && y == 0,
        (b & 4) | z == 0 <==> b & 4 == 0 && z == 0,
        x != 0 && b & 1 != 0 ==> b | x == b,
        y != 0 && (b | x) & 2 != 0 ==> (b | x) | y == b | x,
        z != 0 && ((b | x) | y) & 4 != 0 ==> ((b | x) | y) | z == (b | x) | y,
{
    assert((x == 0 || x == 1) && (y == 0 || y == 2) && (z == 0 || z == 4) ==> {
        &&& (b | x) & 2 == b & 2
        &&& ((b | x) | y) & 4 == b & 4
        &&& (b | x) & 1 == (b & 1) | x
        &&& ((b | x) | y) & 2 == (b & 2) | y
        &&& ((b | x) | y) | z == b | (x | y | z)
        &&& (b | (x | y | z)) & 1 == (b & 1) | x
        &&& (b | (x | y | z)) & 2 == (b & 2) | y
        &&& (b | (x | y | z)) & 4 == (b & 4) | z
        &&& b | (x | y | z) == b <==> (x == 0 || b & 1 != 0) && (y == 0 || b & 2 != 0) && (z == 0
            || b & 4 != 0)
        &&& b | 0 == b
        &&& (b | x) | 0 == b | x
        &&& ((b | x) | y) | 0 == (b | x) | y
        &&& 0u8 | 0u8 | 0u8 == 0
        &&& (x | y | z == 0 ==> x == 0 && y == 0 && z == 0)
        &&& ((b & 1) | x == 0 <==> b & 1 == 0 && x == 0)
        &&& ((b & 2) | y == 0 <==> b & 2 == 0 && y == 0)
        &&& ((b & 4) | z == 0 <==> b & 4 == 0 && z == 0)
        &&& (x != 0 && b & 1 != 0 ==> b | x == b)
        &&& (y != 0 && (b | x) & 2 != 0 ==> (b | x) | y == b | x)
        &&& (z != 0 && ((b | x) | y) & 4 != 0 ==> ((b | x) | y) | z == (b | x) | y)
    }) by (bit_vector);
}

#[verifier::spinoff_prover]
#[verifier::rlimit(60)]
proof fn lemma_validator_counted(effect: Effect, pre: Tally, validator: u64)
    requires
        effect.attest(pre, validator) is Ok,
        effect.payment_index is Some ==> effect.data.slot.0 <= usize::MAX,
    ensures
        validator_counted(effect, pre, validator, effect.attest(pre, validator)->Ok_0),
{
    let post = effect.attest(pre, validator)->Ok_0;
    let index = validator as usize;
    let balance = pre.state.effective_balance(index)->Ok_0;
    let slashed = pre.state.is_slashed(index);
    let current = effect.data.target.epoch == effect.current_epoch;
    let t0 = Tally { fresh: false, ..pre };
    let r1 = effect.set_flag(t0, index, balance, slashed, 0);
    let t1 = r1->Ok_0;
    let r2 = effect.set_flag(t1, index, balance, slashed, 1);
    let t2 = r2->Ok_0;
    let r3 = effect.set_flag(t2, index, balance, slashed, 2);
    let t3 = r3->Ok_0;
    assert(effect.set_flags(t0, index, balance, slashed, 0) == Ok::<Tally, Fault>(t0));
    assert(effect.set_flags(t0, index, balance, slashed, 1) == r1);
    assert(r1 is Ok && r2 is Ok && effect.set_flags(t0, index, balance, slashed, 3) == r3) by {
        reveal_with_fuel(Effect::set_flags, 4);
    }
    lemma_flag_counted(effect, t0, index, balance, slashed, 0, 1, 14);
    lemma_flag_counted(effect, t1, index, balance, slashed, 1, 2, 26);
    lemma_flag_counted(effect, t2, index, balance, slashed, 2, 4, 14);
    let f0 = flags_of(t0.state, current);
    let f1 = flags_of(t1.state, current);
    let f2 = flags_of(t2.state, current);
    let f3 = flags_of(t3.state, current);
    let x: u8 = if effect.flag_indices.contains(0) {
        1
    } else {
        0
    };
    let y: u8 = if effect.flag_indices.contains(1) {
        2
    } else {
        0
    };
    let z: u8 = if effect.flag_indices.contains(2) {
        4
    } else {
        0
    };
    let b = f0[index as int].bits;
    lemma_three_bits(b, x, y, z);
    let i = index as int;
    if i < f0.len() {
        assert(f1[i].bits == b | x);
        assert(f2[i].bits == (b | x) | y);
        assert(f3[i].bits == b | (x | y | z));
        assert(f3 =~= f0.update(i, ParticipationFlags { bits: b | bits_of(effect.flag_indices) }));
    } else {
        assert(f3 == f0);
    }
    assert(post.state == t3.state);
    assert(post.state.with_participation(current, f0) =~= StateModel {
        caches: post.state.caches,
        ..pre.state
    });
    let base = pre.state.caches.base_rewards[i];
    assert(base * 14 + base * 26 + base * 14 == base * 54 && base * 14 + base * 26 == base * 40
        && base * 14 + base * 14 == base * 28 && base * 0 == 0) by (nonlinear_arith);
}

/// Whether a validator is in the list.
pub open spec fn listed(validators: Seq<u64>, validator: int) -> bool {
    exists|i: int| 0 <= i < validators.len() && (#[trigger] validators[i]) as usize == validator
}

/// What an attestation does to all its validators.
pub(super) open spec fn all_counted(
    effect: Effect,
    pre: Tally,
    validators: Seq<u64>,
    post: Tally,
) -> bool {
    let current = effect.data.target.epoch == effect.current_epoch;
    let before = flags_of(pre.state, current);
    let after = flags_of(post.state, current);
    let earned = bits_of(effect.flag_indices);
    let caches = pre.state.caches;
    &&& validators.len() > 0 ==> (current || effect.data.target.epoch == effect.previous_epoch)
        && !(pre.state.fork is Base)
    &&& forall|v: int| #[trigger]
        listed(validators, v) ==> v < caches.effective_balances.len() && (earned != 0 ==> v
            < before.len())
    &&& after.len() == before.len()
    &&& forall|v: int|
        0 <= v < before.len() ==> #[trigger] after[v].bits == (if listed(validators, v) {
            before[v].bits | earned
        } else {
            before[v].bits
        })
    &&& post.reward_numerator == sum_of_distinct(
        validators,
        rewards_of_gainers(pre.state, before, after),
    )
    &&& match effect.payment_index {
        None => post.weight == 0,
        Some(payment_index) => {
            &&& validators.len() > 0 ==> payments_of(pre.state) is Some && payment_index
                < payments_of(pre.state)->0.len()
            &&& post.weight == (if votes_for_own_slot(pre.state, effect.data) && payments_of(
                pre.state,
            )->0[payment_index as int].withdrawal.amount > 0 {
                sum_of_distinct(validators, balance_of_gainers(pre.state, before, after))
            } else {
                0
            })
        },
    }
    &&& post.state.with_participation(current, before) == (StateModel {
        caches: post.state.caches,
        ..pre.state
    })
    &&& progressed(
        effect.data.target.epoch,
        pre.state,
        post.state,
        sum_of_distinct(validators, unslashed_balance_of_gainers(pre.state, before, after, 1)),
        sum_of_distinct(validators, unslashed_balance_of_gainers(pre.state, before, after, 2)),
        sum_of_distinct(validators, unslashed_balance_of_gainers(pre.state, before, after, 4)),
    )
}

/// The sum depends on nothing but the amounts of the validators in the list.
proof fn lemma_sum_of_equal_amounts(
    validators: Seq<u64>,
    a: spec_fn(int) -> int,
    b: spec_fn(int) -> int,
)
    requires
        forall|v: int| #[trigger] listed(validators, v) ==> a(v) == b(v),
    ensures
        sum_of_distinct(validators, a) == sum_of_distinct(validators, b),
    decreases validators.len(),
{
    if validators.len() > 0 {
        let others = validators.drop_last();
        assert forall|v: int| #[trigger] listed(others, v) implies a(v) == b(v) by {
            let i = choose|i: int|
                0 <= i < others.len() && (#[trigger] others[i]) as usize == v;
            assert(validators[i] as usize == v);
            assert(listed(validators, v));
        }
        lemma_sum_of_equal_amounts(others, a, b);
        assert(validators[validators.len() - 1] as usize == validators.last() as usize);
        assert(listed(validators, (validators.last() as usize) as int));
    }
}

pub(super) proof fn lemma_or_twice(bits: u8, more: u8)
    ensures
        (bits | more) | more == bits | more,
        bits | 0 == bits,
{
    assert((bits | more) | more == bits | more) by (bit_vector);
    assert(bits | 0 == bits) by (bit_vector);
}

#[verifier::spinoff_prover]
#[verifier::rlimit(60)]
pub(super) proof fn lemma_all_counted(effect: Effect, pre: Tally, validators: Seq<u64>)
    requires
        pre.reward_numerator == 0,
        pre.weight == 0,
        effect.attest_all(pre, validators) is Ok,
        effect.payment_index is Some ==> effect.data.slot.0 <= usize::MAX,
    ensures
        all_counted(effect, pre, validators, effect.attest_all(pre, validators)->Ok_0),
    decreases validators.len(),
{
    let post = effect.attest_all(pre, validators)->Ok_0;
    let current = effect.data.target.epoch == effect.current_epoch;
    let before = flags_of(pre.state, current);
    let after = flags_of(post.state, current);
    let earned = bits_of(effect.flag_indices);
    if validators.len() == 0 {
        assert(post.state.with_participation(current, before) =~= pre.state);
    } else {
        let others = validators.drop_last();
        let last = validators.last();
        let index = (last as usize) as int;
        lemma_all_counted(effect, pre, others);
        let middle = effect.attest_all(pre, others)->Ok_0;
        let between = flags_of(middle.state, current);
        lemma_validator_counted(effect, middle, last);
        lemma_or_twice(before[index].bits, earned);
        lemma_or_twice(between[index].bits, earned);
        assert forall|v: int| listed(validators, v) == (listed(others, v) || v == index) by {
            if listed(others, v) {
                let i = choose|i: int|
                    0 <= i < others.len() && (#[trigger] others[i]) as usize == v;
                assert(validators[i] as usize == v);
            }
            if v == index {
                assert(validators[validators.len() - 1] as usize == v);
            }
            if listed(validators, v) && v != index {
                let i = choose|i: int|
                    0 <= i < validators.len() && (#[trigger] validators[i]) as usize == v;
                assert(others[i] as usize == v);
            }
        }
        assert(listed(validators, index));
        assert(listed(others, index) == exists|i: int|
            0 <= i < others.len() && #[trigger] others[i] as usize == last as usize);
        if earned == 0 {
            assert forall|v: int| 0 <= v < before.len() implies between[v] == before[v] by {
                lemma_or_twice(before[v].bits, earned);
                assert(between[v].bits == before[v].bits);
            }
            assert(between =~= before);
            assert(after =~= between);
        }
        if listed(others, index) {
            assert(after =~= between);
        } else {
            assert(before[index] == between[index]) by {
                if index < before.len() {
                    assert(between[index].bits == before[index].bits);
                }
            }
        }
        assert(middle.state.fork is Base == pre.state.fork is Base);
        assert(payments_of(middle.state) == payments_of(pre.state));
        assert(middle.state.block_roots == pre.state.block_roots);
        assert(post.state.with_participation(current, before) =~= StateModel {
            caches: post.state.caches,
            ..pre.state
        });
        assert forall|v: int| #[trigger] listed(others, v) && v != index implies between[v]
            == after[v] by {}
        lemma_sum_of_equal_amounts(
            others,
            rewards_of_gainers(pre.state, before, between),
            rewards_of_gainers(pre.state, before, after),
        );
        lemma_sum_of_equal_amounts(
            others,
            balance_of_gainers(pre.state, before, between),
            balance_of_gainers(pre.state, before, after),
        );
        lemma_sum_of_equal_amounts(
            others,
            unslashed_balance_of_gainers(pre.state, before, between, 1),
            unslashed_balance_of_gainers(pre.state, before, after, 1),
        );
        lemma_sum_of_equal_amounts(
            others,
            unslashed_balance_of_gainers(pre.state, before, between, 2),
            unslashed_balance_of_gainers(pre.state, before, after, 2),
        );
        lemma_sum_of_equal_amounts(
            others,
            unslashed_balance_of_gainers(pre.state, before, between, 4),
            unslashed_balance_of_gainers(pre.state, before, after, 4),
        );
        assert(pre.state.caches.base_rewards[index] * 0 == 0) by (nonlinear_arith);
    }
}

proof fn lemma_reward_denominator()
    ensures
        proposer_reward_denominator() == 448,
{
}

/// What an attestation that has been accepted comes down to (from Gloas on).
proof fn lemma_gloas_counted(
    slots_per_epoch: u64,
    state: StateModel,
    data: AttestationData,
    att_index: usize,
    previous_epoch: Epoch,
    current_epoch: Epoch,
    calls: AttestationCalls,
)
    requires
        gloas_outcome(
            slots_per_epoch,
            state,
            data,
            att_index,
            previous_epoch,
            current_epoch,
            calls,
        ).1 is Ok,
        data.slot.0 <= usize::MAX,
        slots_per_epoch <= usize::MAX,
    ensures
        ({
            let effect = Effect {
                data,
                previous_epoch,
                current_epoch,
                flag_indices: calls.participation_flag_indices->Ok_0@,
                payment_index: Some(payment_index(slots_per_epoch, state, data)->Ok_0),
            };
            let before = Tally { state, reward_numerator: 0, weight: 0, fresh: false };
            let validators = calls.attesting_indices->Ok_0@;
            &&& effect.attest_all(before, validators) is Ok
            &&& all_counted(
                effect,
                before,
                validators,
                effect.attest_all(before, validators)->Ok_0,
            )
        }),
{
    let effect = Effect {
        data,
        previous_epoch,
        current_epoch,
        flag_indices: calls.participation_flag_indices->Ok_0@,
        payment_index: Some(payment_index(slots_per_epoch, state, data)->Ok_0),
    };
    let before = Tally { state, reward_numerator: 0, weight: 0, fresh: false };
    lemma_all_counted(effect, before, calls.attesting_indices->Ok_0@);
}

/// An attestation that has been accepted gives each of its validators the flags that it earns, in
/// the epoch of its target, and leaves all other flags as they were (from Gloas on).
pub proof fn lemma_gloas_attestation_sets_the_earned_flags(
    slots_per_epoch: u64,
    state: StateModel,
    data: AttestationData,
    att_index: usize,
    previous_epoch: Epoch,
    current_epoch: Epoch,
    calls: AttestationCalls,
)
    requires
        gloas_outcome(
            slots_per_epoch,
            state,
            data,
            att_index,
            previous_epoch,
            current_epoch,
            calls,
        ).1 is Ok,
        data.slot.0 <= usize::MAX,
        slots_per_epoch <= usize::MAX,
    ensures
        ({
            let post = gloas_outcome(
                slots_per_epoch,
                state,
                data,
                att_index,
                previous_epoch,
                current_epoch,
                calls,
            ).0;
            let validators = calls.attesting_indices->Ok_0@;
            let earned = bits_of(calls.participation_flag_indices->Ok_0@);
            let current = data.target.epoch == current_epoch;
            let before = flags_of(state, current);
            let after = flags_of(post, current);
            &&& validators.len() > 0 ==> current || data.target.epoch == previous_epoch
            &&& flags_of(post, !current) == flags_of(state, !current)
            &&& after.len() == before.len()
            &&& forall|v: int|
                0 <= v < before.len() ==> #[trigger] after[v].bits == (if listed(validators, v) {
                    before[v].bits | earned
                } else {
                    before[v].bits
                })
            &&& forall|v: int| #[trigger]
                listed(validators, v) && earned != 0 ==> v < before.len()
        }),
{
    lemma_gloas_counted(
        slots_per_epoch,
        state,
        data,
        att_index,
        previous_epoch,
        current_epoch,
        calls,
    );
}

/// An attestation that has been accepted pays the proposer of the block: the base rewards of the
/// validators for the flags that they gained, 14, 26 and 14 parts, divided by 448. Nobody else's
/// balance changes (from Gloas on).
pub proof fn lemma_gloas_attestation_pays_the_proposer(
    slots_per_epoch: u64,
    state: StateModel,
    data: AttestationData,
    att_index: usize,
    previous_epoch: Epoch,
    current_epoch: Epoch,
    calls: AttestationCalls,
)
    requires
        gloas_outcome(
            slots_per_epoch,
            state,
            data,
            att_index,
            previous_epoch,
            current_epoch,
            calls,
        ).1 is Ok,
        data.slot.0 <= usize::MAX,
        slots_per_epoch <= usize::MAX,
    ensures
        ({
            let post = gloas_outcome(
                slots_per_epoch,
                state,
                data,
                att_index,
                previous_epoch,
                current_epoch,
                calls,
            ).0;
            let validators = calls.attesting_indices->Ok_0@;
            let proposer = (calls.proposer_index->Ok_0 as usize) as int;
            let current = data.target.epoch == current_epoch;
            let rewards = sum_of_distinct(
                validators,
                rewards_of_gainers(state, flags_of(state, current), flags_of(post, current)),
            );
            &&& post.balances.len() == state.balances.len()
            &&& proposer < state.balances.len()
            &&& post.balances[proposer] == state.balances[proposer] + rewards / 448
            &&& forall|v: int|
                0 <= v < state.balances.len() && v != proposer ==> #[trigger] post.balances[v]
                    == state.balances[v]
        }),
{
    lemma_gloas_counted(
        slots_per_epoch,
        state,
        data,
        att_index,
        previous_epoch,
        current_epoch,
        calls,
    );
    lemma_reward_denominator();
}

/// An attestation that has been accepted adds to the progressive balances of the epoch of its
/// target, for each flag, the effective balances of the validators that gained it and have not been
/// slashed (from Gloas on).
pub proof fn lemma_gloas_attestation_adds_to_the_progressive_balances(
    slots_per_epoch: u64,
    state: StateModel,
    data: AttestationData,
    att_index: usize,
    previous_epoch: Epoch,
    current_epoch: Epoch,
    calls: AttestationCalls,
)
    requires
        gloas_outcome(
            slots_per_epoch,
            state,
            data,
            att_index,
            previous_epoch,
            current_epoch,
            calls,
        ).1 is Ok,
        data.slot.0 <= usize::MAX,
        slots_per_epoch <= usize::MAX,
    ensures
        ({
            let post = gloas_outcome(
                slots_per_epoch,
                state,
                data,
                att_index,
                previous_epoch,
                current_epoch,
                calls,
            ).0;
            let validators = calls.attesting_indices->Ok_0@;
            let current = data.target.epoch == current_epoch;
            let before = flags_of(state, current);
            let after = flags_of(post, current);
            progressed(
                data.target.epoch,
                state,
                post,
                sum_of_distinct(validators, unslashed_balance_of_gainers(state, before, after, 1)),
                sum_of_distinct(validators, unslashed_balance_of_gainers(state, before, after, 2)),
                sum_of_distinct(validators, unslashed_balance_of_gainers(state, before, after, 4)),
            )
        }),
{
    lemma_gloas_counted(
        slots_per_epoch,
        state,
        data,
        att_index,
        previous_epoch,
        current_epoch,
        calls,
    );
}

/// An attestation that has been accepted adds to the weight of one builder payment the effective
/// balances of its validators that gained a flag, each once, if it votes for the block of its own
/// slot and the payment is not empty; otherwise it adds nothing. The payment is that of the
/// attestation's slot, in the second half of the payments if its target is the current epoch and in
/// the first half if not. Nothing else about the payments changes.
pub proof fn lemma_payment_gains_the_balances_of_new_voters(
    slots_per_epoch: u64,
    state: StateModel,
    data: AttestationData,
    att_index: usize,
    previous_epoch: Epoch,
    current_epoch: Epoch,
    calls: AttestationCalls,
)
    requires
        gloas_outcome(
            slots_per_epoch,
            state,
            data,
            att_index,
            previous_epoch,
            current_epoch,
            calls,
        ).1 is Ok,
        data.slot.0 <= usize::MAX,
        slots_per_epoch <= usize::MAX,
    ensures
        ({
            let post = gloas_outcome(
                slots_per_epoch,
                state,
                data,
                att_index,
                previous_epoch,
                current_epoch,
                calls,
            ).0;
            let validators = calls.attesting_indices->Ok_0@;
            let current = data.target.epoch == current_epoch;
            let position = data.slot.0 % slots_per_epoch + (if data.target.epoch.0 == state.slot.0
                / slots_per_epoch {
                slots_per_epoch as int
            } else {
                0
            });
            match (payments_of(state), payments_of(post)) {
                (Some(before), Some(after)) => {
                    &&& after.len() == before.len()
                    &&& validators.len() > 0 ==> position < before.len()
                    &&& position < before.len() ==> {
                        &&& after[position].withdrawal == before[position].withdrawal
                        &&& after[position].weight == before[position].weight + (
                        if votes_for_own_slot(state, data) && before[position].withdrawal.amount
                            > 0 {
                            sum_of_distinct(
                                validators,
                                balance_of_gainers(
                                    state,
                                    flags_of(state, current),
                                    flags_of(post, current),
                                ),
                            )
                        } else {
                            0
                        })
                    }
                    &&& forall|i: int|
                        0 <= i < before.len() && i != position ==> #[trigger] after[i]
                            == before[i]
                },
                (None, None) => validators.len() == 0,
                _ => false,
            }
        }),
{
    lemma_gloas_counted(
        slots_per_epoch,
        state,
        data,
        att_index,
        previous_epoch,
        current_epoch,
        calls,
    );
}

/// What an attestation that has been accepted comes down to (before Gloas).
proof fn lemma_altair_counted(
    state: StateModel,
    data: AttestationData,
    att_index: usize,
    previous_epoch: Epoch,
    current_epoch: Epoch,
    calls: AttestationCalls,
)
    requires
        altair_outcome(
            state,
            data,
            att_index,
            previous_epoch,
            current_epoch,
            calls,
        ).1 is Ok,
    ensures
        ({
            let effect = Effect {
                data,
                previous_epoch,
                current_epoch,
                flag_indices: calls.participation_flag_indices->Ok_0@,
                payment_index: None,
            };
            let before = Tally { state, reward_numerator: 0, weight: 0, fresh: false };
            let validators = calls.attesting_indices->Ok_0@;
            &&& effect.attest_all(before, validators) is Ok
            &&& all_counted(
                effect,
                before,
                validators,
                effect.attest_all(before, validators)->Ok_0,
            )
        }),
{
    let effect = Effect {
        data,
        previous_epoch,
        current_epoch,
        flag_indices: calls.participation_flag_indices->Ok_0@,
        payment_index: None,
    };
    let before = Tally { state, reward_numerator: 0, weight: 0, fresh: false };
    lemma_all_counted(effect, before, calls.attesting_indices->Ok_0@);
}

/// An attestation that has been accepted gives each of its validators the flags that it earns, in
/// the epoch of its target, and leaves all other flags as they were (before Gloas).
pub proof fn lemma_altair_attestation_sets_the_earned_flags(
    state: StateModel,
    data: AttestationData,
    att_index: usize,
    previous_epoch: Epoch,
    current_epoch: Epoch,
    calls: AttestationCalls,
)
    requires
        altair_outcome(
            state,
            data,
            att_index,
            previous_epoch,
            current_epoch,
            calls,
        ).1 is Ok,
    ensures
        ({
            let post = altair_outcome(
                state,
                data,
                att_index,
                previous_epoch,
                current_epoch,
                calls,
            ).0;
            let validators = calls.attesting_indices->Ok_0@;
            let earned = bits_of(calls.participation_flag_indices->Ok_0@);
            let current = data.target.epoch == current_epoch;
            let before = flags_of(state, current);
            let after = flags_of(post, current);
            &&& validators.len() > 0 ==> current || data.target.epoch == previous_epoch
            &&& flags_of(post, !current) == flags_of(state, !current)
            &&& after.len() == before.len()
            &&& forall|v: int|
                0 <= v < before.len() ==> #[trigger] after[v].bits == (if listed(validators, v) {
                    before[v].bits | earned
                } else {
                    before[v].bits
                })
            &&& forall|v: int| #[trigger]
                listed(validators, v) && earned != 0 ==> v < before.len()
        }),
{
    lemma_altair_counted(state, data, att_index, previous_epoch, current_epoch, calls);
}

/// An attestation that has been accepted pays the proposer of the block: the base rewards of the
/// validators for the flags that they gained, 14, 26 and 14 parts, divided by 448. Nobody else's
/// balance changes (before Gloas).
pub proof fn lemma_altair_attestation_pays_the_proposer(
    state: StateModel,
    data: AttestationData,
    att_index: usize,
    previous_epoch: Epoch,
    current_epoch: Epoch,
    calls: AttestationCalls,
)
    requires
        altair_outcome(
            state,
            data,
            att_index,
            previous_epoch,
            current_epoch,
            calls,
        ).1 is Ok,
    ensures
        ({
            let post = altair_outcome(
                state,
                data,
                att_index,
                previous_epoch,
                current_epoch,
                calls,
            ).0;
            let validators = calls.attesting_indices->Ok_0@;
            let proposer = (calls.proposer_index->Ok_0 as usize) as int;
            let current = data.target.epoch == current_epoch;
            let rewards = sum_of_distinct(
                validators,
                rewards_of_gainers(state, flags_of(state, current), flags_of(post, current)),
            );
            &&& post.balances.len() == state.balances.len()
            &&& proposer < state.balances.len()
            &&& post.balances[proposer] == state.balances[proposer] + rewards / 448
            &&& forall|v: int|
                0 <= v < state.balances.len() && v != proposer ==> #[trigger] post.balances[v]
                    == state.balances[v]
        }),
{
    lemma_altair_counted(state, data, att_index, previous_epoch, current_epoch, calls);
    lemma_reward_denominator();
}

/// An attestation that has been accepted adds to the progressive balances of the epoch of its
/// target, for each flag, the effective balances of the validators that gained it and have not been
/// slashed (before Gloas).
pub proof fn lemma_altair_attestation_adds_to_the_progressive_balances(
    state: StateModel,
    data: AttestationData,
    att_index: usize,
    previous_epoch: Epoch,
    current_epoch: Epoch,
    calls: AttestationCalls,
)
    requires
        altair_outcome(
            state,
            data,
            att_index,
            previous_epoch,
            current_epoch,
            calls,
        ).1 is Ok,
    ensures
        ({
            let post = altair_outcome(
                state,
                data,
                att_index,
                previous_epoch,
                current_epoch,
                calls,
            ).0;
            let validators = calls.attesting_indices->Ok_0@;
            let current = data.target.epoch == current_epoch;
            let before = flags_of(state, current);
            let after = flags_of(post, current);
            progressed(
                data.target.epoch,
                state,
                post,
                sum_of_distinct(validators, unslashed_balance_of_gainers(state, before, after, 1)),
                sum_of_distinct(validators, unslashed_balance_of_gainers(state, before, after, 2)),
                sum_of_distinct(validators, unslashed_balance_of_gainers(state, before, after, 4)),
            )
        }),
{
    lemma_altair_counted(state, data, att_index, previous_epoch, current_epoch, calls);
}

} // verus!
