//! The builder payments that have enough support.

use super::attestations::payments_of;
use crate::arith::ArithError;
use crate::beacon_state::{
    BeaconState, BuilderPendingPayment, BuilderPendingWithdrawal, ExitChurn, ForkModel, StateModel,
};
use crate::builder_payments::{
    lemma_payments_move_up, min_nat, payment_applied, payment_outcome, payments_applied,
    payments_processed, qualifying_payments, quorum_threshold,
};
use crate::errors::{BeaconStateError, EpochProcessingError, MilhouseError};
use crate::eth_spec::{ChainSpec, EthSpec};
use crate::primitives::Epoch;
use vstd::arithmetic::div_mod::{lemma_div_is_ordered, lemma_fundamental_div_mod, lemma_mod_bound};
use vstd::prelude::*;

verus! {

proof fn lemma_floor(a: int, b: int)
    requires
        b > 0,
    ensures
        (a / b) * b <= a < (a / b + 1) * b,
{
    lemma_fundamental_div_mod(a, b);
    lemma_mod_bound(a, b);
    assert((a / b) * b == b * (a / b)) by (nonlinear_arith);
    assert((a / b + 1) * b == b * (a / b) + b) by (nonlinear_arith);
}

/// The quorum is the given share of the active balance of a slot, rounded down: that many
/// denominators fit into the share, and not one more. There is a quorum whenever the active balance
/// is known, neither divisor is zero and the share can be computed.
pub proof fn lemma_quorum_is_the_share_of_a_slot(
    state: StateModel,
    spec: ChainSpec,
    slots_per_epoch: u64,
)
    ensures
        ({
            let numerator = spec.builder_payment_threshold_numerator;
            let denominator = spec.builder_payment_threshold_denominator;
            match (state.total_active_balance, quorum_threshold(state, spec, slots_per_epoch)) {
                (Some(total), Ok(q)) => {
                    &&& slots_per_epoch > 0
                    &&& denominator > 0
                    &&& q * denominator <= (total / slots_per_epoch) * numerator < (q + 1)
                        * denominator
                },
                (Some(total), Err(e)) => {
                    ||| e == EpochProcessingError::ArithError(ArithError::DivisionByZero) && (
                    slots_per_epoch == 0 || denominator == 0)
                    ||| e == EpochProcessingError::ArithError(ArithError::Overflow)
                        && slots_per_epoch > 0 && (total / slots_per_epoch) * numerator > u64::MAX
                },
                (None, r) => r == Err::<u64, EpochProcessingError>(
                    EpochProcessingError::BeaconStateError(
                        BeaconStateError::TotalActiveBalanceCacheUninitialized,
                    ),
                ),
            }
        }),
{
    match state.total_active_balance {
        Some(total) => {
            if slots_per_epoch > 0 && spec.builder_payment_threshold_denominator > 0 {
                let share = (total / slots_per_epoch) * spec.builder_payment_threshold_numerator;
                assert(share >= 0) by (nonlinear_arith)
                    requires
                        share == (total / slots_per_epoch)
                            * spec.builder_payment_threshold_numerator,
                        slots_per_epoch > 0,
                ;
                lemma_floor(share, spec.builder_payment_threshold_denominator as int);
            } else if slots_per_epoch > 0 {
                assert((total / slots_per_epoch) * spec.builder_payment_threshold_numerator >= 0)
                    by (nonlinear_arith)
                    requires
                        slots_per_epoch > 0,
                ;
            }
        },
        None => {},
    }
}

/// The quorum never falls when the total active balance grows.
pub proof fn lemma_quorum_grows_with_the_active_balance(
    state: StateModel,
    later: StateModel,
    spec: ChainSpec,
    slots_per_epoch: u64,
)
    requires
        state.total_active_balance is Some,
        later.total_active_balance is Some,
        state.total_active_balance->0 <= later.total_active_balance->0,
        quorum_threshold(later, spec, slots_per_epoch) is Ok,
    ensures
        quorum_threshold(state, spec, slots_per_epoch) matches Ok(q) && q <= quorum_threshold(
            later,
            spec,
            slots_per_epoch,
        )->Ok_0,
{
    let n = spec.builder_payment_threshold_numerator as int;
    let a = state.total_active_balance->0 as int;
    let b = later.total_active_balance->0 as int;
    let s = slots_per_epoch as int;
    lemma_div_is_ordered(a, b, s);
    assert(0 <= (a / s) * n <= (b / s) * n) by (nonlinear_arith)
        requires
            0 <= a / s <= b / s,
            0 <= n,
    ;
    lemma_div_is_ordered(
        (a / s) * n,
        (b / s) * n,
        spec.builder_payment_threshold_denominator as int,
    );
}

/// The builder withdrawals that wait, where there are such withdrawals.
pub open spec fn withdrawals_of(state: StateModel) -> Option<Seq<BuilderPendingWithdrawal>> {
    match state.fork {
        ForkModel::Gloas { builder_pending_withdrawals, .. } => Some(builder_pending_withdrawals),
        _ => None,
    }
}

/// Whether `a` and `b` agree in all but the builder payments, the builder withdrawals and the
/// churn.
pub open spec fn agree_but_for_payments(a: StateModel, b: StateModel) -> bool {
    &&& a.slot == b.slot
    &&& a.genesis_time == b.genesis_time
    &&& a.latest_block_header == b.latest_block_header
    &&& a.block_roots == b.block_roots
    &&& a.randao_mixes == b.randao_mixes
    &&& a.balances == b.balances
    &&& a.total_active_balance == b.total_active_balance
    &&& a.caches == b.caches
    &&& match (a.fork, b.fork) {
        (
            ForkModel::Gloas {
                previous_epoch_participation: a_previous,
                current_epoch_participation: a_current,
                latest_block_hash: a_hash,
                latest_execution_bid: a_bid,
                latest_withdrawals_root: a_root,
                ..
            },
            ForkModel::Gloas {
                previous_epoch_participation: b_previous,
                current_epoch_participation: b_current,
                latest_block_hash: b_hash,
                latest_execution_bid: b_bid,
                latest_withdrawals_root: b_root,
                ..
            },
        ) => a_previous == b_previous && a_current == b_current && a_hash == b_hash && a_bid
            == b_bid && a_root == b_root,
        _ => a.fork == b.fork,
    }
}

/// Whether `which` holds the positions of the payments among the first `n` whose weight exceeds
/// `q`, in order.
pub open spec fn positions_of_supported(
    payments: Seq<BuilderPendingPayment>,
    n: int,
    q: int,
    which: Seq<int>,
) -> bool {
    &&& forall|j: int, k: int| 0 <= j < k < which.len() ==> which[j] < which[k]
    &&& forall|j: int|
        0 <= j < which.len() ==> 0 <= #[trigger] which[j] < n && which[j] < payments.len()
            && payments[which[j]].weight > q
    &&& forall|i: int|
        0 <= i < n && i < payments.len() && (#[trigger] payments[i]).weight > q ==> which.contains(
            i,
        )
}

/// Whether a payment has led from `pre` to `post`: the churn is that of the reply, one withdrawal
/// waits that did not before, and nothing else has changed. The withdrawal goes to the recipient
/// and builder of the payment, over its amount, and can be made after the given delay.
pub open spec fn payment_led_to(
    pre: StateModel,
    payment: BuilderPendingPayment,
    exit_epoch: Epoch,
    churn: ExitChurn,
    delay: u64,
    post: StateModel,
) -> bool {
    &&& agree_but_for_payments(pre, post)
    &&& payments_of(post) == payments_of(pre)
    &&& post.exit_churn == churn
    &&& match (withdrawals_of(pre), withdrawals_of(post)) {
        (Some(before), Some(after)) => {
            &&& after.len() == before.len() + 1
            &&& forall|i: int| 0 <= i < before.len() ==> #[trigger] after[i] == before[i]
            &&& after.last().fee_recipient == payment.withdrawal.fee_recipient
            &&& after.last().amount == payment.withdrawal.amount
            &&& after.last().builder_index == payment.withdrawal.builder_index
            &&& after.last().withdrawable_epoch.0 == exit_epoch.0 + delay
        },
        _ => false,
    }
}

/// A payment becomes a withdrawal whenever an exit epoch was found, that of the withdrawal can be
/// computed and there is room. Otherwise no withdrawal is added, and the reason is given.
pub proof fn lemma_payment_becomes_a_withdrawal_when_there_is_room(
    state: StateModel,
    payment: BuilderPendingPayment,
    reply: Result<(Epoch, ExitChurn), BeaconStateError>,
    delay: u64,
    limit: usize,
)
    ensures
        ({
            let (post, r) = payment_outcome(state, payment, reply, delay, limit);
            match reply {
                Err(e) => post == state && r == Err::<(), EpochProcessingError>(
                    EpochProcessingError::BeaconStateError(e),
                ),
                Ok((exit_epoch, churn)) => if exit_epoch.0 + delay > u64::MAX {
                    post == (StateModel { exit_churn: churn, ..state }) && r == Err::<
                        (),
                        EpochProcessingError,
                    >(EpochProcessingError::ArithError(ArithError::Overflow))
                } else {
                    match withdrawals_of(state) {
                        None => post == (StateModel { exit_churn: churn, ..state }) && r == Err::<
                            (),
                            EpochProcessingError,
                        >(
                            EpochProcessingError::BeaconStateError(
                                BeaconStateError::IncorrectStateVariant,
                            ),
                        ),
                        Some(waiting) => if waiting.len() < limit {
                            r is Ok && payment_led_to(
                                state,
                                payment,
                                exit_epoch,
                                churn,
                                delay,
                                post,
                            )
                        } else {
                            post == (StateModel { exit_churn: churn, ..state }) && r
                                == Err::<(), EpochProcessingError>(
                                EpochProcessingError::MilhouseError(
                                    MilhouseError::ListFull { len: waiting.len() as usize },
                                ),
                            )
                        },
                    }
                },
            }
        }),
{
}

proof fn lemma_supported_positions(payments: Seq<BuilderPendingPayment>, n: int, q: u64) -> (which:
    Seq<int>)
    requires
        0 <= n <= payments.len(),
    ensures
        positions_of_supported(payments, n, q as int, which),
        ({
            let supported = payments.take(n).filter(
                |payment: BuilderPendingPayment| payment.weight > q,
            );
            &&& supported.len() == which.len()
            &&& forall|j: int|
                0 <= j < which.len() ==> supported[j] == payments[#[trigger] which[j]]
        }),
    decreases n,
{
    reveal(Seq::filter);
    if n == 0 {
        Seq::empty()
    } else {
        let before = lemma_supported_positions(payments, n - 1, q);
        assert(payments.take(n).drop_last() =~= payments.take(n - 1));
        let which = if payments[n - 1].weight > q {
            before.push(n - 1)
        } else {
            before
        };
        assert forall|i: int| 0 <= i < n && (#[trigger] payments[i]).weight > q implies which
            .contains(i) by {
            if i < n - 1 {
                let j = choose|j: int| 0 <= j < before.len() && before[j] == i;
                assert(which[j] == i);
            } else {
                assert(which[which.len() - 1] == i);
            }
        }
        which
    }
}

/// Whether an exit epoch was asked for a payment in `pre`, and the payment has led from there to
/// `post`.
pub open spec fn payment_settled<C>(
    compute_exit_epoch_and_update_churn: C,
    pre: BeaconState,
    payment: BuilderPendingPayment,
    delay: u64,
    post: BeaconState,
) -> bool where C: Fn(&BeaconState, u64) -> Result<(Epoch, ExitChurn), BeaconStateError> {
    exists|reply: Result<(Epoch, ExitChurn), BeaconStateError>| #[trigger]
        call_ensures(
            compute_exit_epoch_and_update_churn,
            (&pre, payment.withdrawal.amount),
            reply,
        ) && reply is Ok && payment_led_to(
            pre@,
            payment,
            reply->Ok_0.0,
            reply->Ok_0.1,
            delay,
            post@,
        )
}

/// At the end of an epoch exactly the payments of its slots with more weight than the quorum become
/// withdrawals, in the order of the slots. The exit epoch of each is asked for with its amount, in
/// the state that the one before left.
pub proof fn lemma_supported_payments_are_settled_in_order<E: EthSpec, C>(
    compute_exit_epoch_and_update_churn: C,
    spec: ChainSpec,
    pre: BeaconState,
    states: Seq<BeaconState>,
    applied: Result<(), EpochProcessingError>,
    post: BeaconState,
    q: int,
) where C: Fn(&BeaconState, u64) -> Result<(Epoch, ExitChurn), BeaconStateError>
    requires
        payments_processed::<E, C>(
            compute_exit_epoch_and_update_churn,
            spec,
            pre,
            states,
            applied,
            post,
            Ok(()),
        ),
        E::spec_slots_per_epoch() <= usize::MAX,
        pre.total_active_balance is Some,
        0 <= q,
        q * spec.builder_payment_threshold_denominator <= (pre.total_active_balance->0
            / E::spec_slots_per_epoch()) * spec.builder_payment_threshold_numerator < (q + 1)
            * spec.builder_payment_threshold_denominator,
    ensures
        payments_of(pre@) is Some,
        exists|which: Seq<int>| #[trigger]
            positions_of_supported(
                payments_of(pre@)->0,
                E::spec_slots_per_epoch() as int,
                q,
                which,
            ) && {
                &&& states.len() == which.len() + 1
                &&& states.first() == pre
                &&& forall|j: int|
                    0 <= j < which.len() ==> payment_settled(
                        compute_exit_epoch_and_update_churn,
                        #[trigger] states[j],
                        payments_of(pre@)->0[which[j]],
                        spec.min_validator_withdrawability_delay,
                        states[j + 1],
                    )
                &&& agree_but_for_payments(states.last()@, post@)
                &&& withdrawals_of(post@) == withdrawals_of(states.last()@)
                &&& post.exit_churn == states.last().exit_churn
            },
{
    let slots_per_epoch = E::spec_slots_per_epoch();
    let payments = payments_of(pre@)->0;
    let quorum = quorum_threshold(pre@, spec, slots_per_epoch)->Ok_0;
    lemma_quorum_is_the_share_of_a_slot(pre@, spec, slots_per_epoch);
    lemma_share_is_unique(
        q,
        quorum as int,
        spec.builder_payment_threshold_denominator as int,
        (pre.total_active_balance->0 / slots_per_epoch)
            * spec.builder_payment_threshold_numerator,
    );
    let n = min_nat(slots_per_epoch as nat, payments.len()) as int;
    let which = lemma_supported_positions(payments, n, quorum);
    assert(positions_of_supported(payments, slots_per_epoch as int, q, which));
    let qualifying = qualifying_payments(payments, slots_per_epoch as nat, quorum);
    assert forall|j: int| 0 <= j < which.len() implies payment_settled(
        compute_exit_epoch_and_update_churn,
        #[trigger] states[j],
        payments[which[j]],
        spec.min_validator_withdrawability_delay,
        states[j + 1],
    ) by {
        assert(qualifying[j] == payments[which[j]]);
        assert(payment_applied(
            compute_exit_epoch_and_update_churn,
            states[j],
            qualifying[j],
            spec.min_validator_withdrawability_delay,
            E::spec_builder_pending_withdrawals_limit(),
            states[j + 1],
            Ok(()),
        ));
    }
}

proof fn lemma_share_is_unique(p: int, q: int, d: int, share: int)
    by (nonlinear_arith)
    requires
        0 <= p,
        0 <= q,
        p * d <= share < (p + 1) * d,
        q * d <= share < (q + 1) * d,
    ensures
        p == q,
{
}

/// After the end of an epoch the payments of the next one have moved to the front, in order, and
/// empty ones stand in their place: no weight, no amount, no builder and no recipient.
pub proof fn lemma_payments_move_to_the_front<E: EthSpec, C>(
    compute_exit_epoch_and_update_churn: C,
    spec: ChainSpec,
    pre: BeaconState,
    states: Seq<BeaconState>,
    applied: Result<(), EpochProcessingError>,
    post: BeaconState,
) where C: Fn(&BeaconState, u64) -> Result<(Epoch, ExitChurn), BeaconStateError>
    requires
        payments_processed::<E, C>(
            compute_exit_epoch_and_update_churn,
            spec,
            pre,
            states,
            applied,
            post,
            Ok(()),
        ),
        E::spec_slots_per_epoch() <= usize::MAX,
    ensures
        match (payments_of(pre@), payments_of(post@)) {
            (Some(before), Some(after)) => {
                let n = E::spec_slots_per_epoch() as int;
                let kept = if n < before.len() {
                    before.len() - n
                } else {
                    0
                };
                &&& after.len() == E::spec_builder_pending_payments_limit()
                &&& after.len() == kept + n
                &&& forall|i: int| 0 <= i < kept ==> #[trigger] after[i] == before[n + i]
                &&& forall|i: int|
                    kept <= i < after.len() ==> {
                        let empty = #[trigger] after[i];
                        &&& empty.weight == 0
                        &&& empty.withdrawal.amount == 0
                        &&& empty.withdrawal.builder_index == 0
                        &&& empty.withdrawal.withdrawable_epoch.0 == 0
                        &&& empty.withdrawal.fee_recipient.bytes() == Seq::new(20, |k: int| 0u8)
                    }
            },
            _ => false,
        },
{
    lemma_payments_move_up::<E, C>(
        compute_exit_epoch_and_update_churn,
        spec,
        pre,
        states,
        applied,
        post,
    );
    let after = payments_of(post@)->0;
    let before = payments_of(pre@)->0;
    let n = E::spec_slots_per_epoch() as int;
    let kept = before.len() - min_nat(n as nat, before.len());
    assert forall|i: int| kept <= i < after.len() implies (
    #[trigger] after[i]).withdrawal.fee_recipient.bytes() == Seq::new(20, |k: int| 0u8) by {
        assert(after[i].is_default());
        assert(after[i].withdrawal.fee_recipient.bytes() =~= Seq::new(20, |k: int| 0u8));
    }
}

/// The end of an epoch goes through whenever there is a quorum, every supported payment could be
/// settled and the state has as many payments as it should. Otherwise the reason is given, and the
/// payments stay where they are.
pub proof fn lemma_payments_are_processed<E: EthSpec, C>(
    compute_exit_epoch_and_update_churn: C,
    spec: ChainSpec,
    pre: BeaconState,
    states: Seq<BeaconState>,
    applied: Result<(), EpochProcessingError>,
    post: BeaconState,
    r: Result<(), EpochProcessingError>,
) where C: Fn(&BeaconState, u64) -> Result<(Epoch, ExitChurn), BeaconStateError>
    requires
        payments_processed::<E, C>(
            compute_exit_epoch_and_update_churn,
            spec,
            pre,
            states,
            applied,
            post,
            r,
        ),
        E::spec_slots_per_epoch() <= usize::MAX,
    ensures
        match (quorum_threshold(pre@, spec, E::spec_slots_per_epoch()), payments_of(pre@)) {
            (Err(e), _) => r == Err::<(), EpochProcessingError>(e) && post@ == pre@,
            (Ok(_), None) => r == Err::<(), EpochProcessingError>(
                EpochProcessingError::BeaconStateError(BeaconStateError::IncorrectStateVariant),
            ) && post@ == pre@,
            (Ok(_), Some(payments)) => match applied {
                Err(e) => r == Err::<(), EpochProcessingError>(e) && post == states.last(),
                Ok(_) => {
                    let n = E::spec_slots_per_epoch() as int;
                    let len = if n < payments.len() {
                        payments.len() as int
                    } else {
                        n
                    };
                    let limit = E::spec_builder_pending_payments_limit();
                    if len == limit {
                        r is Ok
                    } else {
                        r == Err::<(), EpochProcessingError>(
                            EpochProcessingError::MilhouseError(
                                MilhouseError::WrongVectorLength {
                                    len: len as usize,
                                    expected: limit,
                                },
                            ),
                        ) && post@ == states.last()@
                    }
                },
            },
        },
{
    match (quorum_threshold(pre@, spec, E::spec_slots_per_epoch()), payments_of(pre@)) {
        (Ok(quorum), Some(payments)) => {
            if applied is Ok {
                let qualifying = qualifying_payments(
                    payments,
                    E::spec_slots_per_epoch() as nat,
                    quorum,
                );
                lemma_payments_stay(
                    compute_exit_epoch_and_update_churn,
                    states,
                    qualifying,
                    spec.min_validator_withdrawability_delay,
                    E::spec_builder_pending_withdrawals_limit(),
                    qualifying.len() as int,
                );
            }
        },
        _ => {},
    }
}

/// A payment that cannot be settled ends the work: those before it were, its own error is given,
/// and the state stays as the attempt left it.
pub proof fn lemma_failed_payment_ends_the_work<E: EthSpec, C>(
    compute_exit_epoch_and_update_churn: C,
    spec: ChainSpec,
    pre: BeaconState,
    states: Seq<BeaconState>,
    post: BeaconState,
    q: int,
    error: EpochProcessingError,
) where C: Fn(&BeaconState, u64) -> Result<(Epoch, ExitChurn), BeaconStateError>
    requires
        payments_processed::<E, C>(
            compute_exit_epoch_and_update_churn,
            spec,
            pre,
            states,
            Err(error),
            post,
            Err(error),
        ),
        E::spec_slots_per_epoch() <= usize::MAX,
        payments_of(pre@) is Some,
        quorum_threshold(pre@, spec, E::spec_slots_per_epoch()) matches Ok(quorum) && quorum == q,
    ensures
        exists|which: Seq<int>| #[trigger]
            positions_of_supported(
                payments_of(pre@)->0,
                E::spec_slots_per_epoch() as int,
                q,
                which,
            ) && {
                let last = states.len() - 2;
                let payments = payments_of(pre@)->0;
                &&& 0 <= last < which.len()
                &&& states.first() == pre
                &&& states.last() == post
                &&& forall|j: int|
                    0 <= j < last ==> payment_settled(
                        compute_exit_epoch_and_update_churn,
                        #[trigger] states[j],
                        payments[which[j]],
                        spec.min_validator_withdrawability_delay,
                        states[j + 1],
                    )
                &&& exists|reply: Result<(Epoch, ExitChurn), BeaconStateError>| #[trigger]
                    call_ensures(
                        compute_exit_epoch_and_update_churn,
                        (&states[last], payments[which[last]].withdrawal.amount),
                        reply,
                    ) && (post@, Err::<(), EpochProcessingError>(error)) == payment_outcome(
                        states[last]@,
                        payments[which[last]],
                        reply,
                        spec.min_validator_withdrawability_delay,
                        E::spec_builder_pending_withdrawals_limit(),
                    )
            },
{
    let slots_per_epoch = E::spec_slots_per_epoch();
    let payments = payments_of(pre@)->0;
    let quorum = quorum_threshold(pre@, spec, slots_per_epoch)->Ok_0;
    let n = min_nat(slots_per_epoch as nat, payments.len()) as int;
    let which = lemma_supported_positions(payments, n, quorum);
    assert(positions_of_supported(payments, slots_per_epoch as int, q, which));
    let qualifying = qualifying_payments(payments, slots_per_epoch as nat, quorum);
    let delay = spec.min_validator_withdrawability_delay;
    let limit = E::spec_builder_pending_withdrawals_limit();
    let last = states.len() - 2;
    assert forall|j: int| 0 <= j < last implies payment_settled(
        compute_exit_epoch_and_update_churn,
        #[trigger] states[j],
        payments[which[j]],
        delay,
        states[j + 1],
    ) by {
        assert(qualifying[j] == payments[which[j]]);
        assert(payment_applied(
            compute_exit_epoch_and_update_churn,
            states[j],
            qualifying[j],
            delay,
            limit,
            states[j + 1],
            Ok(()),
        ));
    }
    assert(qualifying[last] == payments[which[last]]);
    assert(payment_applied(
        compute_exit_epoch_and_update_churn,
        states[last],
        qualifying[last],
        delay,
        limit,
        states[last + 1],
        Err(error),
    ));
}

proof fn lemma_payments_stay<C>(
    compute_exit_epoch_and_update_churn: C,
    states: Seq<BeaconState>,
    payments: Seq<BuilderPendingPayment>,
    delay: u64,
    limit: usize,
    k: int,
) where C: Fn(&BeaconState, u64) -> Result<(Epoch, ExitChurn), BeaconStateError>
    requires
        payments_applied(
            compute_exit_epoch_and_update_churn,
            states,
            payments,
            delay,
            limit,
            Ok(()),
        ),
        0 <= k <= payments.len(),
    ensures
        payments_of(states[k]@) == payments_of(states.first()@),
    decreases k,
{
    if k > 0 {
        lemma_payments_stay(
            compute_exit_epoch_and_update_churn,
            states,
            payments,
            delay,
            limit,
            k - 1,
        );
        assert(payment_applied(
            compute_exit_epoch_and_update_churn,
            states[k - 1],
            payments[k - 1],
            delay,
            limit,
            states[k - 1 + 1],
            Ok(()),
        ));
    }
}

} // verus!
