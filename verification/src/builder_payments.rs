//! Builder payments at the end of an epoch: those with enough support turn into withdrawals, and
//! the rest move up.

use crate::arith::{fits_u64, quotient, safe_div, safe_mul, ArithError};
use crate::beacon_state::{
    BeaconState, BuilderPendingPayment, BuilderPendingWithdrawal, ExitChurn, StateModel,
};
use crate::errors::{BeaconStateError, EpochProcessingError, MilhouseError};
use crate::eth_spec::{ChainSpec, EthSpec};
use crate::primitives::Epoch;
use vstd::prelude::*;

verus! {

/// The balance that has to support a builder payment: the given share of the active balance of a
/// slot, each division rounded down.
pub open spec fn quorum_threshold(
    state: StateModel,
    spec: ChainSpec,
    slots_per_epoch: u64,
) -> Result<u64, EpochProcessingError> {
    match state.get_total_active_balance() {
        Err(e) => Err(EpochProcessingError::BeaconStateError(e)),
        Ok(total_active_balance) => match quotient(total_active_balance, slots_per_epoch) {
            Err(e) => Err(EpochProcessingError::ArithError(e)),
            Ok(per_slot) => match fits_u64(per_slot * spec.builder_payment_threshold_numerator) {
                Err(e) => Err(EpochProcessingError::ArithError(e)),
                Ok(quorum) => match quotient(quorum, spec.builder_payment_threshold_denominator) {
                    Err(e) => Err(EpochProcessingError::ArithError(e)),
                    Ok(quorum) => Ok(quorum),
                },
            },
        },
    }
}

/// The balance that has to support a builder payment.
pub fn get_builder_payment_quorum_threshold<E: EthSpec>(
    state: &BeaconState,
    spec: &ChainSpec,
) -> (r: Result<u64, EpochProcessingError>)
    ensures
        r == quorum_threshold(state@, *spec, E::spec_slots_per_epoch()),
{
    let total_active_balance: u64 = match state.get_total_active_balance() {
        Ok(balance) => balance,
        Err(e) => {
            return Err(EpochProcessingError::BeaconStateError(e));
        },
    };
    let per_slot: u64 = match safe_div(total_active_balance, E::slots_per_epoch()) {
        Ok(balance) => balance,
        Err(e) => {
            return Err(EpochProcessingError::ArithError(e));
        },
    };
    let quorum: u64 = match safe_mul(per_slot, spec.builder_payment_threshold_numerator) {
        Ok(quorum) => quorum,
        Err(e) => {
            return Err(EpochProcessingError::ArithError(e));
        },
    };
    match safe_div(quorum, spec.builder_payment_threshold_denominator) {
        Ok(quorum) => Ok(quorum),
        Err(e) => Err(EpochProcessingError::ArithError(e)),
    }
}

/// `a` or `b`, whichever is smaller.
pub open spec fn min_nat(a: nat, b: nat) -> nat {
    if a < b {
        a
    } else {
        b
    }
}

/// The payments of the first `n` slots whose weight exceeds the quorum, in order.
pub open spec fn qualifying_payments(
    payments: Seq<BuilderPendingPayment>,
    n: nat,
    quorum: u64,
) -> Seq<BuilderPendingPayment> {
    payments.take(min_nat(n, payments.len()) as int).filter(
        |payment: BuilderPendingPayment| payment.weight > quorum,
    )
}

/// The state after a payment has become a withdrawal, and how that ended, given the exit epoch
/// and the churn that remains.
pub open spec fn payment_outcome(
    state: StateModel,
    payment: BuilderPendingPayment,
    reply: Result<(Epoch, ExitChurn), BeaconStateError>,
    withdrawability_delay: u64,
    limit: usize,
) -> (StateModel, Result<(), EpochProcessingError>) {
    match reply {
        Err(e) => (state, Err(EpochProcessingError::BeaconStateError(e))),
        Ok((exit_queue_epoch, exit_churn)) => {
            let state = StateModel { exit_churn, ..state };
            match fits_u64(exit_queue_epoch.0 + withdrawability_delay) {
                Err(e) => (state, Err(EpochProcessingError::ArithError(e))),
                Ok(epoch) => match state.builder_pending_withdrawals() {
                    Err(e) => (state, Err(EpochProcessingError::BeaconStateError(e))),
                    Ok(withdrawals) => if withdrawals.len() >= limit {
                        (
                            state,
                            Err(
                                EpochProcessingError::MilhouseError(
                                    MilhouseError::ListFull { len: withdrawals.len() as usize },
                                ),
                            ),
                        )
                    } else {
                        (
                            state.with_builder_pending_withdrawals(
                                withdrawals.push(
                                    BuilderPendingWithdrawal {
                                        withdrawable_epoch: Epoch(epoch),
                                        ..payment.withdrawal
                                    },
                                ),
                            ),
                            Ok(()),
                        )
                    },
                },
            }
        },
    }
}

/// Whether a payment turns `pre` into `post` and ends with `r`.
pub open spec fn payment_applied<C>(
    compute_exit_epoch_and_update_churn: C,
    pre: BeaconState,
    payment: BuilderPendingPayment,
    withdrawability_delay: u64,
    limit: usize,
    post: BeaconState,
    r: Result<(), EpochProcessingError>,
) -> bool where C: Fn(&BeaconState, u64) -> Result<(Epoch, ExitChurn), BeaconStateError> {
    exists|reply: Result<(Epoch, ExitChurn), BeaconStateError>| #[trigger]
        call_ensures(
            compute_exit_epoch_and_update_churn,
            (&pre, payment.withdrawal.amount),
            reply,
        ) && (post@, r) == payment_outcome(
            pre@,
            payment,
            reply,
            withdrawability_delay,
            limit,
        )
}

/// Whether `states` are the states around the payments that were applied: each starts from what
/// the one before it left, all but the last succeed, and either all were applied and `r` is a
/// success, or the last one failed with `r`.
pub open spec fn payments_applied<C>(
    compute_exit_epoch_and_update_churn: C,
    states: Seq<BeaconState>,
    payments: Seq<BuilderPendingPayment>,
    withdrawability_delay: u64,
    limit: usize,
    r: Result<(), EpochProcessingError>,
) -> bool where C: Fn(&BeaconState, u64) -> Result<(Epoch, ExitChurn), BeaconStateError> {
    let applied = states.len() - 1;
    &&& 0 <= applied <= payments.len()
    &&& forall|i: int|
        0 <= i < applied - 1 ==> payment_applied(
            compute_exit_epoch_and_update_churn,
            #[trigger] states[i],
            payments[i],
            withdrawability_delay,
            limit,
            states[i + 1],
            Ok(()),
        )
    &&& applied > 0 ==> payment_applied(
        compute_exit_epoch_and_update_churn,
        states[applied - 1],
        payments[applied - 1],
        withdrawability_delay,
        limit,
        states[applied],
        r,
    )
    &&& r is Ok ==> applied == payments.len()
    &&& r is Err ==> applied > 0
}

/// Whether `after` holds the payments from position `n` on, followed by `n` empty ones.
pub open spec fn rotated(
    before: Seq<BuilderPendingPayment>,
    after: Seq<BuilderPendingPayment>,
    n: nat,
) -> bool {
    let kept = before.len() - min_nat(n, before.len());
    &&& after.len() == kept + n
    &&& forall|i: int| 0 <= i < kept ==> #[trigger] after[i] == before[n + i]
    &&& forall|i: int| kept <= i < after.len() ==> (#[trigger] after[i]).is_default()
}

/// Whether the payments of `pre` move up in `post`, and how that ends.
pub open spec fn rotation_outcome(
    pre: StateModel,
    n: nat,
    limit: usize,
    post: StateModel,
    r: Result<(), EpochProcessingError>,
) -> bool {
    match pre.builder_pending_payments() {
        Err(e) => post == pre && r == Err::<(), EpochProcessingError>(
            EpochProcessingError::BeaconStateError(e),
        ),
        Ok(payments) => {
            let len = payments.len() - min_nat(n, payments.len()) + n;
            if len != limit {
                post == pre && r == Err::<(), EpochProcessingError>(
                    EpochProcessingError::MilhouseError(
                        MilhouseError::WrongVectorLength { len: len as usize, expected: limit },
                    ),
                )
            } else {
                &&& r == Ok::<(), EpochProcessingError>(())
                &&& post.builder_pending_payments() matches Ok(after) && rotated(payments, after, n)
                    && post == pre.with_builder_pending_payments(after)
            }
        },
    }
}

/// Whether the payments of `pre` were processed through `states` into `post`, ending with `r`;
/// `applied` tells how the payments that had enough support fared.
pub open spec fn payments_processed<E: EthSpec, C>(
    compute_exit_epoch_and_update_churn: C,
    spec: ChainSpec,
    pre: BeaconState,
    states: Seq<BeaconState>,
    applied: Result<(), EpochProcessingError>,
    post: BeaconState,
    r: Result<(), EpochProcessingError>,
) -> bool where C: Fn(&BeaconState, u64) -> Result<(Epoch, ExitChurn), BeaconStateError> {
    let n = (E::spec_slots_per_epoch() as usize) as nat;
    match quorum_threshold(pre@, spec, E::spec_slots_per_epoch()) {
        Err(e) => post@ == pre@ && r == Err::<(), EpochProcessingError>(e),
        Ok(quorum) => match pre@.builder_pending_payments() {
            Err(e) => post@ == pre@ && r == Err::<(), EpochProcessingError>(
                EpochProcessingError::BeaconStateError(e),
            ),
            Ok(payments) => {
                &&& states.first() == pre
                &&& payments_applied(
                    compute_exit_epoch_and_update_churn,
                    states,
                    qualifying_payments(payments, n, quorum),
                    spec.min_validator_withdrawability_delay,
                    E::spec_builder_pending_withdrawals_limit(),
                    applied,
                )
                &&& match applied {
                    Err(e) => post == states.last() && r == Err::<(), EpochProcessingError>(e),
                    Ok(()) => rotation_outcome(
                        states.last()@,
                        n,
                        E::spec_builder_pending_payments_limit(),
                        post@,
                        r,
                    ),
                }
            },
        },
    }
}

/// Collects the payments of the first `n` slots whose weight exceeds the quorum.
fn collect_qualifying(payments: &Vec<BuilderPendingPayment>, n: usize, quorum: u64) -> (r: Vec<
    BuilderPendingPayment,
>)
    ensures
        r@ == qualifying_payments(payments@, n as nat, quorum),
{
    let ghost weighty = |payment: BuilderPendingPayment| payment.weight > quorum;
    let mut qualifying: Vec<BuilderPendingPayment> = Vec::new();
    let mut i: usize = 0;
    proof {
        reveal(Seq::filter);
        assert(payments@.take(0).filter(weighty) =~= Seq::empty());
    }
    while i < n && i < payments.len()
        invariant
            i <= n,
            i <= payments.len(),
            weighty == (|payment: BuilderPendingPayment| payment.weight > quorum),
            qualifying@ == payments@.take(i as int).filter(weighty),
        decreases payments.len() - i,
    {
        proof {
            reveal(Seq::filter);
            assert(payments@.take(i + 1).drop_last() =~= payments@.take(i as int));
        }
        if payments[i].weight > quorum {
            qualifying.push(payments[i]);
        }
        i = i + 1;
    }
    qualifying
}

/// Turns one payment into a withdrawal, once its exit epoch and the remaining churn are known.
pub fn apply_payment<E: EthSpec>(
    state: &mut BeaconState,
    payment: &BuilderPendingPayment,
    exit_queue_epoch: Epoch,
    exit_churn: ExitChurn,
    spec: &ChainSpec,
) -> (r: Result<(), EpochProcessingError>)
    ensures
        (final(state)@, r) == payment_outcome(
            old(state)@,
            *payment,
            Ok((exit_queue_epoch, exit_churn)),
            spec.min_validator_withdrawability_delay,
            E::spec_builder_pending_withdrawals_limit(),
        ),
{
    state.exit_churn = exit_churn;
    let withdrawable_epoch = match exit_queue_epoch.safe_add(
        spec.min_validator_withdrawability_delay,
    ) {
        Ok(epoch) => epoch,
        Err(e) => {
            return Err(EpochProcessingError::ArithError(e));
        },
    };
    let withdrawals = match state.builder_pending_withdrawals_mut() {
        Ok(withdrawals) => withdrawals,
        Err(e) => {
            return Err(EpochProcessingError::BeaconStateError(e));
        },
    };
    let len: usize = withdrawals.len();
    if len >= E::builder_pending_withdrawals_limit() {
        return Err(EpochProcessingError::MilhouseError(MilhouseError::ListFull { len }));
    }
    withdrawals.push(BuilderPendingWithdrawal { withdrawable_epoch, ..payment.withdrawal });
    Ok(())
}

/// Moves the payments of the next epoch to the front and fills up with empty ones.
fn rotate_payments<E: EthSpec>(state: &mut BeaconState) -> (r: Result<(), EpochProcessingError>)
    ensures
        rotation_outcome(
            old(state)@,
            (E::spec_slots_per_epoch() as usize) as nat,
            E::spec_builder_pending_payments_limit(),
            final(state)@,
            r,
        ),
{
    let n: usize = E::slots_per_epoch() as usize;
    let mut new_payments: Vec<BuilderPendingPayment> = Vec::new();
    {
        let payments = match state.builder_pending_payments() {
            Ok(payments) => payments,
            Err(e) => {
                return Err(EpochProcessingError::BeaconStateError(e));
            },
        };
        let mut i: usize = n;
        while i < payments.len()
            invariant
                n <= i,
                i <= payments.len() || new_payments.len() == 0,
                new_payments.len() > 0 ==> i <= payments.len(),
                new_payments.len() == i - n,
                forall|k: int| 0 <= k < new_payments.len() ==> new_payments@[k] == payments@[n + k],
            decreases payments.len() - i,
        {
            new_payments.push(payments[i]);
            i = i + 1;
        }
    }
    let ghost kept = new_payments.len();
    let ghost payments = state@.builder_pending_payments()->Ok_0;
    let mut j: usize = 0;
    while j < n
        invariant
            j <= n,
            new_payments.len() == kept + j,
            kept == payments.len() - min_nat(n as nat, payments.len()),
            forall|k: int| 0 <= k < kept ==> new_payments@[k] == payments[n + k],
            forall|k: int| kept <= k < kept + j ==> (#[trigger] new_payments@[k]).is_default(),
        decreases n - j,
    {
        new_payments.push(BuilderPendingPayment::default());
        j = j + 1;
    }
    let len: usize = new_payments.len();
    let expected: usize = E::builder_pending_payments_limit();
    if len != expected {
        return Err(
            EpochProcessingError::MilhouseError(
                MilhouseError::WrongVectorLength { len, expected },
            ),
        );
    }
    match state.builder_pending_payments_mut() {
        Ok(payments) => {
            *payments = new_payments;
            Ok(())
        },
        Err(e) => Err(EpochProcessingError::BeaconStateError(e)),
    }
}

/// Turns the payments of the previous epoch that have enough support into withdrawals, and moves
/// the payments of the current epoch to their place.
///
/// `compute_exit_epoch_and_update_churn` tells in which epoch an amount may exit and how much
/// churn then remains.
pub fn process_builder_pending_payments<E: EthSpec, C>(
    state: &mut BeaconState,
    spec: &ChainSpec,
    compute_exit_epoch_and_update_churn: C,
) -> (r: Result<(), EpochProcessingError>) where
    C: Fn(&BeaconState, u64) -> Result<(Epoch, ExitChurn), BeaconStateError>,

    requires
        forall|state: BeaconState, amount: u64|
            call_requires(compute_exit_epoch_and_update_churn, (&state, amount)),
    ensures
        exists|states: Seq<BeaconState>, applied: Result<(), EpochProcessingError>| #[trigger]
            payments_processed::<E, C>(
                compute_exit_epoch_and_update_churn,
                *spec,
                *old(state),
                states,
                applied,
                *final(state),
                r,
            ),
{
    let ghost pre = *state;
    let ghost mut states: Seq<BeaconState> = seq![*state];
    let n: usize = E::slots_per_epoch() as usize;
    let quorum: u64 = match get_builder_payment_quorum_threshold::<E>(state, spec) {
        Ok(quorum) => quorum,
        Err(e) => {
            assert(payments_processed::<E, C>(
                compute_exit_epoch_and_update_churn,
                *spec,
                pre,
                states,
                Err(e),
                *state,
                Err(e),
            ));
            return Err(e);
        },
    };
    let qualifying: Vec<BuilderPendingPayment> = match state.builder_pending_payments() {
        Ok(payments) => collect_qualifying(payments, n, quorum),
        Err(e) => {
            let error = EpochProcessingError::BeaconStateError(e);
            assert(payments_processed::<E, C>(
                compute_exit_epoch_and_update_churn,
                *spec,
                pre,
                states,
                Err(error),
                *state,
                Err(error),
            ));
            return Err(error);
        },
    };
    let ghost delay = spec.min_validator_withdrawability_delay;
    let ghost limit = E::spec_builder_pending_withdrawals_limit();
    let mut i: usize = 0;
    while i < qualifying.len()
        invariant
            i <= qualifying.len(),
            pre == *old(state),
            n == E::spec_slots_per_epoch() as usize,
            quorum_threshold(pre@, *spec, E::spec_slots_per_epoch()) == Ok::<
                u64,
                EpochProcessingError,
            >(quorum),
            pre@.builder_pending_payments() matches Ok(payments) && qualifying@
                == qualifying_payments(payments, n as nat, quorum),
            delay == spec.min_validator_withdrawability_delay,
            limit == E::spec_builder_pending_withdrawals_limit(),
            forall|state: BeaconState, amount: u64|
                call_requires(compute_exit_epoch_and_update_churn, (&state, amount)),
            states.len() == i + 1,
            states.first() == pre,
            states.last() == *state,
            forall|k: int|
                0 <= k < i ==> payment_applied(
                    compute_exit_epoch_and_update_churn,
                    #[trigger] states[k],
                    qualifying@[k],
                    delay,
                    limit,
                    states[k + 1],
                    Ok(()),
                ),
        decreases qualifying.len() - i,
    {
        let ghost before = states;
        let ghost stepped = *state;
        let payment = qualifying[i];
        let reply = compute_exit_epoch_and_update_churn(state, payment.withdrawal.amount);
        let outcome = match reply {
            Ok((exit_queue_epoch, exit_churn)) => apply_payment::<E>(
                state,
                &payment,
                exit_queue_epoch,
                exit_churn,
                spec,
            ),
            Err(e) => Err(EpochProcessingError::BeaconStateError(e)),
        };
        proof {
            assert((state@, outcome) == payment_outcome(stepped@, payment, reply, delay, limit));
            assert(payment_applied(
                compute_exit_epoch_and_update_churn,
                stepped,
                payment,
                delay,
                limit,
                *state,
                outcome,
            ));
            states = before.push(*state);
            assert(states.first() == before.first());
            assert forall|k: int| 0 <= k < i implies payment_applied(
                compute_exit_epoch_and_update_churn,
                #[trigger] states[k],
                qualifying@[k],
                delay,
                limit,
                states[k + 1],
                Ok(()),
            ) by {
                assert(states[k] == before[k]);
            }
        }
        if let Err(e) = outcome {
            proof {
                assert(payments_applied(
                    compute_exit_epoch_and_update_churn,
                    states,
                    qualifying@,
                    delay,
                    limit,
                    Err(e),
                ));
                assert(payments_processed::<E, C>(
                    compute_exit_epoch_and_update_churn,
                    *spec,
                    pre,
                    states,
                    Err(e),
                    *state,
                    Err(e),
                ));
            }
            return Err(e);
        }
        i = i + 1;
    }
    assert(payments_applied(
        compute_exit_epoch_and_update_churn,
        states,
        qualifying@,
        delay,
        limit,
        Ok(()),
    ));
    let outcome = rotate_payments::<E>(state);
    assert(payments_processed::<E, C>(
        compute_exit_epoch_and_update_churn,
        *spec,
        pre,
        states,
        Ok(()),
        *state,
        outcome,
    ));
    outcome
}

/// Whether `after` holds the withdrawals in `before`, followed by those of the payments, which
/// differ in the epoch alone.
pub open spec fn withdrawals_extended(
    before: Seq<BuilderPendingWithdrawal>,
    payments: Seq<BuilderPendingPayment>,
    after: Seq<BuilderPendingWithdrawal>,
) -> bool {
    &&& after.len() == before.len() + payments.len()
    &&& forall|i: int| 0 <= i < before.len() ==> #[trigger] after[i] == before[i]
    &&& forall|i: int|
        before.len() <= i < after.len() ==> {
            let withdrawal = payments[i - before.len()].withdrawal;
            (#[trigger] after[i]) == (BuilderPendingWithdrawal {
                withdrawable_epoch: after[i].withdrawable_epoch,
                ..withdrawal
            })
        }
}

proof fn lemma_payments_extend_withdrawals<C>(
    compute_exit_epoch_and_update_churn: C,
    states: Seq<BeaconState>,
    payments: Seq<BuilderPendingPayment>,
    withdrawability_delay: u64,
    limit: usize,
    k: nat,
) where C: Fn(&BeaconState, u64) -> Result<(Epoch, ExitChurn), BeaconStateError>
    requires
        payments_applied(
            compute_exit_epoch_and_update_churn,
            states,
            payments,
            withdrawability_delay,
            limit,
            Ok(()),
        ),
        k <= payments.len(),
        states.first()@.builder_pending_withdrawals() is Ok,
    ensures
        states[k as int]@.builder_pending_payments() == states.first()@.builder_pending_payments(),
        states[k as int]@.builder_pending_withdrawals() matches Ok(after) && withdrawals_extended(
            states.first()@.builder_pending_withdrawals()->Ok_0,
            payments.take(k as int),
            after,
        ),
    decreases k,
{
    if k > 0 {
        let last = k - 1;
        lemma_payments_extend_withdrawals(
            compute_exit_epoch_and_update_churn,
            states,
            payments,
            withdrawability_delay,
            limit,
            last as nat,
        );
        assert(payment_applied(
            compute_exit_epoch_and_update_churn,
            states[last],
            payments[last],
            withdrawability_delay,
            limit,
            states[last + 1],
            Ok(()),
        ));
        assert(payments.take(k as int) =~= payments.take(last).push(payments[last]));
    }
}

/// Every payment of the past epoch with more support than the quorum becomes a withdrawal, and no
/// other does: they join the withdrawals that wait already, in the order of their slots, with
/// recipient, amount and builder as they were.
pub proof fn lemma_supported_payments_become_withdrawals<E: EthSpec, C>(
    compute_exit_epoch_and_update_churn: C,
    spec: ChainSpec,
    pre: BeaconState,
    states: Seq<BeaconState>,
    applied: Result<(), EpochProcessingError>,
    post: BeaconState,
) where C: Fn(&BeaconState, u64) -> Result<(Epoch, ExitChurn), BeaconStateError>
    requires
        payments_processed::<E, C>(
            compute_exit_epoch_and_update_churn,
            spec,
            pre,
            states,
            applied,
            post,
            Ok(()),
        ),
    ensures
        ({
            let quorum = quorum_threshold(pre@, spec, E::spec_slots_per_epoch())->Ok_0;
            let payments = pre@.builder_pending_payments()->Ok_0;
            let n = (E::spec_slots_per_epoch() as usize) as nat;
            &&& pre@.builder_pending_withdrawals() is Ok
            &&& post@.builder_pending_withdrawals() is Ok
            &&& withdrawals_extended(
                pre@.builder_pending_withdrawals()->Ok_0,
                qualifying_payments(payments, n, quorum),
                post@.builder_pending_withdrawals()->Ok_0,
            )
        }),
{
    let quorum = quorum_threshold(pre@, spec, E::spec_slots_per_epoch())->Ok_0;
    let payments = pre@.builder_pending_payments()->Ok_0;
    let n = (E::spec_slots_per_epoch() as usize) as nat;
    let qualifying = qualifying_payments(payments, n, quorum);
    lemma_payments_extend_withdrawals(
        compute_exit_epoch_and_update_churn,
        states,
        qualifying,
        spec.min_validator_withdrawability_delay,
        E::spec_builder_pending_withdrawals_limit(),
        qualifying.len(),
    );
    assert(qualifying.take(qualifying.len() as int) =~= qualifying);
}

/// After the end of an epoch the payments of the current epoch are those of the past one, and the
/// current epoch starts with empty payments.
pub proof fn lemma_payments_move_up<E: EthSpec, C>(
    compute_exit_epoch_and_update_churn: C,
    spec: ChainSpec,
    pre: BeaconState,
    states: Seq<BeaconState>,
    applied: Result<(), EpochProcessingError>,
    post: BeaconState,
) where C: Fn(&BeaconState, u64) -> Result<(Epoch, ExitChurn), BeaconStateError>
    requires
        payments_processed::<E, C>(
            compute_exit_epoch_and_update_churn,
            spec,
            pre,
            states,
            applied,
            post,
            Ok(()),
        ),
    ensures
        pre@.builder_pending_payments() is Ok,
        post@.builder_pending_payments() is Ok,
        rotated(
            pre@.builder_pending_payments()->Ok_0,
            post@.builder_pending_payments()->Ok_0,
            (E::spec_slots_per_epoch() as usize) as nat,
        ),
{
    let quorum = quorum_threshold(pre@, spec, E::spec_slots_per_epoch())->Ok_0;
    let payments = pre@.builder_pending_payments()->Ok_0;
    let n = (E::spec_slots_per_epoch() as usize) as nat;
    let qualifying = qualifying_payments(payments, n, quorum);
    lemma_payments_extend_withdrawals(
        compute_exit_epoch_and_update_churn,
        states,
        qualifying,
        spec.min_validator_withdrawability_delay,
        E::spec_builder_pending_withdrawals_limit(),
        qualifying.len(),
    );
}

} // verus!
