//! What holds of attestations whatever they vote for.

use super::altair::altair_outcome;
use super::gloas::{gloas_outcome, payment_index};
use super::{attestation_applied, pay_proposer, Effect, Tally};
use crate::beacon_state::{
    flag_mask, AttestationData, BeaconState, ForkModel, ParticipationFlags, StateModel,
    NUM_FLAG_INDICES,
};
use crate::errors::{AttestationVerificationError, BeaconStateError, BlockProcessingError};
use crate::primitives::Epoch;
use crate::process_attestations::{
    attestation_same_slot, Attestation, AttestationCalls, ConsensusContext, VerifySignatures,
};
use vstd::prelude::*;

verus! {

/// Whether every flag that is set in `a` is set in `b`.
pub open spec fn flags_grow(a: Seq<ParticipationFlags>, b: Seq<ParticipationFlags>) -> bool {
    &&& a.len() == b.len()
    &&& forall|i: int, flag_index: usize|
        0 <= i < a.len() && flag_index < NUM_FLAG_INDICES && #[trigger] a[i].spec_has_flag(
            flag_index,
        ) ==> b[i].spec_has_flag(flag_index)
}

/// Whether every participation flag that is set in `a`, of either epoch, is set in `b`.
pub open spec fn participation_grows(a: StateModel, b: StateModel) -> bool {
    match (a.fork, b.fork) {
        (ForkModel::Base { .. }, ForkModel::Base { .. }) => true,
        (
            ForkModel::Altair {
                previous_epoch_participation: a_previous,
                current_epoch_participation: a_current,
                ..
            },
            ForkModel::Altair {
                previous_epoch_participation: b_previous,
                current_epoch_participation: b_current,
                ..
            },
        ) => flags_grow(a_previous, b_previous) && flags_grow(a_current, b_current),
        (
            ForkModel::Gloas {
                previous_epoch_participation: a_previous,
                current_epoch_participation: a_current,
                ..
            },
            ForkModel::Gloas {
                previous_epoch_participation: b_previous,
                current_epoch_participation: b_current,
                ..
            },
        ) => flags_grow(a_previous, b_previous) && flags_grow(a_current, b_current),
        _ => false,
    }
}

/// Whether `b` has the builder payments of `a`, and the block roots by which a vote for the block
/// of its own slot is told.
spec fn keeps_payments(a: StateModel, b: StateModel) -> bool {
    &&& a.builder_pending_payments() == b.builder_pending_payments()
    &&& a.block_roots == b.block_roots
}

/// Whether `a` and `b` agree in what attestations leave alone: in all but the balances, the
/// participation flags, the progressive balances and the builder payments.
pub open spec fn agree_but_for_attestations(a: StateModel, b: StateModel) -> bool {
    &&& a.slot == b.slot
    &&& a.genesis_time == b.genesis_time
    &&& a.latest_block_header == b.latest_block_header
    &&& a.block_roots == b.block_roots
    &&& a.randao_mixes == b.randao_mixes
    &&& a.total_active_balance == b.total_active_balance
    &&& a.exit_churn == b.exit_churn
    &&& a.caches.effective_balances == b.caches.effective_balances
    &&& a.caches.base_rewards == b.caches.base_rewards
    &&& a.caches.slashed_validators == b.caches.slashed_validators
    &&& match (a.fork, b.fork) {
        (ForkModel::Base { .. }, ForkModel::Base { .. }) => a.fork == b.fork,
        (
            ForkModel::Altair { fork_name: a_name, .. },
            ForkModel::Altair { fork_name: b_name, .. },
        ) => a_name == b_name,
        (
            ForkModel::Gloas {
                builder_pending_withdrawals: a_withdrawals,
                latest_block_hash: a_hash,
                latest_execution_bid: a_bid,
                latest_withdrawals_root: a_root,
                ..
            },
            ForkModel::Gloas {
                builder_pending_withdrawals: b_withdrawals,
                latest_block_hash: b_hash,
                latest_execution_bid: b_bid,
                latest_withdrawals_root: b_root,
                ..
            },
        ) => a_withdrawals == b_withdrawals && a_hash == b_hash && a_bid == b_bid && a_root
            == b_root,
        _ => false,
    }
}

/// Whether `b` may come out of `a` by attestations: flags grow, and what attestations leave alone
/// stays.
spec fn follows(a: StateModel, b: StateModel) -> bool {
    &&& participation_grows(a, b)
    &&& agree_but_for_attestations(a, b)
    &&& match (a.builder_pending_payments(), b.builder_pending_payments()) {
        (Ok(a_payments), Ok(b_payments)) => a_payments.len() == b_payments.len(),
        (Err(_), Err(_)) => true,
        _ => false,
    }
}

/// Whether a validator has all that an attestation gives it: every flag that the attestation earns.
/// The validator, the flags of the epoch and the builder payment have to exist.
pub open spec fn settled(effect: Effect, state: StateModel, validator_index: u64) -> bool {
    let index = validator_index as usize;
    &&& state.effective_balance(index) is Ok
    &&& match state.participation(
        effect.data.target.epoch,
        effect.previous_epoch,
        effect.current_epoch,
    ) {
        Ok(flags) => forall|flag_index: usize|
            flag_index < NUM_FLAG_INDICES && #[trigger] effect.flag_indices.contains(flag_index)
                ==> index < flags.len() && flags[index as int].spec_has_flag(flag_index),
        Err(_) => false,
    }
    &&& match effect.payment_index {
        Some(payment_index) => match state.builder_pending_payments() {
            Ok(payments) => payment_index < payments.len(),
            Err(_) => false,
        },
        None => true,
    }
}

proof fn lemma_or_keeps_flags(bits: u8, more: u8, mask: u8)
    ensures
        bits & mask == mask ==> (bits | more) & mask == mask,
        (bits | mask) & mask == mask,
{
    assert(bits & mask == mask ==> (bits | more) & mask == mask) by (bit_vector);
    assert((bits | mask) & mask == mask) by (bit_vector);
}

proof fn lemma_with_flag_grows(flags: Seq<ParticipationFlags>, index: int, flag_index: usize)
    requires
        0 <= index < flags.len(),
    ensures
        flags_grow(flags, flags.update(index, flags[index].spec_with_flag(flag_index))),
        flags[index].spec_with_flag(flag_index).spec_has_flag(flag_index),
{
    let more = flag_mask(flag_index);
    lemma_or_keeps_flags(flags[index].bits, more, more);
    assert forall|i: int, f: usize|
        0 <= i < flags.len() && f < NUM_FLAG_INDICES && #[trigger] flags[i].spec_has_flag(
            f,
        ) implies flags.update(index, flags[index].spec_with_flag(flag_index))[i].spec_has_flag(
        f,
    ) by {
        lemma_or_keeps_flags(flags[index].bits, more, flag_mask(f));
    }
}

proof fn lemma_follows_transitive(a: StateModel, b: StateModel, c: StateModel)
    requires
        follows(a, b),
        follows(b, c),
    ensures
        follows(a, c),
{
}

proof fn lemma_settled_stays(effect: Effect, a: StateModel, b: StateModel, validator_index: u64)
    requires
        settled(effect, a, validator_index),
        follows(a, b),
    ensures
        settled(effect, b, validator_index),
{
}

/// One flag: the flags grow, and unless there is a fault the validator has it afterwards.
proof fn lemma_set_flag(
    effect: Effect,
    tally: Tally,
    index: usize,
    balance: u64,
    slashed: bool,
    flag_index: usize,
)
    requires
        flag_index < NUM_FLAG_INDICES,
    ensures
        match effect.set_flag(tally, index, balance, slashed, flag_index) {
            Err(fault) => follows(tally.state, fault.state) && keeps_payments(
                tally.state,
                fault.state,
            ),
            Ok(after) => {
                &&& follows(tally.state, after.state)
                &&& keeps_payments(tally.state, after.state)
                &&& after.weight == tally.weight
                &&& match after.state.participation(
                    effect.data.target.epoch,
                    effect.previous_epoch,
                    effect.current_epoch,
                ) {
                    Ok(flags) => effect.flag_indices.contains(flag_index) ==> index < flags.len()
                        && flags[index as int].spec_has_flag(flag_index),
                    Err(_) => false,
                }
            },
        },
{
    let epoch = effect.data.target.epoch;
    match tally.state.participation(epoch, effect.previous_epoch, effect.current_epoch) {
        Ok(flags) => {
            if effect.flag_indices.contains(flag_index) && index < flags.len() {
                lemma_with_flag_grows(flags, index as int, flag_index);
            }
        },
        Err(_) => {},
    }
}

/// The first `n` flags: the flags grow, and unless there is a fault the validator has them
/// afterwards.
proof fn lemma_set_flags(
    effect: Effect,
    tally: Tally,
    index: usize,
    balance: u64,
    slashed: bool,
    n: nat,
)
    requires
        n <= NUM_FLAG_INDICES,
    ensures
        match effect.set_flags(tally, index, balance, slashed, n) {
            Err(fault) => follows(tally.state, fault.state) && keeps_payments(
                tally.state,
                fault.state,
            ),
            Ok(after) => {
                &&& follows(tally.state, after.state)
                &&& keeps_payments(tally.state, after.state)
                &&& after.weight == tally.weight
                &&& n > 0 ==> match after.state.participation(
                    effect.data.target.epoch,
                    effect.previous_epoch,
                    effect.current_epoch,
                ) {
                    Ok(flags) => forall|flag_index: usize|
                        flag_index < n && #[trigger] effect.flag_indices.contains(flag_index)
                            ==> index < flags.len() && flags[index as int].spec_has_flag(
                            flag_index,
                        ),
                    Err(_) => false,
                }
            },
        },
    decreases n,
{
    if n > 0 {
        lemma_set_flags(effect, tally, index, balance, slashed, (n - 1) as nat);
        match effect.set_flags(tally, index, balance, slashed, (n - 1) as nat) {
            Ok(middle) => {
                lemma_set_flag(effect, middle, index, balance, slashed, (n - 1) as usize);
                match effect.set_flag(middle, index, balance, slashed, (n - 1) as usize) {
                    Ok(after) => {
                        lemma_follows_transitive(tally.state, middle.state, after.state);
                    },
                    Err(fault) => {
                        lemma_follows_transitive(tally.state, middle.state, fault.state);
                    },
                }
            },
            Err(_) => {},
        }
    }
}

proof fn lemma_attest(effect: Effect, tally: Tally, validator_index: u64)
    ensures
        match effect.attest(tally, validator_index) {
            Err(fault) => follows(tally.state, fault.state) && keeps_payments(
                tally.state,
                fault.state,
            ),
            Ok(after) => {
                &&& follows(tally.state, after.state)
                &&& keeps_payments(tally.state, after.state)
                &&& settled(effect, after.state, validator_index)
                &&& attestation_same_slot(tally.state, effect.data) == Ok::<
                    bool,
                    BeaconStateError,
                >(false) ==> after.weight == tally.weight
            },
        },
{
    let index = validator_index as usize;
    match tally.state.effective_balance(index) {
        Ok(balance) => {
            lemma_set_flags(
                effect,
                Tally { fresh: false, ..tally },
                index,
                balance,
                tally.state.is_slashed(index),
                NUM_FLAG_INDICES as nat,
            );
        },
        Err(_) => {},
    }
}

proof fn lemma_attest_all(effect: Effect, tally: Tally, validators: Seq<u64>)
    ensures
        match effect.attest_all(tally, validators) {
            Err(fault) => follows(tally.state, fault.state) && keeps_payments(
                tally.state,
                fault.state,
            ),
            Ok(after) => {
                &&& follows(tally.state, after.state)
                &&& keeps_payments(tally.state, after.state)
                &&& attestation_same_slot(tally.state, effect.data) == Ok::<
                    bool,
                    BeaconStateError,
                >(false) ==> after.weight == tally.weight
                &&& forall|i: int|
                    0 <= i < validators.len() ==> settled(
                        effect,
                        after.state,
                        #[trigger] validators[i],
                    )
            },
        },
    decreases validators.len(),
{
    if validators.len() > 0 {
        let earlier = validators.drop_last();
        lemma_attest_all(effect, tally, earlier);
        match effect.attest_all(tally, earlier) {
            Ok(middle) => {
                lemma_attest(effect, middle, validators.last());
                match effect.attest(middle, validators.last()) {
                    Ok(after) => {
                        lemma_follows_transitive(tally.state, middle.state, after.state);
                        assert forall|i: int| 0 <= i < validators.len() implies settled(
                            effect,
                            after.state,
                            #[trigger] validators[i],
                        ) by {
                            if i < validators.len() - 1 {
                                assert(validators[i] == earlier[i]);
                                lemma_settled_stays(
                                    effect,
                                    middle.state,
                                    after.state,
                                    validators[i],
                                );
                            }
                        }
                    },
                    Err(fault) => {
                        lemma_follows_transitive(tally.state, middle.state, fault.state);
                    },
                }
            },
            Err(_) => {},
        }
    }
}

/// Validators that have all that an attestation gives them get nothing more from it.
proof fn lemma_settled_attest_all(effect: Effect, tally: Tally, validators: Seq<u64>)
    requires
        forall|i: int|
            0 <= i < validators.len() ==> settled(effect, tally.state, #[trigger] validators[i]),
    ensures
        effect.attest_all(tally, validators) matches Ok(after) && after.state == tally.state
            && after.reward_numerator == tally.reward_numerator && after.weight == tally.weight,
    decreases validators.len(),
{
    if validators.len() > 0 {
        let earlier = validators.drop_last();
        assert forall|i: int| 0 <= i < earlier.len() implies settled(
            effect,
            tally.state,
            #[trigger] earlier[i],
        ) by {
            assert(earlier[i] == validators[i]);
        }
        lemma_settled_attest_all(effect, tally, earlier);
        let middle = effect.attest_all(tally, earlier)->Ok_0;
        assert(settled(effect, middle.state, validators[validators.len() - 1]));
        reveal_with_fuel(Effect::set_flags, 4);
    }
}

/// Attestations only ever set participation flags, whether they are accepted or refused (before
/// Gloas).
pub proof fn lemma_altair_flags_only_grow(
    state: StateModel,
    data: AttestationData,
    att_index: usize,
    previous_epoch: Epoch,
    current_epoch: Epoch,
    calls: AttestationCalls,
)
    ensures
        participation_grows(
            state,
            altair_outcome(state, data, att_index, previous_epoch, current_epoch, calls).0,
        ),
{
    match (calls.participation_flag_indices, calls.attesting_indices) {
        (Ok(flag_indices), Ok(validators)) => {
            let effect = Effect {
                data,
                previous_epoch,
                current_epoch,
                flag_indices: flag_indices@,
                payment_index: None,
            };
            let before = Tally { state, reward_numerator: 0, weight: 0, fresh: false };
            lemma_attest_all(effect, before, validators@);
        },
        _ => {},
    }
}

/// Attestations only ever set participation flags, whether they are accepted or refused (from
/// Gloas on).
pub proof fn lemma_gloas_flags_only_grow(
    slots_per_epoch: u64,
    state: StateModel,
    data: AttestationData,
    att_index: usize,
    previous_epoch: Epoch,
    current_epoch: Epoch,
    calls: AttestationCalls,
)
    ensures
        participation_grows(
            state,
            gloas_outcome(
                slots_per_epoch,
                state,
                data,
                att_index,
                previous_epoch,
                current_epoch,
                calls,
            ).0,
        ),
{
    match (calls.participation_flag_indices, calls.attesting_indices, payment_index(
        slots_per_epoch,
        state,
        data,
    )) {
        (Ok(flag_indices), Ok(validators), Ok(payment_index)) => {
            let effect = Effect {
                data,
                previous_epoch,
                current_epoch,
                flag_indices: flag_indices@,
                payment_index: Some(payment_index),
            };
            let before = Tally { state, reward_numerator: 0, weight: 0, fresh: false };
            lemma_attest_all(effect, before, validators@);
        },
        _ => {},
    }
}

/// An attestation that has been applied changes nothing when it is applied again (before Gloas):
/// no flag is set twice, so nobody is rewarded twice.
pub proof fn lemma_altair_attestation_counts_once(
    state: StateModel,
    data: AttestationData,
    att_index: usize,
    previous_epoch: Epoch,
    current_epoch: Epoch,
    calls: AttestationCalls,
)
    requires
        altair_outcome(state, data, att_index, previous_epoch, current_epoch, calls).1 is Ok,
    ensures
        ({
            let post = altair_outcome(
                state,
                data,
                att_index,
                previous_epoch,
                current_epoch,
                calls,
            ).0;
            altair_outcome(post, data, att_index, previous_epoch, current_epoch, calls) == (
                post,
                Ok::<(), BlockProcessingError>(()),
            )
        }),
{
    let flag_indices = calls.participation_flag_indices->Ok_0;
    let validators = calls.attesting_indices->Ok_0@;
    let proposer_index = calls.proposer_index->Ok_0;
    let effect = Effect {
        data,
        previous_epoch,
        current_epoch,
        flag_indices: flag_indices@,
        payment_index: None,
    };
    let before = Tally { state, reward_numerator: 0, weight: 0, fresh: false };
    lemma_attest_all(effect, before, validators);
    let tally = effect.attest_all(before, validators)->Ok_0;
    let post = pay_proposer(tally, proposer_index)->Ok_0;
    assert(follows(tally.state, post));
    assert forall|i: int| 0 <= i < validators.len() implies settled(
        effect,
        post,
        #[trigger] validators[i],
    ) by {
        lemma_settled_stays(effect, tally.state, post, validators[i]);
    }
    let again = Tally { state: post, reward_numerator: 0, weight: 0, fresh: false };
    lemma_settled_attest_all(effect, again, validators);
    let index = proposer_index as usize as int;
    assert(post.balances.update(index, post.balances[index]) =~= post.balances);
}

/// An attestation that has been applied changes nothing when it is applied again (from Gloas on):
/// a validator counts once toward the builder's payment of a slot, and nobody is rewarded twice.
pub proof fn lemma_gloas_attestation_counts_once(
    slots_per_epoch: u64,
    state: StateModel,
    data: AttestationData,
    att_index: usize,
    previous_epoch: Epoch,
    current_epoch: Epoch,
    calls: AttestationCalls,
)
    requires
        gloas_outcome(
            slots_per_epoch,
            state,
            data,
            att_index,
            previous_epoch,
            current_epoch,
            calls,
        ).1 is Ok,
    ensures
        ({
            let post = gloas_outcome(
                slots_per_epoch,
                state,
                data,
                att_index,
                previous_epoch,
                current_epoch,
                calls,
            ).0;
            gloas_outcome(
                slots_per_epoch,
                post,
                data,
                att_index,
                previous_epoch,
                current_epoch,
                calls,
            ) == (post, Ok::<(), BlockProcessingError>(()))
        }),
{
    let flag_indices = calls.participation_flag_indices->Ok_0;
    let validators = calls.attesting_indices->Ok_0@;
    let proposer_index = calls.proposer_index->Ok_0;
    let payment_index = payment_index(slots_per_epoch, state, data)->Ok_0;
    let effect = Effect {
        data,
        previous_epoch,
        current_epoch,
        flag_indices: flag_indices@,
        payment_index: Some(payment_index),
    };
    let before = Tally { state, reward_numerator: 0, weight: 0, fresh: false };
    lemma_attest_all(effect, before, validators);
    let tally = effect.attest_all(before, validators)->Ok_0;
    let post = gloas_outcome(
        slots_per_epoch,
        state,
        data,
        att_index,
        previous_epoch,
        current_epoch,
        calls,
    ).0;
    assert(follows(tally.state, post));
    assert forall|i: int| 0 <= i < validators.len() implies settled(
        effect,
        post,
        #[trigger] validators[i],
    ) by {
        lemma_settled_stays(effect, tally.state, post, validators[i]);
    }
    let again = Tally { state: post, reward_numerator: 0, weight: 0, fresh: false };
    lemma_settled_attest_all(effect, again, validators);
    let index = proposer_index as usize as int;
    assert(post.balances.update(index, post.balances[index]) =~= post.balances);
}

/// Whether two answers are the same list, or both a failure.
pub open spec fn same_list<T, A>(x: Result<Vec<T>, A>, y: Result<Vec<T>, A>) -> bool {
    match (x, y) {
        (Ok(a), Ok(b)) => a@ == b@,
        (Err(_), Err(_)) => true,
        _ => false,
    }
}

/// Whether what a context answers for an attestation depends on no more of a state than what
/// attestations leave alone.
pub open spec fn answers_alike<P, V, F>(
    ctxt: ConsensusContext<P, V, F>,
    attestation: Attestation,
    verify_signatures: VerifySignatures,
) -> bool where
    P: Fn(&BeaconState) -> Result<u64, BlockProcessingError>,
    V: Fn(&BeaconState, &Attestation, VerifySignatures) -> Result<
        Vec<u64>,
        AttestationVerificationError,
    >,
    F: Fn(&BeaconState, &AttestationData, u64) -> Result<Vec<usize>, BeaconStateError>,
 {
    let data = attestation.spec_data();
    &&& forall|
        a: BeaconState,
        b: BeaconState,
        x: Result<u64, BlockProcessingError>,
        y: Result<u64, BlockProcessingError>,
    |
        agree_but_for_attestations(a@, b@) && #[trigger] call_ensures(
            ctxt.get_proposer_index,
            (&a,),
            x,
        ) && #[trigger] call_ensures(ctxt.get_proposer_index, (&b,), y) ==> x == y
    &&& forall|
        a: BeaconState,
        b: BeaconState,
        x: Result<Vec<u64>, AttestationVerificationError>,
        y: Result<Vec<u64>, AttestationVerificationError>,
    |
        agree_but_for_attestations(a@, b@) && #[trigger] call_ensures(
            ctxt.verify_attestation_for_block_inclusion,
            (&a, &attestation, verify_signatures),
            x,
        ) && #[trigger] call_ensures(
            ctxt.verify_attestation_for_block_inclusion,
            (&b, &attestation, verify_signatures),
            y,
        ) ==> same_list(x, y)
    &&& forall|
        a: BeaconState,
        b: BeaconState,
        delay: u64,
        x: Result<Vec<usize>, BeaconStateError>,
        y: Result<Vec<usize>, BeaconStateError>,
    |
        agree_but_for_attestations(a@, b@) && #[trigger] call_ensures(
            ctxt.get_attestation_participation_flag_indices,
            (&a, &data, delay),
            x,
        ) && #[trigger] call_ensures(
            ctxt.get_attestation_participation_flag_indices,
            (&b, &data, delay),
            y,
        ) ==> same_list(x, y)
}

/// Attestations leave alone what is not theirs to change (before Gloas).
pub proof fn lemma_altair_leaves_the_rest_alone(
    state: StateModel,
    data: AttestationData,
    att_index: usize,
    previous_epoch: Epoch,
    current_epoch: Epoch,
    calls: AttestationCalls,
)
    ensures
        agree_but_for_attestations(
            state,
            altair_outcome(state, data, att_index, previous_epoch, current_epoch, calls).0,
        ),
{
    match (calls.participation_flag_indices, calls.attesting_indices) {
        (Ok(flag_indices), Ok(validators)) => {
            let effect = Effect {
                data,
                previous_epoch,
                current_epoch,
                flag_indices: flag_indices@,
                payment_index: None,
            };
            let before = Tally { state, reward_numerator: 0, weight: 0, fresh: false };
            lemma_attest_all(effect, before, validators@);
        },
        _ => {},
    }
}

/// Attestations leave alone what is not theirs to change (from Gloas on).
pub proof fn lemma_gloas_leaves_the_rest_alone(
    slots_per_epoch: u64,
    state: StateModel,
    data: AttestationData,
    att_index: usize,
    previous_epoch: Epoch,
    current_epoch: Epoch,
    calls: AttestationCalls,
)
    ensures
        agree_but_for_attestations(
            state,
            gloas_outcome(
                slots_per_epoch,
                state,
                data,
                att_index,
                previous_epoch,
                current_epoch,
                calls,
            ).0,
        ),
{
    match (calls.participation_flag_indices, calls.attesting_indices, payment_index(
        slots_per_epoch,
        state,
        data,
    )) {
        (Ok(flag_indices), Ok(validators), Ok(payment_index)) => {
            let effect = Effect {
                data,
                previous_epoch,
                current_epoch,
                flag_indices: flag_indices@,
                payment_index: Some(payment_index),
            };
            let before = Tally { state, reward_numerator: 0, weight: 0, fresh: false };
            lemma_attest_all(effect, before, validators@);
        },
        _ => {},
    }
}

/// An attestation that has been processed changes nothing when it is processed again, as long as
/// the context answers alike: the second call succeeds and leaves the state as it is. No flag is
/// new any more, so neither a reward for the proposer nor weight for the builder's payment is added
/// twice.
pub proof fn lemma_attestation_processed_twice_counts_once<P, V, F>(
    slots_per_epoch: u64,
    ctxt: ConsensusContext<P, V, F>,
    attestation: Attestation,
    att_index: usize,
    verify_signatures: VerifySignatures,
    pre: BeaconState,
    middle: BeaconState,
    post: BeaconState,
    r: Result<(), BlockProcessingError>,
) where
    P: Fn(&BeaconState) -> Result<u64, BlockProcessingError>,
    V: Fn(&BeaconState, &Attestation, VerifySignatures) -> Result<
        Vec<u64>,
        AttestationVerificationError,
    >,
    F: Fn(&BeaconState, &AttestationData, u64) -> Result<Vec<usize>, BeaconStateError>,

    requires
        answers_alike(ctxt, attestation, verify_signatures),
        attestation_applied(
            slots_per_epoch,
            ctxt,
            pre,
            attestation,
            att_index,
            verify_signatures,
            middle,
            Ok(()),
        ),
        attestation_applied(
            slots_per_epoch,
            ctxt,
            middle,
            attestation,
            att_index,
            verify_signatures,
            post,
            r,
        ),
    ensures
        r == Ok::<(), BlockProcessingError>(()),
        post@ == middle@,
{
    let data = attestation.spec_data();
    let (previous, current) = (ctxt.previous_epoch, ctxt.current_epoch);
    if pre@.fork_name().spec_gloas_enabled() {
        let first = choose|calls: AttestationCalls| #[trigger]
            ctxt.answered(pre, attestation, verify_signatures, calls) && (
                middle@,
                Ok::<(), BlockProcessingError>(()),
            ) == gloas_outcome(slots_per_epoch, pre@, data, att_index, previous, current, calls);
        lemma_gloas_leaves_the_rest_alone(
            slots_per_epoch,
            pre@,
            data,
            att_index,
            previous,
            current,
            first,
        );
        lemma_gloas_attestation_counts_once(
            slots_per_epoch,
            pre@,
            data,
            att_index,
            previous,
            current,
            first,
        );
        assert(middle@.fork_name().spec_gloas_enabled());
        let second = choose|calls: AttestationCalls| #[trigger]
            ctxt.answered(middle, attestation, verify_signatures, calls) && (post@, r)
                == gloas_outcome(
                slots_per_epoch,
                middle@,
                data,
                att_index,
                previous,
                current,
                calls,
            );
        lemma_answers_alike(ctxt, attestation, verify_signatures, pre, middle, first, second);
    } else {
        let first = choose|calls: AttestationCalls| #[trigger]
            ctxt.answered(pre, attestation, verify_signatures, calls) && (
                middle@,
                Ok::<(), BlockProcessingError>(()),
            ) == altair_outcome(pre@, data, att_index, previous, current, calls);
        lemma_altair_leaves_the_rest_alone(pre@, data, att_index, previous, current, first);
        lemma_altair_attestation_counts_once(pre@, data, att_index, previous, current, first);
        assert(!middle@.fork_name().spec_gloas_enabled());
        let second = choose|calls: AttestationCalls| #[trigger]
            ctxt.answered(middle, attestation, verify_signatures, calls) && (post@, r)
                == altair_outcome(middle@, data, att_index, previous, current, calls);
        lemma_answers_alike(ctxt, attestation, verify_signatures, pre, middle, first, second);
    }
}

/// A context that answers alike gives the same answers before and after an attestation.
proof fn lemma_answers_alike<P, V, F>(
    ctxt: ConsensusContext<P, V, F>,
    attestation: Attestation,
    verify_signatures: VerifySignatures,
    pre: BeaconState,
    middle: BeaconState,
    first: AttestationCalls,
    second: AttestationCalls,
) where
    P: Fn(&BeaconState) -> Result<u64, BlockProcessingError>,
    V: Fn(&BeaconState, &Attestation, VerifySignatures) -> Result<
        Vec<u64>,
        AttestationVerificationError,
    >,
    F: Fn(&BeaconState, &AttestationData, u64) -> Result<Vec<usize>, BeaconStateError>,

    requires
        answers_alike(ctxt, attestation, verify_signatures),
        agree_but_for_attestations(pre@, middle@),
        ctxt.answered(pre, attestation, verify_signatures, first),
        ctxt.answered(middle, attestation, verify_signatures, second),
        first.proposer_index is Ok,
        first.attesting_indices is Ok,
        attestation.spec_data().slot.0 <= pre@.slot.0,
        first.participation_flag_indices is Ok,
    ensures
        second.proposer_index == first.proposer_index,
        same_list(first.attesting_indices, second.attesting_indices),
        same_list(first.participation_flag_indices, second.participation_flag_indices),
{
}

/// Within one attestation a validator counts once: naming it again gives it no flag, pays the
/// proposer nothing more and adds nothing to the builder's payment.
pub proof fn lemma_validator_counts_once(
    effect: Effect,
    tally: Tally,
    validators: Seq<u64>,
    validator_index: u64,
)
    requires
        effect.attest_all(tally, validators) is Ok,
        validators.contains(validator_index),
    ensures
        ({
            let once = effect.attest_all(tally, validators)->Ok_0;
            effect.attest_all(tally, validators.push(validator_index)) matches Ok(twice)
                && twice.state == once.state && twice.reward_numerator == once.reward_numerator
                && twice.weight == once.weight
        }),
{
    let once = effect.attest_all(tally, validators)->Ok_0;
    lemma_attest_all(effect, tally, validators);
    let i = choose|i: int| 0 <= i < validators.len() && validators[i] == validator_index;
    assert(settled(effect, once.state, validators[i]));
    let last = seq![validator_index];
    lemma_settled_attest_all(effect, once, last);
    assert(last.drop_last() =~= Seq::empty());
    assert(validators.push(validator_index).drop_last() =~= validators);
    reveal_with_fuel(Effect::attest_all, 2);
}

/// A validator that has every flag that an attestation earns adds nothing to the builder's payment
/// of the slot, whatever set its flags; if that holds of all who signed, the attestation changes
/// nothing at all.
pub proof fn lemma_no_new_flag_changes_nothing(
    slots_per_epoch: u64,
    state: StateModel,
    data: AttestationData,
    att_index: usize,
    previous_epoch: Epoch,
    current_epoch: Epoch,
    proposer_index: u64,
    validators: Vec<u64>,
    flag_indices: Vec<usize>,
)
    requires
        data.slot.0 <= state.slot.0,
        payment_index(slots_per_epoch, state, data) is Ok,
        (proposer_index as usize) < state.balances.len(),
        forall|i: int|
            0 <= i < validators@.len() ==> settled(
                (Effect {
                    data,
                    previous_epoch,
                    current_epoch,
                    flag_indices: flag_indices@,
                    payment_index: Some(payment_index(slots_per_epoch, state, data)->Ok_0),
                }),
                state,
                #[trigger] validators@[i],
            ),
    ensures
        gloas_outcome(
            slots_per_epoch,
            state,
            data,
            att_index,
            previous_epoch,
            current_epoch,
            (AttestationCalls {
                proposer_index: Ok(proposer_index),
                attesting_indices: Ok(validators),
                participation_flag_indices: Ok(flag_indices),
            }),
        ) == (state, Ok::<(), BlockProcessingError>(())),
{
    let effect = Effect {
        data,
        previous_epoch,
        current_epoch,
        flag_indices: flag_indices@,
        payment_index: Some(payment_index(slots_per_epoch, state, data)->Ok_0),
    };
    let before = Tally { state, reward_numerator: 0, weight: 0, fresh: false };
    lemma_settled_attest_all(effect, before, validators@);
    let index = proposer_index as usize as int;
    assert(state.balances.update(index, state.balances[index]) =~= state.balances);
}

/// Attestations leave all builder payments alone but one, and that one may only gain weight.
pub proof fn lemma_payments_only_gain_weight(
    slots_per_epoch: u64,
    state: StateModel,
    data: AttestationData,
    att_index: usize,
    previous_epoch: Epoch,
    current_epoch: Epoch,
    calls: AttestationCalls,
)
    ensures
        ({
            let post = gloas_outcome(
                slots_per_epoch,
                state,
                data,
                att_index,
                previous_epoch,
                current_epoch,
                calls,
            ).0;
            match (state.builder_pending_payments(), post.builder_pending_payments()) {
                (Ok(before), Ok(after)) => {
                    &&& before.len() == after.len()
                    &&& forall|i: int|
                        #![trigger after[i]]
                        0 <= i < before.len() ==> {
                            &&& after[i].withdrawal == before[i].withdrawal
                            &&& after[i].weight >= before[i].weight
                            &&& after[i] != before[i] ==> (payment_index(
                                slots_per_epoch,
                                state,
                                data,
                            ) matches Ok(index) && i == index)
                        }
                },
                (Err(_), Err(_)) => true,
                _ => false,
            }
        }),
{
    match (calls.participation_flag_indices, calls.attesting_indices, payment_index(
        slots_per_epoch,
        state,
        data,
    )) {
        (Ok(flag_indices), Ok(validators), Ok(payment_index)) => {
            let effect = Effect {
                data,
                previous_epoch,
                current_epoch,
                flag_indices: flag_indices@,
                payment_index: Some(payment_index),
            };
            let before = Tally { state, reward_numerator: 0, weight: 0, fresh: false };
            lemma_attest_all(effect, before, validators@);
        },
        _ => {},
    }
}

/// Only a vote for the block of its own slot supports a builder's payment: any other attestation
/// leaves all payments alone.
pub proof fn lemma_only_same_slot_votes_support_payments(
    slots_per_epoch: u64,
    state: StateModel,
    data: AttestationData,
    att_index: usize,
    previous_epoch: Epoch,
    current_epoch: Epoch,
    calls: AttestationCalls,
)
    requires
        attestation_same_slot(state, data) == Ok::<bool, BeaconStateError>(false),
    ensures
        gloas_outcome(
            slots_per_epoch,
            state,
            data,
            att_index,
            previous_epoch,
            current_epoch,
            calls,
        ).0.builder_pending_payments() == state.builder_pending_payments(),
{
    match (calls.participation_flag_indices, calls.attesting_indices, payment_index(
        slots_per_epoch,
        state,
        data,
    )) {
        (Ok(flag_indices), Ok(validators), Ok(payment_index)) => {
            let effect = Effect {
                data,
                previous_epoch,
                current_epoch,
                flag_indices: flag_indices@,
                payment_index: Some(payment_index),
            };
            let before = Tally { state, reward_numerator: 0, weight: 0, fresh: false };
            lemma_attest_all(effect, before, validators@);
        },
        _ => {},
    }
}

} // verus!
