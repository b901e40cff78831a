//! Attestations from the Altair fork on: they set participation flags and pay the proposer.

pub mod altair;
pub mod gloas;
pub mod laws;

use super::{attestation_same_slot, Attestation, ConsensusContext, VerifySignatures};
use crate::arith::{fits_u64, safe_add_assign, safe_div, safe_mul, safe_sub, ArithError};
use crate::beacon_state::{
    contains_index, AttestationData, BeaconState, StateModel, NUM_FLAG_INDICES,
    PARTICIPATION_FLAG_WEIGHTS, PROPOSER_WEIGHT, WEIGHT_DENOMINATOR,
};
use crate::errors::{AttestationVerificationError, BeaconStateError, BlockProcessingError};
use crate::eth_spec::EthSpec;
use crate::primitives::Epoch;
use vstd::prelude::*;

verus! {

/// An error, and the state at the moment it came up.
#[verifier::ext_equal]
pub struct Fault {
    pub state: StateModel,
    pub error: BlockProcessingError,
}

/// A state with the sums that grow while an attestation is applied to it.
#[verifier::ext_equal]
pub struct Tally {
    pub state: StateModel,
    /// The proposer's reward, before the division.
    pub reward_numerator: u64,
    /// The balance that counts toward the builder's payment.
    pub weight: u64,
    /// Whether the validator at hand has set a flag for the first time.
    pub fresh: bool,
}

/// What an attestation does to each of its validators.
pub struct Effect {
    pub data: AttestationData,
    pub previous_epoch: Epoch,
    pub current_epoch: Epoch,
    /// The flags that the attestation earns.
    pub flag_indices: Seq<usize>,
    /// The builder payment that the attestation counts toward, where there are such payments.
    pub payment_index: Option<usize>,
}

/// The weight of a flag.
pub open spec fn flag_weight(flag_index: int) -> u64 {
    if flag_index == 1 {
        26
    } else {
        14
    }
}

impl Effect {
    /// One validator earns one flag: it is set, unless it already was, the proposer is credited
    /// and the progressive balances follow.
    pub open spec fn set_flag(
        self,
        tally: Tally,
        index: usize,
        balance: u64,
        slashed: bool,
        flag_index: usize,
    ) -> Result<Tally, Fault> {
        let epoch = self.data.target.epoch;
        let state = tally.state;
        match state.participation(epoch, self.previous_epoch, self.current_epoch) {
            Err(e) => Err(Fault { state, error: BlockProcessingError::BeaconStateError(e) }),
            Ok(flags) => if !self.flag_indices.contains(flag_index) {
                Ok(tally)
            } else if index >= flags.len() {
                Err(
                    Fault {
                        state,
                        error: BlockProcessingError::BeaconStateError(
                            BeaconStateError::ParticipationOutOfBounds(index),
                        ),
                    },
                )
            } else if flags[index as int].spec_has_flag(flag_index) {
                Ok(tally)
            } else {
                self.credit(
                    tally,
                    state.with_participation(
                        epoch == self.current_epoch,
                        flags.update(
                            index as int,
                            flags[index as int].spec_with_flag(flag_index),
                        ),
                    ),
                    index,
                    balance,
                    slashed,
                    flag_index,
                )
            },
        }
    }

    /// The credit for a flag that has just been set in `state`.
    pub open spec fn credit(
        self,
        tally: Tally,
        state: StateModel,
        index: usize,
        balance: u64,
        slashed: bool,
        flag_index: usize,
    ) -> Result<Tally, Fault> {
        match state.base_reward(index) {
            Err(e) => Err(Fault { state, error: BlockProcessingError::EpochCacheError(e) }),
            Ok(base_reward) => match fits_u64(base_reward * flag_weight(flag_index as int)) {
                Err(e) => Err(Fault { state, error: BlockProcessingError::ArithError(e) }),
                Ok(reward) => match fits_u64(tally.reward_numerator + reward) {
                    Err(e) => Err(Fault { state, error: BlockProcessingError::ArithError(e) }),
                    Ok(reward_numerator) => match state.on_new_attestation(
                        self.data.target.epoch,
                        flag_index,
                        balance,
                        slashed,
                    ) {
                        Err(e) => Err(
                            Fault { state, error: BlockProcessingError::BeaconStateError(e) },
                        ),
                        Ok(state) => Ok(Tally { state, reward_numerator, fresh: true, ..tally }),
                    },
                },
            },
        }
    }

    /// One validator earns the first `n` flags.
    pub open spec fn set_flags(
        self,
        tally: Tally,
        index: usize,
        balance: u64,
        slashed: bool,
        n: nat,
    ) -> Result<Tally, Fault>
        decreases n,
    {
        if n == 0 {
            Ok(tally)
        } else {
            match self.set_flags(tally, index, balance, slashed, (n - 1) as nat) {
                Err(fault) => Err(fault),
                Ok(tally) => self.set_flag(tally, index, balance, slashed, (n - 1) as usize),
            }
        }
    }

    /// The builder's payment gains the balance of a validator that set a flag for the first time,
    /// if the attestation is for the block of its own slot and the payment is not empty.
    pub open spec fn support_payment(
        self,
        tally: Tally,
        payment_index: usize,
        balance: u64,
    ) -> Result<Tally, Fault> {
        let state = tally.state;
        match state.builder_pending_payments() {
            Err(e) => Err(Fault { state, error: BlockProcessingError::BeaconStateError(e) }),
            Ok(payments) => if payment_index >= payments.len() {
                Err(
                    Fault {
                        state,
                        error: BlockProcessingError::BuilderPaymentIndexOutOfBounds(payment_index),
                    },
                )
            } else if !tally.fresh {
                Ok(tally)
            } else {
                match attestation_same_slot(state, self.data) {
                    Err(e) => Err(
                        Fault { state, error: BlockProcessingError::BeaconStateError(e) },
                    ),
                    Ok(same_slot) => if same_slot
                        && payments[payment_index as int].withdrawal.amount > 0 {
                        match fits_u64(tally.weight + balance) {
                            Err(e) => Err(
                                Fault { state, error: BlockProcessingError::ArithError(e) },
                            ),
                            Ok(weight) => Ok(Tally { weight, ..tally }),
                        }
                    } else {
                        Ok(tally)
                    },
                }
            },
        }
    }

    /// The attestation takes effect on one validator.
    pub open spec fn attest(self, tally: Tally, validator_index: u64) -> Result<Tally, Fault> {
        let index = validator_index as usize;
        let state = tally.state;
        match state.effective_balance(index) {
            Err(e) => Err(Fault { state, error: BlockProcessingError::EpochCacheError(e) }),
            Ok(balance) => match self.set_flags(
                Tally { fresh: false, ..tally },
                index,
                balance,
                state.is_slashed(index),
                NUM_FLAG_INDICES as nat,
            ) {
                Err(fault) => Err(fault),
                Ok(tally) => match self.payment_index {
                    None => Ok(tally),
                    Some(payment_index) => self.support_payment(tally, payment_index, balance),
                },
            },
        }
    }

    /// The attestation takes effect on each validator in turn.
    pub open spec fn attest_all(self, tally: Tally, validators: Seq<u64>) -> Result<Tally, Fault>
        decreases validators.len(),
    {
        if validators.len() == 0 {
            Ok(tally)
        } else {
            match self.attest_all(tally, validators.drop_last()) {
                Err(fault) => Err(fault),
                Ok(tally) => self.attest(tally, validators.last()),
            }
        }
    }
}

/// What divides the proposer's reward: the weights other than the proposer's, scaled so that the
/// proposer gets its share of the whole.
pub open spec fn proposer_reward_denominator() -> int {
    (WEIGHT_DENOMINATOR - PROPOSER_WEIGHT) * WEIGHT_DENOMINATOR / PROPOSER_WEIGHT as int
}

/// The state after the proposer has been paid.
pub open spec fn pay_proposer(tally: Tally, proposer_index: u64) -> Result<StateModel, Fault> {
    let state = tally.state;
    match state.increase_balance(
        proposer_index as usize,
        (tally.reward_numerator as int / proposer_reward_denominator()) as u64,
    ) {
        Err(e) => Err(Fault { state, error: BlockProcessingError::BeaconStateError(e) }),
        Ok(state) => Ok(state),
    }
}

/// Whether an attestation turns `pre` into `post` and ends with `r`, under the rules of the
/// state's fork.
pub open spec fn attestation_applied<P, V, F>(
    slots_per_epoch: u64,
    ctxt: ConsensusContext<P, V, F>,
    pre: BeaconState,
    attestation: Attestation,
    att_index: usize,
    verify_signatures: VerifySignatures,
    post: BeaconState,
    r: Result<(), BlockProcessingError>,
) -> bool where
    P: Fn(&BeaconState) -> Result<u64, BlockProcessingError>,
    V: Fn(&BeaconState, &Attestation, VerifySignatures) -> Result<
        Vec<u64>,
        AttestationVerificationError,
    >,
    F: Fn(&BeaconState, &AttestationData, u64) -> Result<Vec<usize>, BeaconStateError>,
 {
    if pre@.fork_name().spec_gloas_enabled() {
        gloas::gloas_applied(
            slots_per_epoch,
            ctxt,
            pre,
            attestation,
            att_index,
            verify_signatures,
            post,
            r,
        )
    } else {
        altair::altair_applied(ctxt, pre, attestation, att_index, verify_signatures, post, r)
    }
}

/// Whether `states` are the states around the attestations that were applied, from `pre` to
/// `post`: each attestation starts from what the one before it left, all but the last succeed,
/// and either all were applied and `r` is a success, or the last one failed with `r`.
pub open spec fn attestations_applied<P, V, F>(
    slots_per_epoch: u64,
    ctxt: ConsensusContext<P, V, F>,
    states: Seq<BeaconState>,
    attestations: Seq<Attestation>,
    verify_signatures: VerifySignatures,
    r: Result<(), BlockProcessingError>,
) -> bool where
    P: Fn(&BeaconState) -> Result<u64, BlockProcessingError>,
    V: Fn(&BeaconState, &Attestation, VerifySignatures) -> Result<
        Vec<u64>,
        AttestationVerificationError,
    >,
    F: Fn(&BeaconState, &AttestationData, u64) -> Result<Vec<usize>, BeaconStateError>,
 {
    let applied = states.len() - 1;
    &&& 0 <= applied <= attestations.len()
    &&& forall|i: int|
        0 <= i < applied - 1 ==> attestation_applied(
            slots_per_epoch,
            ctxt,
            #[trigger] states[i],
            attestations[i],
            i as usize,
            verify_signatures,
            states[i + 1],
            Ok(()),
        )
    &&& applied > 0 ==> attestation_applied(
        slots_per_epoch,
        ctxt,
        states[applied - 1],
        attestations[applied - 1],
        (applied - 1) as usize,
        verify_signatures,
        states[applied],
        r,
    )
    &&& r is Ok ==> applied == attestations.len()
    &&& r is Err ==> applied > 0
}

/// Validates an attestation and applies it to the state, under the rules of the state's fork.
pub fn process_attestation<E: EthSpec, P, V, F>(
    state: &mut BeaconState,
    attestation: &Attestation,
    att_index: usize,
    ctxt: &ConsensusContext<P, V, F>,
    verify_signatures: VerifySignatures,
) -> (r: Result<(), BlockProcessingError>) where
    P: Fn(&BeaconState) -> Result<u64, BlockProcessingError>,
    V: Fn(&BeaconState, &Attestation, VerifySignatures) -> Result<
        Vec<u64>,
        AttestationVerificationError,
    >,
    F: Fn(&BeaconState, &AttestationData, u64) -> Result<Vec<usize>, BeaconStateError>,

    requires
        E::spec_slots_per_epoch() > 0,
        ctxt.answers(),
    ensures
        attestation_applied(
            E::spec_slots_per_epoch(),
            *ctxt,
            *old(state),
            *attestation,
            att_index,
            verify_signatures,
            *final(state),
            r,
        ),
{
    if !state.fork_name_unchecked().gloas_enabled() {
        return altair::process_attestation(state, attestation, att_index, ctxt, verify_signatures);
    }
    gloas::process_attestation::<E, P, V, F>(state, attestation, att_index, ctxt, verify_signatures)
}

/// Validates and applies each attestation in turn, and stops at the first that is refused.
pub fn process_attestations<E: EthSpec, P, V, F>(
    state: &mut BeaconState,
    attestations: &Vec<Attestation>,
    verify_signatures: VerifySignatures,
    ctxt: &ConsensusContext<P, V, F>,
) -> (r: Result<(), BlockProcessingError>) where
    P: Fn(&BeaconState) -> Result<u64, BlockProcessingError>,
    V: Fn(&BeaconState, &Attestation, VerifySignatures) -> Result<
        Vec<u64>,
        AttestationVerificationError,
    >,
    F: Fn(&BeaconState, &AttestationData, u64) -> Result<Vec<usize>, BeaconStateError>,

    requires
        E::spec_slots_per_epoch() > 0,
        ctxt.answers(),
    ensures
        exists|states: Seq<BeaconState>| #[trigger]
            attestations_applied(
                E::spec_slots_per_epoch(),
                *ctxt,
                states,
                attestations@,
                verify_signatures,
                r,
            ) && states.first() == *old(state) && states.last() == *final(state),
{
    let ghost mut states: Seq<BeaconState> = seq![*state];
    let mut i: usize = 0;
    while i < attestations.len()
        invariant
            i <= attestations.len(),
            E::spec_slots_per_epoch() > 0,
            ctxt.answers(),
            states.len() == i + 1,
            states.first() == *old(state),
            states.last() == *state,
            forall|k: int|
                0 <= k < i ==> attestation_applied(
                    E::spec_slots_per_epoch(),
                    *ctxt,
                    #[trigger] states[k],
                    attestations@[k],
                    k as usize,
                    verify_signatures,
                    states[k + 1],
                    Ok(()),
                ),
        decreases attestations.len() - i,
    {
        let outcome = process_attestation::<E, P, V, F>(
            state,
            &attestations[i],
            i,
            ctxt,
            verify_signatures,
        );
        let ghost before = states;
        proof {
            states = states.push(*state);
            assert forall|k: int| 0 <= k < i implies attestation_applied(
                E::spec_slots_per_epoch(),
                *ctxt,
                #[trigger] states[k],
                attestations@[k],
                k as usize,
                verify_signatures,
                states[k + 1],
                Ok(()),
            ) by {
                assert(states[k] == before[k]);
            }
        }
        if let Err(e) = outcome {
            assert(attestations_applied(
                E::spec_slots_per_epoch(),
                *ctxt,
                states,
                attestations@,
                verify_signatures,
                Err(e),
            ));
            return Err(e);
        }
        i = i + 1;
    }
    assert(attestations_applied(
        E::spec_slots_per_epoch(),
        *ctxt,
        states,
        attestations@,
        verify_signatures,
        Ok(()),
    ));
    Ok(())
}

/// Sets the flags that an attestation earns for one validator, adds to the proposer's reward, and
/// tells whether a flag was set for the first time.
fn set_participation_flags(
    state: &mut BeaconState,
    data: &AttestationData,
    previous_epoch: Epoch,
    current_epoch: Epoch,
    flag_indices: &Vec<usize>,
    index: usize,
    balance: u64,
    slashed: bool,
    reward_numerator: &mut u64,
) -> (r: Result<bool, BlockProcessingError>)
    ensures
        ({
            let effect = Effect {
                data: *data,
                previous_epoch,
                current_epoch,
                flag_indices: flag_indices@,
                payment_index: None,
            };
            let before = Tally {
                state: old(state)@,
                reward_numerator: *old(reward_numerator),
                weight: 0,
                fresh: false,
            };
            match effect.set_flags(before, index, balance, slashed, NUM_FLAG_INDICES as nat) {
                Ok(after) => {
                    &&& r == Ok::<bool, BlockProcessingError>(after.fresh)
                    &&& final(state)@ == after.state
                    &&& *final(reward_numerator) == after.reward_numerator
                },
                Err(fault) => {
                    &&& r == Err::<bool, BlockProcessingError>(fault.error)
                    &&& final(state)@ == fault.state
                },
            }
        }),
{
    let ghost effect = Effect {
        data: *data,
        previous_epoch,
        current_epoch,
        flag_indices: flag_indices@,
        payment_index: None,
    };
    let ghost before = Tally {
        state: state@,
        reward_numerator: *reward_numerator,
        weight: 0,
        fresh: false,
    };
    let mut fresh: bool = false;
    let mut flag_index: usize = 0;
    while flag_index < NUM_FLAG_INDICES
        invariant
            flag_index <= NUM_FLAG_INDICES,
            effect == (Effect {
                data: *data,
                previous_epoch,
                current_epoch,
                flag_indices: flag_indices@,
                payment_index: None,
            }),
            before == (Tally {
                state: old(state)@,
                reward_numerator: *old(reward_numerator),
                weight: 0,
                fresh: false,
            }),
            effect.set_flags(before, index, balance, slashed, flag_index as nat) == Ok::<
                Tally,
                Fault,
            >(Tally { state: state@, reward_numerator: *reward_numerator, weight: 0, fresh }),
        decreases NUM_FLAG_INDICES - flag_index,
    {
        let ghost tally = Tally {
            state: state@,
            reward_numerator: *reward_numerator,
            weight: 0,
            fresh,
        };
        proof {
            lemma_set_flags_step(effect, before, tally, index, balance, slashed, flag_index);
        }
        let weight: u64 = PARTICIPATION_FLAG_WEIGHTS[flag_index];
        let epoch_participation = match state.get_epoch_participation_mut(
            data.target.epoch,
            previous_epoch,
            current_epoch,
        ) {
            Ok(flags) => flags,
            Err(e) => {
                return Err(BlockProcessingError::BeaconStateError(e));
            },
        };
        if contains_index(flag_indices, flag_index) {
            if index >= epoch_participation.len() {
                return Err(
                    BlockProcessingError::BeaconStateError(
                        BeaconStateError::ParticipationOutOfBounds(index),
                    ),
                );
            }
            let mut validator_participation = epoch_participation[index];
            let has_flag: bool = match validator_participation.has_flag(flag_index) {
                Ok(b) => b,
                Err(e) => {
                    return Err(BlockProcessingError::ArithError(e));
                },
            };
            if !has_flag {
                match validator_participation.add_flag(flag_index) {
                    Ok(()) => {},
                    Err(e) => {
                        return Err(BlockProcessingError::ArithError(e));
                    },
                }
                epoch_participation[index] = validator_participation;
                let base_reward: u64 = match state.get_base_reward(index) {
                    Ok(reward) => reward,
                    Err(e) => {
                        return Err(BlockProcessingError::EpochCacheError(e));
                    },
                };
                let reward: u64 = match safe_mul(base_reward, weight) {
                    Ok(reward) => reward,
                    Err(e) => {
                        return Err(BlockProcessingError::ArithError(e));
                    },
                };
                match safe_add_assign(reward_numerator, reward) {
                    Ok(()) => {},
                    Err(e) => {
                        return Err(BlockProcessingError::ArithError(e));
                    },
                }
                fresh = true;
                match state.update_progressive_balances_on_attestation(
                    data.target.epoch,
                    flag_index,
                    balance,
                    slashed,
                ) {
                    Ok(()) => {},
                    Err(e) => {
                        return Err(BlockProcessingError::BeaconStateError(e));
                    },
                }
            }
        }
        flag_index = flag_index + 1;
    }
    Ok(fresh)
}

/// Setting `n + 1` flags is setting `n` of them and one more; a failure stands for the rest.
proof fn lemma_set_flags_step(
    effect: Effect,
    before: Tally,
    tally: Tally,
    index: usize,
    balance: u64,
    slashed: bool,
    flag_index: usize,
)
    requires
        flag_index < NUM_FLAG_INDICES,
        effect.set_flags(before, index, balance, slashed, flag_index as nat) == Ok::<Tally, Fault>(
            tally,
        ),
    ensures
        effect.set_flags(before, index, balance, slashed, (flag_index + 1) as nat)
            == effect.set_flag(tally, index, balance, slashed, flag_index),
        effect.set_flag(tally, index, balance, slashed, flag_index) matches Err(fault)
            ==> effect.set_flags(before, index, balance, slashed, NUM_FLAG_INDICES as nat) == Err::<
            Tally,
            Fault,
        >(fault),
{
    reveal_with_fuel(Effect::set_flags, 4);
}

/// Setting flags neither reads nor changes the weight, and does not depend on the payment.
proof fn lemma_set_flags_frame(
    effect: Effect,
    payment_index: Option<usize>,
    tally: Tally,
    weight: u64,
    index: usize,
    balance: u64,
    slashed: bool,
    n: nat,
)
    ensures
        (Effect { payment_index, ..effect }).set_flags(
            Tally { weight, ..tally },
            index,
            balance,
            slashed,
            n,
        ) == (match effect.set_flags(tally, index, balance, slashed, n) {
            Ok(tally) => Ok::<Tally, Fault>(Tally { weight, ..tally }),
            Err(fault) => Err(fault),
        }),
    decreases n,
{
    if n > 0 {
        lemma_set_flags_frame(
            effect,
            payment_index,
            tally,
            weight,
            index,
            balance,
            slashed,
            (n - 1) as nat,
        );
    }
}

/// A failure on the first validators is the failure of the attestation.
proof fn lemma_attest_all_fault(effect: Effect, tally: Tally, validators: Seq<u64>, n: nat)
    requires
        n <= validators.len(),
        effect.attest_all(tally, validators.take(n as int)) is Err,
    ensures
        effect.attest_all(tally, validators) == effect.attest_all(tally, validators.take(n as int)),
    decreases validators.len() - n,
{
    if n == validators.len() {
        assert(validators.take(n as int) =~= validators);
    } else {
        assert(validators.take((n + 1) as int).drop_last() =~= validators.take(n as int));
        lemma_attest_all_fault(effect, tally, validators, n + 1);
    }
}

/// The proposer's reward for a given numerator.
fn proposer_reward(reward_numerator: u64) -> (r: Result<u64, ArithError>)
    ensures
        r == Ok::<u64, ArithError>(
            (reward_numerator as int / proposer_reward_denominator()) as u64,
        ),
{
    let others: u64 = match safe_sub(WEIGHT_DENOMINATOR, PROPOSER_WEIGHT) {
        Ok(v) => v,
        Err(e) => {
            return Err(e);
        },
    };
    let scaled: u64 = match safe_mul(others, WEIGHT_DENOMINATOR) {
        Ok(v) => v,
        Err(e) => {
            return Err(e);
        },
    };
    let denominator: u64 = match safe_div(scaled, PROPOSER_WEIGHT) {
        Ok(v) => v,
        Err(e) => {
            return Err(e);
        },
    };
    safe_div(reward_numerator, denominator)
}

} // verus!
