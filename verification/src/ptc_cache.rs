//! The payload timeliness committee of each slot of an epoch.

use crate::beacon_state::{BeaconState, StateModel};
use crate::errors::BeaconStateError;
use crate::eth_spec::{ChainSpec, EthSpec};
use crate::primitives::{Epoch, Hash256, RelativeEpoch, Slot};
use std::collections::HashMap;
use std::sync::Arc;
use vstd::prelude::*;

verus! {

broadcast use vstd::std_specs::hash::group_hash_axioms;

/// The payload timeliness committee of a slot: the index of the validator in each seat.
#[derive(Clone, Debug, PartialEq, Eq)]
pub struct PTC(pub Vec<usize>);

/// Computes and stores the PTC (payload timeliness committee) assignments for an epoch.
/// Provides getters to allow callers to read the PTC for any given slot.
#[derive(Debug, PartialEq)]
pub struct PTCCache {
    initialized_epoch: Option<Epoch>,
    ptc_shuffling: Vec<usize>,
    ptc_slot_assignments: HashMap<usize, u8>,
    ptc_size: usize,
    slots_per_epoch: u64,
}

/// The contents of a [`PTCCache`].
#[verifier::ext_equal]
pub struct PTCCacheModel {
    /// The epoch of the committees, if there are any.
    pub initialized_epoch: Option<Epoch>,
    /// The committees of all slots, one after the other.
    pub ptc_shuffling: Seq<usize>,
    /// The slot of each validator that sits in a committee, counted from the start of the epoch.
    pub ptc_slot_assignments: Map<usize, u8>,
    /// The number of seats in a committee.
    pub ptc_size: usize,
    pub slots_per_epoch: u64,
}

/// What a state knows about its committees, and the draw of a payload timeliness committee.
pub struct PtcSource<A, S, C, B, W> {
    /// The validators that are active in an epoch.
    pub get_cached_active_validator_indices: A,
    /// The seed of the draw for a slot.
    pub get_ptc_attester_seed: S,
    /// The number of beacon committees of a slot.
    pub get_committee_count_at_slot: C,
    /// A beacon committee of a slot.
    pub get_beacon_committee: B,
    /// Draws the given number of seats from the candidates, in proportion to their balances and
    /// without shuffling them.
    pub compute_balance_weighted_selection: W,
}

/// The answers from which the committee of one slot was drawn.
pub struct SlotDraw {
    pub seed: Result<Hash256, BeaconStateError>,
    pub committees_per_slot: Result<u64, BeaconStateError>,
    pub committees: Seq<Vec<usize>>,
    pub missing_committee: Option<BeaconStateError>,
    pub candidates: Vec<usize>,
}

/// The members of the committees, one committee after the other.
pub open spec fn members(committees: Seq<Vec<usize>>) -> Seq<usize>
    decreases committees.len(),
{
    if committees.len() == 0 {
        Seq::empty()
    } else {
        members(committees.drop_last()) + committees.last()@
    }
}

impl<A, S, C, B, W> PtcSource<A, S, C, B, W> where
    A: Fn(RelativeEpoch) -> Result<Vec<usize>, BeaconStateError>,
    S: Fn(Slot) -> Result<Hash256, BeaconStateError>,
    C: Fn(Slot) -> Result<u64, BeaconStateError>,
    B: Fn(Slot, u64) -> Result<Vec<usize>, BeaconStateError>,
    W: Fn(&Vec<usize>, &Hash256, usize) -> Result<Vec<usize>, BeaconStateError>,
 {
    /// Whether every question is answered, and a draw fills exactly the seats it was asked for.
    pub open spec fn answers(self) -> bool {
        &&& forall|epoch: RelativeEpoch|
            call_requires(self.get_cached_active_validator_indices, (epoch,))
        &&& forall|slot: Slot| call_requires(self.get_ptc_attester_seed, (slot,))
        &&& forall|slot: Slot| call_requires(self.get_committee_count_at_slot, (slot,))
        &&& forall|slot: Slot, index: u64| call_requires(self.get_beacon_committee, (slot, index))
        &&& forall|candidates: Vec<usize>, seed: Hash256, size: usize|
            call_requires(self.compute_balance_weighted_selection, (&candidates, &seed, size))
        &&& forall|candidates: Vec<usize>, seed: Hash256, size: usize, seats: Vec<usize>|
            #[trigger] call_ensures(
                self.compute_balance_weighted_selection,
                (&candidates, &seed, size),
                Ok::<Vec<usize>, BeaconStateError>(seats),
            ) ==> seats@.len() == size
    }

    /// Whether a draw seats only candidates.
    pub open spec fn draws_candidates(self) -> bool {
        forall|candidates: Vec<usize>, seed: Hash256, size: usize, seats: Vec<usize>, i: int|
            #[trigger] call_ensures(
                self.compute_balance_weighted_selection,
                (&candidates, &seed, size),
                Ok::<Vec<usize>, BeaconStateError>(seats),
            ) && 0 <= i < seats@.len() ==> candidates@.contains(#[trigger] seats@[i])
    }

    /// Whether `r` is the committee of `slot`, drawn from the members of all its beacon committees
    /// with the slot's seed, or the first failure on the way.
    pub open spec fn drawn(
        self,
        slot: Slot,
        size: usize,
        draw: SlotDraw,
        r: Result<Vec<usize>, BeaconStateError>,
    ) -> bool {
        &&& call_ensures(self.get_ptc_attester_seed, (slot,), draw.seed)
        &&& match draw.seed {
            Err(e) => r == Err::<Vec<usize>, BeaconStateError>(e),
            Ok(seed) => {
                &&& call_ensures(
                    self.get_committee_count_at_slot,
                    (slot,),
                    draw.committees_per_slot,
                )
                &&& match draw.committees_per_slot {
                    Err(e) => r == Err::<Vec<usize>, BeaconStateError>(e),
                    Ok(count) => {
                        &&& draw.committees.len() <= count
                        &&& forall|i: int|
                            0 <= i < draw.committees.len() ==> call_ensures(
                                self.get_beacon_committee,
                                (slot, i as u64),
                                Ok::<Vec<usize>, BeaconStateError>(#[trigger] draw.committees[i]),
                            )
                        &&& match draw.missing_committee {
                            Some(e) => {
                                &&& draw.committees.len() < count
                                &&& call_ensures(
                                    self.get_beacon_committee,
                                    (slot, draw.committees.len() as u64),
                                    Err::<Vec<usize>, BeaconStateError>(e),
                                )
                                &&& r == Err::<Vec<usize>, BeaconStateError>(e)
                            },
                            None => {
                                &&& draw.committees.len() == count
                                &&& draw.candidates@ == members(draw.committees)
                                &&& call_ensures(
                                    self.compute_balance_weighted_selection,
                                    (&draw.candidates, &seed, size),
                                    r,
                                )
                            },
                        }
                    },
                }
            },
        }
    }

    /// Whether `r` is the committee of `slot`, or the first failure on the way to it.
    pub open spec fn slot_ptc(
        self,
        slot: Slot,
        size: usize,
        r: Result<Vec<usize>, BeaconStateError>,
    ) -> bool {
        exists|draw: SlotDraw| #[trigger] self.drawn(slot, size, draw, r)
    }
}

/// Draws the committee of one slot.
fn draw_slot_ptc<A, S, C, B, W>(
    source: &PtcSource<A, S, C, B, W>,
    slot: Slot,
    size: usize,
) -> (r: Result<Vec<usize>, BeaconStateError>) where
    A: Fn(RelativeEpoch) -> Result<Vec<usize>, BeaconStateError>,
    S: Fn(Slot) -> Result<Hash256, BeaconStateError>,
    C: Fn(Slot) -> Result<u64, BeaconStateError>,
    B: Fn(Slot, u64) -> Result<Vec<usize>, BeaconStateError>,
    W: Fn(&Vec<usize>, &Hash256, usize) -> Result<Vec<usize>, BeaconStateError>,

    requires
        source.answers(),
    ensures
        source.slot_ptc(slot, size, r),
{
    let ghost mut draw = SlotDraw {
        seed: arbitrary(),
        committees_per_slot: arbitrary(),
        committees: Seq::empty(),
        missing_committee: None,
        candidates: arbitrary(),
    };
    let seed_reply = (source.get_ptc_attester_seed)(slot);
    proof {
        draw.seed = seed_reply;
    }
    let seed = match seed_reply {
        Ok(seed) => seed,
        Err(e) => {
            assert(source.drawn(slot, size, draw, Err(e)));
            return Err(e);
        },
    };
    let count_reply = (source.get_committee_count_at_slot)(slot);
    proof {
        draw.committees_per_slot = count_reply;
    }
    let committees_per_slot: u64 = match count_reply {
        Ok(count) => count,
        Err(e) => {
            assert(source.drawn(slot, size, draw, Err(e)));
            return Err(e);
        },
    };
    let mut slot_committee_indices: Vec<usize> = Vec::new();
    let ghost mut committees: Seq<Vec<usize>> = Seq::empty();
    let mut committee_index: u64 = 0;
    while committee_index < committees_per_slot
        invariant
            committee_index <= committees_per_slot,
            source.answers(),
            draw.seed == Ok::<Hash256, BeaconStateError>(seed),
            draw.committees_per_slot == Ok::<u64, BeaconStateError>(committees_per_slot),
            draw.missing_committee is None,
            call_ensures(source.get_ptc_attester_seed, (slot,), draw.seed),
            call_ensures(
                source.get_committee_count_at_slot,
                (slot,),
                draw.committees_per_slot,
            ),
            committees.len() == committee_index,
            slot_committee_indices@ == members(committees),
            forall|i: int|
                0 <= i < committees.len() ==> call_ensures(
                    source.get_beacon_committee,
                    (slot, i as u64),
                    Ok::<Vec<usize>, BeaconStateError>(#[trigger] committees[i]),
                ),
        decreases committees_per_slot - committee_index,
    {
        let reply = (source.get_beacon_committee)(slot, committee_index);
        let mut committee = match reply {
            Ok(committee) => committee,
            Err(e) => {
                proof {
                    draw.committees = committees;
                    draw.missing_committee = Some(e);
                    assert(source.drawn(slot, size, draw, Err(e)));
                }
                return Err(e);
            },
        };
        let ghost before = committees;
        proof {
            committees = committees.push(committee);
            assert(committees.drop_last() =~= before);
            assert forall|i: int| 0 <= i < committees.len() implies call_ensures(
                source.get_beacon_committee,
                (slot, i as u64),
                Ok::<Vec<usize>, BeaconStateError>(#[trigger] committees[i]),
            ) by {
                if i < before.len() {
                    assert(committees[i] == before[i]);
                }
            }
        }
        slot_committee_indices.append(&mut committee);
        committee_index = committee_index + 1;
    }
    let r = (source.compute_balance_weighted_selection)(&slot_committee_indices, &seed, size);
    proof {
        draw.committees = committees;
        draw.candidates = slot_committee_indices;
        assert(source.drawn(slot, size, draw, r));
    }
    r
}

/// The seats of the slot at position `offset` of the epoch.
pub open spec fn seats(shuffling: Seq<usize>, ptc_size: nat, offset: nat) -> Seq<usize> {
    shuffling.subrange((offset * ptc_size) as int, (offset * ptc_size + ptc_size) as int)
}

/// The position of the first of `slots` slots in which the validator has a seat.
pub open spec fn first_offset(
    shuffling: Seq<usize>,
    ptc_size: nat,
    slots: nat,
    validator_index: usize,
) -> Option<nat>
    decreases slots,
{
    if slots == 0 {
        None
    } else {
        match first_offset(shuffling, ptc_size, (slots - 1) as nat, validator_index) {
            Some(offset) => Some(offset),
            None => if seats(shuffling, ptc_size, (slots - 1) as nat).contains(validator_index) {
                Some((slots - 1) as nat)
            } else {
                None
            },
        }
    }
}

/// `list` cut or filled up with zeros to `len` entries.
pub open spec fn resized(list: Seq<usize>, len: nat) -> Seq<usize> {
    Seq::new(
        len,
        |i: int|
            if i < list.len() {
                list[i]
            } else {
                0
            },
    )
}

impl PTCCacheModel {
    /// The cache that holds nothing.
    pub open spec fn empty() -> PTCCacheModel {
        PTCCacheModel {
            initialized_epoch: None,
            ptc_shuffling: Seq::empty(),
            ptc_slot_assignments: Map::empty(),
            ptc_size: 0,
            slots_per_epoch: 0,
        }
    }

    /// The first slot of the epoch in which the validator has a seat, counted from its start.
    pub open spec fn offset_of(self, validator_index: usize) -> Option<nat> {
        first_offset(
            self.ptc_shuffling,
            self.ptc_size as nat,
            self.slots_per_epoch as nat,
            validator_index,
        )
    }

    /// Whether the assignments give each validator with a seat its first slot, as a byte.
    pub open spec fn assignments_agree(self) -> bool {
        forall|v: usize|
            match self.offset_of(v) {
                Some(offset) => {
                    &&& #[trigger] self.ptc_slot_assignments.dom().contains(v)
                    &&& self.ptc_slot_assignments[v] == offset as u8
                },
                None => !self.ptc_slot_assignments.dom().contains(v),
            }
    }

    /// What holds of every cache: one that has an epoch has all its committees.
    pub open spec fn valid(self) -> bool {
        self.initialized_epoch is Some ==> {
            &&& 0 < self.slots_per_epoch <= usize::MAX
            &&& self.slots_per_epoch * self.ptc_size <= self.ptc_shuffling.len()
            &&& self.ptc_shuffling.len() <= usize::MAX
            &&& self.assignments_agree()
        }
    }

    /// The committee of `slot`.
    pub open spec fn ptc(self, slot: Slot, len: nat) -> Result<Seq<usize>, BeaconStateError> {
        match self.initialized_epoch {
            None => Err(BeaconStateError::PTCCacheUninitialized(None)),
            Some(epoch) => match epoch.spec_position(slot, self.slots_per_epoch) {
                None => Err(BeaconStateError::SlotOutOfBounds),
                Some(offset) => Ok(
                    resized(seats(self.ptc_shuffling, self.ptc_size as nat, offset as nat), len),
                ),
            },
        }
    }

    /// The slot that the assignments give for the validator.
    pub open spec fn ptc_assignment_optimized(self, validator_index: usize) -> Option<Slot> {
        match self.initialized_epoch {
            None => None,
            Some(epoch) => if self.ptc_slot_assignments.dom().contains(validator_index) {
                Some(
                    epoch.spec_start_slot(self.slots_per_epoch).spec_plus(
                        self.ptc_slot_assignments[validator_index] as u64,
                    ),
                )
            } else {
                None
            },
        }
    }

    /// The slot at which the validator has its first seat.
    pub open spec fn ptc_assignment(self, validator_index: usize) -> Option<Slot> {
        match self.initialized_epoch {
            None => None,
            Some(epoch) => match self.offset_of(validator_index) {
                None => None,
                Some(offset) => Some(
                    epoch.spec_start_slot(self.slots_per_epoch).spec_plus(offset as u64),
                ),
            },
        }
    }
}

/// How far `offset_of` reaches: a validator has a seat exactly in the slots that it is found in.
proof fn lemma_first_offset(
    shuffling: Seq<usize>,
    ptc_size: nat,
    slots: nat,
    validator_index: usize,
)
    ensures
        match first_offset(shuffling, ptc_size, slots, validator_index) {
            Some(offset) => {
                &&& offset < slots
                &&& seats(shuffling, ptc_size, offset).contains(validator_index)
                &&& forall|o: nat|
                    o < offset ==> !(#[trigger] seats(shuffling, ptc_size, o)).contains(
                        validator_index,
                    )
            },
            None => forall|o: nat|
                o < slots ==> !(#[trigger] seats(shuffling, ptc_size, o)).contains(validator_index),
        },
    decreases slots,
{
    if slots > 0 {
        lemma_first_offset(shuffling, ptc_size, (slots - 1) as nat, validator_index);
    }
}

/// More slots do not change the first one.
proof fn lemma_first_offset_stable(
    shuffling: Seq<usize>,
    ptc_size: nat,
    n: nat,
    slots: nat,
    validator_index: usize,
)
    requires
        n <= slots,
        first_offset(shuffling, ptc_size, n, validator_index) is Some,
    ensures
        first_offset(shuffling, ptc_size, slots, validator_index) == first_offset(
            shuffling,
            ptc_size,
            n,
            validator_index,
        ),
    decreases slots,
{
    if n < slots {
        lemma_first_offset_stable(shuffling, ptc_size, n, (slots - 1) as nat, validator_index);
    }
}

/// The seats of a slot lie inside the list of all seats.
proof fn lemma_seats_bounds(ptc_size: nat, slots: nat, offset: nat)
    by (nonlinear_arith)
    requires
        offset < slots,
    ensures
        0 <= offset * ptc_size,
        offset * ptc_size + ptc_size <= slots * ptc_size,
{
}

/// Why the committees of `epoch` cannot be computed from the state at all.
pub open spec fn request_error<E: EthSpec>(
    state: StateModel,
    epoch: Epoch,
    spec: ChainSpec,
) -> Option<BeaconStateError> {
    let slots_per_epoch = E::spec_slots_per_epoch();
    let current_epoch = state.slot.spec_epoch(slots_per_epoch);
    if slots_per_epoch == 0 {
        Some(BeaconStateError::ZeroSlotsPerEpoch)
    } else {
        match RelativeEpoch::spec_from_epoch(current_epoch, epoch) {
            Err(e) => Some(BeaconStateError::RelativeEpochError(e)),
            Ok(_) => if epoch.spec_minus(spec.min_seed_lookahead).spec_minus(1).0
                < state.min_randao_epoch(slots_per_epoch, E::spec_epochs_per_historical_vector()).0
                || epoch.0 > current_epoch.spec_plus(1).0 {
                Some(BeaconStateError::EpochOutOfBounds)
            } else {
                None
            },
        }
    }
}

/// What the computation of a cache learned: the active validators and the committee of each slot,
/// up to the first that failed.
pub struct PtcRun {
    pub active: Result<Vec<usize>, BeaconStateError>,
    pub ptcs: Seq<Vec<usize>>,
    pub failure: Option<BeaconStateError>,
}

/// The slot at position `offset` of the epoch.
pub open spec fn slot_at(epoch: Epoch, slots_per_epoch: u64, offset: int) -> Slot {
    epoch.spec_start_slot(slots_per_epoch).spec_plus(offset as u64)
}

/// Whether `cache` holds the committees `ptcs` of `epoch`.
pub open spec fn holds(
    cache: PTCCacheModel,
    epoch: Epoch,
    ptc_size: usize,
    slots_per_epoch: u64,
    ptcs: Seq<Vec<usize>>,
) -> bool {
    &&& cache.initialized_epoch == Some(epoch)
    &&& cache.ptc_shuffling == members(ptcs)
    &&& cache.ptc_size == ptc_size
    &&& cache.slots_per_epoch == slots_per_epoch
    &&& cache.assignments_agree()
}

/// Whether `run` leads from the state to `r`.
pub open spec fn initialization<E: EthSpec, A, S, C, B, W>(
    source: PtcSource<A, S, C, B, W>,
    state: StateModel,
    epoch: Epoch,
    spec: ChainSpec,
    run: PtcRun,
    r: Result<Arc<PTCCache>, BeaconStateError>,
) -> bool where
    A: Fn(RelativeEpoch) -> Result<Vec<usize>, BeaconStateError>,
    S: Fn(Slot) -> Result<Hash256, BeaconStateError>,
    C: Fn(Slot) -> Result<u64, BeaconStateError>,
    B: Fn(Slot, u64) -> Result<Vec<usize>, BeaconStateError>,
    W: Fn(&Vec<usize>, &Hash256, usize) -> Result<Vec<usize>, BeaconStateError>,
 {
    let slots_per_epoch = E::spec_slots_per_epoch();
    let ptc_size = E::spec_ptc_size();
    match request_error::<E>(state, epoch, spec) {
        Some(e) => r == Err::<Arc<PTCCache>, BeaconStateError>(e),
        None => if !state.fork_name().spec_gloas_enabled() {
            r matches Ok(cache) && cache@ == PTCCacheModel::empty()
        } else {
            &&& RelativeEpoch::spec_from_epoch(
                state.slot.spec_epoch(slots_per_epoch),
                epoch,
            ) matches Ok(relative_epoch) && call_ensures(
                source.get_cached_active_validator_indices,
                (relative_epoch,),
                run.active,
            )
            &&& match run.active {
                Err(e) => r == Err::<Arc<PTCCache>, BeaconStateError>(e),
                Ok(active) => if active@.len() == 0 {
                    r == Err::<Arc<PTCCache>, BeaconStateError>(
                        BeaconStateError::InsufficientValidators,
                    )
                } else {
                    &&& run.ptcs.len() <= slots_per_epoch
                    &&& forall|i: int|
                        0 <= i < run.ptcs.len() ==> source.slot_ptc(
                            slot_at(epoch, slots_per_epoch, i),
                            ptc_size,
                            Ok::<Vec<usize>, BeaconStateError>(#[trigger] run.ptcs[i]),
                        )
                    &&& match run.failure {
                        Some(e) => {
                            &&& run.ptcs.len() < slots_per_epoch
                            &&& source.slot_ptc(
                                slot_at(epoch, slots_per_epoch, run.ptcs.len() as int),
                                ptc_size,
                                Err::<Vec<usize>, BeaconStateError>(e),
                            )
                            &&& r == Err::<Arc<PTCCache>, BeaconStateError>(e)
                        },
                        None => {
                            &&& run.ptcs.len() == slots_per_epoch
                            &&& r matches Ok(cache) && holds(
                                cache@,
                                epoch,
                                ptc_size,
                                slots_per_epoch,
                                run.ptcs,
                            )
                        },
                    }
                },
            }
        },
    }
}

impl View for PTCCache {
    type V = PTCCacheModel;

    closed spec fn view(&self) -> PTCCacheModel {
        PTCCacheModel {
            initialized_epoch: self.initialized_epoch,
            ptc_shuffling: self.ptc_shuffling@,
            ptc_slot_assignments: self.ptc_slot_assignments@,
            ptc_size: self.ptc_size,
            slots_per_epoch: self.slots_per_epoch,
        }
    }
}

impl Default for PTCCache {
    fn default() -> (r: Self)
        ensures
            r@ == PTCCacheModel::empty(),
    {
        PTCCache {
            initialized_epoch: None,
            ptc_shuffling: Vec::new(),
            ptc_slot_assignments: HashMap::new(),
            ptc_size: 0,
            slots_per_epoch: 0,
        }
    }
}

impl Clone for PTCCache {
    fn clone(&self) -> (r: Self)
        ensures
            r@ == self@,
    {
        proof {
            use_type_invariant(self);
        }
        let ptc_shuffling = self.ptc_shuffling.clone();
        let ptc_slot_assignments = self.ptc_slot_assignments.clone();
        assert(ptc_shuffling@ =~= self.ptc_shuffling@);
        assert(ptc_slot_assignments@ =~= self.ptc_slot_assignments@);
        PTCCache {
            initialized_epoch: self.initialized_epoch,
            ptc_shuffling,
            ptc_slot_assignments,
            ptc_size: self.ptc_size,
            slots_per_epoch: self.slots_per_epoch,
        }
    }
}

impl PTCCache {
    #[verifier::type_invariant]
    spec fn type_inv(self) -> bool {
        self@.valid()
    }

    /// Create a new `PTCCache` for the given `BeaconState` and `epoch`.
    ///
    /// This cache is expensive to build and should be stored somewhere persistent.
    pub fn initialized<E: EthSpec, A, S, C, B, W>(
        state: &BeaconState,
        epoch: Epoch,
        spec: &ChainSpec,
        source: &PtcSource<A, S, C, B, W>,
    ) -> (r: Result<Arc<Self>, BeaconStateError>) where
        A: Fn(RelativeEpoch) -> Result<Vec<usize>, BeaconStateError>,
        S: Fn(Slot) -> Result<Hash256, BeaconStateError>,
        C: Fn(Slot) -> Result<u64, BeaconStateError>,
        B: Fn(Slot, u64) -> Result<Vec<usize>, BeaconStateError>,
        W: Fn(&Vec<usize>, &Hash256, usize) -> Result<Vec<usize>, BeaconStateError>,

        requires
            E::spec_slots_per_epoch() <= usize::MAX,
            E::spec_slots_per_epoch() * E::spec_ptc_size() <= usize::MAX,
            source.answers(),
        ensures
            exists|run: PtcRun| #[trigger]
                initialization::<E, A, S, C, B, W>(*source, state@, epoch, *spec, run, r),
    {
        let ghost mut run = PtcRun {
            active: arbitrary(),
            ptcs: Seq::empty(),
            failure: None,
        };
        let slots_per_epoch: u64 = E::slots_per_epoch();
        // Nothing below can be computed when an epoch has no slots.
        if slots_per_epoch == 0 {
            assert(initialization::<E, A, S, C, B, W>(
                *source,
                state@,
                epoch,
                *spec,
                run,
                Err(BeaconStateError::ZeroSlotsPerEpoch),
            ));
            return Err(BeaconStateError::ZeroSlotsPerEpoch);
        }
        // The epoch has to be close to the current one.
        let current_epoch = state.current_epoch(slots_per_epoch);
        let relative_epoch = match RelativeEpoch::from_epoch(current_epoch, epoch) {
            Ok(relative_epoch) => relative_epoch,
            Err(e) => {
                let error = BeaconStateError::RelativeEpochError(e);
                assert(initialization::<E, A, S, C, B, W>(
                    *source,
                    state@,
                    epoch,
                    *spec,
                    run,
                    Err(error),
                ));
                return Err(error);
            },
        };
        // The state has to hold the RANDAO mix that seeds the draw.
        let reqd_randao_epoch = epoch.minus(spec.min_seed_lookahead).minus(1);
        if reqd_randao_epoch.0 < state.min_randao_epoch(
            slots_per_epoch,
            E::epochs_per_historical_vector(),
        ).0 || epoch.0 > current_epoch.plus(1).0 {
            assert(initialization::<E, A, S, C, B, W>(
                *source,
                state@,
                epoch,
                *spec,
                run,
                Err(BeaconStateError::EpochOutOfBounds),
            ));
            return Err(BeaconStateError::EpochOutOfBounds);
        }
        // There are no such committees before Gloas.
        if !state.fork_name_unchecked().gloas_enabled() {
            let r = Ok(Arc::new(Self::default()));
            assert(initialization::<E, A, S, C, B, W>(*source, state@, epoch, *spec, run, r));
            return r;
        }
        let active_reply = (source.get_cached_active_validator_indices)(relative_epoch);
        proof {
            run.active = active_reply;
        }
        match active_reply {
            Ok(indices) => {
                if indices.is_empty() {
                    assert(initialization::<E, A, S, C, B, W>(
                        *source,
                        state@,
                        epoch,
                        *spec,
                        run,
                        Err(BeaconStateError::InsufficientValidators),
                    ));
                    return Err(BeaconStateError::InsufficientValidators);
                }
            },
            Err(e) => {
                assert(initialization::<E, A, S, C, B, W>(
                    *source,
                    state@,
                    epoch,
                    *spec,
                    run,
                    Err(e),
                ));
                return Err(e);
            },
        }
        let ptc_size: usize = E::ptc_size();
        let ghost started = run;
        // The committees of all slots, one after the other.
        let mut ptc_shuffling: Vec<usize> = Vec::new();
        let mut slot_offset: u64 = 0;
        while slot_offset < slots_per_epoch
            invariant
                slot_offset <= slots_per_epoch,
                slots_per_epoch == E::spec_slots_per_epoch(),
                ptc_size == E::spec_ptc_size(),
                source.answers(),
                run == (PtcRun { ptcs: run.ptcs, ..started }),
                started.failure is None,
                started.active matches Ok(active) && active@.len() > 0,
                request_error::<E>(state@, epoch, *spec) is None,
                state@.fork_name().spec_gloas_enabled(),
                RelativeEpoch::spec_from_epoch(
                    state@.slot.spec_epoch(slots_per_epoch),
                    epoch,
                ) matches Ok(relative_epoch) && call_ensures(
                    source.get_cached_active_validator_indices,
                    (relative_epoch,),
                    started.active,
                ),
                run.ptcs.len() == slot_offset,
                ptc_shuffling@ == members(run.ptcs),
                forall|i: int|
                    0 <= i < run.ptcs.len() ==> source.slot_ptc(
                        slot_at(epoch, slots_per_epoch, i),
                        ptc_size,
                        Ok::<Vec<usize>, BeaconStateError>(#[trigger] run.ptcs[i]),
                    ),
                forall|i: int|
                    0 <= i < run.ptcs.len() ==> (#[trigger] run.ptcs[i])@.len() == ptc_size,
            decreases slots_per_epoch - slot_offset,
        {
            let slot = epoch.start_slot(slots_per_epoch).plus(slot_offset);
            let reply = draw_slot_ptc(source, slot, ptc_size);
            let mut slot_ptc = match reply {
                Ok(slot_ptc) => slot_ptc,
                Err(e) => {
                    proof {
                        run.failure = Some(e);
                        assert(initialization::<E, A, S, C, B, W>(
                            *source,
                            state@,
                            epoch,
                            *spec,
                            run,
                            Err(e),
                        ));
                    }
                    return Err(e);
                },
            };
            let ghost before = run.ptcs;
            proof {
                run.ptcs = before.push(slot_ptc);
                assert(run.ptcs.drop_last() =~= before);
                let draw = choose|draw: SlotDraw| #[trigger]
                    source.drawn(slot, ptc_size, draw, reply);
                assert(source.drawn(slot, ptc_size, draw, reply));
                assert(slot_ptc@.len() == ptc_size);
                assert forall|i: int| 0 <= i < run.ptcs.len() implies source.slot_ptc(
                    slot_at(epoch, slots_per_epoch, i),
                    ptc_size,
                    Ok::<Vec<usize>, BeaconStateError>(#[trigger] run.ptcs[i]),
                ) by {
                    if i < before.len() {
                        assert(run.ptcs[i] == before[i]);
                    }
                }
                assert forall|i: int| 0 <= i < run.ptcs.len() implies (
                #[trigger] run.ptcs[i])@.len() == ptc_size by {
                    if i < before.len() {
                        assert(run.ptcs[i] == before[i]);
                    }
                }
            }
            ptc_shuffling.append(&mut slot_ptc);
            slot_offset = slot_offset + 1;
        }
        proof {
            lemma_members_len(run.ptcs, ptc_size as nat);
        }
        let ptc_slot_assignments = assign_slots(&ptc_shuffling, ptc_size, slots_per_epoch);
        let r = Ok(
            Arc::new(
                PTCCache {
                    initialized_epoch: Some(epoch),
                    ptc_shuffling,
                    ptc_slot_assignments,
                    ptc_size,
                    slots_per_epoch,
                },
            ),
        );
        assert(initialization::<E, A, S, C, B, W>(*source, state@, epoch, *spec, run, r));
        r
    }

    /// Returns the PTC for the given `slot`.
    pub fn get_ptc<E: EthSpec>(&self, slot: Slot) -> (r: Result<PTC, BeaconStateError>)
        ensures
            match r {
                Ok(ptc) => self@.ptc(slot, E::spec_ptc_size() as nat) == Ok::<
                    Seq<usize>,
                    BeaconStateError,
                >(ptc.0@),
                Err(e) => self@.ptc(slot, E::spec_ptc_size() as nat) == Err::<
                    Seq<usize>,
                    BeaconStateError,
                >(e),
            },
    {
        proof {
            use_type_invariant(self);
        }
        let epoch = match self.initialized_epoch {
            Some(epoch) => epoch,
            None => {
                return Err(BeaconStateError::PTCCacheUninitialized(None));
            },
        };
        let slot_offset: u64 = match epoch.position(slot, self.slots_per_epoch) {
            Some(offset) => offset,
            None => {
                return Err(BeaconStateError::SlotOutOfBounds);
            },
        };
        proof {
            lemma_seats_bounds(
                self.ptc_size as nat,
                self.slots_per_epoch as nat,
                slot_offset as nat,
            );
        }
        let start_index: usize = (slot_offset as usize) * self.ptc_size;
        let end_index: usize = start_index + self.ptc_size;
        if end_index > self.ptc_shuffling.len() {
            return Err(BeaconStateError::SlotOutOfBounds);
        }
        let len: usize = E::ptc_size();
        let ghost slot_seats = seats(self.ptc_shuffling@, self.ptc_size as nat, slot_offset as nat);
        let mut ptc_indices: Vec<usize> = Vec::new();
        let mut i: usize = 0;
        while i < len
            invariant
                i <= len,
                end_index == start_index + self.ptc_size,
                end_index <= self.ptc_shuffling.len(),
                slot_seats == self.ptc_shuffling@.subrange(start_index as int, end_index as int),
                ptc_indices@ =~= resized(slot_seats, i as nat),
            decreases len - i,
        {
            if i < self.ptc_size {
                ptc_indices.push(self.ptc_shuffling[start_index + i]);
            } else {
                ptc_indices.push(0);
            }
            i = i + 1;
        }
        Ok(PTC(ptc_indices))
    }

    /// Returns the epoch for which this cache was initialized.
    pub fn initialized_epoch(&self) -> (r: Option<Epoch>)
        ensures
            r == self@.initialized_epoch,
    {
        self.initialized_epoch
    }

    /// Returns `true` if this cache has been initialized at the given `epoch`.
    pub fn is_initialized_at(&self, epoch: Epoch) -> (r: bool)
        ensures
            r == (self@.initialized_epoch == Some(epoch)),
    {
        match self.initialized_epoch {
            Some(initialized_epoch) => initialized_epoch == epoch,
            None => false,
        }
    }

    /// Returns the slot during the requested epoch in which the validator is a PTC member.
    pub fn get_ptc_assignment(&self, validator_index: usize) -> (r: Option<Slot>)
        ensures
            r == self@.ptc_assignment(validator_index),
    {
        proof {
            use_type_invariant(self);
        }
        let epoch = match self.initialized_epoch {
            Some(epoch) => epoch,
            None => {
                return None;
            },
        };
        let mut slot_offset: u64 = 0;
        while slot_offset < self.slots_per_epoch
            invariant
                slot_offset <= self.slots_per_epoch,
                self.slots_per_epoch <= usize::MAX,
                self.slots_per_epoch * self.ptc_size <= self.ptc_shuffling.len(),
                self@.initialized_epoch == Some(epoch),
                first_offset(
                    self.ptc_shuffling@,
                    self.ptc_size as nat,
                    slot_offset as nat,
                    validator_index,
                ) is None,
            decreases self.slots_per_epoch - slot_offset,
        {
            proof {
                lemma_seats_bounds(
                    self.ptc_size as nat,
                    self.slots_per_epoch as nat,
                    slot_offset as nat,
                );
            }
            let start_index: usize = (slot_offset as usize) * self.ptc_size;
            let end_index: usize = start_index + self.ptc_size;
            if end_index <= self.ptc_shuffling.len() {
                if has_seat(&self.ptc_shuffling, start_index, end_index, validator_index) {
                    proof {
                        lemma_first_offset_stable(
                            self.ptc_shuffling@,
                            self.ptc_size as nat,
                            (slot_offset + 1) as nat,
                            self.slots_per_epoch as nat,
                            validator_index,
                        );
                    }
                    return Some(epoch.start_slot(self.slots_per_epoch).plus(slot_offset));
                }
            }
            slot_offset = slot_offset + 1;
        }
        None
    }

    /// Optimized version of `get_ptc_assignment`.
    pub fn get_ptc_assignment_optimized(&self, validator_index: usize) -> (r: Option<Slot>)
        ensures
            r == self@.ptc_assignment_optimized(validator_index),
            self@.slots_per_epoch <= 256 ==> r == self@.ptc_assignment(validator_index),
    {
        proof {
            use_type_invariant(self);
            if self@.slots_per_epoch <= 256 {
                lemma_optimized_assignment_agrees(self@, validator_index);
            }
        }
        let epoch = match self.initialized_epoch {
            Some(epoch) => epoch,
            None => {
                return None;
            },
        };
        let slot_offset: u8 = match self.ptc_slot_assignments.get(&validator_index) {
            Some(offset) => *offset,
            None => {
                return None;
            },
        };
        Some(epoch.start_slot(self.slots_per_epoch).plus(slot_offset as u64))
    }
}

/// Whether `validator_index` occurs in the given part of the list.
fn has_seat(list: &Vec<usize>, start: usize, end: usize, validator_index: usize) -> (r: bool)
    requires
        start <= end <= list.len(),
    ensures
        r == list@.subrange(start as int, end as int).contains(validator_index),
{
    let ghost part = list@.subrange(start as int, end as int);
    let mut i: usize = start;
    while i < end
        invariant
            start <= i <= end,
            end <= list.len(),
            part == list@.subrange(start as int, end as int),
            forall|k: int| 0 <= k < i - start ==> part[k] != validator_index,
        decreases end - i,
    {
        if list[i] == validator_index {
            assert(part[i - start] == validator_index);
            return true;
        }
        i = i + 1;
    }
    false
}

/// The two ways to look up an assignment agree, in an epoch of at most as many slots as a byte
/// can number.
pub proof fn lemma_optimized_assignment_agrees(cache: PTCCacheModel, validator_index: usize)
    requires
        cache.valid(),
        cache.slots_per_epoch <= 256,
    ensures
        cache.ptc_assignment_optimized(validator_index) == cache.ptc_assignment(validator_index),
{
    lemma_first_offset(
        cache.ptc_shuffling,
        cache.ptc_size as nat,
        cache.slots_per_epoch as nat,
        validator_index,
    );
    if cache.initialized_epoch is Some {
        assert(cache.ptc_slot_assignments.dom().contains(validator_index)
            == cache.offset_of(validator_index) is Some);
    }
}

/// A validator that is assigned a slot sits in the committee of that slot and in that of no
/// earlier slot of the epoch.
///
/// Slot numbers are capped; no slot of the epoch is taken to lie above the cap.
pub proof fn lemma_assigned_validator_has_seat(cache: PTCCacheModel, validator_index: usize)
    requires
        cache.valid(),
        cache.initialized_epoch matches Some(epoch) && (epoch.0 + 1) * cache.slots_per_epoch
            <= u64::MAX + 1,
        cache.ptc_assignment(validator_index) is Some,
    ensures
        ({
            let slot = cache.ptc_assignment(validator_index)->0;
            let size = cache.ptc_size as nat;
            &&& cache.ptc(slot, size) matches Ok(seats) && seats.contains(validator_index)
            &&& forall|earlier: Slot|
                earlier.0 < slot.0 ==> (#[trigger] cache.ptc(earlier, size) matches Ok(seats)
                    ==> !seats.contains(validator_index))
        }),
{
    let epoch = cache.initialized_epoch->0;
    let size = cache.ptc_size as nat;
    let offset = cache.offset_of(validator_index)->0;
    let slot = cache.ptc_assignment(validator_index)->0;
    lemma_first_offset(cache.ptc_shuffling, size, cache.slots_per_epoch as nat, validator_index);
    lemma_seats_bounds(size, cache.slots_per_epoch as nat, offset);
    assert((epoch.0 + 1) * cache.slots_per_epoch == epoch.0 * cache.slots_per_epoch
        + cache.slots_per_epoch) by (nonlinear_arith);
    assert(cache.slots_per_epoch * cache.ptc_size == cache.slots_per_epoch as nat * size);
    let own = seats(cache.ptc_shuffling, size, offset);
    assert(resized(own, size) =~= own);
    assert forall|earlier: Slot| earlier.0 < slot.0 implies (#[trigger] cache.ptc(
        earlier,
        size,
    ) matches Ok(seats) ==> !seats.contains(validator_index)) by {
        if let Ok(found) = cache.ptc(earlier, size) {
            let position = epoch.spec_position(earlier, cache.slots_per_epoch)->0 as nat;
            let other = seats(cache.ptc_shuffling, size, position);
            assert(position < offset);
            lemma_seats_bounds(size, cache.slots_per_epoch as nat, position);
            assert(resized(other, size) =~= other);
            assert(!other.contains(validator_index));
        }
    }
}

/// Every validator with a seat in the epoch is assigned a slot.
pub proof fn lemma_seated_validator_is_assigned(
    cache: PTCCacheModel,
    slot: Slot,
    validator_index: usize,
)
    requires
        cache.valid(),
        cache.ptc(slot, cache.ptc_size as nat) matches Ok(seats) && seats.contains(validator_index),
    ensures
        cache.ptc_assignment(validator_index) is Some,
{
    let epoch = cache.initialized_epoch->0;
    let size = cache.ptc_size as nat;
    let position = epoch.spec_position(slot, cache.slots_per_epoch)->0 as nat;
    let own = seats(cache.ptc_shuffling, size, position);
    lemma_first_offset(cache.ptc_shuffling, size, cache.slots_per_epoch as nat, validator_index);
    lemma_seats_bounds(size, cache.slots_per_epoch as nat, position);
    assert(cache.slots_per_epoch * cache.ptc_size == cache.slots_per_epoch as nat * size);
    assert(resized(own, size) =~= own);
}

/// The committee that a cache gives for a slot of its epoch is the one that was drawn for it.
pub proof fn lemma_cache_gives_drawn_ptc(
    cache: PTCCacheModel,
    epoch: Epoch,
    slots_per_epoch: u64,
    ptc_size: usize,
    ptcs: Seq<Vec<usize>>,
    slot: Slot,
)
    requires
        holds(cache, epoch, ptc_size, slots_per_epoch, ptcs),
        ptcs.len() == slots_per_epoch,
        slots_per_epoch > 0,
        forall|i: int| 0 <= i < ptcs.len() ==> (#[trigger] ptcs[i])@.len() == ptc_size,
        epoch.spec_position(slot, slots_per_epoch) is Some,
    ensures
        cache.ptc(slot, ptc_size as nat) == Ok::<Seq<usize>, BeaconStateError>(
            ptcs[epoch.spec_position(slot, slots_per_epoch)->0 as int]@,
        ),
{
    let position = epoch.spec_position(slot, slots_per_epoch)->0 as nat;
    let size = ptc_size as nat;
    lemma_members_seats(ptcs, size, position);
    assert(resized(ptcs[position as int]@, size) =~= ptcs[position as int]@);
}

/// Every member of the committee that a cache gives for a slot sits in a beacon committee of that
/// slot, as long as a draw seats only candidates.
pub proof fn lemma_ptc_members_sit_in_beacon_committees<E: EthSpec, A, S, C, B, W>(
    source: PtcSource<A, S, C, B, W>,
    state: StateModel,
    epoch: Epoch,
    spec: ChainSpec,
    run: PtcRun,
    cache: Arc<PTCCache>,
    slot: Slot,
    validator_index: usize,
) where
    A: Fn(RelativeEpoch) -> Result<Vec<usize>, BeaconStateError>,
    S: Fn(Slot) -> Result<Hash256, BeaconStateError>,
    C: Fn(Slot) -> Result<u64, BeaconStateError>,
    B: Fn(Slot, u64) -> Result<Vec<usize>, BeaconStateError>,
    W: Fn(&Vec<usize>, &Hash256, usize) -> Result<Vec<usize>, BeaconStateError>,

    requires
        source.answers(),
        source.draws_candidates(),
        initialization::<E, A, S, C, B, W>(source, state, epoch, spec, run, Ok(cache)),
        cache@.ptc(slot, E::spec_ptc_size() as nat) matches Ok(seats) && seats.contains(
            validator_index,
        ),
    ensures
        exists|index: u64, committee: Vec<usize>|
            #![trigger call_ensures(
                source.get_beacon_committee,
                (slot, index),
                Ok::<Vec<usize>, BeaconStateError>(committee),
            )]
            call_ensures(
                source.get_beacon_committee,
                (slot, index),
                Ok::<Vec<usize>, BeaconStateError>(committee),
            ) && committee@.contains(validator_index),
{
    let slots_per_epoch = E::spec_slots_per_epoch();
    let ptc_size = E::spec_ptc_size();
    let position = epoch.spec_position(slot, slots_per_epoch)->0;
    assert forall|i: int| 0 <= i < run.ptcs.len() implies (#[trigger] run.ptcs[i])@.len()
        == ptc_size by {
        assert(source.slot_ptc(slot_at(epoch, slots_per_epoch, i), ptc_size, Ok(run.ptcs[i])));
    }
    lemma_cache_gives_drawn_ptc(cache@, epoch, slots_per_epoch, ptc_size, run.ptcs, slot);
    let ptc = run.ptcs[position as int];
    assert(slot_at(epoch, slots_per_epoch, position as int) == slot);
    assert(source.slot_ptc(slot, ptc_size, Ok(ptc)));
    let draw = choose|draw: SlotDraw| #[trigger] source.drawn(slot, ptc_size, draw, Ok(ptc));
    let seat = choose|i: int| 0 <= i < ptc@.len() && ptc@[i] == validator_index;
    assert(draw.candidates@.contains(ptc@[seat]));
    let index = lemma_member_of_some_committee(draw.committees, validator_index);
    assert(call_ensures(
        source.get_beacon_committee,
        (slot, index as u64),
        Ok::<Vec<usize>, BeaconStateError>(draw.committees[index]),
    ));
}

/// Who is among the members of some committees is a member of one of them.
proof fn lemma_member_of_some_committee(committees: Seq<Vec<usize>>, validator_index: usize) -> (r:
    int)
    requires
        members(committees).contains(validator_index),
    ensures
        0 <= r < committees.len(),
        committees[r]@.contains(validator_index),
    decreases committees.len(),
{
    let all = members(committees);
    let i = choose|i: int| 0 <= i < all.len() && all[i] == validator_index;
    let rest = members(committees.drop_last());
    if i < rest.len() {
        assert(rest[i] == validator_index);
        lemma_member_of_some_committee(committees.drop_last(), validator_index)
    } else {
        assert(committees.last()@[i - rest.len()] == validator_index);
        committees.len() - 1
    }
}

/// Committees of equal size stand at multiples of that size.
proof fn lemma_members_seats(committees: Seq<Vec<usize>>, size: nat, position: nat)
    requires
        forall|i: int| 0 <= i < committees.len() ==> (#[trigger] committees[i])@.len() == size,
        position < committees.len(),
    ensures
        seats(members(committees), size, position) == committees[position as int]@,
        members(committees).len() == committees.len() * size,
    decreases committees.len(),
{
    let rest = committees.drop_last();
    assert forall|i: int| 0 <= i < rest.len() implies (#[trigger] rest[i])@.len() == size by {
        assert(rest[i] == committees[i]);
    }
    lemma_members_len(rest, size);
    lemma_members_len(committees, size);
    if position == rest.len() {
        assert(seats(members(committees), size, position) =~= committees[position as int]@);
    } else {
        lemma_members_seats(rest, size, position);
        lemma_seats_bounds(size, rest.len(), position);
        assert(seats(members(committees), size, position) =~= seats(
            members(rest),
            size,
            position,
        ));
    }
}

/// Committees of equal size fill a list of as many times that size.
proof fn lemma_members_len(committees: Seq<Vec<usize>>, size: nat)
    requires
        forall|i: int| 0 <= i < committees.len() ==> (#[trigger] committees[i])@.len() == size,
    ensures
        members(committees).len() == committees.len() * size,
    decreases committees.len(),
{
    if committees.len() > 0 {
        let rest = committees.drop_last();
        assert forall|i: int| 0 <= i < rest.len() implies (#[trigger] rest[i])@.len() == size by {
            assert(rest[i] == committees[i]);
        }
        lemma_members_len(rest, size);
        assert(committees.len() * size == rest.len() * size + size) by (nonlinear_arith)
            requires
                committees.len() == rest.len() + 1,
        ;
    } else {
        assert(committees.len() * size == 0) by (nonlinear_arith)
            requires
                committees.len() == 0,
        ;
    }
}

/// Whether `v` is entered as it was in `before` or, if it was not and is among `seen`, with
/// `value`.
spec fn entered(
    assignments: Map<usize, u8>,
    before: Map<usize, u8>,
    seen: Seq<usize>,
    value: u8,
    v: usize,
) -> bool {
    if before.dom().contains(v) {
        assignments.dom().contains(v) && assignments[v] == before[v]
    } else if seen.contains(v) {
        assignments.dom().contains(v) && assignments[v] == value
    } else {
        !assignments.dom().contains(v)
    }
}

/// Gives each validator with a seat the first slot it sits in.
fn assign_slots(ptc_shuffling: &Vec<usize>, ptc_size: usize, slots_per_epoch: u64) -> (r: HashMap<
    usize,
    u8,
>)
    requires
        slots_per_epoch <= usize::MAX,
        slots_per_epoch * ptc_size <= ptc_shuffling.len(),
    ensures
        forall|v: usize|
            match first_offset(
                ptc_shuffling@,
                ptc_size as nat,
                slots_per_epoch as nat,
                v,
            ) {
                Some(offset) => #[trigger] r@.dom().contains(v) && r@[v] == offset as u8,
                None => !r@.dom().contains(v),
            },
{
    let mut assignments: HashMap<usize, u8> = HashMap::new();
    let mut slot_offset: u64 = 0;
    while slot_offset < slots_per_epoch
        invariant
            slot_offset <= slots_per_epoch,
            slots_per_epoch <= usize::MAX,
            slots_per_epoch * ptc_size <= ptc_shuffling.len(),
            forall|v: usize|
                match first_offset(ptc_shuffling@, ptc_size as nat, slot_offset as nat, v) {
                    Some(offset) => #[trigger] assignments@.dom().contains(v) && assignments@[v]
                        == offset as u8,
                    None => !assignments@.dom().contains(v),
                },
        decreases slots_per_epoch - slot_offset,
    {
        proof {
            lemma_seats_bounds(ptc_size as nat, slots_per_epoch as nat, slot_offset as nat);
        }
        let start_index: usize = (slot_offset as usize) * ptc_size;
        let ghost before = assignments@;
        let ghost slot_seats = seats(ptc_shuffling@, ptc_size as nat, slot_offset as nat);
        let mut i: usize = 0;
        while i < ptc_size
            invariant
                i <= ptc_size,
                start_index == slot_offset * ptc_size,
                start_index + ptc_size <= ptc_shuffling.len(),
                slot_seats == seats(ptc_shuffling@, ptc_size as nat, slot_offset as nat),
                forall|v: usize| #[trigger]
                    entered(
                        assignments@,
                        before,
                        slot_seats.take(i as int),
                        slot_offset as u8,
                        v,
                    ),
            decreases ptc_size - i,
        {
            let validator_index: usize = ptc_shuffling[start_index + i];
            let ghost grown = slot_seats.take(i + 1);
            proof {
                assert(grown =~= slot_seats.take(i as int).push(validator_index));
                assert forall|v: usize| #[trigger] grown.contains(v) == (slot_seats.take(
                    i as int,
                ).contains(v) || v == validator_index) by {
                    let shorter = slot_seats.take(i as int);
                    if shorter.contains(v) {
                        let k = choose|k: int| 0 <= k < shorter.len() && shorter[k] == v;
                        assert(grown[k] == v);
                    }
                    if v == validator_index {
                        assert(grown[i as int] == v);
                    }
                    if grown.contains(v) && v != validator_index {
                        let k = choose|k: int| 0 <= k < grown.len() && grown[k] == v;
                        assert(shorter[k] == v);
                    }
                }
            }
            let ghost prior = assignments@;
            if !assignments.contains_key(&validator_index) {
                assignments.insert(validator_index, slot_offset as u8);
            }
            assert forall|v: usize| #[trigger]
                entered(assignments@, before, grown, slot_offset as u8, v) by {
                assert(entered(
                    prior,
                    before,
                    slot_seats.take(i as int),
                    slot_offset as u8,
                    v,
                ));
                assert(grown.contains(v) == (slot_seats.take(i as int).contains(v) || v
                    == validator_index));
                assert(entered(
                    prior,
                    before,
                    slot_seats.take(i as int),
                    slot_offset as u8,
                    validator_index,
                ));
            }
            i = i + 1;
        }
        proof {
            assert(slot_seats.take(ptc_size as int) =~= slot_seats);
            assert forall|v: usize|
                match first_offset(ptc_shuffling@, ptc_size as nat, (slot_offset + 1) as nat, v) {
                    Some(offset) => #[trigger] assignments@.dom().contains(v) && assignments@[v]
                        == offset as u8,
                    None => !assignments@.dom().contains(v),
                } by {
                assert(entered(assignments@, before, slot_seats, slot_offset as u8, v));
            }
        }
        slot_offset = slot_offset + 1;
    }
    assignments
}

} // verus!
