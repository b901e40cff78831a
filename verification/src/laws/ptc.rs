//! The payload timeliness committees and the duties in them.

use crate::beacon_state::{ForkModel, StateModel};
use crate::errors::BeaconStateError;
use crate::eth_spec::{ChainSpec, EthSpec};
use crate::primitives::{Epoch, ForkName, Hash256, RelativeEpoch, Slot};
use crate::ptc_cache::{
    first_offset, initialization, lemma_cache_gives_drawn_ptc, members, request_error, seats,
    slot_at, PTCCache, PTCCacheModel, PtcRun, PtcSource, SlotDraw, PTC,
};
use std::sync::Arc;
use vstd::prelude::*;

verus! {

/// Whether `seats` is an answer to a draw for `slot`: with a seed that was answered for that slot,
/// from the beacon committees of that slot, all of them, one after the other.
pub open spec fn drawn_for<A, S, C, B, W>(
    source: PtcSource<A, S, C, B, W>,
    slot: Slot,
    size: usize,
    seed: Hash256,
    committees: Seq<Vec<usize>>,
    candidates: Vec<usize>,
    seats: Vec<usize>,
) -> bool where
    A: Fn(RelativeEpoch) -> Result<Vec<usize>, BeaconStateError>,
    S: Fn(Slot) -> Result<Hash256, BeaconStateError>,
    C: Fn(Slot) -> Result<u64, BeaconStateError>,
    B: Fn(Slot, u64) -> Result<Vec<usize>, BeaconStateError>,
    W: Fn(&Vec<usize>, &Hash256, usize) -> Result<Vec<usize>, BeaconStateError>,
 {
    &&& call_ensures(
        source.get_ptc_attester_seed,
        (slot,),
        Ok::<Hash256, BeaconStateError>(seed),
    )
    &&& committees.len() <= u64::MAX
    &&& call_ensures(
        source.get_committee_count_at_slot,
        (slot,),
        Ok::<u64, BeaconStateError>(committees.len() as u64),
    )
    &&& forall|i: int|
        0 <= i < committees.len() ==> call_ensures(
            source.get_beacon_committee,
            (slot, i as u64),
            Ok::<Vec<usize>, BeaconStateError>(#[trigger] committees[i]),
        )
    &&& candidates@ == committees.map_values(|committee: Vec<usize>| committee@).flatten()
    &&& call_ensures(
        source.compute_balance_weighted_selection,
        (&candidates, &seed, size),
        Ok::<Vec<usize>, BeaconStateError>(seats),
    )
}

proof fn lemma_members_one_after_the_other(committees: Seq<Vec<usize>>)
    ensures
        members(committees) == committees.map_values(
            |committee: Vec<usize>| committee@,
        ).flatten(),
    decreases committees.len(),
{
    let lists = committees.map_values(|committee: Vec<usize>| committee@);
    lists.lemma_flatten_and_flatten_alt_are_equivalent();
    if committees.len() > 0 {
        let rest = committees.drop_last();
        lemma_members_one_after_the_other(rest);
        let rest_lists = rest.map_values(|committee: Vec<usize>| committee@);
        rest_lists.lemma_flatten_and_flatten_alt_are_equivalent();
        assert(lists.drop_last() =~= rest_lists);
    }
}

/// For every slot of the epoch of a cache, the committee that the cache gives is an answer of the
/// draw to the beacon committees of that very slot, one after the other, with a seed that was
/// answered when asked for that very slot. For any other slot the cache gives none.
pub proof fn lemma_cached_ptc_is_drawn_for_its_slot<E: EthSpec, A, S, C, B, W>(
    source: PtcSource<A, S, C, B, W>,
    state: StateModel,
    epoch: Epoch,
    spec: ChainSpec,
    run: PtcRun,
    cache: Arc<PTCCache>,
    slot: Slot,
) where
    A: Fn(RelativeEpoch) -> Result<Vec<usize>, BeaconStateError>,
    S: Fn(Slot) -> Result<Hash256, BeaconStateError>,
    C: Fn(Slot) -> Result<u64, BeaconStateError>,
    B: Fn(Slot, u64) -> Result<Vec<usize>, BeaconStateError>,
    W: Fn(&Vec<usize>, &Hash256, usize) -> Result<Vec<usize>, BeaconStateError>,

    requires
        source.answers(),
        state.fork is Gloas,
        initialization::<E, A, S, C, B, W>(source, state, epoch, spec, run, Ok(cache)),
        epoch.0 * E::spec_slots_per_epoch() <= u64::MAX,
    ensures
        ({
            let start = epoch.0 * E::spec_slots_per_epoch();
            let size = E::spec_ptc_size();
            if start <= slot.0 < start + E::spec_slots_per_epoch() {
                exists|
                    seed: Hash256,
                    committees: Seq<Vec<usize>>,
                    candidates: Vec<usize>,
                    seats: Vec<usize>,
                | #[trigger]
                    drawn_for(source, slot, size, seed, committees, candidates, seats)
                        && cache@.ptc(slot, size as nat) == Ok::<Seq<usize>, BeaconStateError>(
                        seats@,
                    )
            } else {
                cache@.ptc(slot, size as nat) == Err::<Seq<usize>, BeaconStateError>(
                    BeaconStateError::SlotOutOfBounds,
                )
            }
        }),
{
    let slots_per_epoch = E::spec_slots_per_epoch();
    let size = E::spec_ptc_size();
    let start = epoch.0 * slots_per_epoch;
    assert(start >= 0) by (nonlinear_arith)
        requires
            start == epoch.0 * slots_per_epoch,
    ;
    if start <= slot.0 < start + slots_per_epoch {
        let position = slot.0 - start;
        assert(epoch.spec_position(slot, slots_per_epoch) == Some(position as u64));
        assert forall|i: int| 0 <= i < run.ptcs.len() implies (#[trigger] run.ptcs[i])@.len()
            == size by {
            assert(source.slot_ptc(slot_at(epoch, slots_per_epoch, i), size, Ok(run.ptcs[i])));
        }
        lemma_cache_gives_drawn_ptc(cache@, epoch, slots_per_epoch, size, run.ptcs, slot);
        let seats = run.ptcs[position];
        assert(slot_at(epoch, slots_per_epoch, position) == slot);
        assert(source.slot_ptc(slot, size, Ok(seats)));
        let draw = choose|draw: SlotDraw| #[trigger] source.drawn(slot, size, draw, Ok(seats));
        lemma_members_one_after_the_other(draw.committees);
        assert(drawn_for(
            source,
            slot,
            size,
            draw.seed->Ok_0,
            draw.committees,
            draw.candidates,
            seats,
        ));
    }
}

/// A committee that is asked for with another size is cut, or filled up with zeros.
pub proof fn lemma_ptc_is_cut_or_filled_up(cache: PTCCacheModel, slot: Slot, len: nat)
    requires
        cache.valid(),
    ensures
        match (cache.ptc(slot, cache.ptc_size as nat), cache.ptc(slot, len)) {
            (Ok(seats), Ok(asked)) => {
                &&& seats.len() == cache.ptc_size
                &&& asked.len() == len
                &&& forall|i: int|
                    0 <= i < len ==> #[trigger] asked[i] == (if i < seats.len() {
                        seats[i]
                    } else {
                        0
                    })
            },
            (Err(a), Err(b)) => a == b,
            _ => false,
        },
{
    if let Some(epoch) = cache.initialized_epoch {
        if let Some(offset) = epoch.spec_position(slot, cache.slots_per_epoch) {
            let size = cache.ptc_size as int;
            let slots = cache.slots_per_epoch as int;
            let position = offset as int;
            assert(0 <= position * size && position * size + size <= slots * size)
                by (nonlinear_arith)
                requires
                    0 <= position < slots,
                    0 <= size,
            ;
        }
    }
}

/// The committees of an epoch are computed exactly when the epoch is the previous, the current or
/// the next one and its RANDAO mix is still there, and every question on the way was answered.
/// Before Gloas there are none. What was asked decides the rest: a failure is passed on, and so is
/// the want of active validators.
pub proof fn lemma_committees_are_computed_for_epochs_in_reach<E: EthSpec, A, S, C, B, W>(
    source: PtcSource<A, S, C, B, W>,
    state: StateModel,
    epoch: Epoch,
    spec: ChainSpec,
    run: PtcRun,
    r: Result<Arc<PTCCache>, BeaconStateError>,
) where
    A: Fn(RelativeEpoch) -> Result<Vec<usize>, BeaconStateError>,
    S: Fn(Slot) -> Result<Hash256, BeaconStateError>,
    C: Fn(Slot) -> Result<u64, BeaconStateError>,
    B: Fn(Slot, u64) -> Result<Vec<usize>, BeaconStateError>,
    W: Fn(&Vec<usize>, &Hash256, usize) -> Result<Vec<usize>, BeaconStateError>,

    requires
        initialization::<E, A, S, C, B, W>(source, state, epoch, spec, run, r),
        epoch.0 < u64::MAX,
        state.slot.0 < u64::MAX,
    ensures
        ({
            let slots_per_epoch = E::spec_slots_per_epoch();
            let current = state.slot.0 / slots_per_epoch;
            let needed = epoch.0 - spec.min_seed_lookahead - 1;
            let kept = current + 1 - E::spec_epochs_per_historical_vector();
            if slots_per_epoch == 0 {
                r == Err::<Arc<PTCCache>, BeaconStateError>(BeaconStateError::ZeroSlotsPerEpoch)
            } else if epoch.0 + 1 < current || epoch.0 > current + 1 {
                r matches Err(BeaconStateError::RelativeEpochError(_))
            } else if kept > 0 && needed < kept {
                r == Err::<Arc<PTCCache>, BeaconStateError>(BeaconStateError::EpochOutOfBounds)
            } else if match state.fork {
                ForkModel::Gloas { .. } => false,
                ForkModel::Altair { fork_name, .. } => fork_name != ForkName::Gloas,
                ForkModel::Base { .. } => true,
            } {
                r matches Ok(cache) && cache@.initialized_epoch is None
            } else {
                let asked = if epoch.0 < current {
                    RelativeEpoch::Previous
                } else if epoch.0 == current {
                    RelativeEpoch::Current
                } else {
                    RelativeEpoch::Next
                };
                &&& call_ensures(source.get_cached_active_validator_indices, (asked,), run.active)
                &&& match (run.active, run.failure) {
                    (Err(e), _) => r == Err::<Arc<PTCCache>, BeaconStateError>(e),
                    (Ok(active), failure) => if active@.len() == 0 {
                        r == Err::<Arc<PTCCache>, BeaconStateError>(
                            BeaconStateError::InsufficientValidators,
                        )
                    } else {
                        match failure {
                            Some(e) => r == Err::<Arc<PTCCache>, BeaconStateError>(e),
                            None => r matches Ok(cache) && cache@.initialized_epoch == Some(epoch)
                                && cache@.slots_per_epoch == slots_per_epoch && cache@.ptc_size
                                == E::spec_ptc_size(),
                        }
                    },
                }
            }
        }),
{
    let slots_per_epoch = E::spec_slots_per_epoch();
    if slots_per_epoch > 0 {
        assert(state.slot.0 / slots_per_epoch <= state.slot.0) by (nonlinear_arith)
            requires
                slots_per_epoch > 0,
        ;
    }
}

/// A draw for a slot fails only if a question about that very slot does: the one for the seed, for
/// the number of its beacon committees, for one of these, or the draw itself.
pub proof fn lemma_draw_fails_with_a_question<A, S, C, B, W>(
    source: PtcSource<A, S, C, B, W>,
    slot: Slot,
    size: usize,
    e: BeaconStateError,
) where
    A: Fn(RelativeEpoch) -> Result<Vec<usize>, BeaconStateError>,
    S: Fn(Slot) -> Result<Hash256, BeaconStateError>,
    C: Fn(Slot) -> Result<u64, BeaconStateError>,
    B: Fn(Slot, u64) -> Result<Vec<usize>, BeaconStateError>,
    W: Fn(&Vec<usize>, &Hash256, usize) -> Result<Vec<usize>, BeaconStateError>,

    requires
        source.slot_ptc(slot, size, Err(e)),
    ensures
        ({
            ||| call_ensures(
                source.get_ptc_attester_seed,
                (slot,),
                Err::<Hash256, BeaconStateError>(e),
            )
            ||| call_ensures(
                source.get_committee_count_at_slot,
                (slot,),
                Err::<u64, BeaconStateError>(e),
            )
            ||| exists|index: u64|
                call_ensures(
                    source.get_beacon_committee,
                    (slot, index),
                    Err::<Vec<usize>, BeaconStateError>(e),
                )
            ||| exists|candidates: Vec<usize>, seed: Hash256|
                call_ensures(
                    source.compute_balance_weighted_selection,
                    (&candidates, &seed, size),
                    Err::<Vec<usize>, BeaconStateError>(e),
                )
        }),
{
    let draw = choose|draw: SlotDraw| #[trigger]
        source.drawn(slot, size, draw, Err::<Vec<usize>, BeaconStateError>(e));
    match (draw.seed, draw.committees_per_slot, draw.missing_committee) {
        (Err(_), _, _) => {},
        (Ok(_), Err(_), _) => {},
        (Ok(_), Ok(_), Some(_)) => {
            assert(call_ensures(
                source.get_beacon_committee,
                (slot, draw.committees.len() as u64),
                Err::<Vec<usize>, BeaconStateError>(e),
            ));
        },
        (Ok(seed), Ok(_), None) => {
            let candidates = draw.candidates;
            assert(call_ensures(
                source.compute_balance_weighted_selection,
                (&candidates, &seed, size),
                Err::<Vec<usize>, BeaconStateError>(e),
            ));
        },
    }
}

/// The computation of the committees of an epoch fails only with an answer to the question for the
/// active validators, or with a draw for one of the slots of the epoch.
pub proof fn lemma_computation_fails_with_a_draw<E: EthSpec, A, S, C, B, W>(
    source: PtcSource<A, S, C, B, W>,
    state: StateModel,
    epoch: Epoch,
    spec: ChainSpec,
    run: PtcRun,
    e: BeaconStateError,
) where
    A: Fn(RelativeEpoch) -> Result<Vec<usize>, BeaconStateError>,
    S: Fn(Slot) -> Result<Hash256, BeaconStateError>,
    C: Fn(Slot) -> Result<u64, BeaconStateError>,
    B: Fn(Slot, u64) -> Result<Vec<usize>, BeaconStateError>,
    W: Fn(&Vec<usize>, &Hash256, usize) -> Result<Vec<usize>, BeaconStateError>,

    requires
        state.fork is Gloas,
        initialization::<E, A, S, C, B, W>(source, state, epoch, spec, run, Err(e)),
        request_error::<E>(state, epoch, spec) is None,
        run.active matches Ok(active) && active@.len() > 0,
        epoch.0 * E::spec_slots_per_epoch() + E::spec_slots_per_epoch() <= u64::MAX + 1,
    ensures
        exists|slot: Slot|
            epoch.0 * E::spec_slots_per_epoch() <= slot.0 < epoch.0 * E::spec_slots_per_epoch()
                + E::spec_slots_per_epoch() && #[trigger] source.slot_ptc(
                slot,
                E::spec_ptc_size(),
                Err::<Vec<usize>, BeaconStateError>(e),
            ),
{
    let slots_per_epoch = E::spec_slots_per_epoch();
    assert(epoch.0 * slots_per_epoch >= 0) by (nonlinear_arith);
    let slot = slot_at(epoch, slots_per_epoch, run.ptcs.len() as int);
    assert(slot.0 == epoch.0 * slots_per_epoch + run.ptcs.len());
    assert(source.slot_ptc(slot, E::spec_ptc_size(), Err::<Vec<usize>, BeaconStateError>(e)));
}

/// A cache says of which epoch it is, gives the committee that it holds for a slot, and looks up
/// the slot of a validator; one without an epoch gives neither.
pub proof fn lemma_cache_answers_from_what_it_holds<E: EthSpec>(
    cache: PTCCache,
    epoch: Epoch,
    slot: Slot,
    validator_index: usize,
    own_epoch: Option<Epoch>,
    at_epoch: bool,
    ptc: Result<PTC, BeaconStateError>,
    assigned: Option<Slot>,
    looked_up: Option<Slot>,
)
    requires
        call_ensures(PTCCache::initialized_epoch, (&cache,), own_epoch),
        call_ensures(PTCCache::is_initialized_at, (&cache, epoch), at_epoch),
        call_ensures(PTCCache::get_ptc::<E>, (&cache, slot), ptc),
        call_ensures(PTCCache::get_ptc_assignment, (&cache, validator_index), assigned),
        call_ensures(PTCCache::get_ptc_assignment_optimized, (&cache, validator_index), looked_up),
    ensures
        own_epoch == cache@.initialized_epoch,
        at_epoch <==> own_epoch == Some(epoch),
        match ptc {
            Ok(ptc) => cache@.ptc(slot, E::spec_ptc_size() as nat) == Ok::<
                Seq<usize>,
                BeaconStateError,
            >(ptc.0@) && ptc.0@.len() == E::spec_ptc_size(),
            Err(e) => cache@.ptc(slot, E::spec_ptc_size() as nat) == Err::<
                Seq<usize>,
                BeaconStateError,
            >(e),
        },
        own_epoch is None ==> ptc == Err::<PTC, BeaconStateError>(
            BeaconStateError::PTCCacheUninitialized(None),
        ) && assigned is None && looked_up is None,
        assigned == cache@.ptc_assignment(validator_index),
        looked_up == cache@.ptc_assignment_optimized(validator_index),
{
}

/// A validator is assigned the first slot of the epoch in whose committee it sits: the slot lies in
/// the epoch, and the validator is among the seats that belong to it.
pub proof fn lemma_assignment_is_the_first_seat(cache: PTCCacheModel, validator_index: usize)
    requires
        cache.valid(),
        cache.initialized_epoch matches Some(epoch) && (epoch.0 + 1) * cache.slots_per_epoch
            <= u64::MAX + 1,
    ensures
        ({
            let start = (cache.initialized_epoch->0).0 * cache.slots_per_epoch;
            let size = cache.ptc_size as int;
            match cache.ptc_assignment(validator_index) {
                Some(slot) => {
                    let offset = slot.0 - start;
                    &&& 0 <= offset < cache.slots_per_epoch
                    &&& exists|k: int|
                        offset * size <= k < offset * size + size
                            && #[trigger] cache.ptc_shuffling[k] == validator_index
                    &&& forall|k: int|
                        0 <= k < offset * size ==> #[trigger] cache.ptc_shuffling[k]
                            != validator_index
                },
                None => forall|k: int|
                    0 <= k < cache.slots_per_epoch * size ==> #[trigger] cache.ptc_shuffling[k]
                        != validator_index,
            }
        }),
{
    let epoch = cache.initialized_epoch->0;
    let slots = cache.slots_per_epoch as nat;
    let size = cache.ptc_size as nat;
    let shuffling = cache.ptc_shuffling;
    assert((epoch.0 + 1) * cache.slots_per_epoch == epoch.0 * cache.slots_per_epoch
        + cache.slots_per_epoch && epoch.0 * cache.slots_per_epoch >= 0) by (nonlinear_arith);
    lemma_first_seat(shuffling, size, slots, validator_index);
}

proof fn lemma_first_seat(shuffling: Seq<usize>, size: nat, slots: nat, validator_index: usize)
    requires
        slots * size <= shuffling.len(),
    ensures
        match first_offset(shuffling, size, slots, validator_index) {
            Some(offset) => {
                &&& offset < slots
                &&& exists|k: int|
                    offset * size <= k < offset * size + size && #[trigger] shuffling[k]
                        == validator_index
                &&& forall|k: int|
                    0 <= k < offset * size ==> #[trigger] shuffling[k] != validator_index
            },
            None => forall|k: int|
                0 <= k < slots * size ==> #[trigger] shuffling[k] != validator_index,
        },
    decreases slots,
{
    if slots > 0 {
        let last = (slots - 1) as nat;
        assert(slots * size == last * size + size && last * size >= 0) by (nonlinear_arith)
            requires
                slots == last + 1,
        ;
        lemma_first_seat(shuffling, size, last, validator_index);
        if first_offset(shuffling, size, last, validator_index) is None {
            let own = seats(shuffling, size, last);
            if own.contains(validator_index) {
                let j = choose|j: int| 0 <= j < own.len() && own[j] == validator_index;
                assert(shuffling[last * size + j] == validator_index);
            } else {
                assert forall|k: int| 0 <= k < slots * size implies #[trigger] shuffling[k]
                    != validator_index by {
                    if k >= last * size {
                        assert(own[k - last * size] == shuffling[k]);
                    }
                }
            }
        }
    } else {
        assert(slots * size == 0) by (nonlinear_arith)
            requires
                slots == 0,
        ;
    }
}

} // verus!
