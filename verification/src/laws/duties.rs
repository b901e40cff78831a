//! Requests for the duties of the payload timeliness committee.

use crate::errors::BeaconChainError;
use crate::eth_spec::EthSpec;
use crate::primitives::Epoch;
use crate::ptc_duties::{
    answers_with, present_duties, ptc_duties, routes_to, ApiDuties, ClockReading, PtcDutiesChain,
    PtcDutiesError, PtcDuty, RequestRoute, ValidatorPtcDuties,
};
use crate::text::decimal;
use vstd::prelude::*;

verus! {

/// Whether `which` holds the positions of the duties that are there, in order, and `found` those
/// duties.
pub open spec fn found_in_order(
    duties: Seq<Option<PtcDuty>>,
    found: Seq<PtcDuty>,
    which: Seq<int>,
) -> bool {
    &&& found.len() == which.len()
    &&& forall|m: int, n: int| 0 <= m < n < which.len() ==> which[m] < which[n]
    &&& forall|m: int|
        0 <= m < which.len() ==> 0 <= #[trigger] which[m] < duties.len() && duties[which[m]]
            == Some(found[m])
    &&& forall|i: int| 0 <= i < duties.len() && #[trigger] duties[i] is Some ==> which.contains(i)
}

/// Every duty that the chain knows is handed out once, in the order in which the validators were
/// asked for.
pub proof fn lemma_known_duties_are_handed_out_in_order(duties: Seq<Option<PtcDuty>>)
    ensures
        exists|which: Seq<int>| found_in_order(duties, present_duties(duties), which),
    decreases duties.len(),
{
    if duties.len() == 0 {
        assert(found_in_order(duties, present_duties(duties), Seq::empty()));
    } else {
        let rest = duties.drop_last();
        let last = duties.len() - 1;
        lemma_known_duties_are_handed_out_in_order(rest);
        let before = choose|which: Seq<int>| found_in_order(rest, present_duties(rest), which);
        let which = if duties[last] is Some {
            before.push(last)
        } else {
            before
        };
        assert forall|i: int| 0 <= i < duties.len() && #[trigger] duties[i] is Some implies which
            .contains(i) by {
            if i < last {
                assert(rest[i] == duties[i]);
                let m = choose|m: int| 0 <= m < before.len() && before[m] == i;
                assert(which[m] == i);
            } else {
                assert(which[which.len() - 1] == i);
            }
        }
        assert forall|m: int| 0 <= m < which.len() implies 0 <= #[trigger] which[m] < duties.len()
            && duties[which[m]] == Some(present_duties(duties)[m]) by {
            if m < before.len() {
                assert(which[m] == before[m]);
                assert(rest[before[m]] == duties[before[m]]);
            }
        }
        assert(found_in_order(duties, present_duties(duties), which));
    }
}

/// A request is for the current epoch, for the next or, by a clock that is as far ahead as
/// tolerated, for the one after: then the duties are computed. A later epoch is refused with a
/// message that names both epochs, and an earlier one lies in the past. Without a clock nothing can
/// be told.
pub proof fn lemma_requests_are_routed_by_the_clock(
    request_epoch: Epoch,
    clock: ClockReading,
    slots_per_epoch: u64,
    r: Result<RequestRoute, PtcDutiesError>,
)
    requires
        slots_per_epoch > 0,
        clock.now_or_genesis matches Some(slot) ==> slot.0 < u64::MAX,
        clock.now_with_future_tolerance matches Some(slot) ==> slot.0 < u64::MAX,
        routes_to(request_epoch, clock, slots_per_epoch, r),
    ensures
        match (
            clock.now_or_genesis,
            clock.is_prior_to_genesis,
            clock.now_with_future_tolerance,
        ) {
            (None, _, _) => r == Err::<RequestRoute, PtcDutiesError>(
                PtcDutiesError::Unhandled(BeaconChainError::UnableToReadSlot),
            ),
            (Some(_), Some(false), None) => r matches Err(PtcDutiesError::ServerError(message))
                && message@ == "unable to read slot clock"@,
            (Some(now), prior, ahead) => {
                let current = now.0 / slots_per_epoch;
                let tolerant = if prior == Some(false) {
                    (ahead->0).0 / slots_per_epoch
                } else {
                    current
                };
                let request = request_epoch.0;
                if request == current || request == current + 1 || request == tolerant + 1 {
                    r == Ok::<RequestRoute, PtcDutiesError>(RequestRoute::Compute)
                } else if request > current {
                    r matches Err(PtcDutiesError::BadRequest(message)) && message@
                        == "request epoch "@ + decimal(request as nat)
                        + " is more than one epoch past the current epoch "@ + decimal(
                        current as nat,
                    )
                } else {
                    r == Ok::<RequestRoute, PtcDutiesError>(RequestRoute::Historic)
                }
            },
        },
{
    match clock.now_or_genesis {
        Some(now) => {
            assert(now.0 / slots_per_epoch <= now.0) by (nonlinear_arith)
                requires
                    slots_per_epoch > 0,
            ;
        },
        None => {},
    }
    match clock.now_with_future_tolerance {
        Some(now) => {
            assert(now.0 / slots_per_epoch <= now.0) by (nonlinear_arith)
                requires
                    slots_per_epoch > 0,
            ;
        },
        None => {},
    }
}

/// A request that is not refused is put to the chain as it came, for the validators and the epoch
/// that it names, and answered with what the chain said: the duties that are there, the root that
/// they depend on, and whether the head is optimistic. A failure of the chain is passed on.
pub proof fn lemma_request_is_answered_by_the_chain<E: EthSpec, T: PtcDutiesChain>(
    request_epoch: Epoch,
    request_indices: Vec<u64>,
    clock: ClockReading,
    chain: T,
    r: Result<ApiDuties, PtcDutiesError>,
)
    requires
        call_ensures(ptc_duties::<E, T>, (request_epoch, &request_indices, &clock, &chain), r),
        routes_to(
            request_epoch,
            clock,
            E::spec_slots_per_epoch(),
            Ok::<RequestRoute, PtcDutiesError>(RequestRoute::Compute),
        ),
    ensures
        exists|reply: Result<ValidatorPtcDuties, BeaconChainError>| #[trigger]
            call_ensures(
                T::validator_ptc_duties,
                (&chain, &request_indices, request_epoch),
                reply,
            ) && match reply {
                Err(e) => r == Err::<ApiDuties, PtcDutiesError>(PtcDutiesError::Unhandled(e)),
                Ok(found) => r matches Ok(response) && response.dependent_root
                    == found.dependent_root && response.execution_optimistic == Some(
                    found.is_optimistic_or_invalid,
                ) && exists|which: Seq<int>|
                    found_in_order(found.duties@, response.data@, which),
            },
{
    let reply = choose|reply: Result<ValidatorPtcDuties, BeaconChainError>|
        call_ensures(
            T::validator_ptc_duties,
            (&chain, &request_indices, request_epoch),
            reply,
        ) && #[trigger] answers_with(reply, r);
    assert(answers_with(reply, r));
    match reply {
        Ok(found) => {
            lemma_known_duties_are_handed_out_in_order(found.duties@);
        },
        Err(_) => {},
    }
}

} // verus!
