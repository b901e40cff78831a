//! Requests for the duties of the payload timeliness committee.

use crate::errors::BeaconChainError;
use crate::eth_spec::EthSpec;
use crate::primitives::{Epoch, Hash256, PublicKeyBytes, Slot};
use crate::text::{append_decimal, decimal};
use vstd::prelude::*;
use vstd::string::StringExecFns;

verus! {

/// A duty to attest to the payload of a slot.
#[derive(Clone, Copy, Debug, PartialEq, Eq)]
pub struct PtcDuty {
    /// The validator's index in the validator registry.
    pub validator_index: u64,
    /// The slot at which this validator should perform PTC duties.
    pub slot: Slot,
    /// The validator's pubkey
    pub pubkey: PublicKeyBytes,
}

/// Duties, and what they depend on.
#[derive(Clone, Debug, PartialEq, Eq)]
pub struct DutiesResponse<T> {
    pub dependent_root: Hash256,
    pub execution_optimistic: Option<bool>,
    pub data: T,
}

/// The struct that is returned to the requesting HTTP client.
pub type ApiDuties = DutiesResponse<Vec<PtcDuty>>;

/// Why a request is refused.
#[derive(Clone, Debug, PartialEq, Eq)]
pub enum PtcDutiesError {
    /// The chain could not serve the request.
    Unhandled(BeaconChainError),
    /// The server is at fault.
    ServerError(String),
    /// The request is at fault.
    BadRequest(String),
}

/// One reading of the slot clock.
#[derive(Clone, Copy, Debug, PartialEq, Eq)]
pub struct ClockReading {
    /// The current slot, or that of genesis before it, if the clock can be read.
    pub now_or_genesis: Option<Slot>,
    /// Whether genesis lies ahead, if the clock can be read.
    pub is_prior_to_genesis: Option<bool>,
    /// The slot once the largest tolerated clock disparity has passed, if the clock can be read.
    pub now_with_future_tolerance: Option<Slot>,
}

/// What a request leads to.
#[derive(Clone, Debug, PartialEq, Eq)]
pub enum RequestRoute {
    /// The duties are computed from the chain's head.
    Compute,
    /// The duties are read from the past.
    Historic,
}

impl ClockReading {
    /// The current epoch.
    pub open spec fn spec_current_epoch(self, slots_per_epoch: u64) -> Result<
        Epoch,
        PtcDutiesError,
    > {
        match self.now_or_genesis {
            Some(slot) => Ok(slot.spec_epoch(slots_per_epoch)),
            None => Err(PtcDutiesError::Unhandled(BeaconChainError::UnableToReadSlot)),
        }
    }

    /// The current epoch.
    pub fn current_epoch(&self, slots_per_epoch: u64) -> (r: Result<Epoch, PtcDutiesError>)
        requires
            slots_per_epoch > 0,
        ensures
            r == self.spec_current_epoch(slots_per_epoch),
    {
        match self.now_or_genesis {
            Some(slot) => Ok(slot.epoch(slots_per_epoch)),
            None => Err(PtcDutiesError::Unhandled(BeaconChainError::UnableToReadSlot)),
        }
    }

    /// What the current epoch would be if the clock were fast-forwarded by the largest tolerated
    /// disparity; before genesis, or when that cannot be told, it is `current_epoch`. `None` if
    /// the clock cannot be read.
    pub open spec fn spec_tolerant_epoch(
        self,
        current_epoch: Epoch,
        slots_per_epoch: u64,
    ) -> Option<Epoch> {
        match self.is_prior_to_genesis {
            Some(false) => match self.now_with_future_tolerance {
                Some(slot) => Some(slot.spec_epoch(slots_per_epoch)),
                None => None,
            },
            _ => Some(current_epoch),
        }
    }

    /// What the current epoch would be if the clock were fast-forwarded by the largest tolerated
    /// disparity.
    pub fn tolerant_epoch(&self, current_epoch: Epoch, slots_per_epoch: u64) -> (r: Option<Epoch>)
        requires
            slots_per_epoch > 0,
        ensures
            r == self.spec_tolerant_epoch(current_epoch, slots_per_epoch),
    {
        match self.is_prior_to_genesis {
            Some(false) => match self.now_with_future_tolerance {
                Some(slot) => Some(slot.epoch(slots_per_epoch)),
                None => None,
            },
            _ => Some(current_epoch),
        }
    }
}

/// The message for a request that looks too far ahead.
pub open spec fn too_far_ahead(request_epoch: Epoch, current_epoch: Epoch) -> Seq<char> {
    "request epoch "@ + decimal(request_epoch.0 as nat)
        + " is more than one epoch past the current epoch "@ + decimal(current_epoch.0 as nat)
}

/// Whether `r` is what a request for `request_epoch` leads to: the duties of the current epoch
/// and of the next are computed, by the clock as it is or as it may be elsewhere; later epochs
/// are refused; earlier epochs lie in the past.
pub open spec fn routes_to(
    request_epoch: Epoch,
    clock: ClockReading,
    slots_per_epoch: u64,
    r: Result<RequestRoute, PtcDutiesError>,
) -> bool {
    match clock.spec_current_epoch(slots_per_epoch) {
        Err(e) => r == Err::<RequestRoute, PtcDutiesError>(e),
        Ok(current_epoch) => match clock.spec_tolerant_epoch(current_epoch, slots_per_epoch) {
            None => r matches Err(PtcDutiesError::ServerError(message)) && message@
                == "unable to read slot clock"@,
            Some(tolerant_current_epoch) => if request_epoch == current_epoch || request_epoch
                == current_epoch.spec_plus(1) || request_epoch
                == tolerant_current_epoch.spec_plus(1) {
                r == Ok::<RequestRoute, PtcDutiesError>(RequestRoute::Compute)
            } else if request_epoch.0 > current_epoch.spec_plus(1).0 {
                r matches Err(PtcDutiesError::BadRequest(message)) && message@ == too_far_ahead(
                    request_epoch,
                    current_epoch,
                )
            } else {
                r == Ok::<RequestRoute, PtcDutiesError>(RequestRoute::Historic)
            },
        },
    }
}

/// What a request for the duties of `request_epoch` leads to.
pub fn route_request<E: EthSpec>(request_epoch: Epoch, clock: &ClockReading) -> (r: Result<
    RequestRoute,
    PtcDutiesError,
>)
    requires
        E::spec_slots_per_epoch() > 0,
    ensures
        routes_to(request_epoch, *clock, E::spec_slots_per_epoch(), r),
{
    let slots_per_epoch: u64 = E::slots_per_epoch();
    let current_epoch = match clock.current_epoch(slots_per_epoch) {
        Ok(epoch) => epoch,
        Err(e) => {
            return Err(e);
        },
    };

    // Most of the time, `tolerant_current_epoch` will be equal to `current_epoch`. However, during
    // the last part of the epoch `tolerant_current_epoch` will equal `current_epoch + 1`
    let tolerant_current_epoch = match clock.tolerant_epoch(current_epoch, slots_per_epoch) {
        Some(epoch) => epoch,
        None => {
            return Err(PtcDutiesError::ServerError("unable to read slot clock".to_owned()));
        },
    };

    if request_epoch == current_epoch || request_epoch == current_epoch.plus(1) || request_epoch
        == tolerant_current_epoch.plus(1) {
        Ok(RequestRoute::Compute)
    } else if request_epoch.0 > current_epoch.plus(1).0 {
        let mut message = "request epoch ".to_owned();
        append_decimal(&mut message, request_epoch.0);
        message.append(" is more than one epoch past the current epoch ");
        append_decimal(&mut message, current_epoch.0);
        Err(PtcDutiesError::BadRequest(message))
    } else {
        // request_epoch < current_epoch
        Ok(RequestRoute::Historic)
    }
}

/// The duties among `duties`, in their order.
pub open spec fn present_duties(duties: Seq<Option<PtcDuty>>) -> Seq<PtcDuty>
    decreases duties.len(),
{
    if duties.len() == 0 {
        Seq::empty()
    } else {
        match duties.last() {
            Some(duty) => present_duties(duties.drop_last()).push(duty),
            None => present_duties(duties.drop_last()),
        }
    }
}

/// Convert internal PTC duties to API response format
pub fn convert_to_api_response(
    duties: &Vec<Option<PtcDuty>>,
    dependent_root: Hash256,
    execution_optimistic: bool,
) -> (r: ApiDuties)
    ensures
        r.dependent_root == dependent_root,
        r.execution_optimistic == Some(execution_optimistic),
        r.data@ == present_duties(duties@),
{
    let mut data: Vec<PtcDuty> = Vec::new();
    let mut i: usize = 0;
    assert(present_duties(duties@.take(0)) == data@);
    while i < duties.len()
        invariant
            i <= duties@.len(),
            data@ == present_duties(duties@.take(i as int)),
        decreases duties@.len() - i,
    {
        assert(duties@.take(i + 1).drop_last() == duties@.take(i as int));
        match duties[i] {
            Some(duty) => {
                data.push(duty);
            },
            None => {},
        }
        i = i + 1;
    }
    assert(duties@.take(i as int) == duties@);
    DutiesResponse { dependent_root, execution_optimistic: Some(execution_optimistic), data }
}

/// What the chain says of the duties of some validators: for each its duty, if it has one; the
/// root that the duties depend on; and whether the head is optimistic or invalid.
#[derive(Clone, Debug, PartialEq, Eq)]
pub struct ValidatorPtcDuties {
    pub duties: Vec<Option<PtcDuty>>,
    pub dependent_root: Hash256,
    pub is_optimistic_or_invalid: bool,
}

/// A chain that knows the duties of its validators.
pub trait PtcDutiesChain: Sized {
    /// The duties of the validators in `epoch`.
    fn validator_ptc_duties(&self, validators: &Vec<u64>, epoch: Epoch) -> Result<
        ValidatorPtcDuties,
        BeaconChainError,
    >;
}

/// Whether `r` answers a request whose duties the chain gave as `reply`.
pub open spec fn answers_with(
    reply: Result<ValidatorPtcDuties, BeaconChainError>,
    r: Result<ApiDuties, PtcDutiesError>,
) -> bool {
    match reply {
        Err(e) => r == Err::<ApiDuties, PtcDutiesError>(PtcDutiesError::Unhandled(e)),
        Ok(found) => r matches Ok(response) && {
            &&& response.dependent_root == found.dependent_root
            &&& response.execution_optimistic == Some(found.is_optimistic_or_invalid)
            &&& response.data@ == present_duties(found.duties@)
        },
    }
}

/// The answer to a request whose duties the chain gave as `reply`.
pub fn compute_response(reply: Result<ValidatorPtcDuties, BeaconChainError>) -> (r: Result<
    ApiDuties,
    PtcDutiesError,
>)
    ensures
        answers_with(reply, r),
{
    match reply {
        Ok(found) => Ok(
            convert_to_api_response(
                &found.duties,
                found.dependent_root,
                found.is_optimistic_or_invalid,
            ),
        ),
        Err(e) => Err(PtcDutiesError::Unhandled(e)),
    }
}

/// Handles a request from the HTTP API for PTC duties.
///
/// Duties of past epochs are not served.
pub fn ptc_duties<E: EthSpec, T: PtcDutiesChain>(
    request_epoch: Epoch,
    request_indices: &Vec<u64>,
    clock: &ClockReading,
    chain: &T,
) -> (r: Result<ApiDuties, PtcDutiesError>)
    requires
        E::spec_slots_per_epoch() > 0,
        !routes_to(request_epoch, *clock, E::spec_slots_per_epoch(), Ok(RequestRoute::Historic)),
    ensures
        exists|route: Result<RequestRoute, PtcDutiesError>| #[trigger]
            routes_to(request_epoch, *clock, E::spec_slots_per_epoch(), route) && match route {
                Err(e) => r == Err::<ApiDuties, PtcDutiesError>(e),
                Ok(_) => exists|reply: Result<ValidatorPtcDuties, BeaconChainError>|
                    call_ensures(
                        T::validator_ptc_duties,
                        (chain, request_indices, request_epoch),
                        reply,
                    ) && #[trigger] answers_with(reply, r),
            },
{
    let route = route_request::<E>(request_epoch, clock);
    let ghost routed = route;
    assert(routes_to(request_epoch, *clock, E::spec_slots_per_epoch(), routed));
    match route {
        Err(e) => Err(e),
        Ok(_) => {
            let reply = chain.validator_ptc_duties(request_indices, request_epoch);
            compute_response(reply)
        },
    }
}

/// By a clock that can be read, the duties of the current epoch and of the next are always
/// computed, later epochs are never served from the past, and only earlier epochs are.
pub proof fn lemma_current_duties_are_served(
    request_epoch: Epoch,
    clock: ClockReading,
    slots_per_epoch: u64,
    r: Result<RequestRoute, PtcDutiesError>,
)
    requires
        routes_to(request_epoch, clock, slots_per_epoch, r),
        clock.now_or_genesis is Some,
        clock.is_prior_to_genesis == Some(false) ==> clock.now_with_future_tolerance is Some,
    ensures
        ({
            let current_epoch = clock.spec_current_epoch(slots_per_epoch)->Ok_0;
            &&& request_epoch == current_epoch || request_epoch == current_epoch.spec_plus(1) ==> r
                == Ok::<RequestRoute, PtcDutiesError>(RequestRoute::Compute)
            &&& r == Ok::<RequestRoute, PtcDutiesError>(RequestRoute::Historic) ==> request_epoch.0
                < current_epoch.0
            &&& r is Err ==> request_epoch.0 > current_epoch.0
        }),
{
}

/// Every duty that the chain knows reaches the client, and no other.
pub proof fn lemma_response_holds_the_known_duties(duties: Seq<Option<PtcDuty>>, duty: PtcDuty)
    ensures
        present_duties(duties).contains(duty) <==> duties.contains(Some(duty)),
        present_duties(duties).len() <= duties.len(),
    decreases duties.len(),
{
    if duties.len() > 0 {
        let earlier = duties.drop_last();
        lemma_response_holds_the_known_duties(earlier, duty);
        let found = present_duties(earlier);
        if duties.contains(Some(duty)) {
            let i = choose|i: int| 0 <= i < duties.len() && duties[i] == Some(duty);
            if i < duties.len() - 1 {
                assert(earlier[i] == Some(duty));
                let k = choose|k: int| 0 <= k < found.len() && found[k] == duty;
                assert(present_duties(duties)[k] == duty);
            } else {
                assert(present_duties(duties).last() == duty);
            }
        }
        if present_duties(duties).contains(duty) {
            let k = choose|k: int|
                0 <= k < present_duties(duties).len() && present_duties(duties)[k] == duty;
            if k < found.len() {
                assert(found[k] == duty);
                let i = choose|i: int| 0 <= i < earlier.len() && earlier[i] == Some(duty);
                assert(duties[i] == Some(duty));
            } else {
                assert(duties[duties.len() - 1] == Some(duty));
            }
        }
    }
}

} // verus!
