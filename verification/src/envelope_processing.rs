//! Applies an envelope to a state.

use crate::beacon_state::{BeaconBlockHeader, BeaconState};
use crate::errors::{BeaconStateError, BlockProcessingError, EnvelopeProcessingError};
use crate::execution_payload_envelope::{
    ConsolidationRequest, DepositRequest, SignedExecutionPayloadEnvelope, WithdrawalRequest,
};
use crate::primitives::{lemma_fixed_bytes_ext, ExecutionBlockHash, Hash256};
use crate::process_attestations::VerifySignatures;
use vstd::prelude::*;

verus! {

/// The rules that are settled elsewhere: who may sign an envelope, when a payload is withheld, what
/// the root of a state is, and what the requests of a payload do to a state.
///
/// A rule that changes a state gives the state that it leaves, whether it succeeds or not.
pub trait EnvelopeRules: Sized {
    /// Whether the signature of an envelope is that of its builder.
    fn verify_signature(
        &self,
        state: &BeaconState,
        signed_envelope: &SignedExecutionPayloadEnvelope,
    ) -> Result<bool, BeaconStateError>;

    /// Whether the builder of an envelope has withheld its payload.
    fn payload_withheld(&self, signed_envelope: &SignedExecutionPayloadEnvelope) -> bool;

    /// The root of a state.
    fn canonical_root(&self, state: &BeaconState) -> Result<Hash256, BeaconStateError>;

    /// Processes some deposit requests.
    fn process_deposit_requests(
        &self,
        state: &BeaconState,
        requests: &Vec<DepositRequest>,
    ) -> (BeaconState, Result<(), BlockProcessingError>);

    /// Processes some withdrawal requests.
    fn process_withdrawal_requests(
        &self,
        state: &BeaconState,
        requests: &Vec<WithdrawalRequest>,
    ) -> (BeaconState, Result<(), BlockProcessingError>);

    /// Processes some consolidation requests.
    fn process_consolidation_requests(
        &self,
        state: &BeaconState,
        requests: &Vec<ConsolidationRequest>,
    ) -> (BeaconState, Result<(), BlockProcessingError>);
}

/// What the rules answered while an envelope was applied.
pub struct EnvelopeRun {
    pub signature: Result<bool, BeaconStateError>,
    pub previous_state_root: Result<Hash256, BeaconStateError>,
    pub deposited: (BeaconState, Result<(), BlockProcessingError>),
    pub withdrawn: (BeaconState, Result<(), BlockProcessingError>),
    pub consolidated: (BeaconState, Result<(), BlockProcessingError>),
}

/// The header with `root` as its state root, if it held none yet.
pub open spec fn completed_header(header: BeaconBlockHeader, root: Hash256) -> BeaconBlockHeader {
    if header.state_root.is_zero() {
        BeaconBlockHeader { state_root: root, ..header }
    } else {
        header
    }
}

/// The state whose latest block header holds `root`, if it held no state root yet.
pub open spec fn with_header_state_root(state: BeaconState, root: Hash256) -> BeaconState {
    BeaconState {
        latest_block_header: completed_header(state.latest_block_header, root),
        ..state
    }
}

/// Whether `r` is the result, and `post` the state, once `pre` has been given its header's
/// state root, then the three kinds of requests, then the hash of the payload's block. The
/// first rule that fails ends the work; the state stays as that rule has left it.
pub open spec fn envelope_applied<T: EnvelopeRules>(
    rules: T,
    pre: BeaconState,
    signed_envelope: SignedExecutionPayloadEnvelope,
    post: BeaconState,
    r: Result<(), EnvelopeProcessingError>,
    run: EnvelopeRun,
) -> bool {
    let requests = signed_envelope.spec_message().spec_execution_requests();
    &&& call_ensures(T::canonical_root, (&rules, &pre), run.previous_state_root)
    &&& match run.previous_state_root {
        Err(e) => r == Err::<(), EnvelopeProcessingError>(
            EnvelopeProcessingError::BeaconStateError(e),
        ) && post == pre,
        Ok(root) => {
            let headed = with_header_state_root(pre, root);
            &&& call_ensures(
                T::process_deposit_requests,
                (&rules, &headed, &requests.deposits),
                run.deposited,
            )
            &&& match run.deposited.1 {
                Err(e) => r == Err::<(), EnvelopeProcessingError>(
                    EnvelopeProcessingError::BlockProcessingError(e),
                ) && post == run.deposited.0,
                Ok(()) => requests_applied(
                    rules,
                    run.deposited.0,
                    signed_envelope,
                    post,
                    r,
                    run,
                ),
            }
        },
    }
}

/// The steps that follow the deposit requests.
pub open spec fn requests_applied<T: EnvelopeRules>(
    rules: T,
    deposited: BeaconState,
    signed_envelope: SignedExecutionPayloadEnvelope,
    post: BeaconState,
    r: Result<(), EnvelopeProcessingError>,
    run: EnvelopeRun,
) -> bool {
    let envelope = signed_envelope.spec_message();
    let requests = envelope.spec_execution_requests();
    &&& call_ensures(
        T::process_withdrawal_requests,
        (&rules, &deposited, &requests.withdrawals),
        run.withdrawn,
    )
    &&& match run.withdrawn.1 {
        Err(e) => r == Err::<(), EnvelopeProcessingError>(
            EnvelopeProcessingError::BlockProcessingError(e),
        ) && post == run.withdrawn.0,
        Ok(()) => {
            &&& call_ensures(
                T::process_consolidation_requests,
                (&rules, &run.withdrawn.0, &requests.consolidations),
                run.consolidated,
            )
            &&& match run.consolidated.1 {
                Err(e) => r == Err::<(), EnvelopeProcessingError>(
                    EnvelopeProcessingError::BlockProcessingError(e),
                ) && post == run.consolidated.0,
                Ok(()) => match run.consolidated.0@.latest_block_hash() {
                    Err(e) => r == Err::<(), EnvelopeProcessingError>(
                        EnvelopeProcessingError::BeaconStateError(e),
                    ) && post == run.consolidated.0,
                    Ok(_) => r == Ok::<(), EnvelopeProcessingError>(()) && post@
                        == run.consolidated.0@.with_latest_block_hash(
                        envelope.spec_payload().block_hash,
                    ),
                },
            }
        },
    }
}

/// Whether `r` is the result, and `post` the state, once the envelope has been applied to
/// `pre`; the signature is looked at first, if it is to be verified at all.
pub open spec fn envelope_processed<T: EnvelopeRules>(
    rules: T,
    pre: BeaconState,
    signed_envelope: SignedExecutionPayloadEnvelope,
    verify_signatures: VerifySignatures,
    post: BeaconState,
    r: Result<(), EnvelopeProcessingError>,
    run: EnvelopeRun,
) -> bool {
    if verify_signatures is True {
        &&& call_ensures(T::verify_signature, (&rules, &pre, &signed_envelope), run.signature)
        &&& match run.signature {
            Err(e) => r == Err::<(), EnvelopeProcessingError>(
                EnvelopeProcessingError::BeaconStateError(e),
            ) && post == pre,
            Ok(false) => r == Err::<(), EnvelopeProcessingError>(
                EnvelopeProcessingError::BadSignature,
            ) && post == pre,
            Ok(true) => envelope_applied(rules, pre, signed_envelope, post, r, run),
        }
    } else {
        envelope_applied(rules, pre, signed_envelope, post, r, run)
    }
}

/// The header with `root` as its state root, if it held none yet.
pub fn complete_header(header: &BeaconBlockHeader, root: Hash256) -> (r: BeaconBlockHeader)
    ensures
        r == completed_header(*header, root),
{
    let zero = Hash256::zero();
    let mut completed = *header;
    if header.state_root == zero {
        completed.state_root = root;
    } else {
        proof {
            if header.state_root.is_zero() {
                assert(header.state_root.bytes() =~= zero.bytes());
                lemma_fixed_bytes_ext(header.state_root, zero);
            }
        }
    }
    completed
}

/// Caches the state root in the latest block header, if it holds none yet.
pub fn cache_header_state_root(state: &mut BeaconState, previous_state_root: Hash256)
    ensures
        *final(state) == with_header_state_root(*old(state), previous_state_root),
{
    state.latest_block_header = complete_header(&state.latest_block_header, previous_state_root);
}

/// Processes a `SignedExecutionPayloadEnvelope`
///
/// This function does all the state modifications that come with an execution payload.
pub fn envelope_processing<T: EnvelopeRules>(
    state: &mut BeaconState,
    signed_envelope: &SignedExecutionPayloadEnvelope,
    verify_signatures: VerifySignatures,
    rules: &T,
) -> (r: Result<(), EnvelopeProcessingError>)
    ensures
        exists|run: EnvelopeRun| #[trigger]
            envelope_processed(
                *rules,
                *old(state),
                *signed_envelope,
                verify_signatures,
                *final(state),
                r,
                run,
            ),
{
    let ghost pre = *state;
    let ghost mut run: EnvelopeRun = arbitrary();

    if verify_signatures.is_true() {
        // Verify Signed Envelope Signature
        let verified = rules.verify_signature(state, signed_envelope);
        proof {
            run.signature = verified;
        }
        match verified {
            Ok(true) => {},
            Ok(false) => {
                let r = Err(EnvelopeProcessingError::BadSignature);
                assert(envelope_processed(
                    *rules,
                    pre,
                    *signed_envelope,
                    verify_signatures,
                    *state,
                    r,
                    run,
                ));
                return r;
            },
            Err(e) => {
                let r = Err(EnvelopeProcessingError::BeaconStateError(e));
                assert(envelope_processed(
                    *rules,
                    pre,
                    *signed_envelope,
                    verify_signatures,
                    *state,
                    r,
                    run,
                ));
                return r;
            },
        }
    }
    // Cache latest block header state root

    let root_reply = rules.canonical_root(state);
    proof {
        run.previous_state_root = root_reply;
    }
    let previous_state_root = match root_reply {
        Ok(root) => root,
        Err(e) => {
            let r = Err(EnvelopeProcessingError::BeaconStateError(e));
            assert(envelope_processed(
                *rules,
                pre,
                *signed_envelope,
                verify_signatures,
                *state,
                r,
                run,
            ));
            return r;
        },
    };
    cache_header_state_root(state, previous_state_root);

    // Process the requests of the execution layer
    let envelope = signed_envelope.message();
    let payload = envelope.payload();
    let execution_requests = envelope.execution_requests();
    let (next, deposited) = rules.process_deposit_requests(state, &execution_requests.deposits);
    proof {
        run.deposited = (next, deposited);
    }
    *state = next;
    match deposited {
        Ok(()) => {},
        Err(e) => {
            let r = Err(EnvelopeProcessingError::BlockProcessingError(e));
            assert(envelope_processed(
                *rules,
                pre,
                *signed_envelope,
                verify_signatures,
                *state,
                r,
                run,
            ));
            return r;
        },
    }
    let (next, withdrawn) = rules.process_withdrawal_requests(
        state,
        &execution_requests.withdrawals,
    );
    proof {
        run.withdrawn = (next, withdrawn);
    }
    *state = next;
    match withdrawn {
        Ok(()) => {},
        Err(e) => {
            let r = Err(EnvelopeProcessingError::BlockProcessingError(e));
            assert(envelope_processed(
                *rules,
                pre,
                *signed_envelope,
                verify_signatures,
                *state,
                r,
                run,
            ));
            return r;
        },
    }
    let (next, consolidated) = rules.process_consolidation_requests(
        state,
        &execution_requests.consolidations,
    );
    proof {
        run.consolidated = (next, consolidated);
    }
    *state = next;
    match consolidated {
        Ok(()) => {},
        Err(e) => {
            let r = Err(EnvelopeProcessingError::BlockProcessingError(e));
            assert(envelope_processed(
                *rules,
                pre,
                *signed_envelope,
                verify_signatures,
                *state,
                r,
                run,
            ));
            return r;
        },
    }

    // Cache the latest block hash
    let r = match state.set_latest_block_hash(payload.inner().block_hash) {
        Ok(()) => Ok(()),
        Err(e) => Err(EnvelopeProcessingError::BeaconStateError(e)),
    };
    assert(envelope_processed(
        *rules,
        pre,
        *signed_envelope,
        verify_signatures,
        *state,
        r,
        run,
    ));
    r
}

/// A state that an envelope has been applied to names the block of the envelope's payload as the
/// latest.
pub proof fn lemma_processing_records_block_hash<T: EnvelopeRules>(
    rules: T,
    pre: BeaconState,
    signed_envelope: SignedExecutionPayloadEnvelope,
    verify_signatures: VerifySignatures,
    post: BeaconState,
    run: EnvelopeRun,
)
    requires
        envelope_processed(rules, pre, signed_envelope, verify_signatures, post, Ok(()), run),
    ensures
        post@.latest_block_hash() == Ok::<ExecutionBlockHash, BeaconStateError>(
            signed_envelope.spec_message().spec_payload().block_hash,
        ),
{
}

/// An envelope whose signature is not good, or cannot be verified, leaves the state alone.
pub proof fn lemma_bad_signature_changes_nothing<T: EnvelopeRules>(
    rules: T,
    pre: BeaconState,
    signed_envelope: SignedExecutionPayloadEnvelope,
    post: BeaconState,
    r: Result<(), EnvelopeProcessingError>,
    run: EnvelopeRun,
)
    requires
        envelope_processed(rules, pre, signed_envelope, VerifySignatures::True, post, r, run),
        run.signature != Ok::<bool, BeaconStateError>(true),
    ensures
        post == pre,
        r is Err,
{
}

/// A header that names its state root keeps it.
pub proof fn lemma_header_state_root_is_set_once(
    state: BeaconState,
    first: Hash256,
    second: Hash256,
)
    requires
        !first.is_zero(),
    ensures
        with_header_state_root(with_header_state_root(state, first), second)
            == with_header_state_root(state, first),
{
}

} // verus!
