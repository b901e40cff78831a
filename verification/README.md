# gloas_consensus

Rules of a beacon chain from the Gloas fork on, with their contracts proved by Verus.

- `process_attestations`: what attestations do to a state, fork by fork.
- `builder_payments`: which builder payments become withdrawals at the end of an epoch.
- `ptc_cache`, `ptc_duties`: the payload timeliness committee of each slot, and requests for its
  duties.
- `execution_payload_envelope`, `envelope_ssz`, `message_ssz`, `ssz`, `merkle`: envelopes, bids and
  attestations, their encodings and their roots.
- `envelope_verification`, `envelope_processing`, `envelope_verification_types`: the way of an
  envelope from the network into the chain.
- `payload_attestation_service`, `sync_committee_service`: what the services decide between one
  request and the next.

What is settled elsewhere, such as who may sign an attestation or what a database holds, enters as
functions and traits; contracts say what is asked, in which order, and what becomes of the answers.

Arithmetic comes from `safe_arith`, hashing from `tree_hash`. The functions that call them are in
`arith` and `merkle`, and their contracts are taken on trust.

`app/` holds the HTTP handler, the wire formats and the timer loops around the library.
