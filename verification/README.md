# consensus

A deterministic consensus core: vertex certification (L1), Bullshark-style
micro-ordering (L2), two-chain macro finality with adaptive BLS aggregation
(L3), and slashing evidence. Every protocol decision is a function from the
current book and an event to the next book and a list of actions; hosts
perform the actions and feed back the results.

Layout:

- `src/` is the library, written in Verus. Each handler states in its
  contract what it returns and how it changes its book; hashing and BLS
  signatures go through small trusted wrappers over `blake3` and `blst`
  (`src/crypto.rs`).
- `tests/` exercise the library with real keys and signatures.
- `app/` holds what stays outside the verified library: TOML loading and the
  floating-point leader knobs, the displayable error type, the reputation
  tracker, the floating-point anchor sortition (`select_anchor`,
  `vrf_sortition_score`, which take the VRF-to-uniform map from the host's VRF
  implementation), and borsh mirrors of `Event` and `Action` for the wire.

Handlers that read a port are split in two: the handler reads the port
(the epoch-0 validator set, the beacon) and hands what it got to a core
whose contract fixes the book and the whole action list for every input.
A core signs through the signer (a signature is a function of key, tag and
message) and reads nothing else from the host: `decide_macro_proposal`,
`absorb_partial`, `absorb_subnet_aggregate`, `receive_macro_qc`,
`mode_a_qc_step`, `announce_window` (which also takes the VRF proof the
signer produced), `backup_takeover_step`, `mode_b_partial_step`,
`decide_vertex_proposal` and `build_own_proposal` (which takes the blobs the
pending-blob source handed out). The handler's own contract
says what holds whatever the port answered; `StateMachine::step` restates
each handler's contract for its event.

Hosts implement the port traits of `src/ports.rs`. Each `spec_*` method of a
port names what the matching method answers (the validator set held for an
epoch, the current beacon, the DAG's vertices, the local signature); it is
never called at run time, and the library's contracts are stated over it.

Two protocol choices are fixed in this library:

- The macro proposer schedule is round-robin over the epoch-0 validator set:
  the primary at height `h` is entry `h mod n`, the backup entry
  `(h + 1) mod n`. It is not drawn from the beacon, and validator
  reputation (tracked in `app/`) does not weigh in.
- A macro proposal's ECVRF proof is carried and produced (through the
  signer port's `vrf_prove`) but never verified: proposals are screened by
  the proposer's BLS signature alone.
