# anvil-reth

A local Ethereum development node on reth that answers Anvil's RPC methods: account
impersonation, automine / interval / manual mining, block timestamp control, balance, nonce,
code and storage overrides, ERC-20 balance and allowance dealing, snapshots and reverts, and
state dumps.

## Layout

- `src/` is the library, verified with Verus. It holds the node's own state machinery and
  every decision the RPC methods take:
  - `primitives` — addresses, 32-byte words and 256-bit numbers, big-endian decoding, and the
    keccak-256 hash (through `alloy-primitives`).
  - `assoc` — a small association map with distinct keys, modelled as a `Map`.
  - `state` — the local account overrides; the code of every overridden account can be found
    by its hash (a type invariant).
  - `state_provider` — how the overrides overlay the chain's accounts, storage and code.
  - `time` — block timestamps from the clock, an offset, an exact next timestamp and an
    interval.
  - `block_env` — gas limit, coinbase and next-block base fee overrides.
  - `mining` — mining modes and requested blocks.
  - `impersonation` — impersonated accounts and the senders of their transactions.
  - `snapshot` — snapshot ids, what they store, and what a revert restores and drops.
  - `state_dump` — building, merging and loading state dumps, gzip through `flate2`.
  - `anvil_api` — parameter checks, the effect of each RPC method on the state above, and
    the steps of the search for the storage slot of an ERC-20 balance or allowance.
  - `evm` — the error of a transaction that cannot be decoded.
- `tests/` runs the library on concrete values.
- `app/` is the node itself: reth launch, the RPC server, the pool, the EVM configuration and
  the tasks that drive mining, calling the library for each decision.
