# Cosmic Mad Scientist auction and swap pool, verified

A CosmWasm contract that auctions 1-of-1 Cosmic Mad Scientist NFTs for
Standard Mad Scientist NFTs (highest escrowed count wins, ties do not take the
lead, late leading bids extend the auction up to a cap), and runs a pool in
which holders swap Standard NFTs 1:1 against the tokens that winning bids
paid in.

## Layout

- `src/` — the contract's logic as a Verus library over plain values: the
  whole stored state is one `State` value, and every entry point is a function
  from state and message to new state and response, with a contract that pins
  down the result, each refusal and the new state.
  - `contract.rs` — `instantiate`, `execute`, `migrate`, the settings checks.
  - `auction.rs`, `swap.rs`, `admin.rs` — the message handlers.
  - `queries.rs` — the queries and their pages.
  - `state.rs`, `collections.rs`, `order.rs` — the state, its keyed
    collections (sorted like the storage maps they stand for) and the byte
    order of keys.
  - `invariants.rs`, `holdings.rs`, `laws.rs` — the properties every message
    keeps (escrow locks, Cosmic locks, leader bookkeeping, pool accounting) and
    the laws relating messages, proved.
- `app/` — the CosmWasm entry points: storage, JSON wire formats, address
  validation, CW721 message encoding.
- `tests/` — unit and multi-contract flows run against the library.
