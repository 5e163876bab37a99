# barter (verified core)

The logic of a market-data and simulated-execution toolkit, written in Verus:
every function in `src/` carries a contract, and the verifier proves it, except
for the small wrappers marked `#[verifier::external_body]` and the
`assume_specification` items, whose contracts about outside crates
(`rust_decimal`, `chrono`, `smol_str`, `convert_case`, `serde_json`,
`barter-integration`, std) are trusted.

## Layout

- `src/` — the verified library.
  - `deribit/` — the Deribit connector: channels, market names, subscription
    names and their parsing, message classification, subscription replies, the
    authentication handshake's decisions, and order book (L1/L2) events.
  - `mock/` — a simulated exchange: balances, positions, market and limit orders,
    resting-order matching as the market moves, cancellation, account snapshots.
  - `sequencer.rs`, `transformer.rs` — sequencing of order book L2 updates and
    their routing per subscription.
  - `dynamic.rs`, `connector_factory.rs`, `connectors.rs`, `connector_meta.rs` —
    planning of dynamic streams: channels per exchange and kind, grouping, and the
    connectors that serve them.
  - `market_fanout.rs` — routing of L1 updates to the simulated exchanges.
  - `decimal.rs`, `time.rs`, `text.rs`, `keyed.rs` — decimals and times as the
    verifier sees them, integer rendering, and keyed sequences.
- `tests/` — tests of the library on concrete values.
- `app/` — the I/O around it: WebSocket handshakes, JSON, tokio channels and tasks.

Verification: `verus` on `src/lib.rs` with the crates of `Cargo.toml`.
Laws that span functions stand in `src/` as public proof functions named `law_*`.
