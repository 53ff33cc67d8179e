# integritee_parachain

The logic of a parachain node and its runtime pallets, written in Verus and
proved against its contracts: the ORML token ledger and its traits, the
Chainlink price-feed pallet, the parachain upgrade pallet, the message
broker, the XCM bridge router and bridge queues, the collator's decisions
(block status, collation, Nimbus seals, justified announcements), the
leaf-pruning level monitors, the recovery of proofs of validity, and the
relay-chain RPC workers and light-client platform.

- `src/` is the verified library. Fixed-point arithmetic goes through
  `sp-arithmetic`, behind the wrappers of `src/fixed.rs`; the upward messages
  of a collation are SCALE-decoded by `parity-scale-codec`, behind a wrapper
  in `src/collation.rs`.
- `tests/` runs the library on concrete scenarios.
- `app/` holds the drivers that connect the library's state machines to
  the node's services (relay-chain client, backend, RPC channels, storage),
  reached through small traits.
