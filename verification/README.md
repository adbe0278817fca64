# tipjar

A verified library for a creator tip jar and the tools around it, written in
Verus. Every function in `src/` carries a contract that Verus proves, except one
small wrapper in `src/text.rs` around std's `str::to_lowercase`, whose
contract is trusted.

## Layout

- `src/ledger.rs`, `src/table.rs`, `src/math.rs`, `src/text.rs` — shared
  vocabulary: accounts, token transfers, truncating division, keyed tables
  read as maps, integer square roots, string helpers.
- `src/contract.rs` — the tip jar: token whitelist, escrowed balances,
  withdrawals, pause, roles.
- `src/amm/` — constant-product liquidity pools: pools, liquidity, swaps,
  pricing.
- `src/strategy/` — automated allocation strategies: distribution,
  rebalancing, performance, history.
- `src/retroactive_funding.rs` — funding rounds with votes and rewards by
  impact score.
- `src/reputation_tokens.rs`, `src/composable_nft.rs`, `src/did.rs`,
  `src/verifiable_credentials.rs` — reputation with decay, nested NFTs,
  identities and claims, credentials.
- `src/events/` — tip events and filters.
- `src/config/` — Stellar networks and per-network contract addresses.
- `src/gas.rs` — the fee model, CPU bands, suggestions and comparisons of a
  gas report.
- `app/` — the gas-estimator command line tool: reading reports, printing
  tables, floating-point XLM figures, loading addresses from the
  environment.

Operations that would touch the ledger (token transfers, the clock) take
their inputs as arguments and hand back the transfers to perform; state lives
in plain structs such as `TipJarContract`, `Amm` and `StrategyBook`.
