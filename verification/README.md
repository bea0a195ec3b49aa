# vipertrade

The decision logic of the ViperTrade services (market data, executor, API,
analyst), written in Verus and proved against its contracts.

## Layout

- `src/` — the verified library. Each module states its behaviour in
  `requires`/`ensures` over `Seq`, `Set` and `Map` models, and its
  cross-cutting properties as `law_*` proof functions.
  - `config`, `executor`, `market`, `agent` (settings part): how settings
    are read and defaulted.
  - `gate`: the executor's decision flow for one strategy decision, as a
    state machine that issues commands and consumes their results.
  - `recon`: reconciliation of the local book with the exchange.
  - `market`: the market-data collection cycle (BTC context, per-symbol
    signals, publication) as a state machine, and its settings.
  - `agent`: the analyst's investigation loop and tool-call recovery.
  - `align`, `consensus`, `symbols`: cross-exchange candle alignment,
    consensus latching, symbol handling, swing candle ordering.
  - `rate_limit`, `api`, `signing`, `domain`: API rate limiting and client
    identity, operator authorisation, request signing, event envelopes.
  - `pairs`: the enabled trading pairs of the pairs configuration text.
  - `keyed`, `processed`, `text`, `numeric`, `clock`: supporting
    structures and text/number handling.
- `tests/` — tests run against the compiled library.
- `app/` — the unverified service glue: environment and file reading,
  serde shapes, JWT handling, floating-point pricing and indicators, and
  drivers that perform the commands the state machines issue.

Calls into outside crates (`hmac`/`sha2` for signing, `chrono` for the UTC
date, `serde_yaml` for the pairs configuration, `str::to_uppercase`, the system clock) stand behind small trusted wrappers whose contracts are
documented where they are declared.
