# backtesting_suite

A headless backtesting engine for trading strategies, written in Verus: the
order-book engine, the event stream, the run loop, the reference account and
the metrics are verified against specifications stated over mathematical
models.

## Layout

- `src/` — the verified library.
  - `decimal.rs` — decimals as mantissa and scale, with `rust_decimal` doing
    the arithmetic behind a few trusted wrappers.
  - `book.rs`, `fill.rs`, `extensions.rs`, `engine.rs` — the order-book engine
    (engine A): book levels, fill models, capability-gated extension states,
    and the engine's event, order and settlement handling, each stated as a
    specification function over the engine's model; `engine_laws.rs` and
    `engine_trait.rs` hold what it promises across operations and its interface.
  - `event_stream.rs` — the stable sort of events by time, instrument and
    sequence, and the forward-only stream.
  - `single_run.rs`, `event_loop.rs` — validation, the venue table, the run
    state and its steps, and the event loop; `run_result_ok` says what a
    completed run returns given what the strategy and the account answered.
  - `account.rs`, `metrics.rs`, `validator.rs`, `market_view.rs`, `clock.rs`,
    `warmup.rs`, `money.rs` — the reference account, run metrics, request
    validation, the strategy's market view and small building blocks.
- `tests/` — scenario tests of the library.
- `app/` — the host side: serde wire formats, decimal conversions, error
  values, the float-valued metrics report, and the model ports.
