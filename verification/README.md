# position_manager

A position manager for a prediction market, and the trading bots that share its
core. The core is a library that Verus verifies; the programs around it do the
talking to the outside world.

## The library (`src/`)

Money is decimal throughout (`decimal`, on top of `rust_decimal`). Floating-point
figures never enter a decision of the library: they are carried as bit patterns,
or come in as plain yes or no.

* The position manager: `position`, `manager`, `scanner`, `settings`, `prices`,
  `checker` (stop-loss and take-profit with confirmation), `selling`, `keyboard`,
  `consensus`.
* The trading bot: `market`, `market_stream`, `orderbook`, `binance`, `signals`,
  `ticks`, `window`, `liquidations`, `trader` (its state), `accounting`,
  `strategy` (when it enters and leaves), `tick` (what happens on a tick),
  `session`, `orders`, `history`, `display`, `health`, `models`, `bot`, `config`.
* The momentum bot: `momentum`.
* Shared: `bytes`, `json` (on top of `serde_json`), `lists`, `side`, `text`, `words`.

Every public function states in its contract what it returns or changes. The
functions whose names begin with `law_` state what holds of several of them
together: that a trigger needs its confirmations, that a dry run sends nothing,
that the shares bought of both sides stay balanced.

## The programs (`app/`)

`sl_tp_bot`, `ml_bot_tui` and `momentum_bot`, chosen by the first argument. They
hold the network, the database, the screen and the floating-point models. They
read their settings from the environment or from a `.env` file:
`POLYMARKET_PRIVATE_KEY`, `POLYMARKET_FUNDER`, `DRY_RUN` (on unless set to
`false`), `POSITION_SIZE`, `MIN_VOLATILITY_USD`, `TICK_THRESHOLD`, `MIN_HOLD_MS`,
`HOLD_TIMEOUT_MS`, `MIN_Z_SCORE`, `MAX_TRADES`.

Orders go out through the client library of the exchange, which is used in
`app/executor.rs` alone.
