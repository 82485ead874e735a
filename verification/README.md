# xauusd_engine

A gold (XAUUSD) market engine: it streams trades from several exchanges for
order flow, builds live 15-minute candles and tick-volume bars from the
SiftingIO spot stream, keeps volume profiles of the previous week, the
previous session, the current week and the latest swing, pulls the economic
calendar, and serves it all to a dashboard over HTTP and WebSocket.

## Layout

- `src/` — the library, verified with Verus. Each public function states
  what it returns in its `ensures`; the laws that relate several calls are
  public proof functions.
  - `text` — character-level string operations (trim, split, parse, case).
  - `json` — the decoded JSON document the adapters read.
  - `exchange` — the trade frames of Bybit, OKX, Bitget, Gate.io, Kraken
    Futures, AllTick and iTick, and the SiftingIO frame kinds.
  - `sifting`, `tick_volume` — tick aggregation into 15m candles and
    tick-volume bars, and the bounded bar store.
  - `sifting_rest` — the one-page history request and its checks (page
    shape, each bar's numbers checked on their IEEE-754 bits, seed order).
  - `session`, `candle_history`, `swing` — the New York trading clock, the
    time-keyed candle history with its profile windows, and swing legs.
  - `calendar`, `mcp` — ForexFactory feed and markdown parsing, the feed
    fallback order (direct feeds, then the browser, with the feed's status
    label), and the browser MCP client's reply handling.
  - `config`, `status`, `order_flow`, `ws`, `execution` — settings, feed
    liveness, event debouncing, per-connection topic filtering and replay
    order, and the
    brokers' replies.
- `app/` — the service around the library: sockets, HTTP, timers, the
  floating-point volume-profile and order-flow arithmetic.
- `tests/` — tests of the library.
