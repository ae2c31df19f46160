# hedge

The data path of an intraday trading system, verified with Verus: ticks and
order books in; positions, order-flow patterns, breadth and telemetry out; and a
recorder that can play every session back.

## Layout

- `src/base`: arithmetic, bytes, texts, JSON values, bounded collections, and the
  types that everything shares.
- `src/market_data`: feed adapters and their reconnect schedule, symbols, tick
  normalisation and wire format, distribution, breadth, and the Upstox bridge.
- `src/orderflow`: the live book, its metrics, the patterns in it, the heatmap and
  the engine per symbol. `window_laws.rs` states what the volume window counts.
- `src/position`: fills and marks, profit, risk state, and the engine over all
  symbols. `laws.rs` states how cash is conserved over exact integers, and
  `closed_book.rs` what a position keeps of that.
- `src/obs`: latency records, metrics, sampling, logs and how they are shipped.
- `src/replay`: records and frames, segments, the recorder, the player, playback,
  the canonical session and the regression run.
- `app`: the services and tools around the library: files, sockets, HTTP, clocks
  and the derived wire forms.
- `tests`: the library from outside.

Prices are whole paise and fractions are exact; floating point appears in `app`
only. Functions whose names start with `law_` state what holds of the library as a
whole.

## Running

`hedge run market-data orderflow position` runs services on one bus. `hedge
replay`, `hedge gen-canonical` and `hedge regression` are the replay tools; each
answers `--help`. `hedge check-timing` and `hedge count-kinds` take a session and look
into it.
