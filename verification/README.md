# orderbook_imbalance

Watches Bybit order books over the public websocket, computes the
bid/ask imbalance of each book at depths 1, 5, 10, 25 and 50, and stores
every public trade together with the current imbalances of its symbol.

Layout:

- `src/` — the verified library (Verus):
  - `text` — building strings, decimal rendering, substring search, splitting;
  - `enums`, `messages` — the API's enumerations and message records;
  - `url_params`, `rest` — query strings and REST request URLs;
  - `orderbook` — the local book: price keys, snapshot and delta updates,
    the quantities of the top levels;
  - `ws`, `streams` — stream names, the subscription request, topic parsing,
    the books of the followed streams and what to do with each message;
  - `trades` — the stored trade records.
- `app/` — the program: HTTP, websocket and database I/O, JSON decoding,
  and the floating-point arithmetic on quantities (totals, imbalance ratios,
  rounding).
- `tests/` — tests of the library on concrete values.
