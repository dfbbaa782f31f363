# hft_pipeline

Verified core of a market data and trading pipeline: synchronization of order
books, collection and conversion of market data, recording of orders, and the
decisions of a market making strategy.

- `src/` is the library. Every function states in its contract what it returns
  or changes, and Verus proves it. Prices and quantities are of a generic type;
  what is done with them comes in as a closure, so the contracts hold for any
  kind of number.
- `src/*_laws.rs`, and `law_` functions beside the code that they speak of,
  state what holds of the library as a whole.
- `tests/` runs the library on values, with the outside crates that it calls.
- `app/` is the program around the library: files, sockets, the database and
  floating point arithmetic.

Modules of the library:

| Module      | What it holds                                                        |
|-------------|----------------------------------------------------------------------|
| `connector` | order books and snapshots, streams, requests, delays, the account    |
| `collector` | messages to be collected, daily files, the feed of a connector       |
| `data`      | conversion of Tardis and collected files, order of events            |
| `recorder`  | recorded events, rows and batches                                    |
| `factors`   | ring buffer, time window, sampling, depth sums, stop loss            |
| `strategy`  | schedule, grid of orders, warmup, loops                              |

The library calls `chrono`, `time` and `serde_json`; what it relies on there
stands in the contracts of `src/clock.rs` and `src/json.rs`. `src/text.rs` does
the same for upper and lower case in the standard library.
