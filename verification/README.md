# orderbook

A local mirror of Binance spot order books, written in Verus.

`src/` is the verified library:

- `binance/local_book.rs` — a market's book: bids and asks filed by an
  integer price key, set or cleared level by level, with the best bid and
  best ask.
- `binance/data/depth_snapshot.rs` — reading a REST depth snapshot response
  (its address, its JSON, and which failure is reported first) and applying
  the snapshot to a book.
- `binance/manager.rs` — the scheduler that places market subscriptions on
  stream processes (`Balanced` or `MaxPerTask`) and retires idle processes.
- `binance/process.rs`, `binance/manager_process.rs` — the bookkeeping of a
  stream process: its pending requests, the books it keeps, and what an
  answer to a request does.
- `binance/schema/` — the text of stream requests, the shape of incoming
  messages, and the price levels that they write.
- `common/` — markets, errors, id generation, JSON values and text, and
  request ids.

Prices and quantities are `f32` values from the exchange; the library holds
them as IEEE-754 bit patterns and files levels under the price scaled by
10^9, both computed by the caller.

`app/` is the program around it: the tokio runtime, the websocket and HTTP
I/O, the serde forms of the messages, and the floating-point reading and
arithmetic of prices.
