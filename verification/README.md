# crypto_market_connector

An HTTP service that serves crypto order books from Binance, Crypto.com and
Coinbase in one common format.

- `src/` is the verified library (Verus): the provider registry and request
  routing, the shaping of each exchange's request (symbols, limits, URL and
  query), the checks and normalisation of each exchange's reply into an order
  book, the error messages, and the per-provider reports of the all-books
  request.
- `app/` is the server around it: settings read from the environment, the
  HTTP calls to the exchanges (Binance and Coinbase SDKs, `reqwest`), the
  `axum` routes and request logging, and serde copies of the library's types.
- `tests/` exercises the library.
