# rate_limiters

Rate limiting for a small TCP proxy, verified with Verus.

`src/` is the verified library:

- `token_bucket`: a bucket of tokens that refills up to its limit; a request
  takes as many tokens as its size.
- `fixed_window`: at most `limit` requests per clock second.
- `leaky_bucket`: a bounded first-in-first-out queue of connections that lets
  one out at a time.
- `queue`: the ticket queue, which hands poll tickets to requests without a
  key, releases tickets in order and lets released ones through.
- `polling_client`: the client of the ticket queue, as a state machine.
- `protocol` and `wire`: the bytes that the ticket queue and its clients
  exchange, and their parsers.
- `exchange`: statements about whole client/server exchanges.

The clock, the float rates and all network I/O stay in `app/`, one binary
whose subcommands are the proxies, the ticket queue, the clients and the echo
backend.
