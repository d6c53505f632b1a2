# phantom

The state and decisions of an HTTP client that imitates browsers: cookies,
Alt-Svc and HTTPS records, client hints, connection pools, timeouts,
server-sent events and WebSocket openings. The library in `src/` is written in
Rust and verified with Verus; every function states in its contract what it
returns and how it changes what it is given.

Nothing in `src/` performs I/O or reads a clock. Times are arguments,
connections are numbers, and requests are state machines: a machine's phase
says what to do, and `advance` takes what came of it.

- `cookies`: a bounded cookie jar with snapshots
- `alt_svc`: learned alternatives, their broken periods, HTTPS records
- `client_hints`: which hints origins asked for, and where fields carry them
- `pool`: admission, connection reuse, and the course of a request over
  HTTP/1.1, HTTP/2, HTTP/3 or whichever ALPN selects
- `session`: client options, clients, and sessions built from them
- `sse`, `websocket`: event streams and WebSocket openings
- `timeout`, `policy`: deadlines and their budget, retry and redirect bounds

Laws that relate several functions are public proof functions, mostly in the
`laws` modules. What other crates compute (URLs, `Set-Cookie` fields, the
public suffix list, structured fields) is called through small functions whose
contracts are trusted; each names the function it calls.

`app/` holds the plumbing around the library: clocks, locks, timers, serialized
snapshots, response bodies, and the loops that drive the machines.
