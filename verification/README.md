# bank_network

A small TLS banking network and peer-to-peer chat, with its core verified in
Verus.

- `src/` is the verified library: the length-prefixed wire framing and the
  buffers that turn received bytes into messages; chat messages, peers and the
  latency benchmark; banking requests and the client's session; the load
  balancer's routing, token checks and error handling; the database layer's
  decisions on query outcomes, tokens and ownership; password hashing and
  login tokens; the listening thread's bookkeeping and routing tables; the
  command menus. Calls into outside crates (argon2, base64, uuid, rand,
  rand_chacha, chrono) go through small trusted functions whose contracts
  say what the crates document.
- `tests/` exercises the library with the real outside crates linked.
- `app/` holds the programs around the library: sockets, TLS, threads,
  terminal input, the PostgreSQL queries and the protocol-buffers encoding of
  requests. The first argument names the program: `client`, `server`,
  `load_balancer`, `database_handler` or `diesel_test`.
