# http_async

A small server for the Hyper Text Transfer Protocol. The library in `src/` holds its
logic, verified with Verus; `app/` holds the asynchronous server around it.

## Layout

- `src/request/parser.rs`: the request parser, a state machine fed byte by byte.
  `feed` is specified by the transition function in `src/request/parser/transition.rs`:
  feeding bytes runs the machine over them, up to the first byte it refuses.
  `receive` decides what the server does with a connection after each read. The invariant
  of the state machine is a type invariant of `Parser`.
- `src/request/parser/laws.rs`: what the machine guarantees over whole requests: a request
  with header fields, a body, a query, a list of cookies, Host and User-Agent lines is read
  into the request it states; requests sent one after the other are queued in order; feeding in
  pieces is feeding at once; the invariant of the parser is kept by every byte; a request
  beyond the limits of the configuration (header lines, header names and values, cookies,
  path) is refused.
- `src/request.rs`: requests and their headers.
- `src/response.rs`: responses and their encoding into bytes.
- `src/header.rs`: reading a single header line from bytes.
- `src/method.rs`, `src/version.rs`, `src/status.rs`, `src/path.rs`: the protocol's names
  and how they are written; each status is written as its code and reason phrase, and no
  two statuses share a code.
- `app/lib.rs`: the `server` future, which accepts connections, reads from them, hands the
  bytes to `Parser::receive`, and writes the responses of a handler.
- `tests/`: tests on concrete requests and responses.
