# fastn-p2p (verified core)

Peer-to-peer communication through a local daemon.  The library in `src/`
is written in Verus: every public function carries a contract over a
mathematical model of its inputs and results, and the laws that span
several functions are proof functions checked by Verus.

Layout:

- `src/net/` – stream protocol headers, the per-process endpoint slot, the
  node key file.
- `src/handshake.rs` – hello messages exchanged when a connection opens.
- `src/server/` – the handler registry and the server's per-connection state
  machine (`builder`), identities and protocol bindings under `FASTN_HOME`
  (`daemon`), management-command parsing (`commands`) and the
  multi-identity serving plan (`serve_all`).
- `src/client.rs` – the client's state machine for calls and streaming
  connections.
- `src/cli/` – identity management, status, calls through the daemon, and
  the daemon's built-in Echo and Shell protocols.
- `src/malai/` – HTTP request-head parsing and argument helpers of the
  HTTP-over-P2P tools.
- `src/text.rs`, `src/json.rs`, `src/keys.rs` – text handling, JSON
  validation and key handling shared by the above.
- `app/` – the `fastn-p2p` command-line program: argument parsing, files,
  sockets and printing around the library.
- `tests/` – tests run against the compiled library.

State machines (`ServerConnection`, `ClientCall`) take events and return
actions: the caller performs the I/O an action asks for and feeds back what
happened.
