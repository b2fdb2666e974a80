# rabbit

Expose a local HTTP service through a remote server over a tunnel. This crate holds the
tunnel's logic as a library verified with Verus, and a thin program around it.

## Layout

- `src/` — the verified library.
  - `codec.rs`, `buffer.rs` — length-prefixed framing of the agent stream.
  - `proto.rs`, `domain/` — the frames, the protocol messages and the error types.
  - `auth.rs`, `server/http.rs` — shared-secret signatures and the timestamp window.
  - `coordinator/` — port assignment, the registry of connected agents, and the relay
    decisions for each frame an agent sends back.
  - `server/` — the registry of tunnels by id, the socket pool of each tunnel, and the
    reading of a tunnel connection's id line.
  - `adapter/`, `client/`, `proxy.rs` — the command endpoint, the agent's requests and
    headers, and the decisions of the public proxy.
- `app/` — the program: command line, HTTP servers and clients, sockets, timers, and the
  JSON forms of the library's types.
- `tests/` — tests of the library through its public interface.

The functions in `src/` are proved by Verus against their `requires`/`ensures`
contracts; the one that only reads the clock (`clock::now_secs`) promises nothing of
the time it reads. Calls into
outside crates (`bytes`, `dashmap`, `fastrand`, `hex`, `hmac`, `sha2`, `uuid`) and into
parts of the standard library that Verus does not specify go through small trusted
wrappers whose contracts state what those crates document.
