# libroxo

The verified core of Roxo, an MCP-native filesystem sync server for Roblox
Studio that AI agents can drive. A running server is not a connected one; this
library decides what an agent is told about that.

Layout:

- `src/` — the library, written in Verus. Verus proves each function against
  its contract; the few calls into std, `blake3` and `serde_json`
  stand behind small trusted wrappers whose doc comments say what they claim.
  - `client_registry` — the Studio clients attached to a session: handshakes,
    subscriptions, pruning of stale probes, the ordered listing and the count
    of live subscribers.
  - `session_registry` — the machine-local directory of running sessions:
    beacon file names, listing order, path components on Unix and Windows,
    and picking the one session a port or project filter names (never a
    guess).
  - `auto_connect` — the auto-connect policy and its parsing, and the project
    identity derived from a canonical project path.
  - `cli` — what the `sessions`, `status`, `wait` and `mcp` commands decide
    and say: table layout, durations, wait steps, JSON-RPC method and tool
    routing, protocol negotiation, reading request frames and choosing each
    reply, the sessions an MCP server may stop, and the command lines and
    outcomes of the tools it spawns.
  - `text` — string building blocks.
- `tests/` — tests run against the compiled library.
- `app/` — the `roxo` program around the library: the session directory on
  disk, HTTP status requests, terminal output and the MCP stdio loop.
