# rpocketflow

A small workflow library: nodes run in prep / exec / post phases, hand back
an action, and a flow follows each node's successor for that action until a
node terminates it, no successor is left, or a node fails.  Around that core
sit a bounded conversation history, a registry of callable tools, and the
client side of the Model Context Protocol.

## Layout

- `src/` is the library, written in Verus.  Its functions state what they
  return or change in their `requires` / `ensures`, and Verus proves them,
  with one exception: the few `#[verifier::external_body]` wrappers that call
  std (the clock, `Duration`, the text of an I/O error) are trusted, and
  their doc comments say what their contracts claim of std.  The parts:
  - `sync/`: actions, the state of a node, how a flow picks its next node,
    and the retry policy of a node's execution phase;
  - `async_node.rs`: the state of asynchronous nodes and flows;
  - `mcp/`: the conversation history, the tool registry, the JSON-RPC
    requests of an MCP client, and the decisions of the two nodes that talk
    to a model and to an MCP server;
  - `json.rs`, `strmap.rs`: the JSON values and the insertion-ordered text
    map that the rest is written over;
  - `errors.rs`, `clock.rs`: errors and the wall clock.
- `app/` is ordinary Rust around the library: the node traits, the loops that
  run a flow's nodes and a node's retries (each decision is the library's),
  the network and process I/O, the conversions to `serde_json`, and the
  macros that build nodes and flows.
- `tests/` holds the tests.
