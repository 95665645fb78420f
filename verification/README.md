# coomi

The verified core of the Coomi engine, the local agent bridge of Coomi
Android, written in Verus.

- `src/` is the library. Every function in it carries a contract that Verus
  proves: the Runtime V2 install state machine and the commands its two
  backends run (the PRoot guest binds only the workspace, its home, its
  temporary directory, `/proc` and `/dev`), the provider settings the browser
  edits, the command protocol of a browser session, the shell tool's output,
  runtime and memory limits, and the cognitive sidecar's bounded inputs.
  Laws that span several operations (an install cannot be started twice, a
  failed install can be retried, two rollbacks restore the versions, the
  active provider stays configured, one turn runs at a time) are public proof
  functions next to the operations they relate.
- `app/` holds what Verus does not check: file and network I/O, processes,
  the HTTP and WebSocket server, JSON, and the agent loop's interface.
- `tests/` runs the library on concrete values.
