# lo

The verified core of Lo, a local voice agent, written in Verus.

`src/` is the library. Every function in it carries a contract that Verus
proves: the speech chunker, the tool registry and its safety check, the
filesystem sandbox, the SSRF guard and the per-hop decisions of a page fetch,
the web-search answer choice, the desktop-action commands, engine selection and supervision
decisions, the agent-loop message shaping, the streamed-completion framing and
tool-call assembly, the tool dispatcher, conversation persistence, and the UI
turn state machine. The public `proof fn`s state the library's laws (turn ids
are unique, a stale turn never writes into the conversation, a saved history
loads back, tool calls assemble by index, an IPv4-mapped address is classified
as the address it maps, chunking keeps every visible character in order, the
recommended model tier never shrinks as memory grows, every allowed root is
absolute and normalized, ...).

`app/` is a thin terminal front end around the library: it reads the settings
and the environment, talks HTTP to the engine, runs the tool bodies, and drives
turns from lines typed on stdin (`--smoke` and `--turn "<text>"` run headless
checks).

`tests/` exercises the library on concrete values.
