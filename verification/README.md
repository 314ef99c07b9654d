# pi-acp

An adapter between an Agent Client Protocol client (an editor, for instance)
and the pi coding agent, which it runs as `pi --mode rpc`.

The library under `src/` is verified with Verus: what it parses, decides and
writes is stated in contracts and proved. It does no input or output. The
program under `app/` reads, writes, runs pi and keeps the time; it hands the
library plain values and does what the library answers.

## The library

| Module | What it holds |
| --- | --- |
| `session` | a session's turns, tool calls and questions (`pump`), its inputs (`drive`), the laws of both (`laws`), what the client is told (`facts`), and the sessions of a connection (`manager`) |
| `agent` | the client's requests: opening and loading sessions, prompts and the adapter's own commands, choices, listing, replaying a conversation |
| `pi` | pi's side: commands and answers (`rpc`, `process`), events, session files, how pi is found |
| `translate` | prompts, messages, tool calls and shell output, from one side to the other |
| `render` | the frames of protocol versions 1 and 2 |
| `commands`, `settings`, `config`, `startup`, `auth`, `mcp`, `session_store` | prompt files, settings, the environment, the greeting, signing in, MCP servers, the session map |
| `mock` | a stand-in for pi |
| `json`, `text`, `path`, `glob`, `time`, `table` | the values all of this is made of |

Paths are those of Windows or of other systems, as the program says.

`serde_json` parses and prints JSON text. `json` says what the library relies
on there, and is the only module that calls it.

## The program

`pi-acp` serves a client on its standard streams. `--terminal-login` runs pi in
the terminal, `--version` prints the version, and `--mock-rpc` is the stand-in.

| Variable | Meaning |
| --- | --- |
| `PI_ACP_PI_COMMAND` | how pi is called |
| `PI_ACP_PI_EXTRA_ARGS` | arguments for pi |
| `PI_ACP_ENABLE_EMBEDDED_CONTEXT` | accept embedded resources |
| `PI_ACP_VERSION_CHECK` | look for a newer pi |
| `PI_ACP_RPC_TIMEOUT_SECS` | how long pi may take to answer |
| `PI_ACP_SETTLE_TIMEOUT_SECS` | how long a turn may take to settle |
| `PI_ACP_ENABLE_MCP` | hand the client's MCP servers to pi |
| `PI_ACP_SESSION_MAP` | where the session map is kept |
| `RUST_LOG` | what is logged, to the error stream |
