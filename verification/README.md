# fabio_claw

An edge AI runtime for small boards: an OpenAI-compatible chat endpoint
backed by a local model, slash-commands routed to sandboxed plugin
binaries, a ReAct agent, cron tasks, a Telegram bridge and a device key
that signs plugins.

- `src/` is the library, verified with Verus: prompt building and the
  context budget, reply cleaning, plugin routing and the reply cache,
  plugin summaries, the plugin registry and tool definitions, SHA-256 and
  plugin signatures, the agent's step machine, the scheduler's decisions,
  the Telegram message handling, and the computing parts of the bundled
  plugins (`src/plugin_tools/`).
- `app/` is the program around it: configuration, the HTTP server, the
  model backends, the SQLite store, process spawning, and the I/O of the
  bundled plugins. It hands the library plain values and acts on what comes
  back.
- `tests/` runs the library on concrete inputs.
