# mochiclaw

The verified core of mochiclaw, an agent runtime that runs its model providers,
channels and tools as WebAssembly lambdas under a capability policy.

- `src/` is the library, proved with Verus: capability manifests and how user
  overrides merge into them, the filesystem sandbox (path resolution, white- and
  blacklists), the host-side file tools (paging, fuzzy edits, directory listings),
  the HTTP host policy, the key-value stores, sessions and their legal history,
  prompts and messages, slash commands, the durable-call history, the table of loaded lambdas, the chat
  provider's requests and answers, the WeChat channel's steps, and the decisions
  of the agent loop and of the command line. `src/laws.rs` states the properties
  that span several functions.
- `app/` is the command line: argument handling, the configuration file and lambda
  manifests in TOML, logging, and the scan of lambda directories.
- `tests/` runs the library on concrete values.
