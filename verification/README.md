# ditchd

The runtime that keeps coding agents: their projects, sessions, requests for
permission and notices, on this machine and on SSH hosts, and their remote
control from a paired phone.

- `src/` is the library. Every function states what it does, and Verus proves it.
  What it takes from other crates stands behind wrappers whose contracts are
  stated where they are defined (`text`, `json`, `ids`, `clock`,
  `remote_machine`, `remote_pairing`, `service`, `project_files`).
- `app/` is the program around it: the socket, the database, processes,
  terminals, SSH and the relay. It asks the library what to do and does it.
- `tests/` runs the library on concrete values.

The main parts of the library:

| Modules | What they hold |
| --- | --- |
| `state`, `model`, `records`, `sessions`, `turns`, `agent_output` | the state of the runtime and its steps |
| `app_server`, `codex_cli`, `codex_models`, `codex_places` | the agent's command line and its server protocol |
| `requests`, `remote_hosts`, `host_epochs`, `remote_snapshot`, `targets`, `mobile` | where a request is carried out |
| `receipts`, `replay`, `history` | what survives a lost connection |
| `relay`, `remote_machine`, `remote_pairing`, `remote_command`, `projection`, `transport` | the phone and the relay |
| `git_*` | worktrees, checkpoints, integration and conflict resolution |
| `edition`, `service`, `project_files`, `diagnostics`, `listing` | plans, terminals and files |
