# ddev-workspaces

A conservative CLI that creates Git worktree workspaces with isolated DDEV
environments, and removes them only when it can prove it created them.

The decisions are a library verified with Verus (`src/`):

- `text`, `paths`: character-level helpers and a component model of Unix
  paths, with the `FileSystem` interface the checks query and the `Files`
  record through which the library reaches it, so that contracts can say
  what was asked, what was answered and what was written or removed.
- `command`: errors, process requests, how requests are displayed (sensitive
  ones never show their arguments), the dry-run policy, and the `Recorder`
  through which the library hands requests to a runner, so that contracts
  can say which requests were made (a dry run makes only read-only ones).
- `config`: the configuration's grammar (names, relative paths that never
  leave their root, file/command/check rules) and its validation.
- `git`: parsers for Git's machine-readable output, source diagnostics and
  the worktree requests (removal never forces).
- `ddev`: deterministic project names, registry warnings, identity checks,
  the owned override, start/stop requests, database cloning and generated
  sites.
- `state`: ownership records, reserved exclusively and listed in name order.
- `workspace`: readiness checks, removal authority and the `doctor`, `list`,
  `create` and `remove` commands over the `Host` and `DdevRegistry`
  interfaces.

`app/` is the executable around it: argument parsing, processes, the real
file system, the terminal, TOML and JSON, signal handling and recursive
copying of a site tree.
