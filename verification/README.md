# branchyard

Paired Git worktrees across several repositories: one command creates a
worktree per repository on the same branch, assigns the worktree a port slot,
generates a standalone Docker Compose file and opens a terminal session;
another tears it all down.

The workspace is configured by `.branchyard.yml` in its root. Terminal
integrations exist for Warp, iTerm2 and tmux; `ghostty` is accepted in the
configuration but has no integration, and choosing it is reported as an error.
`serve` starts Docker services and the repos' serve commands (in the terminal
when `terminal.autostart` is set, otherwise as detached processes); `stop`
stops the services and runs the repos' stop commands.

## Layout

- `src/` — the verified library (Verus):
  - `config` — the workspace configuration and path resolution;
  - `ports` — port slots, the interpolation variables and `{key}` interpolation,
    slot files;
  - `docker` — the per-worktree compose file;
  - `terminal` — Warp, iTerm2 and tmux integrations, as plans to carry out;
  - `worktree` — `git` arguments and `git status --porcelain` reading;
  - `commands` — what each subcommand decides (environment, serve and stop
    commands, listing, sorting, the `init` wizard's answers);
  - `text` — decimal formatting, trimming, parsing, replacement, lines, paths.
- `app/` — the command-line program: argument parsing, YAML loading and saving,
  prompts, processes and files.
- `tests/` — tests of the library on concrete values.
