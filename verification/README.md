# gwtx

A command-line helper for git worktrees and jj workspaces: it reads
`.gwtx/config.yaml` and, when a worktree is created, makes the directories,
symlinks and copies the configuration lists, runs its hooks once they are
trusted, and offers listing, removal and shell integration.

## Layout

- `src/` is the library, written in Verus. Each public function states what it
  returns in its `ensures`, over spec functions on sequences and strings, and
  Verus proves it. The functions named `law_*` are proof functions that state
  properties spanning several functions (quoting reads back, the first
  worktree listed is the only main one, a valid configuration is accepted,
  and so on).
  - `config`: configuration types, validation, path and branch templates.
  - `paths`, `text`: the path and string model the contracts use.
  - `git`, `vcs`: parsing of git/jj output, VCS detection, command arguments.
  - `hook`, `quoting`, `init`: hook expansion, shell quoting, shell scripts.
  - `trust`: the hook digest and the trust records.
  - `color`, `output`, `prompt`, `interactive`: text and terminal decisions.
  - `command`: the decisions of the `add`, `list`, `remove`, `trust`, `config`
    and `cd` commands.
  - `glob`: glob matching through the `globset` crate.
  - `clock`: the local time and strftime formatting through `chrono`.
- `app/` is the program around it: argument parsing, YAML, the file system,
  processes and the terminal. It hands the library plain values and acts on
  what comes back.
- `tests/` runs the library on concrete inputs.
