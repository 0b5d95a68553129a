# git-workset

Named sparse-checkout profiles for git worktrees, driven by a
`.git-workset.toml` file at the repository root.

## Layout

- `src/` — the verified library (Verus):
  - `config.rs`: profiles (`Workset`), the name-ordered profile table
    (`WorksetsConfig`), composition of profiles with `a+b`, the template
    written by `init`, and the submodule sharing mode.
  - `git.rs`: the git invocations for sparse checkout, worktree-scoped
    config, LFS filters, history deepening, worktree creation, sparse
    clones and the probe clone that reads a remote's profile file, as
    argument lists.
  - `submodules.rs`: sharing-mode precedence and fallback, which submodules
    a profile wants, submodule commands, the hardening of a shared
    submodule gitdir's `core.worktree`, where a shared gitdir is found, how
    a checkout is attached, the fetch retries for a missing pinned commit,
    the attach rollback, and the refusal to migrate a dirty clone.
  - `setup.rs`: submodule setup of a worktree as a state machine (inspect,
    refuse or share one by one, clone the rest in one batch, harden each
    clone), with its ordering laws.
  - `porcelain.rs`: readers for `.gitmodules` entries, `git --version`,
    `git worktree list --porcelain` and `git config --get` output.
  - `doctor.rs`: the doctor's checks (D1–D6), the repair each finding
    calls for (none for D5 and D6) and whether it is carried out (only
    under `--fix`), and the edits that repair a clobbered `core.worktree`.
  - `text.rs`: character-level helpers (lines, splitting, joining, trimming,
    decimal numbers).
- `app/` — the `git-workset` command: argument parsing, reading the TOML
  file, and the loops that observe the repository, ask the library for the
  next step, and run git and touch the file system accordingly.
- `tests/` — tests of the library on concrete values.
