# tuitree

A small terminal dashboard for git worktrees and GitHub pull requests. For each project it shows
every local worktree with its branch, how far it is ahead and behind `origin/<default>`, whether
it can be synced, its pull request and its changed files; and the open pull requests of the
repository. Worktrees can be deleted with their branches and synced with origin, one by one or
marked together; such jobs run in the background, one at a time per repository.

## Layout

- `src/` is the library: everything the program decides, computes or says, written in Verus. Each
  function states its result over a mathematical model of its arguments, and the state of the
  application changes only in ways that its contract spells out.
  - `text`, `paths`, `model`: characters, Unix paths, line counts.
  - `cmd`, `git`, `gh`: the commands to run and the reading of what they print.
  - `worker`: the steps of background work, and the order of its reports.
  - `config`: where projects are stored, and how paths are shown.
  - `app`: keys, clicks and results on the state of the application; `app::state` holds the model
    and `app::laws` what holds of it as a whole.
  - `ui`: the texts and colors of the screen.
- `app/` is the program around it: the terminal, the layout of the screen, processes, threads,
  files, JSON and TOML.
- `tests/` runs the library: `units.rs` on single functions, `e2e.rs` on whole sessions with a
  scripted git and gh.
