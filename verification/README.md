# git-fixture

Builds git repositories from a script of commands (commits of given files,
labels, resets, merges, branches, tags and where HEAD ends up), for
reproducible test fixtures.

- `src/` is the verified library: the script model (`model`), the label
  table (`labels`), the run's decisions as a state machine (`runner`), the
  default messages and path bytes (`text`), the choice of file format
  (`format`), and properties of runs proved over their specification (`laws`).
- `app/` is the command-line program: it reads and writes script files with
  serde, and performs each step that the runner decides on a repository with
  git2.
