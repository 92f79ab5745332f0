# maguito

A small Magit-like terminal interface to git: a status buffer of untracked,
staged and unstaged files with foldable files and hunks, staging and unstaging
of files, hunks and single lines, discarding with confirmation, and transient
menus for commit, fetch, push and pull.

## Layout

- `src/` is the library, verified with Verus. Every public function states in
  its `ensures` what it returns or how it changes the buffer.
  - `app.rs`: the state of the status buffer, its rows (`AppView::visible`),
    cursor moves, folding, and reloading a new status while keeping folds.
  - `ops.rs`: what staging, unstaging, stashing and discarding ask of the
    repository, as a `Plan` of git commands and deletions.
  - `keys.rs`: what a key press does to the buffer and what the program does next.
  - `remote.rs`: the messages and commands of fetch, push and pull.
  - `git/repo.rs`: git command lines, hunk patches (whole and partial), reading
    git's output, assembling a status from diff events.
  - `transient.rs`: the switches and actions of the menus.
  - `editor.rs`: the commit message file and reading it back.
  - `ui/`: the rows the status screen, the help panel and the menus draw.
  - `text.rs`: string helpers (trimming, lines, decimal numbers).
  - `rows.rs`, `laws.rs`: lemmas about the rows of the buffer, and the
    properties that span several operations (folding twice, moving down then
    up, reloading twice, answering a question, and more).
- `app/` is the program around it: terminal input and drawing, reading the
  repository with git2, running git, and the editor.
- `tests/` runs the library on concrete buffers and inputs.

## Data choices

- The switches of an open menu are a `Vec<bool>` in the order of the menu's
  table rather than a set of switch names: a set of `&'static str` has no
  specification in vstd that says what it holds, while the vector is specified
  element by element, and a switch is on or off either way.
- The lines of a batch are grouped per hunk in a `Vec` of groups, in the order
  the hunks first appear, rather than in a hash map keyed by hunk: a map keyed
  by tuples is walked in an order that the hasher picks anew in each process, so
  no contract could say in which order the hunks' patches run; the order kept
  here is one of those orders, and the contracts state it.
- A plan is run one step at a time (`ops::run_step`): the program runs each
  change the step names, and the steps say that the first failure stops the
  plan, that nothing is reloaded then, and that the selection ends and the
  status reloads only once every change succeeded.
