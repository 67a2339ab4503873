# blippy

The state and rules of a keyboard-first terminal client for GitHub issues
and pull requests, written in Verus: the code in `src/` is verified against
its contracts. Where a function only hands on what a caller-supplied source
answers (the token sources of `auth.rs`) or reads the system clock, its
contract claims nothing of that answer; the steps that read each answer are
verified functions of their own.

## Layout

- `src/` — the verified library.
  - `text.rs` — character-level text helpers and their specifications
    (trimming, splitting, joining, case folding, numbers).
  - `keybinds.rs`, `input.rs`, `mouse.rs` — key binding text, user
    overrides, the keymap of every view, clickable regions.
  - `issues.rs`, `issue_list.rs`, `repo_list.rs`, `issue_detail.rs` — the
    issue list with its filters and search, the repository picker, an
    opened issue's comments and scrolling.
  - `picker.rs`, `metadata.rs`, `editor.rs`, `actions.rs` — label and
    assignee pickers, comma-separated values, the comment editor, what
    actions act on.
  - `pr_diff.rs`, `review.rs`, `review_threads.rs` — unified diffs, the
    pull request review state, review threads, the comment nodes of a
    thread page, where each review comment is anchored, and viewed files.
  - `linked.rs` — links between issues and pull requests and the picker
    among them.
  - `screens.rs` — all screens together, and the navigation commands and
    clicks that act on the one in view.
  - `markdown.rs` — parsing markdown text (with pulldown-cmark, behind
    trusted wrappers that convert its events one for one) and laying the
    events out as lines of styled spans, with numbered links.
  - `events.rs`, `payload.rs` — what the interface does when background
    work reports back: flags, status line, the reloads and updates the
    event loop performs next, and what the event's data does to the
    screens and the link cache.
  - `dispatch.rs` — what an action asked for by a key or a click decides:
    the status line and the next step of the event loop (open an item,
    look links up, open a picker or editor, fetch permissions, send).
  - `github.rs`, `git.rs`, `repo_index.rs`, `discovery.rs`, `auth.rs`,
    `cli.rs`, `config.rs`, `worker.rs`, `app.rs` — API records and merge
    rules, git remotes, the local repository index and disk scan, token
    resolution, command-line arguments, configuration, the shared
    vocabulary of views and actions.
- `tests/` — tests of the library.
- `app/` — the program around it: command line, file system, `git` and
  `gh` processes, the keychain, configuration files and terminal keys.

## What is not here

The terminal interface itself (drawing with ratatui), the GitHub HTTP
client (reqwest on a tokio runtime) and the local issue cache (sqlite) are
not part of this crate, and their crates are not among its dependencies:
they draw, or talk to the network or the disk. The interface's state and
keymaps, the decisions on each action, API reply and event, and the
markdown parse and layout are the verified library above. So `app/` runs
the command-line commands and reports what it finds, but opens no
interface; `cache reset` has no cache to remove.
