# lazyjj (workspaces and GitHub features)

The logic of lazyjj's workspaces tab, its help popup, its GitHub pull-request
lookup and its clipboard support, as a Verus-verified library.

- `src/` is the library. Each public function states what it returns in its
  contract (a layout computed by ratatui's constraint solver as far as ratatui's
  source fixes it); the proof functions named `lemma_*` state the properties that hold
  across calls (the pull-request cache, the selection kept over a refresh, the
  Base64 encoding, tab expansion, and so on).
  - `clipboard`: Base64 and the OSC 52 sequence that copies text.
  - `commander`: the `jj`, `git` and `gh` commands to run and what their output
    means, as step functions: the caller runs each command and hands its output
    back.
  - `ui`: rectangle arithmetic, tab expansion, diff tinting, the help popup and
    the workspaces tab's state, input handling and what it shows.
  - `text`: the string operations the rest is written with.
- `app/` runs the commands, writes to the terminal and draws with ratatui.
- `tests/` exercises the library on concrete values.
