# zellij-tmux-shim

A `tmux` command-line compatibility layer for zellij: tools that shell out to
`tmux` (split a pane, query its geometry, send keys, kill it) drive zellij
instead. Outside a zellij session the executable hands the invocation to the
real `tmux`.

## Layout

- `src/` — the library, verified with Verus. Every command is a decision
  function over the replies received so far: it returns either the next
  request (run `zellij ...`, read or write the session cache, read the clock,
  canonicalise a path) or the final output. The contracts state exactly which
  request comes next and what is printed, over mathematical models of the
  parsed invocation, the pane and tab lists, and the replies.
  - `cli` — argument parsing (clusters, attached values, `--`, aliases).
  - `idmap` — `%N` ↔ `terminal_N`, `@N` ↔ tab id, `session:` tab namespaces.
  - `format` — `#{var}` rendering and the pane/window/session variables.
  - `zellij` — the pane and tab models, the request builders, a scripted fake.
  - `session` — live-session resolution, rename recovery cache, pane probe.
  - `cmd` — the command handlers and the router (`Job`, `dispatch`).
- `app/` — the executable: environment, subprocesses with a timeout, the file
  system, JSON decoding, and the loop that carries out the library's requests.
- `tests/` — the library's tests, driven against the scripted fake.

The laws the library keeps are public proof functions named `law_*`.
