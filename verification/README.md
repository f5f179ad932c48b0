# fleet

The logic of a terminal program that runs a fleet of coding sessions side by
side: what git says about a session's directory, how much of the account's
limits is spent, and everything the screen shows.

- `src/` is the library. Its functions carry contracts that Verus proves; the
  functions whose names begin with `law_` state what holds of the library as a
  whole. What stands outside the library is believed, not proved: the contracts
  of `decode_lossy` in `git`, of `parse` in `json`, and of `split_rows`,
  `split_columns` and `bordered_inner` in `layout`, which call out of it, and
  the one given to `String::push` in `text`.
  `convert` in `json` is part of such a call and has no contract.
  - `git`, `git_laws`: the output of `git status` and `git log`, and the
    questions a look at a repository asks.
  - `json`, `timestamp`, `time`, `usage`: the cached limits, and the countdowns
    they turn into.
  - `text`, `scan`, `format`: the short texts of the screen.
  - `layout`, `theme`, `paint`: where things are, and what they look like.
  - `model`, `names`, `sidebar`, `limits`, `pane`, `status`, `dialog`, `help`, `screen`:
    the screen itself, drawn from plain values.
  - `input`: what comes of waiting for an event.
- `tests/` runs the library on concrete values.
- `app/` is the outside: the terminal, child processes, files and the clock.
