# things-cli

A command-line tool for agents that drives the Things 3 app on macOS through
AppleScript (`osascript`). The library is written in Verus and proved against
its specifications; a thin program around it does the input and output.

## Layout

- `src/` — the verified library.
  - `text.rs`, `order.rs`: trimming, ASCII case, substrings, joining, decimal
    text, and the order of strings.
  - `error.rs`: the errors, their kinds, exit codes and messages.
  - `model.rs`, `output.rs`, `cli.rs`: to-dos, lists, command results and the
    parsed command line.
  - `normalize.rs`: required text fields, statuses and tags.
  - `select.rs`: finding a to-do by selector and a list by name.
  - `listing.rs`: ordering and filtering a listing.
  - `render.rs`: the plain-text output.
  - `schedule.rs`: reading schedule targets (with `chrono`).
  - `things.rs`, `scripts.rs`: the AppleScript programs and their arguments.
  - `plan.rs`: what `create` and `update` read and change.
  - `execute.rs`: each command as a state machine that asks for scripts to be
    run or text to be read, and moves on with the replies.
- `app/` — argument parsing (`clap`), running `osascript`, reading notes,
  JSON (`serde`), printing and exit codes.
- `tests/` — tests of the library.

## Exit codes

- `0`: success
- `1`: unexpected failure
- `2`: not found
- `3`: conflict
- `4`: invalid input
