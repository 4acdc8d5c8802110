# pebblehost-cli

`pb`, a command-line client for the PebbleHost panel API, written as a
library verified with Verus and a thin program around it.

## Layout

- `src/` — the verified library (`pebblehost_cli`):
  - `args` — the command-line grammar: global `--json`/`--verbose` and
    `--base-url`, the subcommands, their arguments and options.
  - `command` — the parsed command line.
  - `request` — the request each command sends, `api-call` requests, and
    what a reply means.
  - `json` — JSON values, key sorting at every depth, compact and pretty
    output.
  - `output` — how a response is printed, and which commands need no key.
  - `credential` — where the API key is stored, which key a command uses,
    and the checks made on the credential file before it is read or
    replaced.
  - `login` — the login steps as a state machine.
  - `reminder` — the daily update reminder.
  - `error`, `text` — errors and their messages; text helpers.
- `app/` — `main`, HTTP, the file system, the terminal prompt and the
  browser launcher; it hands plain values to the library and does what the
  library decides.
- `tests/` — tests of the library on concrete values.

The operations inventory that `pb operations` prints is read from the file
named by `PB_OPERATIONS_INVENTORY` at build time.
