# beads_commands

The decisions behind the commands of `br`, a local issue tracker, as a library that Verus
verifies. Every function states in its contract what it returns, and for which inputs; laws
that span several functions stand beside them as proof functions named `law_*`.

## Layout

- `src/` is the library.
  - `show*`, `wrap`, `routing`: the `show` command, from the issues file or the database to text.
  - `epic`, `lint`, `q`, `info`, `init`, `hooks`, `history`, `orphans`: the other commands.
  - `recovery`, `workspace`: repairs of the cache, retries, and routed workspaces.
  - `doctor_subsystems/`: the runs of the doctor, the one place through which it changes files
    (`mutate`, `mutate_db`), and reviewed schema migrations (`schema_migration`, `apply`,
    `maintenance`, `undo`, with their witnesses and receipts, and `round_trip`, which joins them).
  - `text`, `paths`, `numbers`, `json`, `sorting`, `sanitize`, `shell`, `spans`, `shown`, `sizes`,
    `time`, `digest`, `model`, `filters`, `error`: what the commands share.
- `tests/` runs the library on concrete values.
- `app/` is ordinary Rust around it: files, repositories, terminals, and JSON.

Work that alternates with the outside world is a step machine: a function takes a step and how
it went, and gives the next step. `app/` performs the steps.
