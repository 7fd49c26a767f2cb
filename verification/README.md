# hoard

Save games of several players, kept in step: groups that share a save, a lease that says who hosts a
shared world, and the programs around them.

- `src/` is the library. Every function in it states what it does, and Verus proves it. Time, the
  disk, the network and the database are arguments and results: the library decides, its callers
  act.
  - `fileclass`, `glob`: which files of a folder are save data, and which a share's list names.
  - `agent`: what runs on a player's machine. A slot per save (`slot`), who plays a shared world
    (`claim`, `sessions`, `reconcile`), the lease task (`lease`), the live stream (`live`), the
    updater (`update`, `updater`).
  - `server`: who may touch a save (`access`), groups and invites (`groups`), leases (`leases`),
    saves (`saves`), and moving a save's content between an owner's and a group's namespace
    (`share`, `settle`, `namespace`, `store`), there and back (`roundtrip`).
  - `cli`, `desktop`: what the commands ask for, and what they print.
  - `clock`, `ids`, `secret`, `text`, `wire`: dates, identifiers, tokens, texts, and what the two
    ends exchange.
- `tests/` runs the library on concrete values.
- `app/` is ordinary Rust around it: routes, tasks, files and the terminal.

Laws that relate several functions stand at the end of their module as public proof functions. What
is believed of another crate stands beside the call, with a doc comment that says what is claimed.
