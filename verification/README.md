# gcit

A daemon that polls git refs, dispatches GitHub workflows when they move, and reports on the
runs.

- `src/` is the decision core, verified with Verus: how a source is polled and what a poll
  means (`git`), which flows a configuration change keeps, restarts or drops, how a flow that
  panicked comes back, where credentials are looked for, what is answered over the control
  channel, and in which order the daemon comes up and goes down (`supervisor`). Times, names,
  object ids, configuration and persisted state are plain values (`time`, `names`, `object_id`,
  `config`, `state`).
- `app/` performs what the core decides: network, files, signals, timers and tasks.
- `tests/` runs the core on given values.

Calls into outside crates that the core needs stand behind small functions whose contracts are
trusted: `gix-url`, `gix-hash`, `flate2`, `http`, `chrono` and `uuid`.
