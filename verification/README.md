# tyrnak_engine

A deterministic game-simulation core and its runtime bookkeeping, written in
Verus so that the contracts of the core data structures are machine-checked.

- `src/` is the verified library: generational entity allocation
  (`entity`), sparse component storage (`component`), the world that ties them
  together (`world`), effect stacking (`effects`), commands, event logs and
  gameplay gates (`command`), the command step of a tick (`command_plan`),
  the fixed step order of a tick (`schedule`), attack-target bookkeeping
  (`targeting`), the
  application lifecycle state machine (`lifecycle`), the runtime status table
  (`status_book`, `names`, `health`), latest-value slots (`latest`), queue
  policies (`policy`), control messages, faults and the join outcome
  (`control`), and the trace-inspector filters and panel selections
  (`inspector`).
- `app/` is ordinary Rust around the library: the `f32`/`glam` simulation
  systems and tick engine, kanal channels, service threads, serde copies of
  the library's types, and the runtime host.
- `tests/` exercises the library through its public API.
