# pal

A durable, capability-gated task runtime for supervised agents, written in
Verus.

- `src/` is the verified library:
  - `capability.rs`: capabilities, effects, and the `CapabilitySet` gate.
  - `types.rs`: task ids, statuses, journal events, snapshots, and the
    reducer `TaskSnapshot::apply` with its mathematical model.
  - `journal.rs`: the append-only journal of events, per-task filtering and
    deterministic replay, with the laws of replay.
  - `jsonl.rs`: the line framing of the journal file (one record per
    non-blank line, trimmed).
  - `runtime.rs`: start / step / effect / approval / finish decisions.
- `app/` keeps the journal on disk: it reads the JSONL file into the
  library's `Journal`, converts events to and from JSON, and appends to the
  file what each runtime operation appended.
- `tests/` runs the library on concrete scenarios.
