# xlindisk

Read-only storage analysis kernel, verified with Verus.

The core model is `Entry -> Observation -> operation -> re-observation ->
validation -> result`: scans, duplicate hashing and any future deletion share
one notion of "the object may have changed under us".

Layout:

- `src/model/` — identifiers, entries and their flags, observations and
  snapshots, fingerprints, and the entry store (dense ids, hierarchy links
  built on demand, per-candidate observations, hardlink grouping).
- `src/determinism.rs` — byte-level canonical ordering and the canonical
  sort of duplicate groups, proved independent of arrival order.
- `src/error.rs` — stable error codes and the bounded error budget.
- `src/plan.rs`, `src/presets.rs` — the plan IR, its static validation and
  the duplicate preset.
- `src/runtime.rs` — run status, progress events, cancellation, run reports.
- `src/source.rs`, `src/source_fs.rs` — the source contract and the
  filesystem source skeleton.
- `app/` — the command-line harness and the benchmark suite listing.
- `tests/` — executable tests of the library.
