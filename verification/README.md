# sce_core

The control-plane library of the sonic cohesion engine, written in Verus:
project paths, the constitution registry (versions, active pointer, canary
budget, run pinning), run discovery and trends, CI summaries, reference
canon, lineage graph, plugin-chain metadata, operators, worker failure
messages, the CLI grammar and the text of run reports. Verus verifies every
function in `src/`, and the public ones carry contracts that say what they
return; calls into outside crates (sha2, hex, chrono, serde_json, uuid,
`std::path`) stand behind small trusted wrappers whose contracts say what
those crates document.

Layout:

- `src/` — the verified library, one module per concern.
- `tests/` — tests of the library on concrete values.
- `app/` — the daemon (HTTP routes and the analysis worker) and the CLI:
  file and database I/O, serde copies of the library's types, and argument
  dispatch. The telemetry analyzer is not part of this program, so the
  commands that need its measurements report that, and the worker records
  each claimed run as failed with that reason.

Verify with Verus on `src/lib.rs`; the outside crates are listed in
`Cargo.toml`.
