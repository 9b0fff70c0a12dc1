# assetiweave

The decision logic of the AssetIWeave backend, written in Verus and proved
against its contracts: catalog validation and release ordering, adapter
package installation checks, update and uninstall planning, conversation
sync, search and usage-scan planning, memory-context assembly, memory
consolidation steps, export paths and the agent-market rules.

## Layout

- `src/` is the verified library. Each module keeps its data model as spec
  functions and views next to the executable code; public proof functions
  state the laws that span several calls (orderings, idempotence, what a
  state machine step keeps).
- Calls into outside crates (`semver`, `chrono`, `url`, `sha2`, `uuid`,
  `serde_json`) and the few std functions that vstd leaves unspecified go
  through small `#[verifier::external_body]` wrappers. Each carries a doc
  comment saying what its contract claims of the outside code; where the
  result takes pages to state, the contract names it with an uninterpreted
  spec function.
- `tests/` runs the library on concrete values, with the outside crates
  linked.
- `app/` is plain Rust around the library: file and network I/O, JSON
  (de)serialisation of catalog documents, and the host paths.

Verify with `verus` on `src/lib.rs`; build and test with cargo.
