# forklift

Forklift drives a stack of jj changes as a stack of GitHub pull requests: it submits, syncs,
merges, freezes and repairs them. This crate holds its logic as a verified library.

- `src/` decides. Every rule, parser, message and workflow stands there with a contract. Effects go
  through `shell::Host`, which runs programs, reads answers and shows lines. `Shell` keeps a ghost
  record of what was asked and what came back, and each workflow's contract relates its result to
  that record. Proof functions named `law_*` state what holds across functions.
- `src/outside.rs` holds the calls into other crates, each with the contract it is trusted for.
- `app/` is the program around the library: arguments, processes, SQLite, tracing and the screen.
- `tests/` runs the rules on given values and the workflows against a scripted host.
