# vicia_browser

The browser layer of a bitemporal graph database: a page buffer over IndexedDB,
the handle on top of it, and the programs that measure the engine below it.

- `src/` is the library. Every function in it has a contract, and Verus proves
  it. `src/browser` holds the page buffer, the handle and the stages that its
  reads, writes, imports and maintenance pass through; `src/bench` holds the
  rules of the measuring programs. Functions named `law_*` state what holds
  across several operations.
- `tests/` runs the library on concrete values.
- `app/` is ordinary Rust around it: IndexedDB requests, JavaScript values, the
  engine, child processes, `/proc`. The engine is a parameter there.

What the library takes from outside without proof stands in `src/json.rs`
(`serde_json`), `src/entity.rs` (`uuid`), `src/collections.rs` and
`src/bench/scan.rs` (the standard library), next to the claim that is made of
it.
