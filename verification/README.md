# polyplugc

Code generation for the polyplug plugin runtime, verified with Verus: from a
validated API description (`ValidatedIr`) to host- and guest-side bindings in
C++, LuaJIT and QuickJS/TypeScript, plus each bundle's `manifest.toml`.

Every generator function states, in its `ensures`, the exact text it emits as a
spec function over the IR; the generators' file lists are stated the same way.

## Layout

- `src/ir.rs` — the IR types; version parsing and its ABI encoding; primitive,
  ABI and repr type names; type-reference resolution; contract and bundle ids
  (64-bit FNV-1a).
- `src/text.rs` — character-level building blocks: splitting, casing, numbers
  in decimal and hexadecimal, trimming, identifier scanning. The few calls into
  std's Unicode tables sit behind small trusted wrappers at the top.
- `src/generators/` — the shared pieces (`mod.rs`), the C++, Lua and QuickJS
  generators, enum value expressions, bundle manifests, and `agreement.rs`:
  properties that tie separately generated pieces together.
- `src/output.rs` — choosing a generator for a language and side, deciding
  which files need writing, output-partition options, hex encoding of keys.
- `src/cli.rs` — deciding which step a command line asks for.
- `app/` — command-line parsing, and writing generated files to disk (with
  `rustfmt` for Rust sources).
- `tests/` — scenarios on concrete inputs.
