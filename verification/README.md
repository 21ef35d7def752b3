# tree_sitter_struct

Generates Rust struct and enum definitions from a tree-sitter `grammar.json`.

- `src/` is the library, verified with Verus. `grammar_json` holds the grammar
  rules, `names` the naming of types and fields, `overrides` the name-override
  paths, `definitions` what the generated code is for each kind of rule,
  `generate` the code that produces it as a flat list of tokens, and
  `nesting` the proof that every generated group is closed.
- `app/` reads `grammar.json` with serde, renders the generated tokens through
  `proc_macro2` and `quote`, and writes them to `tmp-out.rs`.
- `tests/` exercises the library on small grammars.
