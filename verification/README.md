# achitek-ls

Editor features for the Achitekfile DSL and Tera templates, written in Verus
and proved against their contracts.

- `src/text.rs`: positions, ranges, lines and character-level helpers.
- `src/syntax.rs`: a plain-value syntax tree and its navigation.
- `src/achitek.rs`: the boundary to the `achitekfile` parser and analyzer.
- `src/editor.rs`, `src/completion.rs`, `src/hover.rs`: document symbols,
  definition, references, rename preparation, completion and hover.
- `src/handlers.rs`: selection ranges, rename edits, workspace symbols and
  project diagnostics about prompts.
- `src/terafile/`: the Tera model, its lowering from a syntax tree, and Tera
  diagnostics.
- `src/server.rs`: the open-document store and message routing.
- `app/`: the language server program (arguments, LSP transport, conversions).
