# zgc

The front end of a compiler for Zalaga, a small indentation-based language,
written in Verus with its behaviour stated in contracts and proved.

- `src/ast/lexer.rs`: source text to tokens; indentation becomes Indent and
  Dedent tokens. `tokenize_code` returns exactly the tokens that the spec
  function `lex` describes.
- `src/ast/syntax.rs`: the grammar as spec functions over token values.
  `src/ast/tree.rs` holds the parser, proved to give what the grammar gives;
  `src/ast/syntax_laws.rs` proves that the result does not depend on the fuel
  of the grammar, and that a parsed module meets what the declaration checks
  need.
- `src/ast/numbers.rs`: which texts read as an `i64`, and which have the
  syntax of a float.
- `src/semantics/`: scope tables and types with their sizes. `scope_checker.rs`
  holds the scope pass: `populate_scope` fills the table of a module (types
  built from their declarations, structs laid out field after field) and
  reports names that are not in scope, names declared twice and types that
  contain themselves. `type_checker.rs` infers
  the type of an expression (`synth`, proved to give what `synth_spec` gives)
  and decides when one type may stand for another (`check`).
- `src/diagnostics.rs`: the messages and places of reported errors.
- `app/`: the command line: reading files, loading imported modules, and
  printing reports with ariadne.
