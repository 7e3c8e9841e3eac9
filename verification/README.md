# thrum_engine

The front end of the Thrum language: a lexer, a parser, a desugaring pass and a type checker,
with contracts that Verus proves.

- `src/lexing`: tokens and spans, the punctuation and keyword tables, the lexer.
- `src/parsing`: the syntax tree (an arena of expressions and patterns), the parser and the
  desugaring pass.
- `src/typing`: the type arena, variables and scopes, the checker for expressions and patterns,
  and the evaluation of constants.
- `src/nativelib.rs`, `src/vm_compiling.rs`: the native library and run-time values.
- `src/pretty_printing.rs`, `src/error_location.rs`: the tree as text, and where an error is
  in the source.
- `src/lib.rs`: `check_code`, which runs the stages on a program and stops at the first stage
  that finds errors.
- `tests/`: the test suites.
- `app/`: printing what each stage made, the messages of errors and warnings, and the native
  functions that do I/O.
