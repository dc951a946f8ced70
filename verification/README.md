# coral

A verified front end and code generator for the Coral language, written in Verus.

- `lexer`: the indentation-aware tokenizer, specified as a function on characters (`lex`).
- `parser`: recursive descent over tokens, specified by the grammar functions `p_*`:
  expressions (ternary, the binary precedence levels, unary, calls, indexing, fields,
  `put`, lists, maps, `if` expressions, lambdas), types, and the statements `fn`,
  `if`/`else`, `unless`, `while`, `until`, `iterate`, `import`, `return`, `break`,
  `continue`, `object`, `store` and `actor` definitions, assignments and expression
  statements. Float literals and interpolated strings are reported as not supported.
- `analysis`: what semantic analysis leaves of a program is stated by `stmts_kept`: every
  node keeps its identity, place and kind; only the types recorded on expressions change.
- `semantic` / `analysis`: scopes and type checks, specified by `stmt_check` and `expr_check`.
- `resolver`: Hindley–Milner style inference, substitution and unification (`unify_spec`).
- `codegen`: LLVM IR text generation, specified by `gen_stmt` and `gen_expr`.
- `lsp`: the language-server logic: formatting, hover, completion, semantic tokens and
  diagnostics.

`app/main.rs` reads a file and runs lexer, parser, resolver and code generator.
