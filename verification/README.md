# miel

The front end of Miel, a small programming language, as a Verus library whose functions
carry contracts proved by Verus.

- `common`: spans, diagnostics, operators, string interning (on `lasso`), and constant
  evaluation of operators on integers (on `num-bigint`) and booleans.
- `lexer`: the tokenizer, specified by a function on character sequences; `lexer::reading`
  proves that tokens print back as the text they cover, and `lexer::relex` that the printed
  text of every lexed token kind lexes back to that one token.
- `parser`: the AST and the recursive-descent parser; `parser::grammar` states the grammar
  as functions on token sequences, and each parsing method is proved to follow its rule;
  `parser::ids` proves that the nodes of a parsed source get distinct ids.
- `sema`: type pools and the type manager, operator typing, scopes and symbol maps,
  diagnostics (with `colored` notes), and the evaluation and collection of constants.
- `mir`, `ir`: intermediate representations, their builders, modules and text form.

`app/` holds the command-line program and what depends on floating point (the evaluation
of floating-point constants, and name suggestions scored with `strsim`).
