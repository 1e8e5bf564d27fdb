# lox_interp

A scanner, parser, resolver and runtime core for the Lox language, whose
functions carry contracts proved in Verus, and a `lox` command around it.

## Layout

- `src/` — the verified library.
  - `token.rs`: token kinds and tokens, and how a token is shown.
  - `scanner.rs`: the scanner, specified by `scan_from`/`spec_tokens`; laws on the
    token stream (one end-of-file token, at the end; lines never go down).
  - `grammar.rs`: the grammar as spec functions over token positions.
  - `parser.rs`: the recursive-descent parser, proved against `grammar.rs`,
    with error recovery.
  - `ast.rs`: syntax trees, their abstract values, constructors and copies.
  - `printer.rs`: the prefix text of expressions and the text of statements.
  - `value.rs`: runtime values; numbers are held as IEEE-754 bits, so equality,
    ordering, negation and the zero test are proved on integers.
  - `environment.rs`: the store of scopes, with laws relating `define`, `get`,
    `assign`, `get_at` and `assign_at`.
  - `interpreter.rs`: the outcome of each operator, short-circuiting, call
    checks, and where each variable is read and written.
  - `callable.rs`: functions, classes, instances and the native clock.
  - `resolver.rs`: the static pass that places local variables, specified by
    `resolve_stmts`, with its laws.
  - `error.rs`: errors, their messages, and exit codes.
  - `text.rs`: character classes and string conversions.
- `tests/` — tests of the library.
- `app/` — the `lox` command: reading files, printing, the prompt, and the
  walk that runs programs (floating-point arithmetic, output, the clock, and
  programs that need not end). The walk itself — visiting each statement and
  expression, entering block scopes, carrying `return` up to its call — is not
  verified; the outcome of each operator, the checks on calls, properties,
  fields and superclasses, the making of functions and classes, and every
  read and write of a variable are the library's.
