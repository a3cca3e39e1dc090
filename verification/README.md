# desmonic

Desmonic is a small language that compiles to a Desmos graph state. This crate
is its verified core:

- `src/parse.rs`: the syntax tree and comparison operators;
- `src/type_check.rs`: type inference over expressions and statements;
- `src/transpile.rs`: code generation to Desmos LaTeX expressions;
- `src/generate.rs`: the graph state that holds the generated expressions;
- `src/names.rs`, `src/text.rs`: name maps and identifier text;
- `src/readiness.rs`: executable checks of the preconditions of the above, and
  `transpile_checked`, which generates only when generation can go through;
- `src/laws.rs`: properties that span several functions.

`app/` holds the command-line program: argument handling, reading the source
file, the generated parser, and the JSON form of the graph state.
