# sqparse

A source-preserving lexer and parser for the Squirrel language, in its Squirrel 3 form and in
Respawn's dialect, verified with Verus.

```rust
use sqparse::{parse, tokenize, Flavor};

let source = "global function MyFunction";
let tokens = tokenize(source, Flavor::SquirrelRespawn).unwrap();
let program = parse(&tokens, Flavor::SquirrelRespawn).unwrap();
assert_eq!(program.statements.len(), 1);
```

## Layout

- `src/lexer`: the lexer. `tokenize` turns a string into tokens, each opening delimiter naming its
  closing delimiter. Its contract states that each token is the one read at its start, that only
  whitespace, line breaks and comments lie between tokens, that every comment is attached to a
  token in source order, and that the spans are matched and nest.
- `src/token.rs`: the tokens, the terminal tokens and their text.
- `src/parser`: a recursive descent parser over a `TokenList`. Every parser states that it only
  moves forward through the list, that the node it returns holds exactly the tokens it moved past,
  in order, and that its errors point into the list; `parse` states that the syntax tree holds
  every token it was given, and that the tokens `tokenize` gives never make it report a malformed
  span.
- `src/ast`: the syntax tree, with the tokens of each node in source order.
- `src/annotation`, `src/error_display.rs`: the layout of source annotations and error reports:
  which lines, line numbers, columns and gutter width are shown.
- `app/`: writes annotations and error reports to a terminal, with colours.
- `tests/`: tests of the lexer, the parser and the layouts.

Integer literals are read with the `lexical` crate, behind one trusted wrapper in
`src/lexer/literal.rs`.
