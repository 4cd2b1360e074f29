# Monkey front end, verified

A lexer, syntax tree and Pratt parser for the Monkey language, with the
behaviour of each function stated as a Verus contract and proved.

- `src/token.rs`: tokens, their printed text, operator precedence.
- `src/lexer.rs`: the lexer; `lex_token` and `tokens_from` say what it reads,
  and the text each token prints as is read back as that token.
- `src/ast/`: the syntax tree, its mathematical value (`view.rs`) and the text
  it prints as (`print.rs`).
- `src/parser/`: the parser. `grammar.rs` states, over token sequences, what
  each parsing function builds and where it leaves the parser; `laws.rs`,
  `progress.rs` and `reading.rs` prove how two operators group, that the
  text an expression prints as is lexed and parsed back into that
  expression, that a program is read to its end, and that parsing stops
  early only at a call whose `(` is the last token.
- `src/object.rs`: runtime values and their printed form.
- `src/repl.rs`: when a line ends the interactive session.
- `src/alternatives_to_box_dyn/`: the same tree built with enums, an arena,
  generic types and marker types, and an earlier enum-based parser.
- `app/`: the interactive loop (standard input and output).
