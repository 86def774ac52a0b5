# prog_lang

A small interpreted language: a parser from tokens to syntax trees, a compiler from syntax
trees to bytecode, and a stack machine that runs the bytecode.

The library in `src/` is written in Verus and verified:

- `lexer`, `span`, `stream`: tokens, the source text they cut out, and the stream the parser
  reads them from.
- `ast`: the syntax tree of the language (`nodes`), its grammar (`grammar`), the parser
  (`parse`), which succeeds exactly where the grammar says and reads exactly the tokens of
  what it returns, and the spans of the nodes (`spans`).
- `punctuated`, `join`, `text`, `printing`, `errors`: comma-separated lists, joined words,
  text handling, written forms and parse errors.
- `syntax`, `vm`: the syntax tree the compiler takes and its text (`writing`), the compiler, the bytecode, its
  text (`listing`), and the machine, whose every step is stated over a model of its state.

`app/` holds what the library leaves to its user: files, terminal output and error
reports, bytecode as bytes, the text of a double-precision number, and the driver of the
machine, which does the arithmetic on such numbers and the printing that the machine hands
back.

`tests/` holds the tests of the library.
