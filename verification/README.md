# forj_parser

A preprocessor for (System)Verilog source text, verified with Verus.

The library lexes source text into tokens and elaborates the compiler
directives: text macros (`` `define ``, `` `undef ``, `` `undefineall ``,
macros with parameters and default arguments), conditional compilation
(`` `ifdef ``, `` `ifndef ``, `` `elsif ``, `` `else ``, `` `endif ``),
`` `include ``, `` `line ``, `` `__FILE__ ``, `` `__LINE__ ``, `` `pragma ``
(handed to handlers registered by name), `` `begin_keywords `` /
`` `end_keywords ``, `` `timescale ``, `` `default_nettype ``,
`` `unconnected_drive ``, `` `celldefine `` and `` `resetall ``. Numbers
written partly by text macros are joined again.

Parsing the preprocessed tokens into a concrete syntax tree is not part of
this crate: the syntax-tree types, and the parsers of subroutine calls and
block item declarations that build them, belong to crates that are not
available here.

Layout:

- `src/`: the verified library. `lexer.rs` and `callbacks.rs` lex;
  `number_syntax.rs` is the automaton that recognises numbers;
  `preprocess.rs` drives preprocessing, with one module per kind of
  directive (`define.rs`, `conditional.rs`, `inclusion.rs`, `line.rs`,
  `pragma.rs`, `keyword_directives.rs`, `settings.rs`); `state.rs` holds
  the preprocessor's state and `error.rs` its errors; `laws.rs` states the
  properties that relate several operations.
- `tests/`: tests of the library.
- `app/`: Python bindings for macro definitions, error reports that read
  file lengths from disk, and a small command-line lexer.

Every function of `src/` terminates: preprocessing works within a budget
of steps held by the state (by default `u64::MAX`), and input that expands
without end (a macro whose body uses itself) ends in a `StepLimit` error
once it is spent.
