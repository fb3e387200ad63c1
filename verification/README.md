# monkey

An interpreter for the Monkey language, with a macro system, written in Verus.
The interpreter's logic lives in `src/` and is proved against its contracts:
what the lexer reads, what the parser builds, what a program evaluates to,
and what macro expansion does to a program are each stated as spec functions
over the library's own types, and the executable code is shown to compute
exactly those.

## Layout

| file | what it holds |
| --- | --- |
| `src/text.rs` | string helpers over `Seq<char>` |
| `src/token.rs` | tokens and keywords |
| `src/lexer.rs` | the lexer, as a function from text to a token sequence |
| `src/parser.rs` | the Pratt parser and its error messages |
| `src/ast.rs`, `src/display.rs` | the syntax tree and how it prints |
| `src/rewrite.rs` | in-place rewriting of a syntax tree |
| `src/object.rs` | runtime values, hash keys and hash literals |
| `src/environment.rs` | scopes, kept in an arena of frames addressed by index |
| `src/builtins.rs` | `len`, `first`, `last`, `rest`, `push`, `puts` |
| `src/evaluator.rs` | the evaluator, including `quote` / `unquote` |
| `src/macro_expansion.rs` | collecting macro definitions and expanding calls |
| `src/growth.rs` | laws on how the frame arena only grows |
| `src/repl.rs` | the decisions of the interactive loop: input validation, indentation, prompts, word deletion |
| `app/` | the program: terminal I/O, line editing and signal handling |

Evaluation takes a step budget; running out of it, an integer overflow and a
division by zero are reported as a `Fault` rather than a panic.
