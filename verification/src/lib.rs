use vstd::prelude::*;

pub mod text;
pub mod ast;
pub mod builtins;
pub mod display;
pub mod environment;
pub mod evaluator;
pub mod growth;
pub mod lexer;
pub mod macro_expansion;
pub mod object;
pub mod parser;
pub mod repl;
pub mod rewrite;
pub mod token;

verus! {
} // verus!
