pub mod ast;
pub mod builtins;
pub mod closures;
pub mod environment;
pub mod evaluator;
pub mod lexer;
pub mod object;
pub mod operators;
pub mod parser;
pub mod repl;
pub mod text;
pub mod token;
