//! Front end of a small scripting-language compiler: a source registry,
//! character spans, a tokenizer that nests delimiter groups, a token cursor,
//! a recursive-descent parser and a diagnostics renderer.
//!
//! Every executable function carries a contract over a mathematical model of
//! its data: texts are sequences of characters, tokens and tree nodes are
//! seen through their views. `lexer` and `parser` each come with a module of
//! what holds of all they produce (`tiling`, `parser_laws`); `compiler` joins
//! the two into one step.

pub mod text;
pub mod styling;
pub mod files;
pub mod span;
pub mod errors;
pub mod render;
pub mod tokens;
pub mod lexer;
pub mod tiling;
pub mod ast;
pub mod token_stream;
pub mod parser;
pub mod parser_laws;
pub mod compiler;
