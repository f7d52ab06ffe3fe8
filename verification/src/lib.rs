//! A front end for a textual process-diagram language: a total lexer, a
//! recursive-descent parser with error recovery, a pre-parse context checker,
//! a post-parse semantic validator, and a string-similarity suggestion engine.

pub mod diagnostics;
pub mod error;
pub mod lexer;
pub mod parser;
pub mod text;
