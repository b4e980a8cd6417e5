//! Front end of the Dusk language: source positions, tokens, a
//! precedence-climbing parser that recovers from errors, and the rendering of
//! diagnostics.
//!
//! Text is handled as bytes throughout: spans are byte offsets, lines end
//! with the line-end byte, and rendered text is a vector of bytes.

pub mod ast;
pub mod error;
pub mod errors;
pub mod evil;
pub mod items;
pub mod laws;
pub mod lexer;
pub mod meta;
pub mod output;
pub mod parser;
pub mod pattern;
pub mod position;
pub mod pretty;
pub mod report;
pub mod sorting;
pub mod span;
pub mod token;
pub mod token_info;
