//! A front end for the Nadra scripting language: a scanner that turns source
//! text into tokens, a parser that builds a syntax tree from them, and a
//! generator that writes the tree as Python text.
//!
//! - [`lexer`] holds the tokens and the scanner, [`lexer::rules`] the lexical
//!   rules that define what the scanner produces.
//! - [`parser`] holds the parser, [`parser::ast`] the syntax tree and
//!   [`parser::grammar`] the grammar that defines what the parser produces.
//! - [`transpiler`] holds the generator, [`transpiler::rendering`] the text
//!   that it is defined to write.
//! - [`pipeline`] runs the three stages in a row.
//! - [`laws`] and [`round_trip`] state what holds of the stages together:
//!   which trees come out again when their text is scanned and parsed, and
//!   which do not.

pub mod laws;
pub mod lexer;
pub mod parser;
pub mod pipeline;
pub mod round_trip;
pub mod text;
pub mod transpiler;
