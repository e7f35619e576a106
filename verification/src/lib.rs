//! Nota: a small markup language embedded in a host language's source text.
//!
//! A template opens with `@{` and runs to its closing brace. The crate holds the
//! tree that a template parses to, the tokenizer, the parser, and the rendering
//! of a parsed template as a flat list of strings.
pub mod ast;
pub mod atom;
pub mod buffer;
pub mod chars;
pub mod token;
pub mod cursor;
pub mod lexer;
pub mod parser;
pub mod lower;
pub mod grammar;
