//! A verified compiler for a small subset of C: integer-valued functions
//! built from arithmetic, relational and logical expressions, variable
//! declarations and assignment, translated to textual x86-64 assembly.
//!
//! The pipeline is: source text -> tokens (`tokenizer`) -> token stream
//! cursor (`scanner`) -> abstract syntax tree (`parser`) -> assembly text
//! (`codegen`). Every stage is specified against a mathematical model of
//! its input and output, so the emitted assembly text is pinned down
//! exactly by the contracts.

pub mod ast;
pub mod codegen;
pub mod error;
pub mod laws;
pub mod numeral;
pub mod parser;
pub mod pipeline;
pub mod scanner;
pub mod text;
pub mod token;
pub mod tokenizer;
