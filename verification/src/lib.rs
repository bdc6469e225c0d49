//! The Myst compiler as a library: the tokenizer and the parser of the
//! language, and the engine that lowers a syntax tree to a stream of
//! instructions for the Rainbow machine.
//!
//! - [`enums`]: annotations, operators, tokens and syntax tree nodes.
//! - [`tokenizer`] and [`parser`]: from source text to a syntax tree, each
//!   proved to compute what its model says ([`grammar`] for the parser, with
//!   [`progress`] and [`budget`] for how the parser moves on and what its
//!   budget can and cannot do).
//! - [`symbols`]: the symbol environment, from names to coarse kinds.
//! - [`code`]: the instruction set and the compilation unit.
//! - [`lowering`]: what lowering yields, as a mathematical function.
//! - [`pool`]: the string constants that lowered code names, and the pool.
//! - [`engine`]: the pass that computes it.
//! - [`machine`] and [`laws`]: a reading of the machine, and what is proved
//!   of lowered code against it.
//! - [`text`]: helpers over strings and characters.

pub mod budget;
pub mod code;
pub mod engine;
pub mod enums;
pub mod grammar;
pub mod laws;
pub mod lowering;
pub mod machine;
pub mod parser;
pub mod pool;
pub mod progress;
pub mod symbols;
pub mod text;
pub mod tokenizer;
