//! A line-oriented esoteric language whose opcodes are chosen by the
//! character length and letter case of a statement's first word.  The crate
//! holds the tokenizer, the number-word parser, the label resolver and the
//! execution engine; numbers travel through it as their 64-bit encodings,
//! and every numeric computation, every line of input and every printed
//! line passes through a query that the surrounding program answers.
pub mod compile;
pub mod engine;
pub mod labels;
pub mod laws;
pub mod number;
pub mod opcode;
pub mod store;
pub mod text;
pub mod token;
