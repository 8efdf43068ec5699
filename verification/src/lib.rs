//! An HTML tokenizer: a character source, a token accumulator, the lexer
//! states and the driver that turns text into tokens and parse errors.

pub mod html5;
pub mod testing;
pub mod text;
pub mod types;
