//! Running the tokenizer, and parsers that build documents, against recorded
//! cases.

pub mod tokenizer;
pub mod tree_construction;
