//! Text-side capabilities: the sub-word tokenizer boundary.

pub mod tokenizer;
