//! Input-side data of the pipeline: assembled prompts and their encoding.

pub mod prompt;
pub mod encoded;
pub mod laws;
