//! Core of a GLiNER-style entity-extraction pipeline: the batch prompt
//! encoder that turns assembled prompts into padded numeric tensor batches,
//! and the composable pre-process / inference / post-process chain.

pub mod util;
pub mod text;
pub mod model;
