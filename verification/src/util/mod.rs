//! Cross-cutting helpers: the error taxonomy and the composition primitive.

pub mod result;
pub mod compose;
