//! The error taxonomy of the library.
//!
//! Every stage fails fast: the first failure aborts the whole call and is
//! propagated unchanged, with no partial output and no silent recovery.

use vstd::prelude::*;

verus! {

/// One error kind per failure class of the pipeline.
#[derive(Clone, Copy, Debug, PartialEq, Eq, Structural)]
pub enum GlinerError {
    /// A unit could not be sub-word tokenized; fatal to the whole batch.
    Tokenization,
    /// A row width or batch dimension is not representable.
    Shape,
    /// The opaque inference call failed; propagated unchanged.
    Engine,
    /// Downstream decoding failed; short-circuits the chain like the others.
    PostProcess,
}

} // verus!
