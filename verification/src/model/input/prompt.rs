//! Assembled prompts, as the prompt assembler hands them to the encoder.
//!
//! A prompt is an ordered sequence of token units: entity-label
//! pseudo-words first, then one separator unit, then the real text words.
//! The assembler guarantees the layout stated by `AssembledPrompt::wf`;
//! the encoder never mutates a prompt.

use vstd::prelude::*;

verus! {

/// One prompt as an ordered unit sequence plus its unit accounting.
pub struct AssembledPrompt {
    /// The token units in order: labels, separator, real words.
    pub units: Vec<String>,
    /// How many leading units are entity labels; the separator unit
    /// stands right after them.
    pub label_unit_count: usize,
    /// How many trailing units are real text words.
    pub word_count: usize,
}

impl AssembledPrompt {
    /// The assembler's output contract: the first `label_unit_count` units
    /// are labels, the next unit is the separator, and the remaining
    /// `word_count` units are the real text words. The word count also has
    /// to be representable in an `i64` tensor cell.
    pub open spec fn wf(self) -> bool {
        &&& self.units@.len() == self.label_unit_count + 1 + self.word_count
        &&& self.word_count <= i64::MAX
    }
}

/// One batch of assembled prompts, with the pass-through metadata the
/// post-processor needs.
pub struct PromptInput {
    /// The prompts to encode, one row each.
    pub prompts: Vec<AssembledPrompt>,
    /// The original raw texts, passed through untouched.
    pub texts: Vec<String>,
    /// The entity-label vocabulary, passed through untouched.
    pub entities: Vec<String>,
    /// Word count over the batch, passed through untouched.
    pub num_words: usize,
}

impl PromptInput {
    /// The batch is well-formed when each of its prompts is.
    pub open spec fn wf(self) -> bool {
        forall|i: int| 0 <= i < self.prompts@.len() ==> (#[trigger] self.prompts@[i]).wf()
    }
}

} // verus!
