//! The sub-word tokenizer capability.
//!
//! A tokenizer turns one word into an ordered, nonempty sequence of
//! sub-word ids, deterministically for a given word and loaded vocabulary;
//! failure means the input is unencodable. The encoder is verified against
//! this interface alone; `VocabTokenizer` is a verified table-backed
//! implementation, and `FailingTokenizer` one that rejects every input.

use vstd::prelude::*;
use crate::util::result::GlinerError;

verus! {

/// The sub-word tokenizer capability: `encode(word)` returns the ordered
/// sequence of sub-word ids of `word`, or fails.
pub trait Tokenizer {
    /// The tokenizer as a mathematical function: `None` means `word` is
    /// unencodable, `Some` gives the ids `encode` returns.
    spec fn spec_encode(&self, word: Seq<char>) -> Option<Seq<u32>>;

    /// A nonempty word never encodes to an empty id sequence.
    proof fn spec_encode_nonempty(&self, word: Seq<char>)
        requires
            word.len() > 0,
        ensures
            self.spec_encode(word) matches Some(ids) ==> ids.len() > 0,
    ;

    /// Runs the tokenizer on one word.
    fn encode(&self, word: &String) -> (r: Result<Vec<u32>, GlinerError>)
        ensures
            (match r {
                Ok(ids) => self.spec_encode(word@) == Some(ids@),
                Err(e) => self.spec_encode(word@) is None && e == GlinerError::Tokenization,
            }),
    ;
}

/// What a `VocabTokenizer` lookup yields: the id sequence of the first
/// entry whose word matches, or `None` when no entry matches or the
/// matching entry holds no ids.
pub open spec fn vocab_lookup(entries: Seq<(String, Vec<u32>)>, word: Seq<char>) -> Option<Seq<u32>>
    decreases entries.len(),
{
    if entries.len() == 0 {
        None
    } else if entries[0].0@ == word {
        if entries[0].1@.len() > 0 {
            Some(entries[0].1@)
        } else {
            None
        }
    } else {
        vocab_lookup(entries.drop_first(), word)
    }
}

/// A tokenizer backed by a finite word-to-ids table; words outside the
/// table, and entries listing no ids, are unencodable.
pub struct VocabTokenizer {
    /// The vocabulary, looked up first match wins.
    pub entries: Vec<(String, Vec<u32>)>,
}

impl VocabTokenizer {
    /// An empty vocabulary.
    pub fn new() -> (r: VocabTokenizer)
        ensures
            r.entries@.len() == 0,
    {
        VocabTokenizer { entries: Vec::new() }
    }

    /// Adds one word with its sub-word ids.
    pub fn add(&mut self, word: String, ids: Vec<u32>)
        ensures
            final(self).entries@ == old(self).entries@.push((word, ids)),
    {
        self.entries.push((word, ids));
    }
}

proof fn lemma_vocab_lookup_nonempty(entries: Seq<(String, Vec<u32>)>, word: Seq<char>)
    ensures
        vocab_lookup(entries, word) matches Some(ids) ==> ids.len() > 0,
    decreases entries.len(),
{
    if entries.len() > 0 && entries[0].0@ != word {
        lemma_vocab_lookup_nonempty(entries.drop_first(), word);
    }
}

impl Tokenizer for VocabTokenizer {
    open spec fn spec_encode(&self, word: Seq<char>) -> Option<Seq<u32>> {
        vocab_lookup(self.entries@, word)
    }

    proof fn spec_encode_nonempty(&self, word: Seq<char>) {
        lemma_vocab_lookup_nonempty(self.entries@, word);
    }

    fn encode(&self, word: &String) -> (r: Result<Vec<u32>, GlinerError>) {
        let n = self.entries.len();
        let mut i: usize = 0;
        proof {
            assert(self.entries@.skip(0) =~= self.entries@);
        }
        while i < n
            invariant
                0 <= i <= n,
                n == self.entries@.len(),
                vocab_lookup(self.entries@, word@) == vocab_lookup(
                    self.entries@.skip(i as int),
                    word@,
                ),
                forall|k: int|
                    0 <= k < i ==> (#[trigger] self.entries@[k]).0@ != word@,
            decreases n - i,
        {
            proof {
                assert(self.entries@.skip(i as int).drop_first() =~= self.entries@.skip(
                    i as int + 1,
                ));
            }
            if self.entries[i].0 == *word {
                let ids = &self.entries[i].1;
                if ids.len() == 0 {
                    return Err(GlinerError::Tokenization);
                }
                let mut out: Vec<u32> = Vec::new();
                let m = ids.len();
                let mut k: usize = 0;
                while k < m
                    invariant
                        0 <= k <= m,
                        m == ids@.len(),
                        out@ == ids@.subrange(0, k as int),
                    decreases m - k,
                {
                    out.push(ids[k]);
                    proof {
                        assert(out@ =~= ids@.subrange(0, k as int + 1));
                    }
                    k += 1;
                }
                proof {
                    assert(out@ =~= ids@);
                }
                return Ok(out);
            }
            i += 1;
        }
        proof {
            assert(self.entries@.skip(n as int) =~= Seq::<(String, Vec<u32>)>::empty());
        }
        Err(GlinerError::Tokenization)
    }
}

/// A tokenizer that rejects every input.
pub struct FailingTokenizer {}

impl FailingTokenizer {
    /// A fresh failing tokenizer.
    pub fn new() -> (r: FailingTokenizer) {
        FailingTokenizer {  }
    }
}

impl Tokenizer for FailingTokenizer {
    open spec fn spec_encode(&self, word: Seq<char>) -> Option<Seq<u32>> {
        None
    }

    proof fn spec_encode_nonempty(&self, word: Seq<char>) {
    }

    fn encode(&self, word: &String) -> (r: Result<Vec<u32>, GlinerError>) {
        Err(GlinerError::Tokenization)
    }
}

} // verus!
