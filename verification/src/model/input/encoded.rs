//! The batch prompt encoder.
//!
//! Turns a batch of assembled prompts into a uniform, padded numeric
//! tensor batch: token ids, attention mask, word-alignment mask and
//! text-length vector, with exact positional semantics.
//!
//! Every cell of the output is pinned by the specification functions in
//! this module: `row_ids`, `row_attention` and `row_word_mask` state one
//! row of each tensor as a mathematical sequence, and `encode_post` states
//! the whole contract of the encoder, including exactly when it fails.

use vstd::prelude::*;
use crate::util::result::GlinerError;
use crate::util::compose::Composable;
use crate::text::tokenizer::Tokenizer;
use crate::model::input::prompt::{AssembledPrompt, PromptInput};
use crate::model::tensor::{Tensor2, tensor2_rows, tensor2_ncols, tensor2_new, tensor2_push_row};

verus! {

/// Id of the start marker placed at position 0 of every row.
pub const START_TOKEN_ID: i64 = 1;

/// Id of the end marker placed right after the last sub-word token.
pub const END_TOKEN_ID: i64 = 2;

/// The larger of two mathematical integers.
pub open spec fn max_int(a: int, b: int) -> int {
    if a >= b {
        a
    } else {
        b
    }
}

/// `n` copies of the cell value `v`.
pub open spec fn filled(v: i64, n: int) -> Seq<i64> {
    Seq::new(n as nat, |i: int| v)
}

/// Total sub-word count of a unit-encoding sequence.
pub open spec fn sum_lens(encs: Seq<Seq<u32>>) -> int
    decreases encs.len(),
{
    if encs.len() == 0 {
        0
    } else {
        sum_lens(encs.drop_last()) + encs.last().len()
    }
}

/// All sub-word ids of a prompt, unit after unit, as `i64` cells.
pub open spec fn flat_ids(encs: Seq<Seq<u32>>) -> Seq<i64>
    decreases encs.len(),
{
    if encs.len() == 0 {
        Seq::empty()
    } else {
        flat_ids(encs.drop_last()) + encs.last().map_values(|tok: u32| tok as i64)
    }
}

/// The word-mask value of every sub-word token of the unit at `pos`: the
/// 1-indexed number of the real-text word it belongs to, or `0` for label
/// units (`pos < label_count`) and for the separator (`pos == label_count`).
pub open spec fn word_index(pos: int, label_count: int) -> i64 {
    if pos > label_count {
        (pos - label_count) as i64
    } else {
        0
    }
}

/// The word-mask cells of all sub-word tokens of a prompt, unit after unit.
pub open spec fn flat_word_mask(encs: Seq<Seq<u32>>, label_count: int) -> Seq<i64>
    decreases encs.len(),
{
    if encs.len() == 0 {
        Seq::empty()
    } else {
        flat_word_mask(encs.drop_last(), label_count) + filled(
            word_index(encs.len() - 1, label_count),
            encs.last().len() as int,
        )
    }
}

/// One `input_ids` row: start marker, all sub-word ids, end marker, then
/// zero padding up to `width`.
pub open spec fn row_ids(encs: Seq<Seq<u32>>, width: int) -> Seq<i64> {
    seq![START_TOKEN_ID] + flat_ids(encs) + seq![END_TOKEN_ID] + filled(
        0,
        width - 2 - sum_lens(encs),
    )
}

/// One `attention_masks` row: `1` on the `total` real cells (markers and
/// sub-word tokens), `0` on padding.
pub open spec fn row_attention(total: int, width: int) -> Seq<i64> {
    filled(1, total) + filled(0, width - total)
}

/// One `word_masks` row: `0` under the start marker, the word index of
/// each sub-word token, `0` under the end marker and on padding.
pub open spec fn row_word_mask(encs: Seq<Seq<u32>>, label_count: int, width: int) -> Seq<i64> {
    seq![0i64] + flat_word_mask(encs, label_count) + seq![0i64] + filled(
        0,
        width - 2 - sum_lens(encs),
    )
}

/// Whether the tokenizer encodes every unit of the prompt.
pub open spec fn prompt_encodable<T: Tokenizer>(t: T, p: AssembledPrompt) -> bool {
    forall|j: int|
        0 <= j < p.units@.len() ==> (#[trigger] t.spec_encode(p.units@[j]@)) is Some
}

/// The encodings of all units of the prompt, in unit order.
pub open spec fn unit_encodings<T: Tokenizer>(t: T, p: AssembledPrompt) -> Seq<Seq<u32>> {
    Seq::new(p.units@.len(), |j: int| t.spec_encode(p.units@[j]@).unwrap())
}

/// Row length the prompt asks for: start marker, every sub-word token,
/// end marker.
pub open spec fn prompt_total<T: Tokenizer>(t: T, p: AssembledPrompt) -> int {
    2 + sum_lens(unit_encodings(t, p))
}

/// The padded batch width: the maximum row length over the batch, `0` for
/// an empty batch.
pub open spec fn batch_width<T: Tokenizer>(t: T, ps: Seq<AssembledPrompt>) -> int
    decreases ps.len(),
{
    if ps.len() == 0 {
        0
    } else {
        max_int(batch_width(t, ps.drop_last()), prompt_total(t, ps.last()))
    }
}

/// Whether the tokenizer encodes every unit of every prompt.
pub open spec fn batch_encodable<T: Tokenizer>(t: T, ps: Seq<AssembledPrompt>) -> bool {
    forall|i: int| 0 <= i < ps.len() ==> prompt_encodable(t, #[trigger] ps[i])
}

/// Whether the batch is representable: every row length fits a `usize`,
/// and the matrices stay addressable.
pub open spec fn batch_fits<T: Tokenizer>(t: T, ps: Seq<AssembledPrompt>) -> bool {
    &&& forall|i: int| 0 <= i < ps.len() ==> prompt_total(t, #[trigger] ps[i]) <= usize::MAX as int
    &&& ps.len() * batch_width(t, ps) <= isize::MAX as int
}

/// All `input_ids` rows of the batch.
pub open spec fn batch_row_ids<T: Tokenizer>(t: T, ps: Seq<AssembledPrompt>, width: int) -> Seq<
    Seq<i64>,
> {
    Seq::new(ps.len(), |i: int| row_ids(unit_encodings(t, ps[i]), width))
}

/// All `attention_masks` rows of the batch.
pub open spec fn batch_attention_masks<T: Tokenizer>(
    t: T,
    ps: Seq<AssembledPrompt>,
    width: int,
) -> Seq<Seq<i64>> {
    Seq::new(ps.len(), |i: int| row_attention(prompt_total(t, ps[i]), width))
}

/// All `word_masks` rows of the batch.
pub open spec fn batch_word_masks<T: Tokenizer>(t: T, ps: Seq<AssembledPrompt>, width: int) -> Seq<
    Seq<i64>,
> {
    Seq::new(
        ps.len(),
        |i: int| row_word_mask(unit_encodings(t, ps[i]), ps[i].label_unit_count as int, width),
    )
}

/// All `text_lengths` rows of the batch: one single-cell row per prompt,
/// holding its word count.
pub open spec fn batch_text_lengths(ps: Seq<AssembledPrompt>) -> Seq<Seq<i64>> {
    Seq::new(ps.len(), |i: int| seq![ps[i].word_count as i64])
}

/// The whole contract of the encoder: on success every tensor cell is the
/// one the row models give at the batch width, and the pass-through fields
/// are untouched; the call fails exactly when some unit is unencodable
/// (`Tokenization`, checked first over the whole batch) or the batch is
/// not representable (`Shape`).
pub open spec fn encode_post<T: Tokenizer>(
    t: T,
    input: PromptInput,
    r: Result<EncodedInput, GlinerError>,
) -> bool {
    let ps = input.prompts@;
    match r {
        Ok(enc) => {
            &&& batch_encodable(t, ps)
            &&& batch_fits(t, ps)
            &&& enc.num_tokens as int == batch_width(t, ps)
            &&& tensor2_ncols(enc.input_ids) == batch_width(t, ps)
            &&& tensor2_ncols(enc.attention_masks) == batch_width(t, ps)
            &&& tensor2_ncols(enc.word_masks) == batch_width(t, ps)
            &&& tensor2_ncols(enc.text_lengths) == 1
            &&& tensor2_rows(enc.input_ids) == batch_row_ids(t, ps, batch_width(t, ps))
            &&& tensor2_rows(enc.attention_masks) == batch_attention_masks(
                t,
                ps,
                batch_width(t, ps),
            )
            &&& tensor2_rows(enc.word_masks) == batch_word_masks(t, ps, batch_width(t, ps))
            &&& tensor2_rows(enc.text_lengths) == batch_text_lengths(ps)
            &&& enc.texts == input.texts
            &&& enc.entities == input.entities
            &&& enc.num_words == input.num_words
        },
        Err(e) => {
            &&& !(batch_encodable(t, ps) && batch_fits(t, ps))
            &&& (e == GlinerError::Tokenization <==> !batch_encodable(t, ps))
            &&& (e == GlinerError::Shape <==> batch_encodable(t, ps) && !batch_fits(t, ps))
        },
    }
}

/// Adding one unit encoding adds its length to the total.
pub proof fn lemma_sum_lens_push(s: Seq<Seq<u32>>, e: Seq<u32>)
    ensures
        sum_lens(s.push(e)) == sum_lens(s) + e.len(),
{
    assert(s.push(e).drop_last() =~= s);
    assert(s.push(e).last() == e);
}

/// A total sub-word count is never negative.
pub proof fn lemma_sum_lens_nonneg(s: Seq<Seq<u32>>)
    ensures
        sum_lens(s) >= 0,
    decreases s.len(),
{
    if s.len() > 0 {
        lemma_sum_lens_nonneg(s.drop_last());
    }
}

/// Extending a prefix by one unit adds that unit's length.
pub proof fn lemma_sum_lens_take_step(s: Seq<Seq<u32>>, k: int)
    requires
        0 <= k < s.len(),
    ensures
        sum_lens(s.subrange(0, k + 1)) == sum_lens(s.subrange(0, k)) + s[k].len(),
{
    assert(s.subrange(0, k + 1) =~= s.subrange(0, k).push(s[k]));
    lemma_sum_lens_push(s.subrange(0, k), s[k]);
}

/// A prefix never holds more sub-word tokens than the whole.
pub proof fn lemma_sum_lens_take_le(s: Seq<Seq<u32>>, k: int)
    requires
        0 <= k <= s.len(),
    ensures
        sum_lens(s.subrange(0, k)) <= sum_lens(s),
    decreases s.len() - k,
{
    if k == s.len() {
        assert(s.subrange(0, k) =~= s);
    } else {
        lemma_sum_lens_take_step(s, k);
        lemma_sum_lens_take_le(s, k + 1);
    }
}

/// Adding one unit encoding appends its mapped ids to the flattening.
pub proof fn lemma_flat_ids_push(s: Seq<Seq<u32>>, e: Seq<u32>)
    ensures
        flat_ids(s.push(e)) == flat_ids(s) + e.map_values(|tok: u32| tok as i64),
{
    assert(s.push(e).drop_last() =~= s);
    assert(s.push(e).last() == e);
}

/// The flattening holds one cell per sub-word token.
pub proof fn lemma_flat_ids_len(s: Seq<Seq<u32>>)
    ensures
        flat_ids(s).len() == sum_lens(s),
    decreases s.len(),
{
    if s.len() > 0 {
        lemma_flat_ids_len(s.drop_last());
    }
}

/// Adding one unit encoding appends its word-index block to the mask.
pub proof fn lemma_flat_word_mask_push(s: Seq<Seq<u32>>, e: Seq<u32>, label_count: int)
    ensures
        flat_word_mask(s.push(e), label_count) == flat_word_mask(s, label_count) + filled(
            word_index(s.len() as int, label_count),
            e.len() as int,
        ),
{
    assert(s.push(e).drop_last() =~= s);
    assert(s.push(e).last() == e);
}

/// The word mask holds one cell per sub-word token.
pub proof fn lemma_flat_word_mask_len(s: Seq<Seq<u32>>, label_count: int)
    ensures
        flat_word_mask(s, label_count).len() == sum_lens(s),
    decreases s.len(),
{
    if s.len() > 0 {
        lemma_flat_word_mask_len(s.drop_last(), label_count);
    }
}

/// Adding one prompt widens the batch to at least its row length.
pub proof fn lemma_batch_width_push<T: Tokenizer>(t: T, ps: Seq<AssembledPrompt>, p: AssembledPrompt)
    ensures
        batch_width(t, ps.push(p)) == max_int(batch_width(t, ps), prompt_total(t, p)),
{
    assert(ps.push(p).drop_last() =~= ps);
    assert(ps.push(p).last() == p);
}

/// The batch width is never negative.
pub proof fn lemma_batch_width_nonneg<T: Tokenizer>(t: T, ps: Seq<AssembledPrompt>)
    ensures
        batch_width(t, ps) >= 0,
    decreases ps.len(),
{
    if ps.len() > 0 {
        lemma_batch_width_nonneg(t, ps.drop_last());
        lemma_sum_lens_nonneg(unit_encodings(t, ps.last()));
    }
}

/// Every row of the batch fits the batch width.
pub proof fn lemma_batch_width_ge<T: Tokenizer>(t: T, ps: Seq<AssembledPrompt>, i: int)
    requires
        0 <= i < ps.len(),
    ensures
        prompt_total(t, ps[i]) <= batch_width(t, ps),
    decreases ps.len(),
{
    if i < ps.len() - 1 {
        assert(ps.drop_last()[i] == ps[i]);
        lemma_batch_width_ge(t, ps.drop_last(), i);
    }
}

/// Represents one encoded batch: the four tensors plus the pass-through
/// metadata of the input, immutable after construction.
pub struct EncodedInput {
    /// The original raw texts, passed through untouched.
    pub texts: Vec<String>,
    /// The entity-label vocabulary, passed through untouched.
    pub entities: Vec<String>,
    /// Word count over the batch, passed through untouched.
    pub num_words: usize,
    /// The padded row width shared by all rows of the batch.
    pub num_tokens: usize,
    /// batch x num_tokens: sub-word ids, `0` on padding.
    pub input_ids: Tensor2,
    /// batch x num_tokens: `1` on real cells, `0` on padding.
    pub attention_masks: Tensor2,
    /// batch x num_tokens: 1-indexed real-word number per sub-word token,
    /// `0` everywhere else.
    pub word_masks: Tensor2,
    /// batch x 1: the word count of each prompt.
    pub text_lengths: Tensor2,
}

/// Ties one prompt's executable unit encodings to the model.
spec fn encodes_prompt<T: Tokenizer>(t: T, e: Seq<Vec<u32>>, p: AssembledPrompt) -> bool {
    &&& e.len() == p.units@.len()
    &&& forall|j: int| 0 <= j < e.len() ==> (#[trigger] e[j])@ == unit_encodings(t, p)[j]
}

impl EncodedInput {
    /// Encodes a batch of assembled prompts against `tokenizer`.
    ///
    /// First pass: every unit of every prompt is sub-word tokenized and
    /// the padded width is sized as the batch maximum row length. Second
    /// pass: each row is materialized at that width. Fails fast with
    /// `Tokenization` when any unit is unencodable, and with `Shape` when
    /// a row length or the output matrices are not representable. An
    /// empty batch is valid and degenerate: zero rows at width `0`.
    pub fn from<T: Tokenizer>(input: PromptInput, tokenizer: &T) -> (r: Result<
        EncodedInput,
        GlinerError,
    >)
        ensures
            encode_post(*tokenizer, input, r),
    {
        let ghost t = *tokenizer;
        let ghost ps = input.prompts@;
        let n = input.prompts.len();

        // first pass, tokenization: encode every unit of every prompt
        let mut encodings: Vec<Vec<Vec<u32>>> = Vec::with_capacity(n);
        let mut i: usize = 0;
        while i < n
            invariant
                0 <= i <= n,
                n == ps.len(),
                ps == input.prompts@,
                t == *tokenizer,
                encodings@.len() == i,
                forall|k: int| 0 <= k < i ==> prompt_encodable(t, #[trigger] ps[k]),
                forall|k: int|
                    0 <= k < i ==> encodes_prompt(t, (#[trigger] encodings@[k])@, ps[k]),
            decreases n - i,
        {
            let prompt = &input.prompts[i];
            let m = prompt.units.len();
            let mut prompt_tokens: Vec<Vec<u32>> = Vec::with_capacity(m);
            let mut j: usize = 0;
            while j < m
                invariant
                    0 <= j <= m,
                    0 <= i < n,
                    n == ps.len(),
                    ps == input.prompts@,
                    t == *tokenizer,
                    *prompt == ps[i as int],
                    m == prompt.units@.len(),
                    prompt_tokens@.len() == j,
                    forall|l: int|
                        0 <= l < j ==> (#[trigger] t.spec_encode(prompt.units@[l]@)) is Some,
                    forall|l: int|
                        0 <= l < j ==> (#[trigger] prompt_tokens@[l])@ == t.spec_encode(
                            prompt.units@[l]@,
                        ).unwrap(),
                decreases m - j,
            {
                match tokenizer.encode(&prompt.units[j]) {
                    Ok(ids) => {
                        prompt_tokens.push(ids);
                    },
                    Err(e) => {
                        proof {
                            assert(t.spec_encode(ps[i as int].units@[j as int]@) is None);
                            assert(!prompt_encodable(t, ps[i as int]));
                            assert(!batch_encodable(t, ps));
                        }
                        return Err(e);
                    },
                }
                j += 1;
            }
            proof {
                assert(prompt_encodable(t, ps[i as int]));
                assert forall|l: int| 0 <= l < prompt_tokens@.len() implies (
                #[trigger] prompt_tokens@[l])@ == unit_encodings(t, ps[i as int])[l] by {
                    assert(unit_encodings(t, ps[i as int])[l] == t.spec_encode(
                        ps[i as int].units@[l]@,
                    ).unwrap());
                }
                assert(encodes_prompt(t, prompt_tokens@, ps[i as int]));
            }
            encodings.push(prompt_tokens);
            i += 1;
        }

        // first pass, sizing: row lengths and the padded batch width
        let mut totals: Vec<usize> = Vec::with_capacity(n);
        let mut max_tokens: usize = 0;
        let mut i: usize = 0;
        proof {
            assert(ps.subrange(0, 0) =~= Seq::<AssembledPrompt>::empty());
        }
        while i < n
            invariant
                0 <= i <= n,
                n == ps.len(),
                ps == input.prompts@,
                t == *tokenizer,
                encodings@.len() == n,
                batch_encodable(t, ps),
                forall|k: int|
                    0 <= k < n ==> encodes_prompt(t, (#[trigger] encodings@[k])@, ps[k]),
                totals@.len() == i,
                forall|k: int|
                    0 <= k < i ==> (#[trigger] totals@[k]) as int == prompt_total(t, ps[k]),
                max_tokens as int == batch_width(t, ps.subrange(0, i as int)),
            decreases n - i,
        {
            let encs = &encodings[i];
            let ghost ue = unit_encodings(t, ps[i as int]);
            let m = encs.len();
            let mut total: usize = 2;
            let mut j: usize = 0;
            proof {
                assert(ue.subrange(0, 0) =~= Seq::<Seq<u32>>::empty());
            }
            while j < m
                invariant
                    0 <= j <= m,
                    0 <= i < n,
                    n == ps.len(),
                    ps == input.prompts@,
                    t == *tokenizer,
                    batch_encodable(t, ps),
                    ue == unit_encodings(t, ps[i as int]),
                    m == ue.len(),
                    encs@.len() == m,
                    forall|l: int| 0 <= l < m ==> (#[trigger] encs@[l])@ == ue[l],
                    total as int == 2 + sum_lens(ue.subrange(0, j as int)),
                decreases m - j,
            {
                let len = encs[j].len();
                proof {
                    lemma_sum_lens_take_step(ue, j as int);
                }
                match total.checked_add(len) {
                    Some(nt) => {
                        total = nt;
                    },
                    None => {
                        proof {
                            lemma_sum_lens_take_le(ue, j as int + 1);
                            assert(prompt_total(t, ps[i as int]) > usize::MAX as int);
                            assert(!batch_fits(t, ps));
                        }
                        return Err(GlinerError::Shape);
                    },
                }
                j += 1;
            }
            proof {
                assert(ue.subrange(0, m as int) =~= ue);
                assert(total as int == prompt_total(t, ps[i as int]));
                assert(ps.subrange(0, i as int + 1) =~= ps.subrange(0, i as int).push(
                    ps[i as int],
                ));
                lemma_batch_width_push(t, ps.subrange(0, i as int), ps[i as int]);
            }
            totals.push(total);
            if total > max_tokens {
                max_tokens = total;
            }
            i += 1;
        }
        proof {
            assert(ps.subrange(0, n as int) =~= ps);
        }

        // the output matrices must stay addressable
        let size_ok: bool = match n.checked_mul(max_tokens) {
            Some(sz) => sz <= (isize::MAX as usize),
            None => false,
        };
        if !size_ok {
            proof {
                assert(!batch_fits(t, ps));
            }
            return Err(GlinerError::Shape);
        }

        // second pass: materialize each row at the batch width
        let width = max_tokens;
        proof {
            lemma_batch_width_nonneg(t, ps);
            if n > 0 {
                assert(width as int <= n as int * width as int) by (nonlinear_arith)
                    requires
                        n as int >= 1,
                        width as int >= 0,
                ;
            }
            assert(width as int <= isize::MAX as int);
        }
        let mut input_ids = tensor2_new(width);
        let mut attention_masks = tensor2_new(width);
        let mut word_masks = tensor2_new(width);
        let mut text_lengths = tensor2_new(1);
        let mut i: usize = 0;
        while i < n
            invariant
                0 <= i <= n,
                n == ps.len(),
                ps == input.prompts@,
                t == *tokenizer,
                encodings@.len() == n,
                totals@.len() == n,
                batch_encodable(t, ps),
                forall|k: int|
                    0 <= k < n ==> encodes_prompt(t, (#[trigger] encodings@[k])@, ps[k]),
                forall|k: int|
                    0 <= k < n ==> (#[trigger] totals@[k]) as int == prompt_total(t, ps[k]),
                width as int == batch_width(t, ps),
                n as int * width as int <= isize::MAX as int,
                tensor2_ncols(input_ids) == width as int,
                tensor2_ncols(attention_masks) == width as int,
                tensor2_ncols(word_masks) == width as int,
                tensor2_ncols(text_lengths) == 1,
                tensor2_rows(input_ids) == Seq::new(
                    i as nat,
                    |k: int| row_ids(unit_encodings(t, ps[k]), width as int),
                ),
                tensor2_rows(attention_masks) == Seq::new(
                    i as nat,
                    |k: int| row_attention(prompt_total(t, ps[k]), width as int),
                ),
                tensor2_rows(word_masks) == Seq::new(
                    i as nat,
                    |k: int|
                        row_word_mask(
                            unit_encodings(t, ps[k]),
                            ps[k].label_unit_count as int,
                            width as int,
                        ),
                ),
                tensor2_rows(text_lengths) == Seq::new(
                    i as nat,
                    |k: int| seq![ps[k].word_count as i64],
                ),
            decreases n - i,
        {
            let prompt = &input.prompts[i];
            let encs = &encodings[i];
            let total = totals[i];
            let lc = prompt.label_unit_count;
            let ghost ue = unit_encodings(t, ps[i as int]);
            proof {
                lemma_batch_width_ge(t, ps, i as int);
                lemma_sum_lens_nonneg(ue);
            }
            let m = encs.len();
            let mut ids_row: Vec<i64> = Vec::with_capacity(width);
            let mut attn_row: Vec<i64> = Vec::with_capacity(width);
            let mut wm_row: Vec<i64> = Vec::with_capacity(width);
            ids_row.push(START_TOKEN_ID);
            attn_row.push(1);
            wm_row.push(0);
            proof {
                assert(ue.subrange(0, 0) =~= Seq::<Seq<u32>>::empty());
                assert(ids_row@ =~= seq![START_TOKEN_ID] + flat_ids(ue.subrange(0, 0)));
                assert(attn_row@ =~= filled(1, 1 + sum_lens(ue.subrange(0, 0))));
                assert(wm_row@ =~= seq![0i64] + flat_word_mask(ue.subrange(0, 0), lc as int));
            }
            let mut j: usize = 0;
            while j < m
                invariant
                    0 <= j <= m,
                    0 <= i < n,
                    n == ps.len(),
                    t == *tokenizer,
                    *prompt == ps[i as int],
                    lc == ps[i as int].label_unit_count,
                    ue == unit_encodings(t, ps[i as int]),
                    m == ue.len(),
                    encs@.len() == m,
                    forall|l: int| 0 <= l < m ==> (#[trigger] encs@[l])@ == ue[l],
                    ids_row@ == seq![START_TOKEN_ID] + flat_ids(ue.subrange(0, j as int)),
                    attn_row@ == filled(1, 1 + sum_lens(ue.subrange(0, j as int))),
                    wm_row@ == seq![0i64] + flat_word_mask(ue.subrange(0, j as int), lc as int),
                decreases m - j,
            {
                let unit = &encs[j];
                let wi: i64 = if j > lc {
                    (j - lc) as i64
                } else {
                    0
                };
                proof {
                    assert(wi == word_index(j as int, lc as int));
                }
                let ghost mapped = ue[j as int].map_values(|tok: u32| tok as i64);
                let ghost flat_pre = seq![START_TOKEN_ID] + flat_ids(ue.subrange(0, j as int));
                let ghost wm_pre = seq![0i64] + flat_word_mask(ue.subrange(0, j as int), lc as int);
                let ulen = unit.len();
                let mut k: usize = 0;
                proof {
                    assert(ids_row@ =~= flat_pre + mapped.subrange(0, 0));
                    assert(wm_row@ =~= wm_pre + filled(wi, 0));
                }
                while k < ulen
                    invariant
                        0 <= k <= ulen,
                        0 <= j < m,
                        m == ue.len(),
                        unit@ == ue[j as int],
                        ulen == ue[j as int].len(),
                        mapped == ue[j as int].map_values(|tok: u32| tok as i64),
                        flat_pre == seq![START_TOKEN_ID] + flat_ids(ue.subrange(0, j as int)),
                        wm_pre == seq![0i64] + flat_word_mask(ue.subrange(0, j as int), lc as int),
                        ids_row@ == flat_pre + mapped.subrange(0, k as int),
                        attn_row@ == filled(1, 1 + sum_lens(ue.subrange(0, j as int)) + k),
                        wm_row@ == wm_pre + filled(wi, k as int),
                    decreases ulen - k,
                {
                    ids_row.push(unit[k] as i64);
                    attn_row.push(1);
                    wm_row.push(wi);
                    proof {
                        lemma_sum_lens_nonneg(ue.subrange(0, j as int));
                        assert(mapped[k as int] == ue[j as int][k as int] as i64);
                        assert(mapped.subrange(0, k as int).push(mapped[k as int]) =~= mapped
                            .subrange(0, k as int + 1));
                        assert((flat_pre + mapped.subrange(0, k as int)).push(mapped[k as int])
                            =~= flat_pre + mapped.subrange(0, k as int + 1));
                        assert(filled(1, 1 + sum_lens(ue.subrange(0, j as int)) + k).push(1)
                            =~= filled(1, 1 + sum_lens(ue.subrange(0, j as int)) + k + 1));
                        assert((wm_pre + filled(wi, k as int)).push(wi) =~= wm_pre + filled(
                            wi,
                            k as int + 1,
                        ));
                    }
                    k += 1;
                }
                proof {
                    assert(mapped.subrange(0, ulen as int) =~= mapped);
                    assert(ue.subrange(0, j as int + 1) =~= ue.subrange(0, j as int).push(
                        ue[j as int],
                    ));
                    lemma_flat_ids_push(ue.subrange(0, j as int), ue[j as int]);
                    lemma_sum_lens_push(ue.subrange(0, j as int), ue[j as int]);
                    lemma_flat_word_mask_push(ue.subrange(0, j as int), ue[j as int], lc as int);
                    assert(ue.subrange(0, j as int).len() == j as int);
                    assert(ids_row@ =~= seq![START_TOKEN_ID] + flat_ids(
                        ue.subrange(0, j as int + 1),
                    ));
                    assert(wm_row@ =~= seq![0i64] + flat_word_mask(
                        ue.subrange(0, j as int + 1),
                        lc as int,
                    ));
                }
                j += 1;
            }
            proof {
                assert(ue.subrange(0, m as int) =~= ue);
            }
            ids_row.push(END_TOKEN_ID);
            attn_row.push(1);
            wm_row.push(0);
            proof {
                lemma_flat_ids_len(ue);
                lemma_flat_word_mask_len(ue, lc as int);
                assert(filled(0, 0) =~= Seq::<i64>::empty());
                assert(ids_row@ =~= row_ids(ue, ids_row@.len() as int));
                assert(attn_row@ =~= row_attention(total as int, attn_row@.len() as int));
                assert(wm_row@ =~= row_word_mask(ue, lc as int, wm_row@.len() as int));
            }
            while ids_row.len() < width
                invariant
                    t == *tokenizer,
                    ue == unit_encodings(t, ps[i as int]),
                    total as int == 2 + sum_lens(ue),
                    total as int <= width as int,
                    attn_row@.len() == ids_row@.len(),
                    wm_row@.len() == ids_row@.len(),
                    total as int <= ids_row@.len() <= width as int,
                    ids_row@ == row_ids(ue, ids_row@.len() as int),
                    attn_row@ == row_attention(total as int, ids_row@.len() as int),
                    wm_row@ == row_word_mask(ue, lc as int, ids_row@.len() as int),
                decreases width - ids_row.len(),
            {
                let ghost len_pre = ids_row@.len() as int;
                ids_row.push(0);
                attn_row.push(0);
                wm_row.push(0);
                proof {
                    assert(filled(0, len_pre + 1 - 2 - sum_lens(ue)) =~= filled(
                        0,
                        len_pre - 2 - sum_lens(ue),
                    ).push(0));
                    assert(filled(0, len_pre + 1 - total as int) =~= filled(
                        0,
                        len_pre - total as int,
                    ).push(0));
                    assert(ids_row@ =~= row_ids(ue, len_pre + 1));
                    assert(attn_row@ =~= row_attention(total as int, len_pre + 1));
                    assert(wm_row@ =~= row_word_mask(ue, lc as int, len_pre + 1));
                }
            }
            proof {
                assert(ids_row@.len() == width as int);
                assert((i as int + 1) * (width as int) <= n as int * (width as int))
                    by (nonlinear_arith)
                    requires
                        i as int + 1 <= n as int,
                        width as int >= 0,
                ;
                assert(n as int * 2 <= n as int * width as int) by (nonlinear_arith)
                    requires
                        n as int >= 0,
                        width as int >= 2,
                ;
                assert(i as int + 1 <= isize::MAX as int);
            }
            tensor2_push_row(&mut input_ids, &ids_row);
            tensor2_push_row(&mut attention_masks, &attn_row);
            tensor2_push_row(&mut word_masks, &wm_row);
            let mut len_row: Vec<i64> = Vec::with_capacity(1);
            len_row.push(prompt.word_count as i64);
            proof {
                assert(len_row@ =~= seq![ps[i as int].word_count as i64]);
                assert(n as int * 2 <= n as int * width as int) by (nonlinear_arith)
                    requires
                        n as int >= 0,
                        width as int >= 2,
                ;
                assert(i as int + 1 <= isize::MAX as int);
            }
            tensor2_push_row(&mut text_lengths, &len_row);
            proof {
                assert(Seq::new(
                    i as nat + 1,
                    |k: int| row_ids(unit_encodings(t, ps[k]), width as int),
                ) =~= Seq::new(
                    i as nat,
                    |k: int| row_ids(unit_encodings(t, ps[k]), width as int),
                ).push(row_ids(ue, width as int)));
                assert(Seq::new(
                    i as nat + 1,
                    |k: int| row_attention(prompt_total(t, ps[k]), width as int),
                ) =~= Seq::new(
                    i as nat,
                    |k: int| row_attention(prompt_total(t, ps[k]), width as int),
                ).push(row_attention(total as int, width as int)));
                assert(Seq::new(
                    i as nat + 1,
                    |k: int|
                        row_word_mask(
                            unit_encodings(t, ps[k]),
                            ps[k].label_unit_count as int,
                            width as int,
                        ),
                ) =~= Seq::new(
                    i as nat,
                    |k: int|
                        row_word_mask(
                            unit_encodings(t, ps[k]),
                            ps[k].label_unit_count as int,
                            width as int,
                        ),
                ).push(row_word_mask(ue, lc as int, width as int)));
                assert(Seq::new(i as nat + 1, |k: int| seq![ps[k].word_count as i64]) =~= Seq::new(
                    i as nat,
                    |k: int| seq![ps[k].word_count as i64],
                ).push(seq![ps[i as int].word_count as i64]));
            }
            i += 1;
        }
        proof {
            let w = batch_width(t, ps);
            assert forall|k: int| 0 <= k < ps.len() implies prompt_total(t, #[trigger] ps[k])
                <= usize::MAX as int by {
                assert(totals@[k] as int == prompt_total(t, ps[k]));
            }
            assert(tensor2_rows(input_ids) =~= batch_row_ids(t, ps, w));
            assert(tensor2_rows(attention_masks) =~= batch_attention_masks(t, ps, w));
            assert(tensor2_rows(word_masks) =~= batch_word_masks(t, ps, w));
            assert(tensor2_rows(text_lengths) =~= batch_text_lengths(ps));
        }
        Ok(
            EncodedInput {
                texts: input.texts,
                entities: input.entities,
                num_words: input.num_words,
                num_tokens: width,
                input_ids,
                attention_masks,
                word_masks,
                text_lengths,
            },
        )
    }
}

/// Composable stage: assembled prompts to an encoded batch.
pub struct PromptsToEncoded<'a, T> {
    /// The tokenizer the stage encodes with.
    pub tokenizer: &'a T,
}

impl<'a, T> PromptsToEncoded<'a, T> {
    /// Binds the stage to a tokenizer.
    pub fn new(tokenizer: &'a T) -> (r: Self)
        ensures
            r.tokenizer == tokenizer,
    {
        Self { tokenizer }
    }
}

impl<'a, T: Tokenizer> Composable<PromptInput, EncodedInput> for PromptsToEncoded<'a, T> {
    open spec fn post(&self, input: PromptInput, r: Result<EncodedInput, GlinerError>) -> bool {
        encode_post(*self.tokenizer, input, r)
    }

    fn apply(&self, input: PromptInput) -> (r: Result<EncodedInput, GlinerError>) {
        EncodedInput::from(input, self.tokenizer)
    }
}

} // verus!
