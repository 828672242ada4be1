//! Proved properties of the encoder's row models.
//!
//! Each public proof function here states one guarantee of the encoded
//! batch, over the same row models that `encode_post` pins the tensors
//! to: row widths, attention accounting, word-mask coverage, text-length
//! pass-through, and determinism.

use vstd::prelude::*;
use crate::text::tokenizer::Tokenizer;
use crate::model::input::prompt::{AssembledPrompt, PromptInput};
use crate::model::input::encoded::{
    filled, sum_lens, word_index, flat_word_mask, row_ids, row_attention, row_word_mask,
    prompt_total, batch_width, batch_row_ids, batch_attention_masks, batch_word_masks,
    batch_text_lengths, encode_post, EncodedInput, lemma_sum_lens_nonneg, lemma_flat_ids_len,
    lemma_flat_word_mask_len, lemma_batch_width_ge,
};
use crate::model::tensor::tensor2_rows;

verus! {

/// How many cells of `s` hold the value `v`.
pub open spec fn count_val(s: Seq<i64>, v: i64) -> int
    decreases s.len(),
{
    if s.len() == 0 {
        0
    } else {
        count_val(s.drop_last(), v) + if s.last() == v {
            1int
        } else {
            0int
        }
    }
}

/// The largest cell value of `s`, `0` for an empty sequence.
pub open spec fn seq_max(s: Seq<i64>) -> i64
    decreases s.len(),
{
    if s.len() == 0 {
        0
    } else if s.last() > seq_max(s.drop_last()) {
        s.last()
    } else {
        seq_max(s.drop_last())
    }
}

proof fn lemma_count_concat(a: Seq<i64>, b: Seq<i64>, v: i64)
    ensures
        count_val(a + b, v) == count_val(a, v) + count_val(b, v),
    decreases b.len(),
{
    if b.len() == 0 {
        assert(a + b =~= a);
    } else {
        assert((a + b).drop_last() =~= a + b.drop_last());
        assert((a + b).last() == b.last());
        lemma_count_concat(a, b.drop_last(), v);
    }
}

proof fn lemma_count_filled(u: i64, n: int, v: i64)
    requires
        n >= 0,
    ensures
        count_val(filled(u, n), v) == if u == v {
            n
        } else {
            0
        },
    decreases n,
{
    if n == 0 {
        assert(filled(u, 0) =~= Seq::<i64>::empty());
    } else {
        assert(filled(u, n).drop_last() =~= filled(u, n - 1));
        assert(filled(u, n).last() == u);
        lemma_count_filled(u, n - 1, v);
    }
}

proof fn lemma_seq_max_le(s: Seq<i64>, b: i64)
    requires
        b >= 0,
        forall|c: int| 0 <= c < s.len() ==> s[c] <= b,
    ensures
        seq_max(s) <= b,
    decreases s.len(),
{
    if s.len() > 0 {
        lemma_seq_max_le(s.drop_last(), b);
    }
}

proof fn lemma_seq_max_ge(s: Seq<i64>, c: int)
    requires
        0 <= c < s.len(),
    ensures
        seq_max(s) >= s[c],
    decreases s.len(),
{
    if c < s.len() - 1 {
        lemma_seq_max_ge(s.drop_last(), c);
    }
}

proof fn lemma_seq_max_nonneg(s: Seq<i64>)
    ensures
        seq_max(s) >= 0,
    decreases s.len(),
{
    if s.len() > 0 {
        lemma_seq_max_nonneg(s.drop_last());
    }
}

/// Every word-mask cell of a prompt is the word index of one of its units.
proof fn lemma_fwm_cells(encs: Seq<Seq<u32>>, lc: int)
    ensures
        forall|c: int|
            0 <= c < flat_word_mask(encs, lc).len() ==> exists|pos: int|
                0 <= pos < encs.len() && #[trigger] flat_word_mask(encs, lc)[c] == word_index(
                    pos,
                    lc,
                ),
    decreases encs.len(),
{
    if encs.len() > 0 {
        lemma_fwm_cells(encs.drop_last(), lc);
        let pre = flat_word_mask(encs.drop_last(), lc);
        let wi = word_index(encs.len() - 1, lc);
        assert forall|c: int| 0 <= c < flat_word_mask(encs, lc).len() implies exists|pos: int|
            0 <= pos < encs.len() && #[trigger] flat_word_mask(encs, lc)[c] == word_index(
                pos,
                lc,
            ) by {
            if c < pre.len() {
                assert(flat_word_mask(encs, lc)[c] == pre[c]);
                let pos = choose|pos: int|
                    0 <= pos < encs.drop_last().len() && #[trigger] pre[c] == word_index(pos, lc);
                assert(flat_word_mask(encs, lc)[c] == word_index(pos, lc));
            } else {
                assert(flat_word_mask(encs, lc)[c] == wi);
                assert(flat_word_mask(encs, lc)[c] == word_index(encs.len() - 1, lc));
            }
        }
    }
}

/// A unit with at least one sub-word token puts its word index in the mask.
proof fn lemma_fwm_contains(encs: Seq<Seq<u32>>, lc: int, pos: int)
    requires
        0 <= pos < encs.len(),
        encs[pos].len() > 0,
    ensures
        flat_word_mask(encs, lc).contains(word_index(pos, lc)),
    decreases encs.len(),
{
    let pre = flat_word_mask(encs.drop_last(), lc);
    if pos == encs.len() - 1 {
        lemma_flat_word_mask_len(encs.drop_last(), lc);
        lemma_sum_lens_nonneg(encs.drop_last());
        assert(flat_word_mask(encs, lc)[pre.len() as int] == word_index(pos, lc));
    } else {
        lemma_fwm_contains(encs.drop_last(), lc, pos);
        let c = choose|c: int| 0 <= c < pre.len() && pre[c] == word_index(pos, lc);
        assert(flat_word_mask(encs, lc)[c] == word_index(pos, lc));
    }
}

/// Width consistency: at any width wide enough for the prompt, each of the
/// three mask rows has exactly `width` cells.
pub proof fn lemma_width_consistency(encs: Seq<Seq<u32>>, label_count: int, width: int)
    requires
        2 + sum_lens(encs) <= width,
    ensures
        row_ids(encs, width).len() == width,
        row_attention(2 + sum_lens(encs), width).len() == width,
        row_word_mask(encs, label_count, width).len() == width,
{
    lemma_sum_lens_nonneg(encs);
    lemma_flat_ids_len(encs);
    lemma_flat_word_mask_len(encs, label_count);
}

/// Width consistency over a batch: every row of every tensor of the batch
/// has the batch width (`1` for the text lengths), which is the maximum
/// row length over the batch.
pub proof fn lemma_batch_width_consistency<T: Tokenizer>(t: T, ps: Seq<AssembledPrompt>, i: int)
    requires
        0 <= i < ps.len(),
    ensures
        batch_row_ids(t, ps, batch_width(t, ps))[i].len() == batch_width(t, ps),
        batch_attention_masks(t, ps, batch_width(t, ps))[i].len() == batch_width(t, ps),
        batch_word_masks(t, ps, batch_width(t, ps))[i].len() == batch_width(t, ps),
        batch_text_lengths(ps)[i].len() == 1,
{
    lemma_batch_width_ge(t, ps, i);
    lemma_width_consistency(
        unit_encodings_of(t, ps, i),
        ps[i].label_unit_count as int,
        batch_width(t, ps),
    );
}

/// The unit encodings of prompt `i` of the batch.
pub open spec fn unit_encodings_of<T: Tokenizer>(
    t: T,
    ps: Seq<AssembledPrompt>,
    i: int,
) -> Seq<Seq<u32>> {
    crate::model::input::encoded::unit_encodings(t, ps[i])
}

/// Attention accounting: in each row, exactly `2 + total subword count`
/// cells hold `1`, and the rest hold `0`.
pub proof fn lemma_attention_accounting(total: int, width: int)
    requires
        0 <= total <= width,
    ensures
        count_val(row_attention(total, width), 1) == total,
        count_val(row_attention(total, width), 0) == width - total,
{
    lemma_count_concat(filled(1, total), filled(0, width - total), 1);
    lemma_count_concat(filled(1, total), filled(0, width - total), 0);
    lemma_count_filled(1, total, 1);
    lemma_count_filled(1, total, 0);
    lemma_count_filled(0, width - total, 1);
    lemma_count_filled(0, width - total, 0);
}

/// Attention accounting over a batch: row `i` of the attention mask holds
/// exactly `prompt_total` ones, the rest zeros.
pub proof fn lemma_batch_attention_accounting<T: Tokenizer>(t: T, ps: Seq<AssembledPrompt>, i: int)
    requires
        0 <= i < ps.len(),
    ensures
        count_val(batch_attention_masks(t, ps, batch_width(t, ps))[i], 1) == prompt_total(
            t,
            ps[i],
        ),
        count_val(batch_attention_masks(t, ps, batch_width(t, ps))[i], 0) == batch_width(t, ps)
            - prompt_total(t, ps[i]),
{
    lemma_batch_width_ge(t, ps, i);
    lemma_sum_lens_nonneg(unit_encodings_of(t, ps, i));
    lemma_attention_accounting(prompt_total(t, ps[i]), batch_width(t, ps));
}

/// Word-mask coverage: the largest word-mask value of a row is the
/// prompt's word count; every word index from 1 to `word_count` appears in
/// the row; and every nonzero cell is one of these indices, so label,
/// separator, marker and padding cells all hold `0`.
pub proof fn lemma_word_mask_coverage(
    encs: Seq<Seq<u32>>,
    label_count: int,
    word_count: int,
    width: int,
)
    requires
        label_count >= 0,
        word_count >= 0,
        word_count <= i64::MAX as int,
        encs.len() == label_count + 1 + word_count,
        2 + sum_lens(encs) <= width,
        forall|j: int| label_count < j < encs.len() ==> (#[trigger] encs[j]).len() > 0,
    ensures
        seq_max(row_word_mask(encs, label_count, width)) == word_count as i64,
        forall|k: int|
            1 <= k <= word_count ==> #[trigger] row_word_mask(encs, label_count, width).contains(
                k as i64,
            ),
        forall|c: int|
            0 <= c < row_word_mask(encs, label_count, width).len() && row_word_mask(
                encs,
                label_count,
                width,
            )[c] != 0 ==> 1 <= row_word_mask(encs, label_count, width)[c] <= word_count as i64,
{
    let row = row_word_mask(encs, label_count, width);
    let fwm = flat_word_mask(encs, label_count);
    lemma_sum_lens_nonneg(encs);
    lemma_flat_word_mask_len(encs, label_count);
    lemma_fwm_cells(encs, label_count);

    // every nonzero cell is a word index between 1 and word_count
    assert forall|c: int| 0 <= c < row.len() && row[c] != 0 implies 1 <= row[c] <= word_count
        as i64 by {
        assert(c != 0);
        assert(row[c] == (fwm + seq![0i64] + filled(0, width - 2 - sum_lens(encs)))[c - 1]);
        if c - 1 < fwm.len() {
            assert(row[c] == fwm[c - 1]);
            let pos = choose|pos: int|
                0 <= pos < encs.len() && #[trigger] fwm[c - 1] == word_index(pos, label_count);
            assert(row[c] == word_index(pos, label_count));
            if pos > label_count {
                assert(1 <= pos - label_count <= word_count);
                assert(word_index(pos, label_count) == pos - label_count);
            }
        } else {
            assert(row[c] == 0);
        }
    }

    // every word index from 1 to word_count appears
    assert forall|k: int| 1 <= k <= word_count implies #[trigger] row.contains(k as i64) by {
        let pos = label_count + k;
        assert(encs[pos].len() > 0);
        lemma_fwm_contains(encs, label_count, pos);
        assert(word_index(pos, label_count) == k as i64);
        let c = choose|c: int| 0 <= c < fwm.len() && fwm[c] == k as i64;
        assert(row[c + 1] == fwm[c]);
        assert(row.contains(k as i64));
    }

    // the maximum is exactly word_count
    lemma_seq_max_le(row, word_count as i64);
    lemma_seq_max_nonneg(row);
    if word_count > 0 {
        let wk = word_count as i64;
        assert(row.contains(wk));
        let c = choose|c: int| 0 <= c < row.len() && row[c] == wk;
        lemma_seq_max_ge(row, c);
    }
}

/// Text-length pass-through: row `i` of the text lengths holds exactly the
/// word count of prompt `i`.
pub proof fn lemma_text_length_passthrough(input: PromptInput, i: int)
    requires
        input.wf(),
        0 <= i < input.prompts@.len(),
    ensures
        batch_text_lengths(input.prompts@)[i] == seq![input.prompts@[i].word_count as i64],
        batch_text_lengths(input.prompts@)[i][0] as int == input.prompts@[i].word_count as int,
{
}

/// The row guarantees applied to an encoded batch itself: for any result
/// the encoder vouches for and any prompt of the batch whose real-word
/// units are nonempty words, row `i` of each tensor has the batch width
/// (`1` for text lengths), its attention row holds exactly
/// `2 + total subword count` ones and zeros elsewhere, its largest
/// word-mask value is the prompt's word count, and its text-length cell
/// is that word count.
pub proof fn lemma_encoded_batch_rows<T: Tokenizer>(
    t: T,
    input: PromptInput,
    enc: EncodedInput,
    i: int,
)
    requires
        encode_post(t, input, Ok(enc)),
        input.wf(),
        0 <= i < input.prompts@.len(),
        forall|j: int|
            input.prompts@[i].label_unit_count < j < input.prompts@[i].units@.len() ==> (
            #[trigger] input.prompts@[i].units@[j])@.len() > 0,
    ensures
        tensor2_rows(enc.input_ids)[i].len() == enc.num_tokens,
        tensor2_rows(enc.attention_masks)[i].len() == enc.num_tokens,
        tensor2_rows(enc.word_masks)[i].len() == enc.num_tokens,
        tensor2_rows(enc.text_lengths)[i].len() == 1,
        count_val(tensor2_rows(enc.attention_masks)[i], 1) == prompt_total(t, input.prompts@[i]),
        count_val(tensor2_rows(enc.attention_masks)[i], 0) == enc.num_tokens - prompt_total(
            t,
            input.prompts@[i],
        ),
        seq_max(tensor2_rows(enc.word_masks)[i]) == input.prompts@[i].word_count as i64,
        tensor2_rows(enc.text_lengths)[i] == seq![input.prompts@[i].word_count as i64],
{
    let ps = input.prompts@;
    let p = ps[i];
    let encs = unit_encodings_of(t, ps, i);
    lemma_batch_width_consistency(t, ps, i);
    lemma_batch_attention_accounting(t, ps, i);
    lemma_batch_width_ge(t, ps, i);
    lemma_sum_lens_nonneg(encs);
    assert forall|j: int| p.label_unit_count < j < encs.len() implies (#[trigger] encs[j]).len()
        > 0 by {
        assert(t.spec_encode(p.units@[j]@) is Some);
        t.spec_encode_nonempty(p.units@[j]@);
    }
    lemma_word_mask_coverage(
        encs,
        p.label_unit_count as int,
        p.word_count as int,
        batch_width(t, ps),
    );
    lemma_text_length_passthrough(input, i);
}

/// Determinism: the encoder's contract pins every tensor cell as a
/// function of the batch and the tokenizer alone, so two successful
/// encodings of the same batch with the same tokenizer agree on every
/// observable of the result.
pub proof fn lemma_encode_deterministic<T: Tokenizer>(
    t: T,
    input: PromptInput,
    r1: EncodedInput,
    r2: EncodedInput,
)
    requires
        encode_post(t, input, Ok(r1)),
        encode_post(t, input, Ok(r2)),
    ensures
        r1.num_tokens == r2.num_tokens,
        tensor2_rows(r1.input_ids) == tensor2_rows(r2.input_ids),
        tensor2_rows(r1.attention_masks) == tensor2_rows(r2.attention_masks),
        tensor2_rows(r1.word_masks) == tensor2_rows(r2.word_masks),
        tensor2_rows(r1.text_lengths) == tensor2_rows(r2.text_lengths),
        r1.texts == r2.texts,
        r1.entities == r2.entities,
        r1.num_words == r2.num_words,
{
}

} // verus!
