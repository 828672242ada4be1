use gline_rs::model::input::encoded::{EncodedInput, PromptsToEncoded};
use gline_rs::model::input::prompt::{AssembledPrompt, PromptInput};
use gline_rs::model::GLiNER;
use gline_rs::text::tokenizer::{FailingTokenizer, Tokenizer, VocabTokenizer};
use gline_rs::util::compose::{apply_chain, Composable, PassThrough};
use gline_rs::util::result::GlinerError;

fn add(t: &mut VocabTokenizer, word: &str, ids: &[u32]) {
    t.add(word.to_string(), ids.to_vec());
}

fn prompt(units: &[&str], label_unit_count: usize, word_count: usize) -> AssembledPrompt {
    AssembledPrompt {
        units: units.iter().map(|u| u.to_string()).collect(),
        label_unit_count,
        word_count,
    }
}

fn input(prompts: Vec<AssembledPrompt>, texts: &[&str], entities: &[&str]) -> PromptInput {
    let num_words = prompts.iter().map(|p| p.word_count).sum();
    PromptInput {
        prompts,
        texts: texts.iter().map(|t| t.to_string()).collect(),
        entities: entities.iter().map(|e| e.to_string()).collect(),
        num_words,
    }
}

fn hello_vocab() -> VocabTokenizer {
    let mut t = VocabTokenizer::new();
    add(&mut t, "<<ENT>>", &[128002]);
    add(&mut t, "<<SEP>>", &[128003]);
    add(&mut t, "Person", &[6406]);
    add(&mut t, "hello", &[7, 8]);
    add(&mut t, "world", &[9]);
    t
}

fn hello_input() -> PromptInput {
    input(
        vec![prompt(&["<<ENT>>", "Person", "<<SEP>>", "hello", "world"], 2, 2)],
        &["hello world"],
        &["Person"],
    )
}

#[test]
fn multi_subword_word_mask() {
    // "hello" splits into two sub-word tokens: both carry word index 1.
    let tokenizer = hello_vocab();
    let encoded = EncodedInput::from(hello_input(), &tokenizer).unwrap();
    assert_eq!(encoded.num_tokens, 8);
    assert_eq!(
        encoded.input_ids.data.row(0).to_vec(),
        vec![1, 128002, 6406, 128003, 7, 8, 9, 2]
    );
    assert_eq!(encoded.attention_masks.data.row(0).to_vec(), vec![1, 1, 1, 1, 1, 1, 1, 1]);
    assert_eq!(encoded.word_masks.data.row(0).to_vec(), vec![0, 0, 0, 0, 1, 1, 2, 0]);
    assert_eq!(encoded.text_lengths.data.row(0).to_vec(), vec![2]);
}

#[test]
fn zero_labels_still_separated() {
    // With no entity labels the unit sequence still opens with the
    // separator, and the first real word still gets index 1.
    let tokenizer = hello_vocab();
    let prepared = input(
        vec![prompt(&["<<SEP>>", "world"], 0, 1)],
        &["world"],
        &[],
    );
    let encoded = EncodedInput::from(prepared, &tokenizer).unwrap();
    assert_eq!(encoded.input_ids.data.row(0).to_vec(), vec![1, 128003, 9, 2]);
    assert_eq!(encoded.word_masks.data.row(0).to_vec(), vec![0, 0, 1, 0]);
    assert_eq!(encoded.text_lengths.data.row(0).to_vec(), vec![1]);
}

#[test]
fn encoding_is_deterministic() {
    // Same batch, same tokenizer, twice: bit-identical tensors.
    let tokenizer = hello_vocab();
    let first = EncodedInput::from(hello_input(), &tokenizer).unwrap();
    let second = EncodedInput::from(hello_input(), &tokenizer).unwrap();
    assert_eq!(first.num_tokens, second.num_tokens);
    assert_eq!(first.input_ids.data, second.input_ids.data);
    assert_eq!(first.attention_masks.data, second.attention_masks.data);
    assert_eq!(first.word_masks.data, second.word_masks.data);
    assert_eq!(first.text_lengths.data, second.text_lengths.data);
}

#[test]
fn empty_batch_is_degenerate() {
    let tokenizer = hello_vocab();
    let encoded = EncodedInput::from(input(vec![], &[], &[]), &tokenizer).unwrap();
    assert_eq!(encoded.num_tokens, 0);
    assert_eq!(encoded.input_ids.data.nrows(), 0);
    assert_eq!(encoded.attention_masks.data.nrows(), 0);
    assert_eq!(encoded.word_masks.data.nrows(), 0);
    assert_eq!(encoded.text_lengths.data.shape(), &[0, 1]);
}

#[test]
fn failing_tokenizer_fails_whole_batch() {
    // A tokenizer that fails for any input fails the whole encode call.
    let tokenizer = FailingTokenizer::new();
    let result = EncodedInput::from(hello_input(), &tokenizer);
    assert!(result.is_err());
    assert_eq!(result.err().unwrap(), GlinerError::Tokenization);
}

#[test]
fn vocab_tokenizer_lookup() {
    let tokenizer = hello_vocab();
    assert_eq!(tokenizer.encode(&"hello".to_string()).unwrap(), vec![7, 8]);
    // a word outside the vocabulary is unencodable
    assert_eq!(
        tokenizer.encode(&"unknown".to_string()).err().unwrap(),
        GlinerError::Tokenization
    );
    // an entry listing no ids is unencodable too
    let mut empty_entry = VocabTokenizer::new();
    add(&mut empty_entry, "void", &[]);
    assert_eq!(
        empty_entry.encode(&"void".to_string()).err().unwrap(),
        GlinerError::Tokenization
    );
}

#[test]
fn chain_matches_direct_encoding() {
    let tokenizer = hello_vocab();
    let stage = PromptsToEncoded::new(&tokenizer);
    let chained = apply_chain(&stage, &PassThrough {}, hello_input()).unwrap();
    let direct = EncodedInput::from(hello_input(), &tokenizer).unwrap();
    assert_eq!(chained.input_ids.data, direct.input_ids.data);
    assert_eq!(chained.word_masks.data, direct.word_masks.data);
}

#[test]
fn gliner_facade_runs_all_stages() {
    // The facade produces what running the stages by hand produces.
    let tokenizer = hello_vocab();
    let gliner = GLiNER {
        pre_processor: PromptsToEncoded::new(&tokenizer),
        model: PassThrough {},
        post_processor: PassThrough {},
    };
    let through_facade: EncodedInput = gliner.inference(hello_input()).unwrap();
    let by_hand = {
        let encoded = gliner.pre_processor.apply(hello_input()).unwrap();
        let inferred = gliner.model.apply(encoded).unwrap();
        gliner.post_processor.apply(inferred).unwrap()
    };
    assert_eq!(through_facade.num_tokens, by_hand.num_tokens);
    assert_eq!(through_facade.input_ids.data, by_hand.input_ids.data);
    assert_eq!(through_facade.attention_masks.data, by_hand.attention_masks.data);
    assert_eq!(through_facade.word_masks.data, by_hand.word_masks.data);
    assert_eq!(through_facade.text_lengths.data, by_hand.text_lengths.data);
}

#[test]
fn gliner_facade_short_circuits() {
    // The first failure aborts the pipeline and comes back unchanged.
    let tokenizer = FailingTokenizer::new();
    let gliner = GLiNER {
        pre_processor: PromptsToEncoded::new(&tokenizer),
        model: PassThrough {},
        post_processor: PassThrough {},
    };
    let result: Result<EncodedInput, GlinerError> = gliner.inference(hello_input());
    assert_eq!(result.err().unwrap(), GlinerError::Tokenization);
}
