use gline_rs::model::input::encoded::EncodedInput;
use gline_rs::model::input::prompt::{AssembledPrompt, PromptInput};
use gline_rs::text::tokenizer::VocabTokenizer;

fn add(t: &mut VocabTokenizer, word: &str, ids: &[u32]) {
    t.add(word.to_string(), ids.to_vec());
}

fn prompt(units: &[&str], label_unit_count: usize, word_count: usize) -> AssembledPrompt {
    AssembledPrompt {
        units: units.iter().map(|u| u.to_string()).collect(),
        label_unit_count,
        word_count,
    }
}

fn input(prompts: Vec<AssembledPrompt>, texts: &[&str], entities: &[&str]) -> PromptInput {
    let num_words = prompts.iter().map(|p| p.word_count).sum();
    PromptInput {
        prompts,
        texts: texts.iter().map(|t| t.to_string()).collect(),
        entities: entities.iter().map(|e| e.to_string()).collect(),
        num_words,
    }
}

const ENT_ID: i64 = 128002;
const SEP_ID: i64 = 128003;

/// The vocabulary for the "Short text" / "gloubiboulga" batch: each word
/// one sub-word id, except "gloubiboulga" which splits into four.
fn vocab_short_text() -> VocabTokenizer {
    let mut t = VocabTokenizer::new();
    add(&mut t, "<<ENT>>", &[128002]);
    add(&mut t, "<<SEP>>", &[128003]);
    add(&mut t, "Person", &[6406]);
    add(&mut t, "Place", &[6811]);
    add(&mut t, "Short", &[9384]);
    add(&mut t, "text", &[2788]);
    add(&mut t, "This", &[713]);
    add(&mut t, "is", &[269]);
    add(&mut t, "a", &[266]);
    add(&mut t, "longer", &[3479]);
    add(&mut t, "one", &[372]);
    add(&mut t, ",", &[2156]);
    add(&mut t, "to", &[264]);
    add(&mut t, "test", &[1296]);
    add(&mut t, "padding", &[33563]);
    add(&mut t, "and", &[463]);
    add(&mut t, "gloubiboulga", &[3757, 13728, 37718, 2307]);
    add(&mut t, ".", &[479]);
    t
}

#[test]
fn test() {
    let tokenizer = vocab_short_text();
    let prompts = vec![
        prompt(
            &["<<ENT>>", "Person", "<<ENT>>", "Place", "<<SEP>>", "Short", "text"],
            4,
            2,
        ),
        prompt(
            &[
                "<<ENT>>",
                "Person",
                "<<ENT>>",
                "Place",
                "<<SEP>>",
                "This",
                "is",
                "a",
                "longer",
                "one",
                ",",
                "to",
                "test",
                "padding",
                "and",
                "gloubiboulga",
                ".",
            ],
            4,
            12,
        ),
    ];
    let prepared = input(
        prompts,
        &["Short text", "This is a longer one, to test padding and gloubiboulga."],
        &["Person", "Place"],
    );
    let encoded = EncodedInput::from(prepared, &tokenizer).unwrap();
    // Assertions on input ids
    assert_eq!(encoded.num_tokens, 22);
    let ids1 = encoded.input_ids.data.row(0);
    let ids2 = encoded.input_ids.data.row(1);
    assert_eq!(ids1.len(), encoded.num_tokens);
    assert_eq!(ids2.len(), encoded.num_tokens);
    assert_eq!(ids1.iter().filter(|id| **id == 0).count(), 13);
    assert_eq!(ids1.iter().filter(|id| **id == ENT_ID).count(), 2);
    assert_eq!(ids1.iter().filter(|id| **id == SEP_ID).count(), 1);
    assert_eq!(ids2.iter().filter(|id| **id == 0).count(), 0);
    assert_eq!(ids2.iter().filter(|id| **id == ENT_ID).count(), 2);
    assert_eq!(ids2.iter().filter(|id| **id == SEP_ID).count(), 1);
    // Assertions on attention mask
    let attn1 = encoded.attention_masks.data.row(0);
    let attn2 = encoded.attention_masks.data.row(1);
    assert_eq!(attn1.iter().filter(|id| **id == 1).count(), 9);
    assert_eq!(attn2.iter().filter(|id| **id == 1).count(), 22);
}

/// The vocabulary for the "James Bond" / "Aston Martin" batch.
fn vocab_james_bond() -> VocabTokenizer {
    let mut t = VocabTokenizer::new();
    add(&mut t, "<<ENT>>", &[128002]);
    add(&mut t, "<<SEP>>", &[128003]);
    add(&mut t, "movie", &[1421]);
    add(&mut t, "character", &[1470]);
    add(&mut t, "vehicle", &[1508]);
    add(&mut t, "My", &[573]);
    add(&mut t, "name", &[601]);
    add(&mut t, "is", &[269]);
    add(&mut t, "James", &[1749]);
    add(&mut t, "Bond", &[8728]);
    add(&mut t, "I", &[273]);
    add(&mut t, "like", &[334]);
    add(&mut t, "to", &[264]);
    add(&mut t, "drive", &[1168]);
    add(&mut t, "my", &[312]);
    add(&mut t, "Aston", &[20844]);
    add(&mut t, "Martin", &[2963]);
    t
}

#[test]
fn test2() {
    let tokenizer = vocab_james_bond();
    let prompts = vec![
        prompt(
            &[
                "<<ENT>>",
                "movie",
                "character",
                "<<ENT>>",
                "vehicle",
                "<<SEP>>",
                "My",
                "name",
                "is",
                "James",
                "Bond",
            ],
            5,
            5,
        ),
        prompt(
            &[
                "<<ENT>>",
                "movie",
                "character",
                "<<ENT>>",
                "vehicle",
                "<<SEP>>",
                "I",
                "like",
                "to",
                "drive",
                "my",
                "Aston",
                "Martin",
            ],
            5,
            7,
        ),
    ];
    let prepared = input(
        prompts,
        &["My name is James Bond", "I like to drive my Aston Martin"],
        &["movie character", "vehicle"],
    );
    let encoded = EncodedInput::from(prepared, &tokenizer).unwrap();
    // Assertions on first sequence
    let ids1 = encoded.input_ids.data.row(0);
    let attn1 = encoded.attention_masks.data.row(0);
    let word1 = encoded.word_masks.data.row(0);
    let len1 = encoded.text_lengths.data.row(0);
    assert_eq!(
        ids1.to_vec(),
        vec![1, 128002, 1421, 1470, 128002, 1508, 128003, 573, 601, 269, 1749, 8728, 2, 0, 0]
    );
    assert_eq!(attn1.to_vec(), vec![1, 1, 1, 1, 1, 1, 1, 1, 1, 1, 1, 1, 1, 0, 0]);
    assert_eq!(word1.to_vec(), vec![0, 0, 0, 0, 0, 0, 0, 1, 2, 3, 4, 5, 0, 0, 0]);
    assert_eq!(len1.to_vec(), vec![5]);
    // Assertions on second sequence
    let ids2 = encoded.input_ids.data.row(1);
    let attn2 = encoded.attention_masks.data.row(1);
    let word2 = encoded.word_masks.data.row(1);
    let len2 = encoded.text_lengths.data.row(1);
    assert_eq!(
        ids2.to_vec(),
        vec![1, 128002, 1421, 1470, 128002, 1508, 128003, 273, 334, 264, 1168, 312, 20844, 2963, 2]
    );
    assert_eq!(attn2.to_vec(), vec![1, 1, 1, 1, 1, 1, 1, 1, 1, 1, 1, 1, 1, 1, 1]);
    assert_eq!(word2.to_vec(), vec![0, 0, 0, 0, 0, 0, 0, 1, 2, 3, 4, 5, 6, 7, 0]);
    assert_eq!(len2.to_vec(), vec![7]);
}

#[test]
fn test_multiword_entity_label() {
    let mut tokenizer = VocabTokenizer::new();
    add(&mut tokenizer, "<<ENT>>", &[128002]);
    add(&mut tokenizer, "<<SEP>>", &[128003]);
    add(&mut tokenizer, "multi", &[4471]);
    add(&mut tokenizer, "label", &[18609]);
    add(&mut tokenizer, "this", &[713]);
    add(&mut tokenizer, "is", &[269]);
    add(&mut tokenizer, "a", &[266]);
    add(&mut tokenizer, "test", &[1296]);
    let prompts = vec![
        prompt(
            &["<<ENT>>", "multi", "label", "<<SEP>>", "this", "is", "a", "test"],
            3,
            4,
        ),
    ];
    let prepared = input(prompts, &["this is a test"], &["multi label"]);
    let encoded = EncodedInput::from(prepared, &tokenizer).unwrap();
    // Assertions
    let ids = encoded.input_ids.data.row(0);
    assert_eq!(ids.len(), 10);
    let word_masks = encoded.word_masks.data.row(0);
    assert_eq!(word_masks.to_vec(), vec![0, 0, 0, 0, 0, 1, 2, 3, 4, 0]);
}
