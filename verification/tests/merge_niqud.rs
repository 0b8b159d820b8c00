use std::cell::{Cell, RefCell};

use trango::hebrew_word_merge::merge_by_niqud_boundaries;
use trango::niqud::{NiqudClient, NiqudError, NiqudResult, NiqudWord};
use trango::niqud_pronunciation::{apply_niqud_pronunciation, apply_niqud_result, niqud_source_words};
use trango::word_analysis::{WordAnalysis, WordEntry, WordPart};

fn word(word_text: &str, translation: &str, pronunciation: &str) -> WordEntry {
    WordEntry {
        word: word_text.to_string(),
        translation: translation.to_string(),
        pronunciation: pronunciation.to_string(),
        parts: Vec::new(),
    }
}

fn word_with_parts(
    word_text: &str,
    translation: &str,
    pronunciation: &str,
    parts: Vec<WordPart>,
) -> WordEntry {
    WordEntry {
        parts,
        ..word(word_text, translation, pronunciation)
    }
}

fn part(word: &str, translation: &str) -> WordPart {
    WordPart {
        word: word.to_string(),
        translation: translation.to_string(),
    }
}

fn niqud_word(word: &str, pronunciation: &str) -> NiqudWord {
    NiqudWord {
        word: word.to_string(),
        niqud: word.to_string(),
        pronunciation: pronunciation.to_string(),
    }
}

#[test]
fn test_single_entry_match_keeps_its_own_parts_and_overwrites_pronunciation() {
    let ollama_words = vec![word_with_parts(
        "במיטה",
        "in the bed",
        "baMITA",
        vec![part("ב", "in"), part("מיטה", "bed")],
    )];
    let niqud_words = vec![niqud_word("במיטה", "ba-mi-ta")];

    let result = merge_by_niqud_boundaries(ollama_words, &niqud_words);

    assert_eq!(result.len(), 1);
    assert_eq!(result[0].word, "במיטה");
    assert_eq!(result[0].translation, "in the bed");
    assert_eq!(result[0].pronunciation, "ba-mi-ta");
    assert_eq!(result[0].parts, vec![part("ב", "in"), part("מיטה", "bed")]);
}

#[test]
fn test_two_entry_split_merges_into_one_fused_word() {
    let ollama_words = vec![word("ו", "and", "vav"), word("אמר", "said", "amar")];
    let niqud_words = vec![niqud_word("ואמר", "ve-a-mar")];

    let result = merge_by_niqud_boundaries(ollama_words, &niqud_words);

    assert_eq!(result.len(), 1);
    assert_eq!(result[0].word, "ואמר");
    assert_eq!(result[0].translation, "and said");
    assert_eq!(result[0].pronunciation, "ve-a-mar");
    assert_eq!(result[0].parts, vec![part("ו", "and"), part("אמר", "said")]);
}

#[test]
fn test_merge_discards_a_consumed_entrys_own_malformed_parts() {
    let ollama_words = vec![
        word_with_parts("ו", "and", "vav", vec![part("ו", "and")]),
        word("אמר", "said", "amar"),
    ];
    let niqud_words = vec![niqud_word("ואמר", "ve-a-mar")];

    let result = merge_by_niqud_boundaries(ollama_words, &niqud_words);

    assert_eq!(result[0].parts, vec![part("ו", "and"), part("אמר", "said")]);
}

#[test]
fn test_three_entry_stack_merges_double_prefix() {
    let ollama_words = vec![
        word("מ", "from", "me"),
        word("ה", "the", "ha"),
        word("ספרים", "books", "sfarim"),
    ];
    let niqud_words = vec![niqud_word("מהספרים", "me-has-fa-rim")];

    let result = merge_by_niqud_boundaries(ollama_words, &niqud_words);

    assert_eq!(result.len(), 1);
    assert_eq!(result[0].word, "מהספרים");
    assert_eq!(result[0].translation, "from the books");
    assert_eq!(result[0].pronunciation, "me-has-fa-rim");
    assert_eq!(
        result[0].parts,
        vec![part("מ", "from"), part("ה", "the"), part("ספרים", "books")]
    );
}

#[test]
fn test_translation_join_skips_empty_translations() {
    let ollama_words = vec![word("ו", "", "vav"), word("אמר", "said", "amar")];
    let niqud_words = vec![niqud_word("ואמר", "ve-a-mar")];

    let result = merge_by_niqud_boundaries(ollama_words, &niqud_words);

    assert_eq!(result[0].translation, "said");
}

#[test]
fn test_trailing_punctuation_on_niqud_word_does_not_block_a_match() {
    let ollama_words = vec![word("לעצמו", "himself", "atzmo")];
    let niqud_words = vec![niqud_word("לעצמו.", "le-atz-mo")];

    let result = merge_by_niqud_boundaries(ollama_words, &niqud_words);

    assert_eq!(result.len(), 1);
    assert_eq!(result[0].pronunciation, "le-atz-mo");
}

#[test]
fn test_no_match_pushes_entry_through_and_niqud_pointer_waits() {
    let ollama_words = vec![
        word("XXX", "???", "unrelated-pron"),
        word("שכב", "lay", "shkach"),
    ];
    let niqud_words = vec![niqud_word("שכב", "sha-khav")];

    let result = merge_by_niqud_boundaries(ollama_words, &niqud_words);

    assert_eq!(result.len(), 2);
    assert_eq!(result[0].pronunciation, "unrelated-pron");
    assert_eq!(result[1].pronunciation, "sha-khav");
}

#[test]
fn test_dropped_ollama_word_resyncs_via_niqud_lookahead() {
    let ollama_words = vec![word("שכב", "lay", "shkach")];
    let niqud_words = vec![niqud_word("הוא", "hu"), niqud_word("שכב", "sha-khav")];

    let result = merge_by_niqud_boundaries(ollama_words, &niqud_words);

    assert_eq!(result.len(), 1);
    assert_eq!(result[0].pronunciation, "sha-khav");
}

#[test]
fn test_repeated_fused_word_aligns_each_occurrence_by_position() {
    let ollama_words = vec![
        word("בלילה", "at night", "first-ollama"),
        word("בלילה", "at night", "second-ollama"),
    ];
    let niqud_words = vec![
        niqud_word("בלילה", "first-niqud"),
        niqud_word("בלילה", "second-niqud"),
    ];

    let result = merge_by_niqud_boundaries(ollama_words, &niqud_words);

    assert_eq!(result.len(), 2);
    assert_eq!(result[0].pronunciation, "first-niqud");
    assert_eq!(result[1].pronunciation, "second-niqud");
}

#[test]
fn test_niqud_words_exhausted_appends_remaining_ollama_entries_unchanged() {
    let ollama_words = vec![
        word("שכב", "lay", "shkach"),
        word("EXTRA", "extra", "extra-pron"),
    ];
    let niqud_words = vec![niqud_word("שכב", "sha-khav")];

    let result = merge_by_niqud_boundaries(ollama_words, &niqud_words);

    assert_eq!(result.len(), 2);
    assert_eq!(result[0].pronunciation, "sha-khav");
    assert_eq!(result[1].word, "EXTRA");
    assert_eq!(result[1].pronunciation, "extra-pron");
}

#[test]
fn test_ollama_words_exhausted_stops_cleanly() {
    let ollama_words = vec![word("שכב", "lay", "shkach")];
    let niqud_words = vec![
        niqud_word("שכב", "sha-khav"),
        niqud_word("EXTRA", "extra-niqud"),
    ];

    let result = merge_by_niqud_boundaries(ollama_words, &niqud_words);

    assert_eq!(result.len(), 1);
    assert_eq!(result[0].pronunciation, "sha-khav");
}

#[test]
fn merge_with_no_niqud_words_keeps_every_entry() {
    let ollama_words = vec![word("a", "b", "c"), word("d", "e", "f")];
    let result = merge_by_niqud_boundaries(ollama_words.clone(), &[]);
    assert_eq!(result, ollama_words);
}

#[test]
fn merge_never_grows_the_list() {
    let ollama_words = vec![word("ו", "and", "v"), word("אמר", "said", "a"), word("x", "y", "z")];
    let niqud_words = vec![niqud_word("ואמר", "ve-a-mar"), niqud_word("q", "q")];
    let result = merge_by_niqud_boundaries(ollama_words.clone(), &niqud_words);
    assert!(result.len() <= ollama_words.len());
}

/// A client that answers with a fixed outcome and counts its calls.
struct FakeNiqudClient {
    calls: Cell<u32>,
    result: RefCell<Option<Result<NiqudResult, NiqudError>>>,
}

impl FakeNiqudClient {
    fn returning(result: Result<NiqudResult, NiqudError>) -> Self {
        FakeNiqudClient {
            calls: Cell::new(0),
            result: RefCell::new(Some(result)),
        }
    }

    fn call_count(&self) -> u32 {
        self.calls.get()
    }
}

impl NiqudClient for FakeNiqudClient {
    fn transliterate_sentence(&self, _sentence: &str) -> Result<NiqudResult, NiqudError> {
        self.calls.set(self.calls.get() + 1);
        self.result
            .borrow_mut()
            .take()
            .expect("transliterate_sentence called more than once in this test")
    }
}

fn word_analysis(word: &str, pronunciation: &str) -> WordAnalysis {
    WordAnalysis {
        words: vec![WordEntry {
            word: word.to_string(),
            translation: "translated".to_string(),
            pronunciation: pronunciation.to_string(),
            parts: Vec::new(),
        }],
    }
}

#[test]
fn test_non_hebrew_sentence_never_calls_the_niqud_client() {
    let client = FakeNiqudClient::returning(Ok(NiqudResult { words: vec![] }));
    let analysis = word_analysis("hola", "OH-lah");

    let result = apply_niqud_pronunciation(&client, "hola", analysis.clone());

    assert_eq!(result, analysis);
    assert_eq!(client.call_count(), 0);
}

#[test]
fn test_hebrew_sentence_with_matching_word_count_replaces_pronunciation() {
    let client = FakeNiqudClient::returning(Ok(NiqudResult {
        words: vec![NiqudWord {
            word: "שכב".to_string(),
            niqud: "שָׁכַב".to_string(),
            pronunciation: "sha-khav".to_string(),
        }],
    }));
    let analysis = word_analysis("שכב", "shkach");

    let result = apply_niqud_pronunciation(&client, "שכב", analysis);

    assert_eq!(result.words[0].pronunciation, "sha-khav");
    assert_eq!(result.words[0].translation, "translated");
    assert_eq!(client.call_count(), 1);
}

#[test]
fn test_real_sentence_with_two_split_prefixes_merges_to_five_correct_entries() {
    let client = FakeNiqudClient::returning(Ok(NiqudResult {
        words: vec![
            niqud_word("הוא", "hu"),
            niqud_word("שכב", "sha-khav"),
            niqud_word("במיטה", "ba-mi-ta"),
            niqud_word("ואמר", "ve-a-mar"),
            niqud_word("לעצמו", "le-atz-mo"),
        ],
    }));
    let analysis = WordAnalysis {
        words: vec![
            word("הוא", "he", "hu"),
            word("שכב", "lay", "shakhav"),
            word_with_parts(
                "במיטה",
                "in the bed",
                "baMITA",
                vec![part("ב", "in"), part("מיטה", "bed")],
            ),
            word("ו", "and", "vav"),
            word("אמר", "said", "amar"),
            word("ל", "to", "lamed"),
            word("עצמו", "himself", "atzmo"),
        ],
    };

    let result = apply_niqud_pronunciation(&client, "הוא שכב במיטה ואמר לעצמו", analysis);

    assert_eq!(result.words.len(), 5);
    assert_eq!(result.words[0].word, "הוא");
    assert_eq!(result.words[0].pronunciation, "hu");
    assert_eq!(result.words[1].word, "שכב");
    assert_eq!(result.words[1].pronunciation, "sha-khav");
    assert_eq!(result.words[2].word, "במיטה");
    assert_eq!(result.words[2].pronunciation, "ba-mi-ta");
    assert_eq!(result.words[2].parts.len(), 2);
    assert_eq!(result.words[3].word, "ואמר");
    assert_eq!(result.words[3].translation, "and said");
    assert_eq!(result.words[3].pronunciation, "ve-a-mar");
    assert_eq!(result.words[3].parts.len(), 2);
    assert_eq!(result.words[4].word, "לעצמו");
    assert_eq!(result.words[4].translation, "to himself");
    assert_eq!(result.words[4].pronunciation, "le-atz-mo");
    assert_eq!(result.words[4].parts.len(), 2);
}

#[test]
fn test_mismatched_word_count_keeps_ollamas_pronunciation() {
    let client = FakeNiqudClient::returning(Ok(NiqudResult {
        words: vec![
            NiqudWord {
                word: "ו".to_string(),
                niqud: "וְ".to_string(),
                pronunciation: "ve".to_string(),
            },
            NiqudWord {
                word: "אמר".to_string(),
                niqud: "אָמַר".to_string(),
                pronunciation: "a-mar".to_string(),
            },
        ],
    }));
    let analysis = word_analysis("ואמר", "u-amar");

    let result = apply_niqud_pronunciation(&client, "ואמר", analysis);

    assert_eq!(result.words[0].pronunciation, "u-amar");
}

#[test]
fn test_niqud_client_error_keeps_ollamas_pronunciation() {
    let client = FakeNiqudClient::returning(Err(NiqudError::ModelLoadFailed(
        "niqud model not configured".to_string(),
    )));
    let analysis = word_analysis("שכב", "shkach");

    let result = apply_niqud_pronunciation(&client, "שכב", analysis);

    assert_eq!(result.words[0].pronunciation, "shkach");
}

#[test]
fn apply_niqud_result_error_keeps_analysis() {
    let analysis = word_analysis("שכב", "shkach");
    let result = apply_niqud_result(
        analysis.clone(),
        Err(NiqudError::InferenceFailed("boom".to_string())),
    );
    assert_eq!(result, analysis);
}

#[test]
fn niqud_source_words_lists_each_word_in_order() {
    let result = NiqudResult {
        words: vec![niqud_word("הוא", "hu"), niqud_word("שכב", "sha-khav")],
    };
    assert_eq!(
        niqud_source_words(&result),
        vec!["הוא".to_string(), "שכב".to_string()]
    );
}
