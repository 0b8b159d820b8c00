use trango::decode::{decode_predictions, TokenPrediction};
use trango::dylib::{best_onnxruntime_dylib, less_version, version_key};
use trango::hebrew::niqud_to_pronunciation;
use trango::niqud::{
    cli_output_result, model_not_configured, niqud_result_from_diacritized, NiqudError,
    NiqudResult, NiqudWord, PhonikudCliClient,
};
use trango::tokenizer::{tokenize, Token, Vocab};
use trango::tool_run::ToolRun;

/// Reads a niqud CLI's `{"words": [{"word", "niqud"}]}` output into its
/// `(word, niqud)` pairs, or the parser's message.
fn parse_pairs(raw: &str) -> Result<Vec<(String, String)>, String> {
    let value: serde_json::Value = serde_json::from_str(raw).map_err(|e| e.to_string())?;
    let words = value
        .get("words")
        .and_then(|w| w.as_array())
        .ok_or_else(|| "missing field `words`".to_string())?;
    words
        .iter()
        .map(|w| {
            let word = w.get("word").and_then(|x| x.as_str());
            let niqud = w.get("niqud").and_then(|x| x.as_str());
            match (word, niqud) {
                (Some(a), Some(b)) => Ok((a.to_string(), b.to_string())),
                _ => Err("missing field".to_string()),
            }
        })
        .collect()
}

fn parse_cli_output(raw: &str) -> Result<NiqudResult, NiqudError> {
    cli_output_result(parse_pairs(raw))
}

#[test]
fn test_parse_cli_output_derives_pronunciation_from_niqud() {
    let raw = r#"{"words":[{"word":"שכב","niqud":"שָׁכַב"}]}"#;

    let result = parse_cli_output(raw).unwrap();

    assert_eq!(
        result,
        NiqudResult {
            words: vec![NiqudWord {
                word: "שכב".to_string(),
                niqud: "שָׁכַב".to_string(),
                pronunciation: "sha-khav".to_string(),
            }]
        }
    );
}

#[test]
fn test_parse_cli_output_handles_multiple_words_in_order() {
    let raw = r#"{"words":[{"word":"שלום","niqud":"שָׁלוֹם"},{"word":"עולם","niqud":"עוֹלָם"}]}"#;

    let result = parse_cli_output(raw).unwrap();

    assert_eq!(result.words.len(), 2);
    assert_eq!(result.words[0].pronunciation, "sha-lom");
}

#[test]
fn test_parse_cli_output_rejects_invalid_json() {
    let result = parse_cli_output("not json at all");
    assert!(matches!(result, Err(NiqudError::InvalidResponse(_))));
}

#[test]
fn invalid_response_message_names_the_cli_output() {
    let e = cli_output_result(Err("expected value".to_string())).unwrap_err();
    assert_eq!(e.message(), "failed to parse niqud CLI output: expected value");
}

#[test]
fn diacritized_sentence_pairs_words_by_position() {
    let result = niqud_result_from_diacritized("הוא שכב", "הוּא  שָׁכַב");
    assert_eq!(result.words.len(), 2);
    assert_eq!(result.words[0].word, "הוא");
    assert_eq!(result.words[1].niqud, "שָׁכַב");
    assert_eq!(result.words[1].pronunciation, "sha-khav");
    let short = niqud_result_from_diacritized("a b c", "x");
    assert_eq!(short.words.len(), 1);
}

#[test]
fn model_not_configured_is_a_model_load_error() {
    let Err(NiqudError::ModelLoadFailed(message)) = Err::<(), _>(model_not_configured()) else {
        panic!("expected ModelLoadFailed");
    };
    assert!(message.contains("not configured"));
    assert_eq!(
        model_not_configured().message(),
        "failed to load niqud model: niqud model not configured"
    );
}

// ---- the CLI client ----

#[test]
fn cli_client_explains_a_missing_binary() {
    let client = PhonikudCliClient {
        binary_path: "/x/no-such-niqud-cli".to_string(),
    };
    let Err(NiqudError::ProcessFailed(message)) = client.run_outcome(ToolRun::NotFound, Ok(vec![]))
    else {
        panic!("expected ProcessFailed");
    };
    assert!(message.contains("niqud CLI not found"), "{message}");
    assert!(message.contains("/x/no-such-niqud-cli"), "{message}");
}

#[test]
fn cli_client_reports_stderr_when_the_process_fails() {
    let client = PhonikudCliClient::default();
    assert_eq!(client.binary_path, "trango-niqud-cli");
    let r = client.run_outcome(
        ToolRun::Exited {
            success: false,
            status: "exit status: 3".to_string(),
            stderr: "loading\nmodel file missing\n".to_string(),
        },
        Ok(vec![]),
    );
    assert_eq!(
        r,
        Err(NiqudError::ProcessFailed(
            "niqud CLI exited with exit status: 3: model file missing".to_string()
        ))
    );
}

#[test]
fn cli_client_parses_the_output_of_a_successful_run() {
    let client = PhonikudCliClient::default();
    let ok = ToolRun::Exited {
        success: true,
        status: "exit status: 0".to_string(),
        stderr: String::new(),
    };
    let r = client.run_outcome(ok.clone(), parse_pairs(r#"{"words":[{"word":"שכב","niqud":"שָׁכַב"}]}"#));
    assert_eq!(r.unwrap().words[0].pronunciation, "sha-khav");
    let r = client.run_outcome(ok, parse_pairs("{{"));
    assert!(matches!(r, Err(NiqudError::InvalidResponse(_))));
}

// ---- tokenizer ----

const VOCAB_JSON: &str = r#"{"version":"1.0","model":{"type":"WordLevel","vocab":{"[UNK]":0,"[CLS]":1,"[SEP]":2,"[PAD]":3,"א":200,"ב":210,"כ":220,"ש":234}}}"#;

fn fixture_vocab() -> Vocab {
    Vocab::from_tokenizer_json(VOCAB_JSON).expect("vocab should load")
}

#[test]
fn test_tokenize_shakhav_matches_the_real_tokenizers_ids() {
    let vocab = fixture_vocab();
    let tokens = tokenize(&vocab, "שכב");
    let ids: Vec<u32> = tokens.iter().map(|t| t.id).collect();
    assert_eq!(ids, vec![1, 234, 220, 210, 2]);
}

#[test]
fn test_tokenize_tracks_source_char_index_and_special_tokens() {
    let vocab = fixture_vocab();
    let tokens = tokenize(&vocab, "אב");
    assert_eq!(tokens[0].char_index, None);
    assert_eq!(tokens[1].char_index, Some(0));
    assert_eq!(tokens[2].char_index, Some(1));
    assert_eq!(tokens[3].char_index, None);
}

#[test]
fn test_tokenize_unknown_character_falls_back_to_unk() {
    let vocab = fixture_vocab();
    let tokens = tokenize(&vocab, "x");
    assert_eq!(tokens[1].id, 0);
}

#[test]
fn tokenize_looks_up_the_nfkc_lower_case_form() {
    let vocab = Vocab::from_tokenizer_json(
        r#"{"model":{"vocab":{"[UNK]":0,"[CLS]":1,"[SEP]":2,"a":40,"fi":41}}}"#,
    )
    .unwrap();
    // Full-width "Ａ" normalizes to "A", then lower-cases to "a".
    let tokens = tokenize(&vocab, "\u{FF21}A");
    assert_eq!(tokens[1].id, 40);
    assert_eq!(tokens[2].id, 40);
    // The "ﬁ" ligature normalizes to two characters, which no single-character
    // entry can match.
    let tokens = tokenize(&vocab, "\u{FB01}");
    assert_eq!(tokens[1].id, 0);
}

#[test]
fn tokenizer_json_without_a_vocab_or_invalid_is_a_load_error() {
    let e = Vocab::from_tokenizer_json(r#"{"model":{}}"#).err().unwrap();
    assert_eq!(
        e,
        NiqudError::ModelLoadFailed("tokenizer.json is missing a model.vocab object".to_string())
    );
    let e = Vocab::from_tokenizer_json("nope").err().unwrap();
    let NiqudError::ModelLoadFailed(m) = e else {
        panic!("expected ModelLoadFailed");
    };
    assert!(m.starts_with("invalid tokenizer.json: "), "{m}");
}

#[test]
fn tokenizer_vocab_must_be_an_object_under_model() {
    for json in [r#"{"model":{"vocab":5}}"#, r#"{"vocab":{"a":1}}"#, r#"[1,2]"#] {
        assert_eq!(
            Vocab::from_tokenizer_json(json).err(),
            Some(NiqudError::ModelLoadFailed(
                "tokenizer.json is missing a model.vocab object".to_string()
            ))
        );
    }
}

#[test]
fn tokenizer_vocab_skips_entries_without_an_unsigned_id() {
    let vocab = Vocab::from_tokenizer_json(
        r#"{"model":{"vocab":{"[UNK]":0,"a":-4,"b":2.5,"c":"7","d":9}}}"#,
    )
    .unwrap();
    let tokens = tokenize(&vocab, "abcd");
    let ids: Vec<u32> = tokens.iter().map(|t| t.id).collect();
    assert_eq!(ids, vec![1, 0, 0, 0, 9, 2]);
}

// ---- decoding ----

fn prediction(nikud_class: usize, shin_class: usize) -> TokenPrediction {
    TokenPrediction {
        nikud_class,
        shin_class,
        stress: false,
        vocal_shva: false,
        prefix: false,
    }
}

#[test]
fn decode_shakhav_from_its_predicted_classes() {
    let vocab = fixture_vocab();
    let tokens = tokenize(&vocab, "שכב");
    // [CLS], shin with qamats (class 11) and shin dot, kaf with patah
    // (class 10), bet with nothing, [SEP].
    let predictions = vec![
        prediction(0, 0),
        prediction(11, 0),
        prediction(10, 0),
        prediction(0, 0),
        prediction(0, 0),
    ];

    let result = decode_predictions("שכב", &tokens, &predictions);

    assert_eq!(result, "\u{05E9}\u{05C1}\u{05B8}\u{05DB}\u{05B7}\u{05D1}");
    assert_eq!(niqud_to_pronunciation(&result), "sha-khav");
}

#[test]
fn decode_passes_other_characters_through_and_marks_prefixes() {
    let tokens = vec![
        Token { id: 1, char_index: None },
        Token { id: 210, char_index: Some(0) },
        Token { id: 0, char_index: Some(1) },
        Token { id: 2, char_index: None },
    ];
    let mut bet = prediction(0, 0);
    bet.prefix = true;
    let predictions = vec![prediction(0, 0), bet, prediction(5, 0), prediction(0, 0)];
    assert_eq!(decode_predictions("ב!", &tokens, &predictions), "ב|!");
}

// ---- runtime library lookup ----

fn names(items: &[&str]) -> Vec<String> {
    items.iter().map(|s| s.to_string()).collect()
}

#[test]
fn library_lookup_prefers_unversioned_symlink_name() {
    let found = names(&["libonnxruntime.so.1.23", "libonnxruntime.so"]);
    assert_eq!(best_onnxruntime_dylib(&found), Some(1));
}

#[test]
fn library_lookup_picks_the_highest_versioned_name_numerically() {
    let found = names(&[
        "libonnxruntime.so.1.9",
        "libonnxruntime.so.1.20",
        "libonnxruntime.so.1.23",
    ]);
    assert_eq!(best_onnxruntime_dylib(&found), Some(2));
    let found = names(&["libonnxruntime.so.1.20", "libonnxruntime.so.1.9"]);
    assert_eq!(best_onnxruntime_dylib(&found), Some(0));
}

#[test]
fn library_lookup_returns_none_when_nothing_matches() {
    assert_eq!(best_onnxruntime_dylib(&names(&["libsomethingelse.so.1"])), None);
    assert_eq!(best_onnxruntime_dylib(&Vec::new()), None);
}

#[test]
fn version_keys_compare_numerically() {
    assert_eq!(version_key("libonnxruntime.so.1.20"), vec![1, 20]);
    assert!(less_version(&[1, 9], &[1, 20]));
    assert!(!less_version(&[1, 20], &[1, 9]));
    assert!(less_version(&[1], &[1, 0]));
}

#[test]
fn decoding_only_adds_marks_that_stripping_removes() {
    let vocab = fixture_vocab();
    let text = "שכב, אב!";
    let tokens = tokenize(&vocab, text);
    let predictions: Vec<TokenPrediction> = (0..tokens.len())
        .map(|k| TokenPrediction {
            nikud_class: (k * 7) % 29,
            shin_class: k % 2,
            stress: k % 3 == 0,
            vocal_shva: k % 4 == 1,
            prefix: k % 5 == 2,
        })
        .collect();
    let decoded = decode_predictions(text, &tokens, &predictions);
    assert_ne!(decoded, text);
    assert_eq!(trango::hebrew::strip_niqud(&decoded), text);
}
