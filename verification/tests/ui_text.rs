use trango::playback::{Cue, PlayerState};
use trango::ui_text::{
    apply_batch_progress, apply_batch_result, config_path_label, digit_count, format_clock,
    format_timestamp, open_batch_running, path_label, practice_file_name, practice_words,
    sentence_card_display, sentence_list_current_index, sentence_list_rows, word_timing_rows,
    BatchStatus, WordTiming,
};
use trango::word_analysis::{
    analysis_rows, apply_single_result, open_popup_loading, open_popup_with_result, parts_label,
    AnalysisStatus, WordAnalysis, WordEntry, WordPart,
};

fn cue(index: u32, start_ms: u64, end_ms: u64, text: &str) -> Cue {
    Cue {
        index,
        start_ms,
        end_ms,
        text: text.to_string(),
        translation: None,
    }
}

fn three_cues() -> Vec<Cue> {
    vec![
        cue(1, 0, 1_000, "one"),
        cue(2, 1_000, 2_000, "two"),
        cue(3, 2_000, 3_000, "three"),
    ]
}

#[test]
fn test_digit_count_is_at_least_four_and_grows_for_large_totals() {
    assert_eq!(digit_count(5), 4);
    assert_eq!(digit_count(66), 4);
    assert_eq!(digit_count(12_345), 5);
}

#[test]
fn practice_file_name_pads_to_the_width() {
    assert_eq!(practice_file_name(7, 4), "0007.mp3");
    assert_eq!(practice_file_name(12_345, 4), "12345.mp3");
    assert_eq!(practice_file_name(3, 5), "00003.mp3");
}

#[test]
fn test_path_label_formats_set_and_unset_paths() {
    assert_eq!(path_label(Some("/videos")), "/videos");
    assert_eq!(path_label(None), "");
}

#[test]
fn config_path_label_explains_a_missing_location() {
    assert_eq!(config_path_label(Some("/c/trango/config.toml")), "/c/trango/config.toml");
    assert_eq!(
        config_path_label(None),
        "unavailable (neither XDG_CONFIG_HOME nor HOME is set)"
    );
}

#[test]
fn test_sentence_card_display_with_no_cues_is_placeholder() {
    let state = PlayerState::new();

    let display = sentence_card_display(&state);

    assert_eq!(display.label, "Sentence – / –");
    assert_eq!(display.text, "No sentence loaded.");
    assert!(!display.has_sentence);
    assert_eq!(display.translation_text, "");
}

#[test]
fn test_sentence_card_display_reflects_current_cue() {
    let mut state = PlayerState::new();
    state.set_cues(three_cues());
    state.sync_cue_to_time(1_500);

    let display = sentence_card_display(&state);

    assert_eq!(display.label, "Sentence 2 / 3");
    assert_eq!(display.text, "two");
    assert!(display.has_sentence);
    assert_eq!(display.translation_text, "");
}

#[test]
fn test_sentence_card_display_includes_merged_translation() {
    let mut original = cue(1, 0, 1_000, "Hello");
    original.translation = Some("Hei".to_string());
    let mut state = PlayerState::new();
    state.set_cues(vec![original]);

    let display = sentence_card_display(&state);

    assert_eq!(display.translation_text, "Hei");
}

#[test]
fn test_sentence_list_rows_with_no_cues_is_empty() {
    let state = PlayerState::new();
    assert!(sentence_list_rows(&state).is_empty());
    assert_eq!(sentence_list_current_index(&state), -1);
}

#[test]
fn test_sentence_list_rows_marks_current_cue() {
    let mut state = PlayerState::new();
    state.set_cues(three_cues());
    state.jump_to_cue(1);

    let rows = sentence_list_rows(&state);

    assert_eq!(rows.len(), 3);
    assert_eq!(rows[0].label, "1 · one");
    assert!(!rows[0].is_current);
    assert_eq!(rows[1].label, "2 · two");
    assert!(rows[1].is_current);
    assert_eq!(rows[2].label, "3 · three");
    assert!(!rows[2].is_current);
    assert_eq!(sentence_list_current_index(&state), 1);
}

#[test]
fn test_format_timestamp_formats_minutes_seconds_millis() {
    assert_eq!(format_timestamp(0), "0:00.000");
    assert_eq!(format_timestamp(500), "0:00.500");
    assert_eq!(format_timestamp(59_999), "0:59.999");
    assert_eq!(format_timestamp(60_000), "1:00.000");
    assert_eq!(format_timestamp(83_456), "1:23.456");
    assert_eq!(format_timestamp(600_789), "10:00.789");
}

#[test]
fn format_clock_shows_minutes_and_rolls_over_to_hours() {
    assert_eq!(format_clock(0), "00:00");
    assert_eq!(format_clock(134), "02:14");
    assert_eq!(format_clock(492), "08:12");
    assert_eq!(format_clock(59), "00:59");
    assert_eq!(format_clock(3_661), "1:01:01");
}

#[test]
fn test_word_timing_rows_maps_words_and_formats_timestamps() {
    let words = vec![
        WordTiming {
            word: "hello".to_string(),
            start_ms: 1_000,
            end_ms: 1_500,
        },
        WordTiming {
            word: "world".to_string(),
            start_ms: 1_600,
            end_ms: 2_200,
        },
    ];

    let rows = word_timing_rows(&words);

    assert_eq!(rows.len(), 2);
    assert_eq!(rows[0].word, "hello");
    assert_eq!(rows[0].start_label, "0:01.000");
    assert_eq!(rows[0].end_label, "0:01.500");
    assert_eq!(rows[1].word, "world");
    assert_eq!(rows[1].start_label, "0:01.600");
    assert_eq!(rows[1].end_label, "0:02.200");
}

fn entry(word: &str, translation: &str, pronunciation: &str, parts: Vec<WordPart>) -> WordEntry {
    WordEntry {
        word: word.to_string(),
        translation: translation.to_string(),
        pronunciation: pronunciation.to_string(),
        parts,
    }
}

fn part(word: &str, translation: &str) -> WordPart {
    WordPart {
        word: word.to_string(),
        translation: translation.to_string(),
    }
}

#[test]
fn test_analysis_rows_maps_every_word_in_order() {
    let analysis = WordAnalysis {
        words: vec![
            entry("hola", "hi", "OH-lah", Vec::new()),
            entry("mundo", "world", "MOON-doh", Vec::new()),
        ],
    };

    let rows = analysis_rows(&analysis);

    assert_eq!(rows.len(), 2);
    assert_eq!(rows[0].word, "hola");
    assert_eq!(rows[0].translation, "hi");
    assert_eq!(rows[0].pronunciation, "OH-lah");
    assert_eq!(rows[0].parts_label, "");
    assert_eq!(rows[1].word, "mundo");
}

#[test]
fn test_analysis_rows_formats_parts_label_for_a_prefixed_hebrew_word() {
    let analysis = WordAnalysis {
        words: vec![entry(
            "לסרטים",
            "to the movies",
            "le-sratim",
            vec![part("ל", "to"), part("סרטים", "movies")],
        )],
    };

    let rows = analysis_rows(&analysis);

    assert_eq!(rows[0].word, "לסרטים");
    assert_eq!(rows[0].pronunciation, "le-sratim");
    assert_eq!(rows[0].parts_label, "ל = to · סרטים = movies");
}

#[test]
fn parts_label_of_one_part_has_no_separator() {
    assert_eq!(parts_label(&vec![part("a", "b")]), "a = b");
    assert_eq!(parts_label(&Vec::new()), "");
}

#[test]
fn practice_words_pair_timings_with_translations() {
    let timings = vec![
        WordTiming {
            word: "a".to_string(),
            start_ms: 10,
            end_ms: 20,
        },
        WordTiming {
            word: "b".to_string(),
            start_ms: 30,
            end_ms: 40,
        },
    ];
    let analysis = WordAnalysis {
        words: vec![entry("a", "A", "", Vec::new())],
    };
    let words = practice_words(&timings, &analysis);
    assert_eq!(words.len(), 1);
    assert_eq!(words[0].translation, "A");
    assert_eq!(words[0].start_ms, 10);
    assert_eq!(words[0].end_ms, 20);
}

#[test]
fn batch_panel_runs_then_reports() {
    let mut view = open_batch_running(5);
    assert_eq!(view.status, BatchStatus::Running);
    assert_eq!((view.current, view.total), (0, 5));
    apply_batch_progress(&mut view, 3, 5);
    assert_eq!(view.current, 3);
    apply_batch_result(&mut view, Err("cue 2 failed".to_string()));
    assert_eq!(view.status, BatchStatus::Error);
    assert_eq!(view.error_message, "cue 2 failed");
    assert_eq!(view.current, 3);
    apply_batch_result(&mut view, Ok(()));
    assert_eq!(view.status, BatchStatus::Done);
    assert_eq!(view.error_message, "");
}

#[test]
fn analysis_popup_loads_then_shows_the_result_or_the_error() {
    let mut view = open_popup_loading();
    assert_eq!(view.status, AnalysisStatus::Loading);
    assert!(view.is_open && view.rows.is_empty());
    let analysis = WordAnalysis {
        words: vec![entry("hola", "hi", "OH-lah", Vec::new())],
    };
    apply_single_result(&mut view, &Ok(analysis.clone()));
    assert_eq!(view.status, AnalysisStatus::Done);
    assert_eq!(view.rows.len(), 1);
    assert_eq!(view.rows[0].translation, "hi");

    apply_single_result(&mut view, &Err("model not found".to_string()));
    assert_eq!(view.status, AnalysisStatus::Error);
    assert_eq!(view.error_message, "model not found");
    assert_eq!(view.rows.len(), 1);

    let shown = open_popup_with_result(&analysis);
    assert_eq!(shown.status, AnalysisStatus::Done);
    assert_eq!(shown.rows[0].word, "hola");
}
