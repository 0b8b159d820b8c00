use trango::config::TrangoConfig;
use trango::model_picker::{FolderEntry, ModelFileEntry};
use trango::open_media_dialog::{self, MediaFileEntry, MediaKind};
use trango::panel_events::{
    confirm_media, confirm_model, confirm_ollama_model, media_row_event, panel_content_ready,
    picker_row_event, subtitles_dialog_event, with_media_folder, with_niqud_model,
    with_ollama_model, with_target_language, with_whisper_model, word_analysis_request,
    word_timing_request, RowOutcome, SubtitlesAction, SubtitlesDialogState, SubtitlesEvent,
};
use trango::panel_events::popup_cache_hit;
use trango::playback::{Cue, PlayerState};
use trango::word_analysis::{WordAnalysis, WordEntry};

fn model_entries() -> Vec<FolderEntry> {
    vec![
        FolderEntry::Up("/models".to_string()),
        FolderEntry::Folder {
            path: "/models/whisper/large".to_string(),
            name: "large".to_string(),
        },
        FolderEntry::Model(ModelFileEntry {
            path: "/models/whisper/ggml-base.en.bin".to_string(),
            name: "ggml-base.en (English)".to_string(),
        }),
    ]
}

fn cue(index: u32, text: &str) -> Cue {
    Cue {
        index,
        start_ms: 1000 * index as u64,
        end_ms: 1000 * index as u64 + 900,
        text: text.to_string(),
        translation: None,
    }
}

fn state_with_cues(n: u32) -> PlayerState {
    let mut state = PlayerState::new();
    state.set_cues((1..=n).map(|i| cue(i, "שלום")).collect());
    state
}

#[test]
fn model_row_click_navigates_or_selects() {
    let entries = model_entries();
    assert_eq!(
        picker_row_event(&entries, 0),
        RowOutcome::Navigate("/models".to_string())
    );
    assert_eq!(
        picker_row_event(&entries, 1),
        RowOutcome::Navigate("/models/whisper/large".to_string())
    );
    assert_eq!(picker_row_event(&entries, 2), RowOutcome::Select(2));
    assert_eq!(picker_row_event(&entries, 7), RowOutcome::Select(7));
    assert_eq!(picker_row_event(&entries, -1), RowOutcome::Select(-1));
}

#[test]
fn media_row_click_navigates_or_selects() {
    let entries = vec![
        open_media_dialog::FolderEntry::Up("/videos".to_string()),
        open_media_dialog::FolderEntry::File(MediaFileEntry {
            path: "/videos/a/movie.mp4".to_string(),
            name: "movie.mp4".to_string(),
            size_label: "2 MB".to_string(),
        }),
    ];
    assert_eq!(
        media_row_event(&entries, 0),
        RowOutcome::Navigate("/videos".to_string())
    );
    assert_eq!(media_row_event(&entries, 1), RowOutcome::Select(1));
    assert_eq!(confirm_media(&entries, 1), Some("/videos/a/movie.mp4".to_string()));
    assert_eq!(confirm_media(&entries, 0), None);
    assert_eq!(confirm_media(&entries, -1), None);
}

#[test]
fn confirming_a_model_gives_its_path_and_folder() {
    let entries = model_entries();
    assert_eq!(
        confirm_model(&entries, 2),
        Some((
            "/models/whisper/ggml-base.en.bin".to_string(),
            Some("/models/whisper".to_string())
        ))
    );
    assert_eq!(confirm_model(&entries, 1), None);
    assert_eq!(confirm_model(&entries, 3), None);
    assert_eq!(confirm_model(&entries, -1), None);
}

#[test]
fn confirmed_choices_are_remembered_in_the_config() {
    let config = with_whisper_model(
        TrangoConfig::default(),
        "/m/ggml-base.bin".to_string(),
        Some("/m".to_string()),
    );
    assert_eq!(config.whisper_model_path, Some("/m/ggml-base.bin".to_string()));
    assert_eq!(config.whisper_model_folder, Some("/m".to_string()));
    let config = with_niqud_model(config, "/n/dicta.onnx".to_string());
    assert_eq!(config.niqud_model_path, Some("/n/dicta.onnx".to_string()));
    let config = with_ollama_model(config, "llama3".to_string());
    assert_eq!(config.ollama_model, Some("llama3".to_string()));
    let config = with_target_language(config, "Finnish".to_string());
    assert_eq!(config.ollama_target_language, Some("Finnish".to_string()));
    assert_eq!(config.whisper_model_path, Some("/m/ggml-base.bin".to_string()));
    let models = vec!["llama3".to_string(), "qwen2".to_string()];
    assert_eq!(confirm_ollama_model(&models, 1), Some("qwen2".to_string()));
    assert_eq!(confirm_ollama_model(&models, 2), None);
}

#[test]
fn opening_media_remembers_its_folder_by_kind() {
    let config = with_media_folder(TrangoConfig::default(), MediaKind::Video, "/v/film.mp4");
    assert_eq!(config.video_folder, Some("/v".to_string()));
    assert_eq!(config.audio_recording_folder, None);
    let config = with_media_folder(config, MediaKind::Audio, "/rec/take.wav");
    assert_eq!(config.audio_recording_folder, Some("/rec".to_string()));
    assert_eq!(config.video_folder, Some("/v".to_string()));
    let unchanged = with_media_folder(TrangoConfig::default(), MediaKind::Video, "film.mp4");
    assert_eq!(unchanged, TrangoConfig::default());
}

#[test]
fn word_analysis_request_checks_in_order() {
    let state = state_with_cues(3);
    assert_eq!(
        word_analysis_request(None, None, true, &state),
        Err("Select an Ollama model first.".to_string())
    );
    assert_eq!(
        word_analysis_request(Some("llama3"), None, true, &state),
        Err("Link a subtitle first.".to_string())
    );
    assert_eq!(
        word_analysis_request(Some("llama3"), Some("a.srt"), false, &state),
        Err("No sentence is currently in focus.".to_string())
    );
    assert_eq!(word_analysis_request(Some("llama3"), Some("a.srt"), true, &state), Ok(0));
    let empty = PlayerState::new();
    assert_eq!(
        word_analysis_request(Some("llama3"), Some("a.srt"), true, &empty),
        Err("No sentence is currently in focus.".to_string())
    );
}

#[test]
fn word_timing_request_checks_in_order() {
    let mut state = state_with_cues(3);
    state.jump_to_cue(2);
    assert_eq!(
        word_timing_request(None, Some("a.mp4"), true, &state),
        Err("Select a whisper model first.".to_string())
    );
    assert_eq!(
        word_timing_request(Some("m.bin"), None, true, &state),
        Err("Open a video or audio file first.".to_string())
    );
    assert_eq!(word_timing_request(Some("m.bin"), Some("a.mp4"), true, &state), Ok(2));
    assert_eq!(
        word_timing_request(Some("m.bin"), Some("a.mp4"), panel_content_ready(true, false), &state),
        Err("No sentence is currently in focus.".to_string())
    );
    assert!(panel_content_ready(false, false));
    assert!(panel_content_ready(true, true));
}

fn opened(media: &str, subtitle: Option<&str>) -> SubtitlesDialogState {
    let (state, action) = subtitles_dialog_event(
        SubtitlesDialogState::new(),
        SubtitlesEvent::MediaOpened {
            media: media.to_string(),
            subtitle: subtitle.map(|s| s.to_string()),
        },
    );
    assert_eq!(action, None);
    state
}

#[test]
fn subtitles_dialog_needs_open_media() {
    let state = SubtitlesDialogState::new();
    let (state, action) = subtitles_dialog_event(
        state,
        SubtitlesEvent::OpenRequested { matching: Some("/v/a.srt".to_string()) },
    );
    assert_eq!(action, None);
    let (state, action) = subtitles_dialog_event(state, SubtitlesEvent::GenerateRequested);
    assert_eq!(action, None);
    let (_, action) = subtitles_dialog_event(state, SubtitlesEvent::LinkTranslationRequested);
    assert_eq!(action, None);
}

#[test]
fn subtitles_dialog_shows_loaded_or_matching_original() {
    let state = opened("/v/a.mp4", None);
    let (state, action) = subtitles_dialog_event(
        state,
        SubtitlesEvent::OpenRequested { matching: Some("/v/a.srt".to_string()) },
    );
    assert_eq!(
        action,
        Some(SubtitlesAction::OpenDialog {
            original: Some("/v/a.srt".to_string()),
            translation: None
        })
    );
    assert_eq!(state.subtitle_path, None);
    let state = opened("/v/a.mp4", Some("/v/loaded.srt"));
    let (_, action) = subtitles_dialog_event(
        state,
        SubtitlesEvent::OpenRequested { matching: Some("/v/a.srt".to_string()) },
    );
    assert_eq!(
        action,
        Some(SubtitlesAction::OpenDialog {
            original: Some("/v/loaded.srt".to_string()),
            translation: None
        })
    );
}

#[test]
fn generation_needs_a_model_then_loads_and_reloads() {
    let state = opened("/v/a.mp4", None);
    let (state, action) = subtitles_dialog_event(state, SubtitlesEvent::GenerateRequested);
    assert_eq!(
        action,
        Some(SubtitlesAction::ShowGenerationError(
            "Select a whisper model first.".to_string()
        ))
    );
    let (state, _) = subtitles_dialog_event(
        state,
        SubtitlesEvent::WhisperModelChosen("/m/base.bin".to_string()),
    );
    let (state, action) = subtitles_dialog_event(state, SubtitlesEvent::GenerateRequested);
    assert_eq!(
        action,
        Some(SubtitlesAction::StartGeneration {
            media: "/v/a.mp4".to_string(),
            model: "/m/base.bin".to_string()
        })
    );
    let (state, action) =
        subtitles_dialog_event(state, SubtitlesEvent::Generated("/v/a.srt".to_string()));
    assert_eq!(action, Some(SubtitlesAction::LoadSubtitles("/v/a.srt".to_string())));
    let (failed, action) = subtitles_dialog_event(
        state.clone(),
        SubtitlesEvent::SubtitlesLoaded {
            original: "/v/a.srt".to_string(),
            translation: None,
            ok: false,
        },
    );
    assert_eq!(action, None);
    assert_eq!(failed, state);
    let (state, action) = subtitles_dialog_event(
        state,
        SubtitlesEvent::SubtitlesLoaded {
            original: "/v/a.srt".to_string(),
            translation: None,
            ok: true,
        },
    );
    assert_eq!(action, Some(SubtitlesAction::ReloadMedia("/v/a.mp4".to_string())));
    assert_eq!(state.subtitle_path, Some("/v/a.srt".to_string()));
}

#[test]
fn translation_links_only_onto_a_loaded_original() {
    let state = opened("/v/a.mp4", None);
    let (state, action) = subtitles_dialog_event(state, SubtitlesEvent::LinkTranslationRequested);
    assert_eq!(
        action,
        Some(SubtitlesAction::ListTranslationFolder("/v".to_string()))
    );
    let files = vec!["/v/a.en.srt".to_string(), "/v/a.fi.srt".to_string()];
    let (state, action) =
        subtitles_dialog_event(state, SubtitlesEvent::TranslationFilesListed(files.clone()));
    assert_eq!(action, Some(SubtitlesAction::OpenTranslationPicker));
    assert_eq!(state.translation_entries, files);
    assert_eq!(state.translation_selected, -1);
    let (state, action) = subtitles_dialog_event(state, SubtitlesEvent::ConfirmTranslation);
    assert_eq!(action, None);
    let (state, action) = subtitles_dialog_event(state, SubtitlesEvent::TranslationRowSelected(1));
    assert_eq!(action, Some(SubtitlesAction::MarkTranslationSelected(1)));
    let (_, action) = subtitles_dialog_event(state.clone(), SubtitlesEvent::ConfirmTranslation);
    assert_eq!(action, Some(SubtitlesAction::CloseTranslationPicker));

    let (state, _) = subtitles_dialog_event(
        state,
        SubtitlesEvent::SubtitlesLoaded {
            original: "/v/a.srt".to_string(),
            translation: None,
            ok: true,
        },
    );
    let (state, action) = subtitles_dialog_event(state, SubtitlesEvent::ConfirmTranslation);
    assert_eq!(
        action,
        Some(SubtitlesAction::LinkTranslation {
            original: "/v/a.srt".to_string(),
            translation: "/v/a.fi.srt".to_string()
        })
    );
    let (state, action) = subtitles_dialog_event(
        state,
        SubtitlesEvent::SubtitlesLoaded {
            original: "/v/a.srt".to_string(),
            translation: Some("/v/a.fi.srt".to_string()),
            ok: true,
        },
    );
    assert_eq!(
        action,
        Some(SubtitlesAction::MarkTranslationLinked("/v/a.fi.srt".to_string()))
    );
    assert_eq!(state.translation_path, Some("/v/a.fi.srt".to_string()));
    assert_eq!(state.subtitle_path, Some("/v/a.srt".to_string()));
    let (state, _) = subtitles_dialog_event(
        state,
        SubtitlesEvent::MediaOpened { media: "/v/b.mp4".to_string(), subtitle: None },
    );
    assert_eq!(state.translation_path, None);
    assert_eq!(state.subtitle_path, None);
}

#[test]
fn linking_a_translation_needs_a_media_folder() {
    let state = opened("/", None);
    let (_, action) = subtitles_dialog_event(state, SubtitlesEvent::LinkTranslationRequested);
    assert_eq!(action, None);
}

#[test]
fn popup_uses_only_a_cached_analysis_with_words() {
    let blank = WordAnalysis { words: Vec::new() };
    assert_eq!(popup_cache_hit(Some(&blank)), None);
    assert_eq!(popup_cache_hit(None), None);
    let full = WordAnalysis {
        words: vec![WordEntry {
            word: "שלום".to_string(),
            translation: "hello".to_string(),
            pronunciation: "sha-lom".to_string(),
            parts: Vec::new(),
        }],
    };
    assert_eq!(popup_cache_hit(Some(&full)), Some(&full));
}
