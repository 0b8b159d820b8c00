use trango::listing::DirItem;
use trango::model_picker;
use trango::ollama_model_picker::{
    apply_models_result, model_rows, open_dialog_loading, selected_index_of,
};
use trango::open_media_dialog::{
    self, first_file_index, format_file_size, list_folder_entries, matching_subtitle_path,
    subtitle_candidate_path, FolderEntry, MediaFileEntry, MediaKind,
};
use trango::open_subtitles_dialog::{file_name, list_srt_files, picker_rows};
use trango::open_video_dialog;
use trango::vad_model_picker;

fn file(path: &str, size: Option<u64>) -> DirItem {
    DirItem {
        path: path.to_string(),
        is_dir: false,
        is_file: true,
        size,
    }
}

fn dir(path: &str) -> DirItem {
    DirItem {
        path: path.to_string(),
        is_dir: true,
        is_file: false,
        size: None,
    }
}

fn strings(items: &[&str]) -> Vec<String> {
    items.iter().map(|s| s.to_string()).collect()
}

// ---- Open dialog ----

fn expect_file(entry: &FolderEntry) -> &MediaFileEntry {
    match entry {
        FolderEntry::File(f) => f,
        other => panic!("expected a file entry, got {other:?}"),
    }
}

#[test]
fn open_media_dialog_test_format_file_size() {
    assert_eq!(format_file_size(512), "512 B");
    assert_eq!(format_file_size(2_048), "2 KB");
    assert_eq!(format_file_size(356_515_840), "340 MB");
    assert_eq!(format_file_size(2_254_857_830), "2.1 GB");
}

#[test]
fn open_video_dialog_test_format_file_size() {
    assert_eq!(open_video_dialog::format_file_size(512), "512 B");
    assert_eq!(open_video_dialog::format_file_size(2_048), "2 KB");
    assert_eq!(open_video_dialog::format_file_size(356_515_840), "340 MB");
    assert_eq!(open_video_dialog::format_file_size(2_254_857_830), "2.1 GB");
}

#[test]
fn format_file_size_agrees_with_float_formatting_at_edges() {
    for bytes in [
        0u64,
        1,
        1023,
        1024,
        1536,
        2560,
        3584,
        1_048_575,
        1_048_576,
        1_572_864,
        1_073_741_823,
        1_073_741_824,
        1_181_116_006,
        1_234_567_890_123,
        u64::MAX,
    ] {
        let b = bytes as f64;
        let expected = if b >= 1024.0 * 1024.0 * 1024.0 {
            format!("{:.1} GB", b / (1024.0 * 1024.0 * 1024.0))
        } else if b >= 1024.0 * 1024.0 {
            format!("{:.0} MB", b / (1024.0 * 1024.0))
        } else if b >= 1024.0 {
            format!("{:.0} KB", b / 1024.0)
        } else {
            format!("{bytes} B")
        };
        assert_eq!(format_file_size(bytes), expected, "bytes = {bytes}");
    }
}

#[test]
fn open_media_dialog_test_matching_subtitle_path_finds_real_sample_srt() {
    let folder = vec![
        file("/media/sample/sample.mp4", Some(10)),
        file("/media/sample/sample.srt", Some(1)),
        file("/media/sample/sample.fi.srt", Some(1)),
    ];
    assert_eq!(
        matching_subtitle_path("/media/sample/sample.mp4", Some(folder)),
        Some("/media/sample/sample.srt".to_string())
    );
}

#[test]
fn open_media_dialog_test_matching_subtitle_path_no_match_returns_none() {
    let folder = vec![
        file("/media/sample/sample.mp4", Some(10)),
        file("/media/sample/sample.srt", Some(1)),
    ];
    assert_eq!(
        matching_subtitle_path("/media/sample/does_not_exist.mp4", Some(folder)),
        None
    );
    assert_eq!(matching_subtitle_path("/media/sample/sample.mp4", None), None);
}

#[test]
fn open_video_dialog_test_matching_subtitle_path_finds_real_sample_srt() {
    let folder = vec![
        file("/media/sample/sample.mp4", Some(10)),
        file("/media/sample/sample.srt", Some(1)),
    ];
    assert_eq!(
        open_video_dialog::matching_subtitle_path("/media/sample/sample.mp4", Some(folder)),
        Some("/media/sample/sample.srt".to_string())
    );
}

#[test]
fn open_video_dialog_test_matching_subtitle_path_no_match_returns_none() {
    let folder = vec![file("/media/sample/sample.mp4", Some(10))];
    assert_eq!(
        open_video_dialog::matching_subtitle_path(
            "/media/sample/does_not_exist.mp4",
            Some(folder)
        ),
        None
    );
}

#[test]
fn matching_subtitle_ignores_a_folder_of_that_name() {
    let folder = vec![dir("/m/a.srt"), file("/m/a.mp4", None)];
    assert_eq!(matching_subtitle_path("/m/a.mp4", Some(folder)), None);
}

#[test]
fn subtitle_candidate_replaces_the_extension() {
    assert_eq!(
        subtitle_candidate_path("/videos/der_anruf.mp4"),
        Some("/videos/der_anruf.srt".to_string())
    );
    assert_eq!(
        subtitle_candidate_path("/videos/noext"),
        Some("/videos/noext.srt".to_string())
    );
}

#[test]
fn test_first_file_index() {
    let entries = vec![
        FolderEntry::Up("/videos".to_string()),
        FolderEntry::Folder {
            path: "/videos/clips".to_string(),
            name: "clips".to_string(),
        },
        FolderEntry::File(MediaFileEntry {
            path: "/videos/a.mp4".to_string(),
            name: "a.mp4".to_string(),
            size_label: "1 MB".to_string(),
        }),
    ];

    assert_eq!(first_file_index(&entries), 2);
}

#[test]
fn test_first_file_index_with_no_files_is_negative_one() {
    let entries = vec![FolderEntry::Up("/videos".to_string())];
    assert_eq!(first_file_index(&entries), -1);
}

#[test]
fn open_media_dialog_test_list_folder_entries_missing_folder_returns_just_up() {
    let entries = list_folder_entries("/no/such/folder/trango-test", None, MediaKind::Video);
    assert_eq!(entries, vec![FolderEntry::Up("/no/such/folder".to_string())]);
}

#[test]
fn open_media_dialog_test_list_folder_entries_filters_sorts_and_lists_subfolders_first() {
    let items = vec![
        dir("/tmp/t/clips"),
        file("/tmp/t/b_video.mp4", Some(0)),
        file("/tmp/t/a_video.MKV", Some(0)),
        file("/tmp/t/notes.txt", Some(0)),
    ];

    let entries = list_folder_entries("/tmp/t", Some(items), MediaKind::Video);

    assert!(matches!(entries[0], FolderEntry::Up(_)));
    assert_eq!(
        entries[1],
        FolderEntry::Folder {
            path: "/tmp/t/clips".to_string(),
            name: "clips".to_string(),
        }
    );
    assert_eq!(expect_file(&entries[2]).name, "a_video.MKV");
    assert_eq!(expect_file(&entries[3]).name, "b_video.mp4");
    assert_eq!(entries.len(), 4);
}

#[test]
fn test_list_folder_entries_audio_mode_ignores_video_files() {
    let items = vec![
        file("/fixtures/sample/sample.mp4", Some(1000)),
        file("/fixtures/sample/sample.srt", Some(10)),
    ];
    let entries = list_folder_entries("/fixtures/sample", Some(items), MediaKind::Audio);
    assert_eq!(entries, vec![FolderEntry::Up("/fixtures".to_string())]);
}

#[test]
fn test_list_folder_entries_audio_mode_finds_wav_files() {
    let items = vec![
        file("/rec/2026-07-17_18-42-05.wav", Some(0)),
        file("/rec/unrelated.mp4", Some(0)),
    ];
    let entries = list_folder_entries("/rec", Some(items), MediaKind::Audio);
    assert_eq!(entries.len(), 2);
    assert_eq!(expect_file(&entries[1]).name, "2026-07-17_18-42-05.wav");
}

#[test]
fn test_list_folder_entries_finds_real_sample_video() {
    let items = vec![
        file("/fixtures/sample/sample.mp4", Some(356_515_840)),
        file("/fixtures/sample/sample.srt", Some(10)),
    ];
    let entries = list_folder_entries("/fixtures/sample", Some(items), MediaKind::Video);
    assert!(matches!(entries[0], FolderEntry::Up(_)));
    assert_eq!(entries.len(), 2);
    let f = expect_file(&entries[1]);
    assert_eq!(f.name, "sample.mp4");
    assert_eq!(f.size_label, "340 MB");
}

#[test]
fn open_media_dialog_rows_mark_only_the_selected_file() {
    let entries = vec![
        FolderEntry::Up("/v".to_string()),
        FolderEntry::Folder {
            path: "/v/c".to_string(),
            name: "c".to_string(),
        },
        FolderEntry::File(MediaFileEntry {
            path: "/v/a.mp4".to_string(),
            name: "a.mp4".to_string(),
            size_label: "1 MB".to_string(),
        }),
    ];
    let rows = open_media_dialog::dialog_rows(&entries, 2);
    assert_eq!(rows.len(), 3);
    assert!(rows[0].is_navigable && !rows[0].is_selected);
    assert_eq!(rows[1].name, "c/");
    assert!(rows[1].is_navigable);
    assert!(rows[2].is_selected && !rows[2].is_navigable);
    assert_eq!(rows[2].size_label, "1 MB");
}

// ---- Open Video dialog ----

#[test]
fn test_list_video_files_filters_and_sorts() {
    let items = vec![
        file("/v/b_video.mp4", Some(0)),
        file("/v/a_video.MKV", Some(0)),
        file("/v/notes.txt", Some(0)),
    ];
    let files = open_video_dialog::list_video_files(Some(items));
    let names: Vec<&str> = files.iter().map(|entry| entry.name.as_str()).collect();
    assert_eq!(names, vec!["a_video.MKV", "b_video.mp4"]);
}

#[test]
fn test_list_video_files_missing_folder_returns_empty() {
    assert!(open_video_dialog::list_video_files(None).is_empty());
}

#[test]
fn test_list_video_files_finds_real_sample_video() {
    let items = vec![
        file("/fixtures/sample/sample.mp4", Some(2048)),
        file("/fixtures/sample/sample.srt", Some(10)),
    ];
    let files = open_video_dialog::list_video_files(Some(items));
    assert_eq!(files.len(), 1);
    assert_eq!(files[0].name, "sample.mp4");
    assert!(!files[0].size_label.is_empty());
}

// ---- Open Subtitles dialog ----

#[test]
fn test_list_srt_files_filters_and_sorts() {
    let items = vec![
        file("/s/b.srt", None),
        file("/s/a.SRT", None),
        file("/s/notes.txt", None),
    ];
    assert_eq!(list_srt_files(Some(items)), strings(&["/s/a.SRT", "/s/b.srt"]));
}

#[test]
fn test_list_srt_files_missing_folder_returns_empty() {
    assert!(list_srt_files(None).is_empty());
}

#[test]
fn test_list_srt_files_finds_both_real_sample_srt_files() {
    let items = vec![
        file("/fixtures/sample/sample.srt", Some(1)),
        file("/fixtures/sample/sample.mp4", Some(1)),
        file("/fixtures/sample/sample.fi.srt", Some(1)),
    ];
    assert_eq!(
        list_srt_files(Some(items)),
        strings(&["/fixtures/sample/sample.fi.srt", "/fixtures/sample/sample.srt"])
    );
}

#[test]
fn test_file_name_returns_the_file_name_component() {
    assert_eq!(file_name("/videos/der_anruf.srt"), "der_anruf.srt");
}

#[test]
fn test_picker_rows_marks_selected_index() {
    let entries = strings(&["/videos/a.srt", "/videos/b.srt", "/videos/c.srt"]);

    let rows = picker_rows(&entries, 1);

    assert_eq!(rows.len(), 3);
    assert!(!rows[0].is_selected);
    assert!(rows[1].is_selected);
    assert!(!rows[2].is_selected);
    assert!(rows.iter().all(|row| !row.is_navigable));
    assert!(rows.iter().all(|row| row.size_label.is_empty()));
    assert_eq!(rows[0].name, "a.srt");
}

// ---- language-model picker ----

#[test]
fn test_selected_index_of_finds_current_model() {
    let models = strings(&["llama3.1:8b", "gemma2:9b"]);
    assert_eq!(selected_index_of(&models, Some("gemma2:9b")), 1);
}

#[test]
fn test_selected_index_of_missing_or_none_returns_negative_one() {
    let models = strings(&["llama3.1:8b"]);
    assert_eq!(selected_index_of(&models, None), -1);
    assert_eq!(selected_index_of(&models, Some("not-installed:1b")), -1);
}

#[test]
fn test_model_rows_marks_selected_index() {
    let models = strings(&["a", "b", "c"]);

    let rows = model_rows(&models, 1);

    assert_eq!(rows.len(), 3);
    assert!(!rows[0].is_selected);
    assert!(rows[1].is_selected);
    assert!(!rows[2].is_selected);
    assert!(rows.iter().all(|row| !row.is_navigable));
    assert!(rows.iter().all(|row| row.size_label.is_empty()));
}

// ---- transcription-model picker ----

fn expect_model(entry: &model_picker::FolderEntry) -> &model_picker::ModelFileEntry {
    match entry {
        model_picker::FolderEntry::Model(m) => m,
        other => panic!("expected a model entry, got {other:?}"),
    }
}

#[test]
fn test_is_english_only_detects_dot_en_suffix() {
    assert!(model_picker::is_english_only("/models/ggml-base.en.bin"));
    assert!(!model_picker::is_english_only("/models/ggml-base.bin"));
    assert!(!model_picker::is_english_only("/models/ggml-large-v3.bin"));
}

#[test]
fn test_language_flag() {
    assert_eq!(model_picker::language_flag("/models/ggml-tiny.en.bin"), "en");
    assert_eq!(model_picker::language_flag("/models/ggml-medium.bin"), "auto");
}

#[test]
fn test_display_name_labels_english_and_multilingual_models() {
    assert_eq!(
        model_picker::display_name("/models/ggml-base.en.bin"),
        "ggml-base.en.bin (English)"
    );
    assert_eq!(
        model_picker::display_name("/models/ggml-medium.bin"),
        "ggml-medium.bin (multilingual)"
    );
}

#[test]
fn model_picker_test_list_folder_entries_filters_sorts_and_lists_subfolders_first() {
    let items = vec![
        dir("/m/archive"),
        file("/m/ggml-medium.bin", Some(0)),
        file("/m/ggml-base.en.GGUF", Some(0)),
        file("/m/readme.txt", Some(0)),
    ];

    let entries = model_picker::list_folder_entries("/m", Some(items));

    assert!(matches!(entries[0], model_picker::FolderEntry::Up(_)));
    assert_eq!(
        entries[1],
        model_picker::FolderEntry::Folder {
            path: "/m/archive".to_string(),
            name: "archive".to_string(),
        }
    );
    assert_eq!(expect_model(&entries[2]).path, "/m/ggml-base.en.GGUF");
    assert_eq!(expect_model(&entries[3]).path, "/m/ggml-medium.bin");
    assert_eq!(entries.len(), 4);
}

#[test]
fn model_picker_test_list_folder_entries_missing_folder_returns_just_up() {
    let entries = model_picker::list_folder_entries("/no/such/folder/trango-test", None);
    assert_eq!(
        entries,
        vec![model_picker::FolderEntry::Up("/no/such/folder".to_string())]
    );
}

#[test]
fn test_candidate_model_folders_includes_home_based_and_relative_paths() {
    let candidates = model_picker::candidate_model_folders(Some("/home/alice"));
    assert!(candidates.contains(&"/home/alice/whisper.cpp/models".to_string()));
    assert!(candidates.contains(&"models".to_string()));
}

fn check(path: &str, is_dir: bool, has_models: bool) -> model_picker::FolderCheck {
    model_picker::FolderCheck {
        path: path.to_string(),
        is_dir,
        has_models,
    }
}

#[test]
fn test_default_start_folder_prefers_existing_config_folder() {
    let candidates = vec![check("/home/a/whisper.cpp/models", true, true)];
    assert_eq!(
        model_picker::choose_start_folder(
            Some(("/picked".to_string(), true)),
            &candidates,
            "/cwd".to_string()
        ),
        "/picked"
    );
}

#[test]
fn test_default_start_folder_falls_back_to_cwd_when_nothing_found() {
    let candidates = vec![check("/home/a/whisper.cpp/models", false, false), check("models", false, false)];
    assert_eq!(
        model_picker::choose_start_folder(
            Some(("/no/such/trango-test-model-folder".to_string(), false)),
            &candidates,
            "/cwd".to_string()
        ),
        "/cwd"
    );
}

#[test]
fn start_folder_prefers_a_candidate_holding_models() {
    let candidates = vec![
        check("/a", true, false),
        check("/b", true, true),
        check("/c", true, true),
    ];
    assert_eq!(
        model_picker::choose_start_folder(None, &candidates, "/cwd".to_string()),
        "/b"
    );
    let candidates = vec![check("/a", false, false), check("/b", true, false)];
    assert_eq!(
        model_picker::choose_start_folder(None, &candidates, "/cwd".to_string()),
        "/b"
    );
}

// ---- voice-activity model picker ----

#[test]
fn vad_model_picker_test_list_folder_entries_filters_sorts_and_lists_subfolders_first() {
    let items = vec![
        dir("/m/archive"),
        file("/m/silero-vad-v6.2.0-ggml.BIN", Some(0)),
        file("/m/README.md", Some(0)),
    ];
    let entries = vad_model_picker::list_folder_entries("/m", Some(items));
    assert!(matches!(entries[0], model_picker::FolderEntry::Up(_)));
    assert_eq!(
        entries[1],
        model_picker::FolderEntry::Folder {
            path: "/m/archive".to_string(),
            name: "archive".to_string(),
        }
    );
    assert_eq!(expect_model(&entries[2]).path, "/m/silero-vad-v6.2.0-ggml.BIN");
    assert_eq!(entries.len(), 3);
}

#[test]
fn vad_picker_lists_only_bin_files_sorted() {
    let items = vec![
        file("/m/ggml-silero-v5.1.2.bin", Some(0)),
        file("/m/b.BIN", Some(0)),
        file("/m/model.gguf", Some(0)),
    ];
    let entries = vad_model_picker::list_folder_entries("/m", Some(items));
    assert_eq!(entries.len(), 3);
    assert_eq!(expect_model(&entries[1]).path, "/m/b.BIN");
    assert_eq!(expect_model(&entries[2]).path, "/m/ggml-silero-v5.1.2.bin");
}

#[test]
fn vad_model_picker_test_list_folder_entries_missing_folder_returns_just_up() {
    let entries = vad_model_picker::list_folder_entries("/no/such/folder/trango-test", None);
    assert_eq!(
        entries,
        vec![model_picker::FolderEntry::Up("/no/such/folder".to_string())]
    );
}

#[test]
fn test_default_start_folder_prefers_configured_models_parent() {
    let candidates = vec![check("/home/a/whisper.cpp/models", true, true)];
    assert_eq!(
        vad_model_picker::choose_start_folder(
            Some(("/vad".to_string(), true)),
            &candidates,
            "/cwd".to_string()
        ),
        "/vad"
    );
}

#[test]
fn test_default_start_folder_falls_back_to_cwd_when_nothing_configured() {
    let candidates = vec![check("/x", false, false)];
    assert_eq!(
        vad_model_picker::choose_start_folder(None, &candidates, "/cwd".to_string()),
        "/cwd"
    );
}

#[test]
fn model_picker_view_loads_then_shows_models_or_the_error() {
    let mut view = open_dialog_loading();
    assert!(view.loading && view.is_open && view.rows.is_empty());
    assert_eq!(view.selected_index, -1);
    let models = apply_models_result(
        &mut view,
        Ok(strings(&["llama3.1:8b", "gemma2:9b"])),
        Some("gemma2:9b"),
    );
    assert_eq!(models, strings(&["llama3.1:8b", "gemma2:9b"]));
    assert!(!view.loading);
    assert_eq!(view.selected_index, 1);
    assert!(view.rows[1].is_selected && !view.rows[0].is_selected);

    let mut view = open_dialog_loading();
    let models = apply_models_result(&mut view, Err("connection refused".to_string()), None);
    assert!(models.is_empty());
    assert!(!view.loading);
    assert_eq!(view.error, "connection refused");
}

#[test]
fn subtitle_candidate_keeps_the_whole_stem() {
    assert_eq!(
        subtitle_candidate_path("/v/movie.en.mp4"),
        Some("/v/movie.en.srt".to_string())
    );
}
