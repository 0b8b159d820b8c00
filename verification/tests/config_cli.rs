use trango::cli::{
    default_video_folder, extract_debug_flag, media_kind_for_source, open_media_dialog_title,
    source_for_media_kind, subtitle_path_from_args, translation_path_from_args, version,
    video_path_from_args,
};
use trango::config::{config_dir_from_env, config_path, TrangoConfig};
use trango::open_media_dialog::MediaKind;
use trango::playback::MediaSource;

fn args_of(items: &[&str]) -> Vec<String> {
    items.iter().map(|s| s.to_string()).collect()
}

#[test]
fn test_config_dir_from_env_prefers_xdg_config_home() {
    assert_eq!(
        config_dir_from_env(Some("/custom/config"), Some("/home/alice")),
        Some("/custom/config".to_string())
    );
}

#[test]
fn test_config_dir_from_env_falls_back_to_home_dot_config() {
    assert_eq!(
        config_dir_from_env(None, Some("/home/alice")),
        Some("/home/alice/.config".to_string())
    );
}

#[test]
fn test_config_dir_from_env_none_when_neither_set() {
    assert_eq!(config_dir_from_env(None, None), None);
}

#[test]
fn config_path_appends_trango_config_toml() {
    assert_eq!(
        config_path(None, Some("/home/alice")),
        Some("/home/alice/.config/trango/config.toml".to_string())
    );
    assert_eq!(
        config_path(Some("/x"), None),
        Some("/x/trango/config.toml".to_string())
    );
    assert_eq!(config_path(None, None), None);
}

#[test]
fn default_config_has_nothing_set() {
    let c = TrangoConfig::default();
    assert_eq!(c.video_folder, None);
    assert_eq!(c.ollama_model, None);
    assert_eq!(c.niqud_model_path, None);
}

#[test]
fn test_version_is_set() {
    assert!(!version().is_empty());
    assert_eq!(version(), "0.1.0");
}

#[test]
fn test_extract_debug_flag_present() {
    let args = args_of(&["trango", "video.mp4", "--debug", "subs.srt"]);
    let (debug, remaining) = extract_debug_flag(args);
    assert!(debug);
    assert_eq!(remaining, args_of(&["trango", "video.mp4", "subs.srt"]));
}

#[test]
fn test_extract_debug_flag_absent() {
    let args = args_of(&["trango", "video.mp4"]);
    let (debug, remaining) = extract_debug_flag(args.clone());
    assert!(!debug);
    assert_eq!(remaining, args);
}

#[test]
fn extract_debug_flag_removes_every_occurrence() {
    let args = args_of(&["--debug", "trango", "--debug", "a.mp4"]);
    let (debug, remaining) = extract_debug_flag(args);
    assert!(debug);
    assert_eq!(remaining, args_of(&["trango", "a.mp4"]));
}

#[test]
fn test_video_path_from_args_with_path() {
    let args = args_of(&["trango", "video.mp4"]);
    assert_eq!(video_path_from_args(&args), Some("video.mp4".to_string()));
}

#[test]
fn test_video_path_from_args_without_path() {
    let args = args_of(&["trango"]);
    assert_eq!(video_path_from_args(&args), None);
}

#[test]
fn test_subtitle_path_from_args_with_both_paths() {
    let args = args_of(&["trango", "video.mp4", "subs.srt"]);
    assert_eq!(subtitle_path_from_args(&args), Some("subs.srt".to_string()));
}

#[test]
fn test_subtitle_path_from_args_without_subtitle_path() {
    let args = args_of(&["trango", "video.mp4"]);
    assert_eq!(subtitle_path_from_args(&args), None);
}

#[test]
fn test_translation_path_from_args_with_all_three_paths() {
    let args = args_of(&["trango", "video.mp4", "subs.srt", "subs.en.srt"]);
    assert_eq!(
        translation_path_from_args(&args),
        Some("subs.en.srt".to_string())
    );
}

#[test]
fn test_translation_path_from_args_without_translation_path() {
    let args = args_of(&["trango", "video.mp4", "subs.srt"]);
    assert_eq!(translation_path_from_args(&args), None);
}

#[test]
fn test_default_video_folder_with_cli_video_path() {
    let args = args_of(&["trango", "some/folder/video.mp4"]);
    assert_eq!(
        default_video_folder(&args, Some("/saved/folder".to_string()), "/work".to_string()),
        "some/folder".to_string()
    );
}

#[test]
fn test_default_video_folder_without_cli_video_path_uses_saved_folder() {
    let args = args_of(&["trango"]);
    assert_eq!(
        default_video_folder(&args, Some("/saved/folder".to_string()), "/work".to_string()),
        "/saved/folder".to_string()
    );
}

#[test]
fn test_default_video_folder_without_cli_video_path_or_saved_folder() {
    let args = args_of(&["trango"]);
    assert_eq!(
        default_video_folder(&args, None, "/work".to_string()),
        "/work".to_string()
    );
}

#[test]
fn test_default_video_folder_with_bare_filename_falls_back_to_cwd() {
    let args = args_of(&["trango", "video.mp4"]);
    assert_eq!(
        default_video_folder(&args, None, "/work".to_string()),
        "/work".to_string()
    );
}

#[test]
fn test_media_kind_for_source_matches_source() {
    assert_eq!(media_kind_for_source(MediaSource::Video), MediaKind::Video);
    assert_eq!(media_kind_for_source(MediaSource::Audio), MediaKind::Audio);
}

#[test]
fn source_kind_round_trip_on_both_sources() {
    for s in [MediaSource::Video, MediaSource::Audio] {
        assert_eq!(source_for_media_kind(media_kind_for_source(s)), s);
    }
}

#[test]
fn test_open_media_dialog_title_names_the_kind() {
    assert_eq!(open_media_dialog_title(MediaKind::Video), "Open video file");
    assert_eq!(open_media_dialog_title(MediaKind::Audio), "Open audio file");
}
