use trango::open_subtitles_dialog::{
    mark_translation_linked, open_dialog, SubtitleGenerationStatus, SubtitleLinks,
};
use trango::playback::{Cue, PlaySpanCommand, PlaybackMode, SeekCommand};
use trango::player_control::{PlayerAction, PlayerControl};
use trango::subtitle_generation::apply_result;

fn cue(index: u32, start_ms: u64, end_ms: u64, text: &str) -> Cue {
    Cue {
        index,
        start_ms,
        end_ms,
        text: text.to_string(),
        translation: None,
    }
}

#[test]
fn seek_and_pause_drops_a_pending_cue_end() {
    let mut c = PlayerControl::new();
    c.toggle_play_span(PlaySpanCommand { start_ms: 1_000, end_ms: 2_000 }, false);
    assert_eq!(c.pause_at_ms, Some(2_000));
    let actions = c.seek_and_pause(SeekCommand { start_ms: 5_000 });
    assert_eq!(
        actions,
        vec![PlayerAction::SeekTo(5_000), PlayerAction::SetPaused(true)]
    );
    assert_eq!(c.pause_at_ms, None);
}

#[test]
fn play_span_plays_then_pauses_at_its_end() {
    let mut c = PlayerControl::new();
    let span = PlaySpanCommand { start_ms: 1_000, end_ms: 2_000 };
    assert_eq!(
        c.toggle_play_span(span, false),
        vec![PlayerAction::SeekTo(1_000), PlayerAction::SetPaused(false)]
    );
    assert_eq!(c.apply_pending_pause(Some(false)), None);
    assert_eq!(c.apply_pending_pause(None), None);
    assert_eq!(c.apply_pending_pause(Some(true)), Some(PlayerAction::SetPaused(true)));
    assert_eq!(c.apply_pending_pause(Some(true)), None);
}

#[test]
fn play_span_while_playing_just_pauses() {
    let mut c = PlayerControl::new();
    let span = PlaySpanCommand { start_ms: 1_000, end_ms: 2_000 };
    c.toggle_play_span(span, false);
    assert_eq!(c.toggle_play_span(span, true), vec![PlayerAction::SetPaused(true)]);
    assert_eq!(c.pause_at_ms, None);
}

#[test]
fn plain_toggle_flips_pause() {
    let mut c = PlayerControl::new();
    assert_eq!(c.toggle_playback(true), PlayerAction::SetPaused(true));
    assert_eq!(c.toggle_playback(false), PlayerAction::SetPaused(false));
}

#[test]
fn start_seek_waits_until_the_player_can_seek() {
    let cues = vec![cue(1, 1_500, 2_000, "a")];
    let mut c = PlayerControl::new();
    assert_eq!(
        c.arm_start_seek(PlaybackMode::SentenceBySentence, &cues),
        PlayerAction::SetPaused(true)
    );
    assert_eq!(c.apply_pending_start_seek(false), None);
    assert_eq!(c.apply_pending_start_seek(true), Some(PlayerAction::SeekTo(1_500)));
    assert_eq!(c.apply_pending_start_seek(true), None);

    let mut c = PlayerControl::new();
    c.arm_start_seek(PlaybackMode::Normal, &cues);
    assert_eq!(c.pending_start_seek_ms, None);
    c.arm_start_seek(PlaybackMode::SentenceBySentence, &Vec::new());
    assert_eq!(c.pending_start_seek_ms, None);
}

#[test]
fn subtitles_dialog_shows_the_linked_files() {
    let links = SubtitleLinks {
        original_path: Some("/v/der_anruf.srt".to_string()),
        translation_path: None,
    };
    let mut view = open_dialog("/v/der_anruf.mp4", &links);
    assert_eq!(view.title, "Subtitles for der_anruf.mp4");
    assert!(view.original_linked);
    assert_eq!(view.original_name, "der_anruf.srt");
    assert!(!view.translation_linked);
    assert_eq!(view.translation_name, "");
    assert_eq!(view.generation_status, SubtitleGenerationStatus::Idle);
    assert!(view.is_open);

    mark_translation_linked(&mut view, "/v/der_anruf.fi.srt");
    assert!(view.translation_linked);
    assert_eq!(view.translation_name, "der_anruf.fi.srt");
    assert_eq!(view.original_name, "der_anruf.srt");

    let empty = open_dialog("/v/x.mp4", &SubtitleLinks::default());
    assert!(!empty.original_linked && !empty.translation_linked);
}

#[test]
fn generation_result_links_the_new_file_or_shows_the_error() {
    let mut view = open_dialog("/v/some_video.mp4", &SubtitleLinks::default());
    let loaded = apply_result(&mut view, Ok("/v/some_video.srt".to_string()));
    assert_eq!(loaded, Some("/v/some_video.srt".to_string()));
    assert_eq!(view.generation_status, SubtitleGenerationStatus::Done);
    assert!(view.original_linked);
    assert_eq!(view.original_name, "some_video.srt");

    let mut view = open_dialog("/v/some_video.mp4", &SubtitleLinks::default());
    let loaded = apply_result(&mut view, Err("fixed test failure".to_string()));
    assert_eq!(loaded, None);
    assert_eq!(view.generation_status, SubtitleGenerationStatus::Error);
    assert_eq!(view.generation_error, "fixed test failure");
    assert!(!view.original_linked);
}
