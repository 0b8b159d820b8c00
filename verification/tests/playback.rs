use trango::playback::{Cue, MediaSource, PlaySpanCommand, PlaybackMode, PlayerState, SeekCommand};

fn cue(index: u32, start_ms: u64, end_ms: u64, text: &str) -> Cue {
    Cue {
        index,
        start_ms,
        end_ms,
        text: text.to_string(),
        translation: None,
    }
}

fn three_cues() -> Vec<Cue> {
    vec![
        cue(1, 0, 1_000, "one"),
        cue(2, 1_000, 2_000, "two"),
        cue(3, 2_000, 3_000, "three"),
    ]
}

#[test]
fn test_default_mode_is_sentence_by_sentence() {
    assert_eq!(PlaybackMode::default(), PlaybackMode::SentenceBySentence);
}

#[test]
fn test_no_video_is_distinct_from_the_other_two_modes() {
    assert_ne!(PlaybackMode::NoVideo, PlaybackMode::Normal);
    assert_ne!(PlaybackMode::NoVideo, PlaybackMode::SentenceBySentence);
}

#[test]
fn test_default_media_source_is_video() {
    assert_eq!(MediaSource::default(), MediaSource::Video);
}

#[test]
fn test_video_is_distinct_from_audio() {
    assert_ne!(MediaSource::Video, MediaSource::Audio);
}

#[test]
fn test_new_state_starts_in_sentence_by_sentence_mode_with_no_cues() {
    let state = PlayerState::new();
    assert_eq!(state.mode, PlaybackMode::SentenceBySentence);
    assert!(state.cues.is_empty());
    assert_eq!(state.current_cue_index, None);
    assert!(!state.show_translation);
}

#[test]
fn test_set_mode_switches_sentence_by_sentence_to_normal() {
    let mut state = PlayerState::new();
    state.set_mode(PlaybackMode::Normal);
    assert_eq!(state.mode, PlaybackMode::Normal);
}

#[test]
fn test_set_mode_to_no_video() {
    let mut state = PlayerState::new();
    state.set_mode(PlaybackMode::NoVideo);
    assert_eq!(state.mode, PlaybackMode::NoVideo);
}

#[test]
fn test_set_mode_back_to_sentence_by_sentence() {
    let mut state = PlayerState::new();
    state.set_mode(PlaybackMode::Normal);
    state.set_mode(PlaybackMode::SentenceBySentence);
    assert_eq!(state.mode, PlaybackMode::SentenceBySentence);
}

#[test]
fn test_set_cues_resets_cursor_to_first_cue() {
    let mut state = PlayerState::new();
    let cues = vec![cue(1, 0, 1_000, "Hello"), cue(2, 1_000, 2_000, "World")];

    state.set_cues(cues.clone());

    assert_eq!(state.cues, cues);
    assert_eq!(state.current_cue_index, Some(0));
}

#[test]
fn test_set_cues_with_empty_vec_clears_cursor() {
    let mut state = PlayerState::new();
    state.set_cues(vec![cue(1, 0, 1_000, "Hello")]);

    state.set_cues(vec![]);

    assert!(state.cues.is_empty());
    assert_eq!(state.current_cue_index, None);
}

#[test]
fn test_toggle_translation_flips_the_flag() {
    let mut state = PlayerState::new();
    state.toggle_translation();
    assert!(state.show_translation);
    state.toggle_translation();
    assert!(!state.show_translation);
}

#[test]
fn test_sync_cue_to_time_on_empty_cues_is_none() {
    let mut state = PlayerState::new();
    assert!(!state.sync_cue_to_time(500));
    assert_eq!(state.current_cue_index, None);
}

#[test]
fn test_sync_cue_to_time_before_first_cue_clears_cursor() {
    let mut state = PlayerState::new();
    state.set_cues(vec![cue(1, 1_000, 2_000, "one"), cue(2, 2_000, 3_000, "two")]);

    let changed = state.sync_cue_to_time(500);

    assert!(changed);
    assert_eq!(state.current_cue_index, None);
}

#[test]
fn test_sync_cue_to_time_at_exact_cue_start_selects_that_cue() {
    let mut state = PlayerState::new();
    state.set_cues(vec![cue(1, 0, 1_000, "one"), cue(2, 1_000, 2_000, "two")]);

    state.sync_cue_to_time(1_000);

    assert_eq!(state.current_cue_index, Some(1));
}

#[test]
fn test_sync_cue_to_time_within_cue_span_selects_that_cue() {
    let mut state = PlayerState::new();
    state.set_cues(vec![cue(1, 0, 1_000, "one"), cue(2, 1_000, 2_000, "two")]);

    state.sync_cue_to_time(500);

    assert_eq!(state.current_cue_index, Some(0));
}

#[test]
fn test_sync_cue_to_time_in_gap_keeps_most_recently_started_cue() {
    let mut state = PlayerState::new();
    state.set_cues(vec![cue(1, 0, 1_000, "one"), cue(2, 1_500, 2_000, "two")]);

    state.sync_cue_to_time(1_200);

    assert_eq!(state.current_cue_index, Some(0));
}

#[test]
fn test_sync_cue_to_time_after_last_cue_selects_last_cue() {
    let mut state = PlayerState::new();
    state.set_cues(vec![cue(1, 0, 1_000, "one"), cue(2, 1_000, 2_000, "two")]);

    state.sync_cue_to_time(5_000);

    assert_eq!(state.current_cue_index, Some(1));
}

#[test]
fn test_sync_cue_to_time_returns_false_when_cursor_is_unchanged() {
    let mut state = PlayerState::new();
    state.set_cues(vec![cue(1, 0, 1_000, "one"), cue(2, 1_000, 2_000, "two")]);
    state.sync_cue_to_time(100);

    let changed = state.sync_cue_to_time(400);

    assert!(!changed);
    assert_eq!(state.current_cue_index, Some(0));
}

#[test]
fn test_next_cue_on_empty_state_returns_none() {
    let mut state = PlayerState::new();
    assert_eq!(state.next_cue(), None);
    assert_eq!(state.current_cue_index, None);
}

#[test]
fn test_next_cue_advances_cursor_and_returns_seek_command() {
    let mut state = PlayerState::new();
    state.set_cues(three_cues());

    let command = state.next_cue();

    assert_eq!(state.current_cue_index, Some(1));
    assert_eq!(command, Some(SeekCommand { start_ms: 1_000 }));
}

#[test]
fn test_next_cue_on_last_cue_returns_none_and_does_not_move() {
    let mut state = PlayerState::new();
    state.set_cues(three_cues());
    state.next_cue();
    state.next_cue();

    let command = state.next_cue();

    assert_eq!(command, None);
    assert_eq!(state.current_cue_index, Some(2));
}

#[test]
fn test_previous_cue_on_empty_state_returns_none() {
    let mut state = PlayerState::new();
    assert_eq!(state.previous_cue(), None);
    assert_eq!(state.current_cue_index, None);
}

#[test]
fn test_previous_cue_on_first_cue_returns_none_and_does_not_move() {
    let mut state = PlayerState::new();
    state.set_cues(three_cues());

    let command = state.previous_cue();

    assert_eq!(command, None);
    assert_eq!(state.current_cue_index, Some(0));
}

#[test]
fn test_previous_cue_moves_cursor_back_and_returns_seek_command() {
    let mut state = PlayerState::new();
    state.set_cues(three_cues());
    state.next_cue();

    let command = state.previous_cue();

    assert_eq!(state.current_cue_index, Some(0));
    assert_eq!(command, Some(SeekCommand { start_ms: 0 }));
}

#[test]
fn test_repeat_current_cue_on_empty_state_returns_none() {
    let state = PlayerState::new();
    assert_eq!(state.repeat_current_cue(), None);
}

#[test]
fn test_repeat_current_cue_does_not_move_cursor() {
    let mut state = PlayerState::new();
    state.set_cues(three_cues());
    state.next_cue();

    let command = state.repeat_current_cue();

    assert_eq!(state.current_cue_index, Some(1));
    assert_eq!(
        command,
        Some(PlaySpanCommand {
            start_ms: 1_000,
            end_ms: 2_000,
        })
    );
}

#[test]
fn test_repeat_current_cue_in_normal_mode_returns_none() {
    let mut state = PlayerState::new();
    state.set_cues(three_cues());
    state.set_mode(PlaybackMode::Normal);
    assert_eq!(state.mode, PlaybackMode::Normal);

    assert_eq!(state.repeat_current_cue(), None);
}

#[test]
fn test_jump_to_cue_on_empty_state_returns_none() {
    let mut state = PlayerState::new();
    assert_eq!(state.jump_to_cue(0), None);
    assert_eq!(state.current_cue_index, None);
}

#[test]
fn test_jump_to_cue_moves_cursor_and_returns_seek_command() {
    let mut state = PlayerState::new();
    state.set_cues(three_cues());

    let command = state.jump_to_cue(2);

    assert_eq!(state.current_cue_index, Some(2));
    assert_eq!(command, Some(SeekCommand { start_ms: 2_000 }));
}

#[test]
fn test_jump_to_cue_out_of_range_returns_none_and_does_not_move() {
    let mut state = PlayerState::new();
    state.set_cues(three_cues());
    state.next_cue();

    let command = state.jump_to_cue(99);

    assert_eq!(command, None);
    assert_eq!(state.current_cue_index, Some(1));
}

#[test]
fn test_repeat_current_cue_called_repeatedly_always_returns_same_command() {
    let mut state = PlayerState::new();
    state.set_cues(three_cues());
    state.next_cue();
    state.next_cue();

    let first = state.repeat_current_cue();
    let second = state.repeat_current_cue();
    let third = state.repeat_current_cue();

    assert_eq!(first, second);
    assert_eq!(second, third);
    assert_eq!(state.current_cue_index, Some(2));
}

#[test]
fn next_then_previous_returns_to_the_same_cue() {
    let mut state = PlayerState::new();
    state.set_cues(three_cues());
    state.jump_to_cue(1);

    state.next_cue();
    let back = state.previous_cue();

    assert_eq!(state.current_cue_index, Some(1));
    assert_eq!(back, Some(SeekCommand { start_ms: 1_000 }));
}

#[test]
fn jump_then_repeat_plays_the_jumped_to_cue() {
    let mut state = PlayerState::new();
    state.set_cues(three_cues());

    state.jump_to_cue(2);

    assert_eq!(
        state.repeat_current_cue(),
        Some(PlaySpanCommand {
            start_ms: 2_000,
            end_ms: 3_000,
        })
    );
}

#[test]
fn syncing_twice_to_the_same_time_changes_nothing_the_second_time() {
    let mut state = PlayerState::new();
    state.set_cues(three_cues());
    state.sync_cue_to_time(2_500);
    assert!(!state.sync_cue_to_time(2_500));
    assert_eq!(state.current_cue_index, Some(2));
}

#[test]
fn push_cues_focuses_the_first_appended_cue_only_when_nothing_was_in_focus() {
    let mut state = PlayerState::new();
    state.push_cues(vec![cue(1, 0, 500, "a")]);
    assert_eq!(state.current_cue_index, Some(0));
    state.push_cues(vec![cue(2, 600, 900, "b")]);
    assert_eq!(state.current_cue_index, Some(0));
    assert_eq!(state.cues.len(), 2);
}

/// Five cues with gaps between them, in the shape of a parsed subtitle.
fn sample_cues() -> Vec<Cue> {
    vec![
        cue(1, 1_000, 2_500, "first"),
        cue(2, 3_000, 4_200, "second"),
        cue(3, 4_200, 6_000, "third"),
        cue(4, 7_500, 9_000, "fourth"),
        cue(5, 9_100, 11_000, "fifth"),
    ]
}

#[test]
fn test_cue_navigation_walks_all_sample_cues_forward_and_back() {
    let cues = sample_cues();
    let mut state = PlayerState::new();
    state.set_cues(cues.clone());
    assert_eq!(state.current_cue_index, Some(0));

    for (expected_index, cue) in cues.iter().enumerate().skip(1) {
        let command = state
            .next_cue()
            .unwrap_or_else(|| panic!("expected a seek command advancing to cue {expected_index}"));
        assert_eq!(state.current_cue_index, Some(expected_index));
        assert_eq!(command.start_ms, cue.start_ms);
    }

    assert_eq!(state.next_cue(), None);
    assert_eq!(state.current_cue_index, Some(cues.len() - 1));

    for (expected_index, cue) in cues.iter().enumerate().rev().skip(1) {
        let command = state.previous_cue().unwrap_or_else(|| {
            panic!("expected a seek command going back to cue {expected_index}")
        });
        assert_eq!(state.current_cue_index, Some(expected_index));
        assert_eq!(command.start_ms, cue.start_ms);
    }

    assert_eq!(state.previous_cue(), None);
    assert_eq!(state.current_cue_index, Some(0));

    let repeat_first = state.repeat_current_cue().expect("a cue is in focus");
    let repeat_second = state.repeat_current_cue().expect("a cue is in focus");
    assert_eq!(repeat_first, repeat_second);
    assert_eq!(repeat_first.start_ms, cues[0].start_ms);
    assert_eq!(repeat_first.end_ms, cues[0].end_ms);
}
