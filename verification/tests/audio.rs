use trango::audio_capture::{capture_command, default_monitor_source, start_failure, AudioCaptureError};
use trango::practice_audio::{
    concat_command, concat_list, cut_clip_command, espeak_voice_for_language, format_seconds,
    missing_speech_output, piece_name, practice_plan, silence_command, speak_command,
    speech_pause_ms, tempo_command, tool_outcome, PieceAction, PracticeAudioBuilder,
    PracticeAudioError, SentencePracticeAudioRequest, Tempo, WordPracticeSpec,
};
use trango::tool_run::ToolRun;
use trango::vad::{ms, VadSegmenter};

const FRAME_LEN: usize = 480;
const SAMPLE_RATE_HZ: u64 = 16_000;
const END_MS_LAG_TOLERANCE: u64 = 300;
const CLOSING_SILENCE_MS: u64 = 900;

fn samples_for(duration_ms: u64) -> usize {
    let frames = duration_ms / 30;
    frames as usize * FRAME_LEN
}

fn synth_silence(duration_ms: u64) -> Vec<i16> {
    vec![0i16; samples_for(duration_ms)]
}

fn synth_speech(duration_ms: u64) -> Vec<i16> {
    let n = samples_for(duration_ms);
    (0..n)
        .map(|i| {
            let t = i as f32 / SAMPLE_RATE_HZ as f32;
            let s = 0.5 * (2.0 * std::f32::consts::PI * 150.0 * t).sin()
                + 0.3 * (2.0 * std::f32::consts::PI * 300.0 * t).sin()
                + 0.2 * (2.0 * std::f32::consts::PI * 450.0 * t).sin()
                + 0.1 * (2.0 * std::f32::consts::PI * 900.0 * t).sin();
            (s * 8000.0) as i16
        })
        .collect()
}

// ---- speech segmentation ----

#[test]
fn test_pure_silence_produces_no_segments() {
    let mut segmenter = VadSegmenter::new();
    let segments = segmenter.push_samples(&synth_silence(1000));
    assert!(segments.is_empty());
    assert_eq!(segmenter.flush(), None);
}

#[test]
fn test_speech_surrounded_by_silence_produces_one_segment_with_expected_timing() {
    let mut segmenter = VadSegmenter::with_thresholds(100, 300);
    let mut audio = synth_silence(300);
    audio.extend(synth_speech(600));
    audio.extend(synth_silence(CLOSING_SILENCE_MS));

    let segments = segmenter.push_samples(&audio);

    assert_eq!(segments.len(), 1);
    assert_eq!(segments[0].start_ms, 300);
    assert!(
        (900..=900 + END_MS_LAG_TOLERANCE).contains(&segments[0].end_ms),
        "end_ms {} not within tolerance of 900",
        segments[0].end_ms
    );
    assert_eq!(
        ms(segments[0].samples.len() as u64),
        segments[0].end_ms - segments[0].start_ms
    );
    assert_eq!(segmenter.flush(), None);
}

#[test]
fn test_two_speech_bursts_produce_two_segments_in_order() {
    let mut segmenter = VadSegmenter::with_thresholds(100, 300);
    let mut audio = synth_silence(300);
    audio.extend(synth_speech(300));
    audio.extend(synth_silence(CLOSING_SILENCE_MS));
    let second_start = audio.len() as u64 * 1000 / SAMPLE_RATE_HZ;
    audio.extend(synth_speech(300));
    audio.extend(synth_silence(CLOSING_SILENCE_MS));

    let segments = segmenter.push_samples(&audio);

    assert_eq!(segments.len(), 2);
    assert_eq!(segments[0].start_ms, 300);
    assert!(segments[0].end_ms < second_start);
    assert_eq!(segments[1].start_ms, second_start);
}

#[test]
fn test_short_blip_shorter_than_min_speech_duration_is_discarded() {
    let mut segmenter = VadSegmenter::with_thresholds(250, 300);
    let mut audio = synth_silence(300);
    audio.extend(synth_speech(60));
    audio.extend(synth_silence(CLOSING_SILENCE_MS));

    let segments = segmenter.push_samples(&audio);

    assert!(segments.is_empty());
}

#[test]
fn test_push_samples_across_many_small_calls_matches_a_single_call() {
    let mut audio = synth_silence(300);
    audio.extend(synth_speech(600));
    audio.extend(synth_silence(300));

    let mut whole = VadSegmenter::with_thresholds(100, 300);
    let expected = whole.push_samples(&audio);

    let mut chunked = VadSegmenter::with_thresholds(100, 300);
    let mut got = Vec::new();
    for chunk in audio.chunks(37) {
        got.extend(chunked.push_samples(chunk));
    }

    assert_eq!(got, expected);
}

#[test]
fn test_flush_finalizes_in_progress_segment_without_closing_silence() {
    let mut segmenter = VadSegmenter::with_thresholds(100, 300);
    let mut audio = synth_silence(300);
    audio.extend(synth_speech(600));

    let segments = segmenter.push_samples(&audio);
    assert!(segments.is_empty());

    let flushed = segmenter.flush().expect("in-progress segment expected");
    assert_eq!(flushed.start_ms, 300);
    assert_eq!(flushed.end_ms, 900);
    assert_eq!(segmenter.flush(), None);
}

#[test]
fn chunked_pushes_then_flush_match_one_push_then_flush() {
    let mut audio = synth_silence(300);
    audio.extend(synth_speech(600));
    audio.extend(synth_silence(600));
    audio.extend(synth_speech(450));

    let mut whole = VadSegmenter::with_thresholds(100, 300);
    let mut expected = whole.push_samples(&audio);
    expected.extend(whole.flush());

    let mut chunked = VadSegmenter::with_thresholds(100, 300);
    let mut got = Vec::new();
    for chunk in audio.chunks(37) {
        got.extend(chunked.push_samples(chunk));
    }
    got.extend(chunked.flush());

    assert_eq!(got, expected);
    assert_eq!(got.len(), 2);
    assert!(got[0].end_ms <= got[1].start_ms);
    for s in &got {
        assert_eq!(s.samples.len() % FRAME_LEN, 0);
        assert_eq!(s.start_ms % 30, 0);
        assert_eq!(s.end_ms - s.start_ms, s.samples.len() as u64 / 16);
    }
}

#[test]
fn flush_drops_samples_short_of_a_frame() {
    // 300 ms of speech and 100 samples more, flushed: the 100 samples are
    // dropped, so the next pushes start a fresh frame.
    let mut segmenter = VadSegmenter::with_thresholds(100, 300);
    let mut audio = synth_speech(300);
    audio.extend(vec![0i16; 100]);
    assert!(segmenter.push_samples(&audio).is_empty());
    let first = segmenter.flush().expect("a candidate was in progress");
    assert_eq!((first.start_ms, first.end_ms), (0, 300));

    let mut next = synth_speech(300);
    next.extend(synth_silence(CLOSING_SILENCE_MS));
    let segments = segmenter.push_samples(&next);
    assert_eq!(segments.len(), 1);
    assert_eq!(segments[0].start_ms, 300);
    assert_eq!(segments[0].samples.len() % FRAME_LEN, 0);
    assert_eq!(&segments[0].samples[..FRAME_LEN], &next[..FRAME_LEN]);
    assert!(segments[0].start_ms >= first.end_ms);
}

#[test]
fn ms_rounds_samples_down_to_whole_milliseconds() {
    assert_eq!(ms(16_000), 1000);
    assert_eq!(ms(15), 0);
    assert_eq!(ms(480), 30);
}

// ---- system audio capture ----

fn exited(success: bool, status: &str, stderr: &str) -> ToolRun {
    ToolRun::Exited {
        success,
        status: status.to_string(),
        stderr: stderr.to_string(),
    }
}

#[test]
fn default_monitor_source_appends_monitor_suffix_to_default_sink() {
    let r = default_monitor_source(
        "pactl",
        exited(true, "exit status: 0", ""),
        "alsa_output.pci-0000_00_1f.3.analog-stereo\n",
    );
    assert_eq!(r, Ok("alsa_output.pci-0000_00_1f.3.analog-stereo.monitor".to_string()));
}

#[test]
fn default_monitor_source_errors_clearly_when_pactl_is_missing() {
    let r = default_monitor_source("/x/no-such-pactl-binary", ToolRun::NotFound, "");
    let Err(AudioCaptureError::CaptureFailed(message)) = r else {
        panic!("expected CaptureFailed, got {r:?}");
    };
    assert!(message.contains("pactl not found"), "{message}");
    assert!(message.contains("/x/no-such-pactl-binary"), "{message}");
}

#[test]
fn default_monitor_source_errors_when_pactl_reports_no_sink() {
    let r = default_monitor_source("pactl", exited(true, "exit status: 0", ""), "  \n");
    let Err(AudioCaptureError::CaptureFailed(message)) = r else {
        panic!("expected CaptureFailed, got {r:?}");
    };
    assert!(message.contains("no default sink"), "{message}");
}

#[test]
fn default_monitor_source_reports_a_failed_exit_with_the_last_error_line() {
    let r = default_monitor_source(
        "pactl",
        exited(false, "exit status: 1", "first\nConnection refused\n"),
        "",
    );
    assert_eq!(
        r,
        Err(AudioCaptureError::CaptureFailed(
            "pactl exited with exit status: 1: Connection refused".to_string()
        ))
    );
}

#[test]
fn capture_command_records_the_monitor_as_16khz_mono_pcm() {
    let args = capture_command("alsa_output.analog-stereo.monitor", "/tmp/captured.wav");
    let line = args.join(" ");
    assert!(line.contains("-f pulse"));
    assert!(line.contains("-i alsa_output.analog-stereo.monitor"));
    assert!(line.contains("-ar 16000"));
    assert!(line.contains("-ac 1"));
    assert!(line.contains("pcm_s16le"));
    assert_eq!(args.last().unwrap(), "/tmp/captured.wav");
}

#[test]
fn start_failure_explains_a_missing_ffmpeg() {
    let AudioCaptureError::CaptureFailed(message) = start_failure("/x/ffmpeg", true, "") else {
        panic!("expected CaptureFailed");
    };
    assert!(message.contains("ffmpeg not found"), "{message}");
    assert_eq!(
        start_failure("ffmpeg", false, "permission denied").message(),
        "failed to start ffmpeg: permission denied"
    );
    assert_eq!(AudioCaptureError::NotRunning.message(), "audio capture is not running");
}

// ---- practice audio ----

#[test]
fn test_espeak_voice_for_language_matches_known_languages_case_insensitively() {
    assert_eq!(espeak_voice_for_language("English"), "en");
    assert_eq!(espeak_voice_for_language("FINNISH"), "fi");
    assert_eq!(espeak_voice_for_language("Hebrew"), "he");
}

#[test]
fn test_espeak_voice_for_language_falls_back_to_en_for_unknown_language() {
    assert_eq!(espeak_voice_for_language("Klingon"), "en");
}

#[test]
fn espeak_voice_ignores_surrounding_white_space() {
    assert_eq!(espeak_voice_for_language("  Swedish \n"), "sv");
}

fn two_word_request() -> SentencePracticeAudioRequest {
    SentencePracticeAudioRequest {
        source_path: "/v/source.mp4".to_string(),
        words: vec![
            WordPracticeSpec {
                translation: "hello".to_string(),
                start_ms: 0,
                end_ms: 500,
            },
            WordPracticeSpec {
                translation: "world".to_string(),
                start_ms: 600,
                end_ms: 1200,
            },
        ],
        sentence_start_ms: 0,
        sentence_end_ms: 1200,
        voice: "en".to_string(),
    }
}

#[test]
fn practice_plan_for_two_words_concatenates_34_pieces() {
    let plan = practice_plan(&two_word_request());
    assert_eq!(plan.pieces.len(), 34);
    assert_eq!(plan.actions.len(), 26);
    for (k, action) in plan.actions.iter().enumerate() {
        let out = match *action {
            PieceAction::SpeakTranslation { out, .. } => out,
            PieceAction::PauseAfterSpeech { out, .. } => out,
            PieceAction::CutClip { out, .. } => out,
            PieceAction::ChangeTempo { out, .. } => out,
            PieceAction::Pause { out, .. } => out,
        };
        assert_eq!(out as usize, k + 1);
    }
    assert!(plan.pieces.iter().all(|p| (1..=26).contains(p)));
}

#[test]
fn practice_plan_slowed_pieces_last_longer() {
    let plan = practice_plan(&two_word_request());
    assert_eq!(
        plan.actions[2],
        PieceAction::CutClip {
            start_ms: 0,
            end_ms: 500,
            out: 3
        }
    );
    assert_eq!(
        plan.actions[3],
        PieceAction::ChangeTempo {
            clip: 3,
            tempo: Tempo::Half,
            out: 4
        }
    );
    // Half speed doubles the 500 ms clip; the pause adds one second.
    assert_eq!(
        plan.actions[4],
        PieceAction::Pause {
            duration_ms: 2_000,
            out: 5
        }
    );
    // Three-quarter speed: 500 * 4 / 3 = 666.67 ms, rounded to 667.
    assert_eq!(
        plan.actions[7],
        PieceAction::Pause {
            duration_ms: 1_667,
            out: 8
        }
    );
    assert_eq!(
        plan.actions[9],
        PieceAction::Pause {
            duration_ms: 1_500,
            out: 10
        }
    );
}

#[test]
fn test_scaled_duration_halves_speed_doubles_duration() {
    let request = SentencePracticeAudioRequest {
        source_path: "/v/s.mp4".to_string(),
        words: vec![WordPracticeSpec {
            translation: "x".to_string(),
            start_ms: 1_000,
            end_ms: 3_000,
        }],
        sentence_start_ms: 0,
        sentence_end_ms: 3_000,
        voice: "en".to_string(),
    };
    let plan = practice_plan(&request);
    // The 2 s clip at half speed lasts 4 s; at full speed 2 s (each plus the
    // one-second pause margin).
    assert_eq!(
        plan.actions[4],
        PieceAction::Pause {
            duration_ms: 5_000,
            out: 5
        }
    );
    assert_eq!(
        plan.actions[9],
        PieceAction::Pause {
            duration_ms: 3_000,
            out: 10
        }
    );
}

#[test]
fn cut_clip_command_cuts_with_three_decimal_seconds() {
    let args = cut_clip_command("/v/source.mp4", 500, 1250, "/w/clip.wav");
    let line = args.join(" ");
    assert!(line.contains("-i /v/source.mp4"));
    assert!(line.contains("-ss 0.500"));
    assert!(line.contains("-to 1.250"));
    assert!(line.contains("-ar 22050"));
    assert!(line.contains("-ac 1"));
    assert!(line.contains("pcm_s16le"));
}

#[test]
fn tempo_command_uses_the_atempo_filter() {
    let line = tempo_command("/w/clip.wav", Tempo::Half, "/w/slow.wav").join(" ");
    assert!(line.contains("atempo=0.5"));
    let line = tempo_command("/w/clip.wav", Tempo::ThreeQuarters, "/w/slow.wav").join(" ");
    assert!(line.contains("atempo=0.75"));
}

#[test]
fn silence_command_uses_anullsrc_and_duration() {
    let line = silence_command(1500, "/w/silence.wav").join(" ");
    assert!(line.contains("anullsrc=r=22050:cl=mono"));
    assert!(line.contains("-t 1.500"));
}

#[test]
fn concat_list_lists_every_piece_in_order() {
    let paths = vec!["/w/piece1.wav".to_string(), "/w/it's.wav".to_string()];
    assert_eq!(
        concat_list(&paths),
        "file '/w/piece1.wav'\nfile '/w/it'\\''s.wav'\n"
    );
    let line = concat_command("/w/list.txt", "/o/final.mp3").join(" ");
    assert!(line.contains("-f concat"));
    assert!(line.contains("-i /w/list.txt"));
    assert!(line.ends_with("/o/final.mp3"));
}

#[test]
fn speak_command_passes_voice_output_and_text() {
    assert_eq!(
        speak_command("en", "/w/word.wav", "hello"),
        vec!["-v", "en", "-w", "/w/word.wav", "hello"]
    );
}

#[test]
fn format_seconds_and_piece_names() {
    assert_eq!(format_seconds(0), "0.000");
    assert_eq!(format_seconds(1500), "1.500");
    assert_eq!(format_seconds(61_007), "61.007");
    assert_eq!(piece_name(3), "piece-3.wav");
}

#[test]
fn speech_pause_is_the_wav_length_plus_a_second() {
    assert_eq!(speech_pause_ms(44 + 44_100), 2_000);
    assert_eq!(speech_pause_ms(10), 1_000);
}

#[test]
fn tool_outcome_explains_a_missing_ffmpeg() {
    let r = tool_outcome("ffmpeg", "TRANGO_FFMPEG_PATH", "/x/no-such-ffmpeg", ToolRun::NotFound);
    let Err(PracticeAudioError::GenerationFailed(message)) = r else {
        panic!("expected GenerationFailed, got {r:?}");
    };
    assert!(message.contains("ffmpeg not found"), "{message}");
    assert!(message.contains("TRANGO_FFMPEG_PATH"), "{message}");
    assert_eq!(
        tool_outcome("ffmpeg", "X", "ffmpeg", exited(true, "exit status: 0", "")),
        Ok(())
    );
    assert_eq!(
        tool_outcome("espeak-ng", "X", "espeak-ng", exited(false, "exit status: 2", "")),
        Err(PracticeAudioError::GenerationFailed(
            "espeak-ng exited with exit status: 2: no error output".to_string()
        ))
    );
}

#[test]
fn missing_speech_output_names_the_path() {
    let PracticeAudioError::GenerationFailed(m) = missing_speech_output("/w/word.wav") else {
        panic!("expected GenerationFailed");
    };
    assert_eq!(m, "espeak-ng finished but no WAV file was found at /w/word.wav");
}

#[test]
fn default_builder_runs_tools_from_path() {
    let b = PracticeAudioBuilder::default();
    assert_eq!(b.ffmpeg_path, "ffmpeg");
    assert_eq!(b.tts.binary_path, "espeak-ng");
}
