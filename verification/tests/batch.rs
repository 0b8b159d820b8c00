use trango::batch_run::{
    analysis_to_cache, build_failure, check_cached_analysis, practice_words_for_cue,
    AttemptDecision, Attempts, BatchAction, BatchAnalysis, BatchErrors, BatchEvent,
    MAX_ANALYZE_ATTEMPTS,
};
use trango::ui_text::WordTiming;
use trango::word_analysis::{WordAnalysis, WordEntry};

fn analysis(words: &[(&str, &str)]) -> WordAnalysis {
    WordAnalysis {
        words: words
            .iter()
            .map(|(w, t)| WordEntry {
                word: w.to_string(),
                translation: t.to_string(),
                pronunciation: String::new(),
                parts: Vec::new(),
            })
            .collect(),
    }
}

/// Runs attempts whose outcomes are `failures` (true = failed) until the
/// decision is to stop, returning how many were made.
fn attempts_for(failures: &[bool]) -> u32 {
    let mut a = Attempts::first(MAX_ANALYZE_ATTEMPTS);
    let mut k = 0;
    while a.after_attempt(failures[k]) == AttemptDecision::Retry {
        k += 1;
    }
    a.made
}

#[test]
fn a_cue_that_keeps_failing_is_attempted_three_times() {
    assert_eq!(attempts_for(&[true, true, true, true]), 3);
}

#[test]
fn a_cue_that_fails_twice_then_succeeds_stops_at_the_success() {
    assert_eq!(attempts_for(&[true, true, false]), 3);
    assert_eq!(attempts_for(&[true, false]), 2);
    assert_eq!(attempts_for(&[false]), 1);
}

#[test]
fn with_no_attempts_allowed_the_first_one_still_counts() {
    let mut a = Attempts::first(0);
    assert_eq!(a.after_attempt(true), AttemptDecision::Stop);
    assert_eq!(a.made, 1);
}

#[test]
fn a_failed_cue_is_cached_blank() {
    let (stored, outcome) = analysis_to_cache(Err("bad JSON".to_string()));
    assert!(stored.words.is_empty());
    assert_eq!(outcome, Err("bad JSON".to_string()));
    let a = analysis(&[("hola", "hi")]);
    let (stored, outcome) = analysis_to_cache(Ok(a.clone()));
    assert_eq!(stored, a);
    assert_eq!(outcome, Ok(()));
}

#[test]
fn the_run_reports_the_latest_failure() {
    let mut errors = BatchErrors::new();
    errors.record(Ok(()));
    errors.record(Err("cue 2".to_string()));
    errors.record(Ok(()));
    errors.record(Err("cue 4".to_string()));
    errors.record(Ok(()));
    assert_eq!(errors.finish(), Err("cue 4".to_string()));

    let mut clean = BatchErrors::new();
    clean.record(Ok(()));
    assert_eq!(clean.finish(), Ok(()));
}

#[test]
fn a_cue_without_a_usable_cached_analysis_is_skipped() {
    let expected =
        "no cached word analysis for this sentence — run \"Analyze all sentences\" first";
    assert_eq!(check_cached_analysis(None), Err(expected.to_string()));
    assert_eq!(
        check_cached_analysis(Some(&analysis(&[]))),
        Err(expected.to_string())
    );
    assert_eq!(check_cached_analysis(Some(&analysis(&[("a", "b")]))), Ok(()));
}

#[test]
fn practice_words_pair_up_to_the_shorter_list() {
    let a = analysis(&[("a", "A"), ("b", "B"), ("c", "C")]);
    let timings = vec![
        WordTiming {
            word: "a".to_string(),
            start_ms: 0,
            end_ms: 100,
        },
        WordTiming {
            word: "b".to_string(),
            start_ms: 120,
            end_ms: 300,
        },
    ];
    let words = practice_words_for_cue(Ok(timings), &a).unwrap();
    assert_eq!(words.len(), 2);
    assert_eq!(words[1].translation, "B");
    assert_eq!((words[1].start_ms, words[1].end_ms), (120, 300));

    assert_eq!(
        practice_words_for_cue(Err("whisper-cli exited".to_string()), &a),
        Err("word-timing segmentation failed: whisper-cli exited".to_string())
    );
    assert_eq!(
        practice_words_for_cue(Ok(Vec::new()), &a),
        Err("no words to build practice audio from for this sentence".to_string())
    );
    assert_eq!(
        build_failure("ffmpeg not found"),
        "failed to build practice audio: ffmpeg not found"
    );
}

#[test]
fn batch_run_skips_cached_cues_retries_and_reports_the_latest_failure() {
    let run = BatchAnalysis::new(3, MAX_ANALYZE_ATTEMPTS);
    let (run, action) = run.step(BatchEvent::Continue);
    assert_eq!(action, BatchAction::CheckCache(0));
    let (run, action) = run.step(BatchEvent::Cached(true));
    assert_eq!(action, BatchAction::Progress { done: 1, total: 3 });
    let (run, action) = run.step(BatchEvent::Continue);
    assert_eq!(action, BatchAction::CheckCache(1));
    let (run, action) = run.step(BatchEvent::Cached(false));
    assert_eq!(action, BatchAction::Analyze(1));
    let (run, action) = run.step(BatchEvent::Attempted(Err("bad json".to_string())));
    assert_eq!(action, BatchAction::RetryAfterPause(1));
    let ok = analysis(&[("shalom", "hello")]);
    let (run, action) = run.step(BatchEvent::Attempted(Ok(ok.clone())));
    assert_eq!(action, BatchAction::Store(1, ok));
    let (run, action) = run.step(BatchEvent::Stored);
    assert_eq!(action, BatchAction::Progress { done: 2, total: 3 });
    let (run, _) = run.step(BatchEvent::Continue);
    let (mut run, _) = run.step(BatchEvent::Cached(false));
    for attempt in 1..=MAX_ANALYZE_ATTEMPTS {
        let (next, action) = run.step(BatchEvent::Attempted(Err(format!("failure {attempt}"))));
        run = next;
        if attempt < MAX_ANALYZE_ATTEMPTS {
            assert_eq!(action, BatchAction::RetryAfterPause(2));
        } else {
            assert_eq!(action, BatchAction::Store(2, WordAnalysis { words: Vec::new() }));
        }
    }
    let (run, action) = run.step(BatchEvent::Stored);
    assert_eq!(action, BatchAction::Progress { done: 3, total: 3 });
    let (_, action) = run.step(BatchEvent::Continue);
    assert_eq!(action, BatchAction::Finish(Err("failure 3".to_string())));
}

#[test]
fn batch_run_without_failures_finishes_ok_and_ignores_stray_events() {
    let run = BatchAnalysis::new(1, 1);
    let (run, action) = run.step(BatchEvent::Stored);
    assert_eq!(action, BatchAction::Ignore);
    let (run, action) = run.step(BatchEvent::Cached(true));
    assert_eq!(action, BatchAction::Ignore);
    let (run, _) = run.step(BatchEvent::Continue);
    let (run, action) = run.step(BatchEvent::Continue);
    assert_eq!(action, BatchAction::Ignore);
    let (run, _) = run.step(BatchEvent::Cached(false));
    let (run, action) = run.step(BatchEvent::Attempted(Err("once".to_string())));
    assert_eq!(action, BatchAction::Store(0, WordAnalysis { words: Vec::new() }));
    let (run, _) = run.step(BatchEvent::Stored);
    let (_, action) = run.step(BatchEvent::Continue);
    assert_eq!(action, BatchAction::Finish(Err("once".to_string())));

    let empty = BatchAnalysis::new(0, 3);
    let (_, action) = empty.step(BatchEvent::Continue);
    assert_eq!(action, BatchAction::Finish(Ok(())));
}
