//! The rules of the batch runs over a subtitle's cues (analysing every
//! sentence, building every sentence's practice audio): how often one cue's
//! analysis is attempted, what a cue's outcome leaves in the cache, why a
//! cue is skipped, and what the finished run reports. The caller performs
//! the outside work (model calls, tool runs, the cache file) and hands each
//! outcome back.
use vstd::prelude::*;
use crate::practice_audio::WordPracticeSpec;
use crate::text::{append_str, string_from_chars};
use crate::ui_text::{practice_words, WordTiming};
use crate::word_analysis::WordAnalysis;

verus! {

/// How many times one cue's analysis is attempted before the cue is left
/// blank.
pub const MAX_ANALYZE_ATTEMPTS: u32 = 3;

/// The attempts made at one item so far, and how many are allowed. The
/// first attempt is always made, even when none are allowed.
#[derive(Debug, Clone, Copy, PartialEq, Eq, Structural)]
pub struct Attempts {
    /// Attempts made, counting the one just finished.
    pub made: u32,
    /// Attempts allowed.
    pub max: u32,
}

/// What to do once an attempt has finished.
#[derive(Debug, Clone, Copy, PartialEq, Eq, Structural)]
pub enum AttemptDecision {
    /// Pause briefly, then attempt again.
    Retry,
    /// Keep the latest attempt's result.
    Stop,
}

impl Attempts {
    /// Whether the count is one that a run of attempts can reach: at least
    /// the first attempt, and no more than allowed beyond it.
    pub open spec fn valid(self) -> bool {
        &&& 1 <= self.made
        &&& self.made <= self.max || self.made == 1
    }

    /// The count after the first attempt at an item.
    pub fn first(max: u32) -> (a: Self)
        ensures
            a.made == 1,
            a.max == max,
            a.valid(),
    {
        Attempts { made: 1, max }
    }

    /// Decides after an attempt: retry while the attempt failed and fewer
    /// than the allowed attempts have been made (counting the retry).
    pub fn after_attempt(&mut self, failed: bool) -> (d: AttemptDecision)
        requires
            old(self).valid(),
        ensures
            (d == AttemptDecision::Retry) == (failed && old(self).made < old(self).max),
            final(self).made == (if d == AttemptDecision::Retry {
                old(self).made + 1
            } else {
                old(self).made as int
            }),
            final(self).max == old(self).max,
            final(self).valid(),
    {
        if failed && self.made < self.max {
            self.made = self.made + 1;
            AttemptDecision::Retry
        } else {
            AttemptDecision::Stop
        }
    }
}

/// What one cue's final analysis outcome leaves in the cache, and the
/// error to record: the analysis itself, or (after a failure) an empty
/// analysis, so the cue is not attempted again on later runs.
pub fn analysis_to_cache(outcome: Result<WordAnalysis, String>) -> (r: (WordAnalysis, Result<
    (),
    String,
>))
    ensures
        match outcome {
            Ok(a) => r.0 == a && r.1 is Ok,
            Err(m) => r.0.words@.len() == 0 && (r.1 matches Err(e) && e@ == m@),
        },
{
    match outcome {
        Ok(a) => (a, Ok(())),
        Err(m) => (WordAnalysis { words: Vec::new() }, Err(m)),
    }
}

/// The last failure among `outcomes`, counting from `start` (the failure
/// known before them).
pub open spec fn last_failure(start: Option<Seq<char>>, outcomes: Seq<Result<(), String>>) -> Option<
    Seq<char>,
>
    decreases outcomes.len(),
{
    if outcomes.len() == 0 {
        start
    } else {
        match outcomes.last() {
            Err(m) => Some(m@),
            Ok(()) => last_failure(start, outcomes.drop_last()),
        }
    }
}

/// A batch run's errors so far: the latest cue failure, if any.
#[derive(Debug, Clone, PartialEq, Eq)]
pub struct BatchErrors {
    /// The latest failure's message.
    pub last_error: Option<String>,
}

/// The value of an optional message.
pub open spec fn message_view(m: Option<String>) -> Option<Seq<char>> {
    match m {
        Some(s) => Some(s@),
        None => None,
    }
}

impl BatchErrors {
    /// A run with no failures yet.
    pub fn new() -> (b: Self)
        ensures
            b.last_error is None,
    {
        BatchErrors { last_error: None }
    }

    /// Records one cue's outcome: a failure becomes the latest error; a
    /// success leaves it as it was.
    pub fn record(&mut self, outcome: Result<(), String>)
        ensures
            message_view(final(self).last_error) == last_failure(
                message_view(old(self).last_error),
                seq![outcome],
            ),
    {
        proof {
            assert(seq![outcome].drop_last() =~= Seq::<Result<(), String>>::empty());
            assert(seq![outcome].last() == outcome);
            assert(last_failure(message_view(self.last_error), Seq::<Result<(), String>>::empty())
                == message_view(self.last_error));
        }
        match outcome {
            Ok(()) => {},
            Err(m) => {
                self.last_error = Some(m);
            },
        }
    }

    /// What the finished run reports: success, or the latest failure.
    pub fn finish(self) -> (r: Result<(), String>)
        ensures
            match self.last_error {
                None => r is Ok,
                Some(m) => r matches Err(e) && e@ == m@,
            },
    {
        match self.last_error {
            None => Ok(()),
            Some(m) => Err(m),
        }
    }
}

/// Recording outcomes one by one keeps the latest failure among all of
/// them: after `outcomes` then `more`, it is the latest failure of `more`,
/// or, when `more` has none, the latest of `outcomes`.
pub proof fn lemma_last_failure_append(
    start: Option<Seq<char>>,
    outcomes: Seq<Result<(), String>>,
    more: Seq<Result<(), String>>,
)
    ensures
        last_failure(start, outcomes + more) == last_failure(last_failure(start, outcomes), more),
    decreases more.len(),
{
    if more.len() == 0 {
        assert(outcomes + more =~= outcomes);
    } else {
        assert((outcomes + more).drop_last() =~= outcomes + more.drop_last());
        lemma_last_failure_append(start, outcomes, more.drop_last());
    }
}

/// The message of a failed outcome.
pub open spec fn failure_message(outcome: Result<(), String>) -> Seq<char> {
    match outcome {
        Err(m) => m@,
        Ok(()) => Seq::empty(),
    }
}

/// Some outcome failed exactly when a latest failure is known.
proof fn lemma_failure_exists(outcomes: Seq<Result<(), String>>)
    ensures
        (last_failure(None, outcomes) is Some) == (exists|i: int|
            0 <= i < outcomes.len() && #[trigger] outcomes[i] is Err),
    decreases outcomes.len(),
{
    if outcomes.len() > 0 {
        let rest = outcomes.drop_last();
        let n = outcomes.len() - 1;
        lemma_failure_exists(rest);
        if outcomes[n] is Err {
            assert(outcomes[n] is Err);
        } else {
            if exists|i: int| 0 <= i < outcomes.len() && #[trigger] outcomes[i] is Err {
                let i = choose|i: int| 0 <= i < outcomes.len() && #[trigger] outcomes[i] is Err;
                assert(rest[i] is Err);
            }
            if exists|i: int| 0 <= i < rest.len() && #[trigger] rest[i] is Err {
                let i = choose|i: int| 0 <= i < rest.len() && #[trigger] rest[i] is Err;
                assert(outcomes[i] is Err);
            }
        }
    }
}

/// The latest failure is that of the failed outcome `i` when every
/// outcome after it succeeded.
proof fn lemma_latest_failure(outcomes: Seq<Result<(), String>>, i: int)
    requires
        0 <= i < outcomes.len(),
        outcomes[i] is Err,
        forall|j: int| i < j < outcomes.len() ==> #[trigger] outcomes[j] is Ok,
    ensures
        last_failure(None, outcomes) == Some(failure_message(outcomes[i])),
    decreases outcomes.len(),
{
    let n = outcomes.len() - 1;
    if i < n {
        let rest = outcomes.drop_last();
        assert(outcomes[n] is Ok);
        assert forall|j: int| i < j < rest.len() implies #[trigger] rest[j] is Ok by {
            assert(outcomes[j] is Ok);
        }
        lemma_latest_failure(rest, i);
    }
}

/// A finished run reports a failure exactly when some cue failed, and
/// then the message of the latest failure.
pub proof fn lemma_run_reports_latest_failure(outcomes: Seq<Result<(), String>>)
    ensures
        (last_failure(None, outcomes) is Some) == (exists|i: int|
            0 <= i < outcomes.len() && #[trigger] outcomes[i] is Err),
        forall|i: int|
            0 <= i < outcomes.len() && (#[trigger] outcomes[i]) is Err && (forall|j: int|
                i < j < outcomes.len() ==> outcomes[j] is Ok) ==> last_failure(None, outcomes)
                == Some(failure_message(outcomes[i])),
{
    lemma_failure_exists(outcomes);
    assert forall|i: int|
        0 <= i < outcomes.len() && (#[trigger] outcomes[i]) is Err && (forall|j: int|
            i < j < outcomes.len() ==> outcomes[j] is Ok) implies last_failure(None, outcomes)
        == Some(failure_message(outcomes[i])) by {
        lemma_latest_failure(outcomes, i);
    }
}

/// Why a cue is skipped when no usable analysis is cached for it.
pub open spec fn no_analysis_text() -> Seq<char> {
    "no cached word analysis for this sentence — run \"Analyze all sentences\" first"@
}

/// Whether a cue's cached analysis can drive its practice audio: there is
/// one and it has words; otherwise the reason the cue is skipped.
pub fn check_cached_analysis(cached: Option<&WordAnalysis>) -> (r: Result<(), String>)
    ensures
        match cached {
            Some(a) => if a.words@.len() > 0 {
                r is Ok
            } else {
                r matches Err(m) && m@ == no_analysis_text()
            },
            None => r matches Err(m) && m@ == no_analysis_text(),
        },
{
    match cached {
        Some(a) => {
            if a.words.len() > 0 {
                return Ok(());
            }
        },
        None => {},
    }
    Err(
        String::from_str(
            "no cached word analysis for this sentence — run \"Analyze all sentences\" first",
        ),
    )
}

/// The words of a cue's practice audio from its word timing (or the
/// timing's failure) and its cached analysis: a timing failure, or no word
/// to pair, is the reason the cue is skipped; otherwise the timed words
/// paired in order with the analysed words' translations (see
/// [`practice_words`]).
pub fn practice_words_for_cue(timings: Result<Vec<WordTiming>, String>, analysis: &WordAnalysis) -> (r:
    Result<Vec<WordPracticeSpec>, String>)
    ensures
        match timings {
            Err(e) => r matches Err(m) && m@ == "word-timing segmentation failed: "@ + e@,
            Ok(t) => if t@.len() == 0 || analysis.words@.len() == 0 {
                r matches Err(m) && m@ == "no words to build practice audio from for this sentence"@
            } else {
                r matches Ok(words) && words@.len() == (if t@.len() < analysis.words@.len() {
                    t@.len()
                } else {
                    analysis.words@.len()
                }) && forall|k: int|
                    0 <= k < words@.len() ==> (#[trigger] words@[k]).translation@
                        == analysis.words@[k].translation@ && words@[k].start_ms == t@[k].start_ms
                        && words@[k].end_ms == t@[k].end_ms
            },
        },
{
    match timings {
        Err(e) => {
            let mut v: Vec<char> = Vec::new();
            append_str(&mut v, "word-timing segmentation failed: ");
            append_str(&mut v, e.as_str());
            Err(string_from_chars(v.as_slice()))
        },
        Ok(t) => {
            let words = practice_words(t.as_slice(), analysis);
            if words.len() == 0 {
                Err(String::from_str("no words to build practice audio from for this sentence"))
            } else {
                Ok(words)
            }
        },
    }
}

/// The reason a cue is skipped when building its practice audio failed.
pub fn build_failure(error: &str) -> (m: String)
    ensures
        m@ == "failed to build practice audio: "@ + error@,
{
    let mut v: Vec<char> = Vec::new();
    append_str(&mut v, "failed to build practice audio: ");
    append_str(&mut v, error);
    string_from_chars(v.as_slice())
}

/// A word-analysis run over a subtitle's cues, as a sequence of steps: for
/// each cue in turn, a cue already in the cache is only counted; another
/// is analysed, retried while it fails up to the allowed attempts, and its
/// final outcome stored (see [`analysis_to_cache`]); after each cue the
/// progress is reported, and at the end the latest failure, if any.
#[derive(Debug, Clone, PartialEq, Eq)]
pub struct BatchAnalysis {
    /// The number of cues.
    pub total: usize,
    /// The cues done so far (the next cue's position).
    pub done: usize,
    /// What the run waits for about the current cue.
    pub phase: BatchPhase,
    /// The attempts allowed per cue.
    pub max_attempts: u32,
    /// The failures so far.
    pub errors: BatchErrors,
}

/// What a batch run waits for.
#[derive(Debug, Clone, Copy, PartialEq, Eq, Structural)]
pub enum BatchPhase {
    /// Between cues: the next step asks about the next cue.
    Idle,
    /// Whether the current cue is in the cache.
    Checking,
    /// An analysis attempt at the current cue, with the attempts so far.
    Analyzing(Attempts),
    /// The current cue's outcome being stored.
    Storing,
}

/// What the front end reports back to a batch run.
#[derive(Debug, PartialEq, Eq)]
pub enum BatchEvent {
    /// Go on with the next cue (at the start, and after a progress report).
    Continue,
    /// Whether the cue asked about is already in the cache.
    Cached(bool),
    /// The outcome of an analysis attempt at the current cue.
    Attempted(Result<WordAnalysis, String>),
    /// The current cue's outcome has been stored and the cache saved.
    Stored,
}

/// What a batch run asks the front end to do next.
#[derive(Debug, PartialEq, Eq)]
pub enum BatchAction {
    /// Look up whether the cue at this position is in the cache.
    CheckCache(usize),
    /// Analyse the cue at this position.
    Analyze(usize),
    /// Pause briefly, then analyse the cue at this position again.
    RetryAfterPause(usize),
    /// Store this analysis for the cue at this position and save the cache.
    Store(usize, WordAnalysis),
    /// Report `done` of `total` cues as done.
    Progress { done: usize, total: usize },
    /// The run is over: success, or the latest failure.
    Finish(Result<(), String>),
    /// The event is not the one the run waits for; nothing to do.
    Ignore,
}

impl BatchAnalysis {
    /// The run's invariant: no further than the last cue, waiting on a cue
    /// only while there is one, with a valid attempt count.
    pub open spec fn well_formed(&self) -> bool {
        &&& self.done <= self.total
        &&& !(self.phase is Idle) ==> self.done < self.total
        &&& self.phase matches BatchPhase::Analyzing(a) ==> a.valid() && a.max == self.max_attempts
    }

    /// A run over `total` cues allowing `max_attempts` attempts per cue,
    /// at its start.
    pub fn new(total: usize, max_attempts: u32) -> (r: Self)
        ensures
            r.well_formed(),
            r.total == total,
            r.done == 0,
            r.phase is Idle,
            r.max_attempts == max_attempts,
            r.errors.last_error is None,
    {
        BatchAnalysis {
            total,
            done: 0,
            phase: BatchPhase::Idle,
            max_attempts,
            errors: BatchErrors::new(),
        }
    }

    /// One step of the run:
    /// - `Continue` between cues asks about the next cue's cache entry, or,
    ///   past the last cue, finishes with the latest failure (none:
    ///   success);
    /// - a cached cue is counted done and the progress reported; an
    ///   uncached one gets its first attempt;
    /// - a failed attempt is retried, after a pause, while fewer than the
    ///   allowed attempts were made; otherwise the outcome is stored (an
    ///   empty analysis for a failure, which becomes the latest failure);
    /// - once stored, the cue is counted done and the progress reported;
    /// - an event the run does not wait for is ignored.
    pub fn step(self, event: BatchEvent) -> (r: (Self, BatchAction))
        requires
            self.well_formed(),
        ensures
            r.0.well_formed(),
            r.0.total == self.total,
            r.0.max_attempts == self.max_attempts,
            match (self.phase, event) {
                (BatchPhase::Idle, BatchEvent::Continue) => if self.done < self.total {
                    r.0 == (BatchAnalysis { phase: BatchPhase::Checking, ..self }) && r.1
                        == BatchAction::CheckCache(self.done)
                } else {
                    &&& r.0.done == self.done
                    &&& r.0.phase is Idle
                    &&& r.1 matches BatchAction::Finish(res) && match self.errors.last_error {
                        None => res is Ok,
                        Some(m) => res matches Err(e) && e@ == m@,
                    }
                },
                (BatchPhase::Checking, BatchEvent::Cached(true)) => r.0 == (BatchAnalysis {
                    done: (self.done + 1) as usize,
                    phase: BatchPhase::Idle,
                    ..self
                }) && r.1 == (BatchAction::Progress { done: (self.done + 1) as usize, total: self.total }),
                (BatchPhase::Checking, BatchEvent::Cached(false)) => r.0 == (BatchAnalysis {
                    phase: BatchPhase::Analyzing(Attempts { made: 1, max: self.max_attempts }),
                    ..self
                }) && r.1 == BatchAction::Analyze(self.done),
                (BatchPhase::Analyzing(a), BatchEvent::Attempted(outcome)) => if outcome is Err && a.made
                    < a.max {
                    r.0 == (BatchAnalysis {
                        phase: BatchPhase::Analyzing(Attempts { made: (a.made + 1) as u32, ..a }),
                        ..self
                    }) && r.1 == BatchAction::RetryAfterPause(self.done)
                } else {
                    &&& r.0.done == self.done
                    &&& r.0.phase is Storing
                    &&& r.1 matches BatchAction::Store(i, stored) && i == self.done && match outcome {
                        Ok(w) => stored == w && message_view(r.0.errors.last_error) == message_view(
                            self.errors.last_error,
                        ),
                        Err(m) => stored.words@.len() == 0 && message_view(r.0.errors.last_error)
                            == Some(m@),
                    }
                },
                (BatchPhase::Storing, BatchEvent::Stored) => r.0 == (BatchAnalysis {
                    done: (self.done + 1) as usize,
                    phase: BatchPhase::Idle,
                    ..self
                }) && r.1 == (BatchAction::Progress { done: (self.done + 1) as usize, total: self.total }),
                _ => r.1 is Ignore && r.0 == self,
            },
    {
        match (self.phase, event) {
            (BatchPhase::Idle, BatchEvent::Continue) => {
                if self.done < self.total {
                    let i = self.done;
                    (BatchAnalysis { phase: BatchPhase::Checking, ..self }, BatchAction::CheckCache(i))
                } else {
                    let total = self.total;
                    let done = self.done;
                    let max_attempts = self.max_attempts;
                    let result = self.errors.finish();
                    (
                        BatchAnalysis {
                            total,
                            done,
                            phase: BatchPhase::Idle,
                            max_attempts,
                            errors: BatchErrors::new(),
                        },
                        BatchAction::Finish(result),
                    )
                }
            },
            (BatchPhase::Checking, BatchEvent::Cached(cached)) => {
                if cached {
                    let done = self.done + 1;
                    let total = self.total;
                    (
                        BatchAnalysis { done, phase: BatchPhase::Idle, ..self },
                        BatchAction::Progress { done, total },
                    )
                } else {
                    let i = self.done;
                    let a = Attempts::first(self.max_attempts);
                    (BatchAnalysis { phase: BatchPhase::Analyzing(a), ..self }, BatchAction::Analyze(i))
                }
            },
            (BatchPhase::Analyzing(a), BatchEvent::Attempted(outcome)) => {
                let mut a = a;
                let failed = outcome.is_err();
                let i = self.done;
                match a.after_attempt(failed) {
                    AttemptDecision::Retry => (
                        BatchAnalysis { phase: BatchPhase::Analyzing(a), ..self },
                        BatchAction::RetryAfterPause(i),
                    ),
                    AttemptDecision::Stop => {
                        let (stored, result) = analysis_to_cache(outcome);
                        let mut errors = self.errors;
                        errors.record(result);
                        proof {
                            reveal_with_fuel(last_failure, 2);
                        }
                        (
                            BatchAnalysis {
                                total: self.total,
                                done: self.done,
                                phase: BatchPhase::Storing,
                                max_attempts: self.max_attempts,
                                errors,
                            },
                            BatchAction::Store(i, stored),
                        )
                    },
                }
            },
            (BatchPhase::Storing, BatchEvent::Stored) => {
                let done = self.done + 1;
                let total = self.total;
                (
                    BatchAnalysis { done, phase: BatchPhase::Idle, ..self },
                    BatchAction::Progress { done, total },
                )
            },
            (_, _) => (self, BatchAction::Ignore),
        }
    }
}

} // verus!
