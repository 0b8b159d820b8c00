//! Text and small view models the player's panels show: the current
//! sentence card, the sentence list, word-timing rows, clock and
//! timestamp formats, batch progress, and practice-audio file naming.
use vstd::prelude::*;
use crate::playback::{Cue, PlayerState};
use crate::practice_audio::WordPracticeSpec;
use crate::text::{
    append_decimal, append_str, append_three_digits, append_two_digits, decimal,
    decimal_chars_wide, append_chars, string_from_chars, three_digits, two_digits,
};
use crate::word_analysis::WordAnalysis;

verus! {

/// What the current-sentence card shows.
#[derive(Debug, Clone, PartialEq, Eq)]
pub struct SentenceCardDisplay {
    /// "Sentence i / n", or "Sentence – / –" with nothing in focus.
    pub label: String,
    /// The sentence, or a placeholder.
    pub text: String,
    /// Whether a sentence is in focus.
    pub has_sentence: bool,
    /// Its translation, or empty.
    pub translation_text: String,
}

/// The card for `cues` with the cursor at `cursor`: with a loaded cue in
/// focus, "Sentence <position from 1> / <count>", its text and translation;
/// otherwise placeholders.
pub open spec fn card_of(cues: Seq<Cue>, cursor: Option<usize>) -> (Seq<char>, Seq<char>, bool, Seq<char>) {
    match cursor {
        Some(i) => if i < cues.len() {
            (
                "Sentence "@ + decimal((i + 1) as nat) + " / "@ + decimal(cues.len()),
                cues[i as int].text@,
                true,
                match cues[i as int].translation {
                    Some(t) => t@,
                    None => Seq::empty(),
                },
            )
        } else {
            ("Sentence – / –"@, "No sentence loaded."@, false, Seq::empty())
        },
        None => ("Sentence – / –"@, "No sentence loaded."@, false, Seq::empty()),
    }
}

/// The current-sentence card for `state` (see [`card_of`]).
pub fn sentence_card_display(state: &PlayerState) -> (d: SentenceCardDisplay)
    ensures
        (d.label@, d.text@, d.has_sentence, d.translation_text@) == card_of(
            state.cues@,
            state.current_cue_index,
        ),
{
    match state.current_cue_index {
        Some(i) => {
            if i < state.cues.len() {
                let cue = &state.cues[i];
                let mut label: Vec<char> = Vec::new();
                append_str(&mut label, "Sentence ");
                append_decimal(&mut label, i as u64 + 1);
                append_str(&mut label, " / ");
                append_decimal(&mut label, state.cues.len() as u64);
                let translation_text = match &cue.translation {
                    Some(t) => t.clone(),
                    None => String::new(),
                };
                return SentenceCardDisplay {
                    label: string_from_chars(label.as_slice()),
                    text: cue.text.clone(),
                    has_sentence: true,
                    translation_text,
                };
            }
        },
        None => {},
    }
    SentenceCardDisplay {
        label: String::from_str("Sentence – / –"),
        text: String::from_str("No sentence loaded."),
        has_sentence: false,
        translation_text: String::new(),
    }
}

/// One row of the sentence list.
#[derive(Debug, Clone, PartialEq, Eq)]
pub struct SentenceListRow {
    /// "<cue number> · <text>".
    pub label: String,
    /// Whether the row's cue is in focus.
    pub is_current: bool,
}

/// The sentence list's label for a cue.
pub open spec fn list_label(cue: Cue) -> Seq<char> {
    decimal(cue.index as nat) + " · "@ + cue.text@
}

/// The sentence list's rows: one per loaded cue, labelled with its number
/// and text, the one under the cursor marked current.
pub fn sentence_list_rows(state: &PlayerState) -> (rows: Vec<SentenceListRow>)
    ensures
        rows@.len() == state.cues@.len(),
        forall|k: int|
            0 <= k < rows@.len() ==> (#[trigger] rows@[k]).label@ == list_label(state.cues@[k])
                && rows@[k].is_current == (state.current_cue_index == Some(k as usize)),
{
    let mut rows: Vec<SentenceListRow> = Vec::new();
    let mut k: usize = 0;
    while k < state.cues.len()
        invariant
            k <= state.cues@.len(),
            rows@.len() == k,
            forall|q: int|
                0 <= q < k ==> (#[trigger] rows@[q]).label@ == list_label(state.cues@[q])
                    && rows@[q].is_current == (state.current_cue_index == Some(q as usize)),
        decreases state.cues@.len() - k,
    {
        let cue = &state.cues[k];
        let mut label: Vec<char> = Vec::new();
        append_decimal(&mut label, cue.index as u64);
        append_str(&mut label, " · ");
        append_str(&mut label, cue.text.as_str());
        let is_current = match state.current_cue_index {
            Some(c) => c == k,
            None => false,
        };
        rows.push(SentenceListRow { label: string_from_chars(label.as_slice()), is_current });
        k = k + 1;
    }
    rows
}

/// The sentence list's selected row: the cursor, or -1 when there is none
/// or it lies beyond `i32`.
pub fn sentence_list_current_index(state: &PlayerState) -> (index: i32)
    ensures
        index == (match state.current_cue_index {
            Some(i) => if i <= i32::MAX {
                i as int
            } else {
                -1
            },
            None => -1,
        }),
{
    match state.current_cue_index {
        Some(i) => if i <= 0x7fff_ffff {
            i as i32
        } else {
            -1
        },
        None => -1,
    }
}

/// A duration of `ms` milliseconds as "m:ss.mmm" (minutes not padded).
pub open spec fn timestamp_text(ms: nat) -> Seq<char> {
    decimal(ms / 60_000) + seq![':'] + two_digits((ms / 1000) % 60) + seq!['.'] + three_digits(
        ms % 1000,
    )
}

/// `ms` milliseconds as "m:ss.mmm", e.g. "1:23.456".
pub fn format_timestamp(ms: u128) -> (s: String)
    ensures
        s@ == timestamp_text(ms as nat),
{
    let mut v = decimal_chars_wide(ms / 60_000);
    v.push(':');
    append_two_digits(&mut v, ((ms / 1000) % 60) as u64);
    v.push('.');
    append_three_digits(&mut v, (ms % 1000) as u64);
    string_from_chars(v.as_slice())
}

/// A playback position of `seconds` whole seconds as a clock: "h:mm:ss"
/// from one hour on, "mm:ss" below.
pub open spec fn clock_text(seconds: nat) -> Seq<char> {
    let hours = seconds / 3600;
    let minutes = (seconds % 3600) / 60;
    let secs = seconds % 60;
    if hours > 0 {
        decimal(hours) + seq![':'] + two_digits(minutes) + seq![':'] + two_digits(secs)
    } else {
        two_digits(minutes) + seq![':'] + two_digits(secs)
    }
}

/// `seconds` whole seconds as a clock, e.g. "02:14" or "1:01:01".
pub fn format_clock(seconds: u64) -> (s: String)
    ensures
        s@ == clock_text(seconds as nat),
{
    let hours = seconds / 3600;
    let minutes = (seconds % 3600) / 60;
    let secs = seconds % 60;
    let mut v: Vec<char> = Vec::new();
    if hours > 0 {
        append_decimal(&mut v, hours);
        v.push(':');
    }
    append_two_digits(&mut v, minutes);
    v.push(':');
    append_two_digits(&mut v, secs);
    string_from_chars(v.as_slice())
}

/// One word's timing within a sentence's audio, in milliseconds.
#[derive(Debug, Clone, PartialEq, Eq)]
pub struct WordTiming {
    /// The word.
    pub word: String,
    /// Its start.
    pub start_ms: u64,
    /// Its end.
    pub end_ms: u64,
}

/// One row of the word-timing popup.
#[derive(Debug, Clone, PartialEq, Eq)]
pub struct WordTimingRow {
    /// The word.
    pub word: String,
    /// Its start as "m:ss.mmm".
    pub start_label: String,
    /// Its end as "m:ss.mmm".
    pub end_label: String,
}

/// The word-timing popup's rows: each word with its start and end as
/// timestamps.
pub fn word_timing_rows(words: &[WordTiming]) -> (rows: Vec<WordTimingRow>)
    ensures
        rows@.len() == words@.len(),
        forall|k: int|
            0 <= k < rows@.len() ==> (#[trigger] rows@[k]).word@ == words@[k].word@
                && rows@[k].start_label@ == timestamp_text(words@[k].start_ms as nat)
                && rows@[k].end_label@ == timestamp_text(words@[k].end_ms as nat),
{
    let mut rows: Vec<WordTimingRow> = Vec::new();
    let mut k: usize = 0;
    while k < words.len()
        invariant
            k <= words@.len(),
            rows@.len() == k,
            forall|q: int|
                0 <= q < k ==> (#[trigger] rows@[q]).word@ == words@[q].word@
                    && rows@[q].start_label@ == timestamp_text(words@[q].start_ms as nat)
                    && rows@[q].end_label@ == timestamp_text(words@[q].end_ms as nat),
        decreases words@.len() - k,
    {
        rows.push(
            WordTimingRow {
                word: words[k].word.clone(),
                start_label: format_timestamp(words[k].start_ms as u128),
                end_label: format_timestamp(words[k].end_ms as u128),
            },
        );
        k = k + 1;
    }
    rows
}

/// The digits practice-audio file names are padded to for a batch of
/// `total` sentences: those of `total`, at least four.
pub open spec fn name_width(total: nat) -> nat {
    if decimal(total).len() > 4 {
        decimal(total).len()
    } else {
        4
    }
}

/// The zero-padded width of practice-audio file numbers for `total`
/// sentences.
pub fn digit_count(total: usize) -> (width: usize)
    ensures
        width == name_width(total as nat),
{
    let d = crate::text::decimal_chars(total as u64);
    if d.len() > 4 {
        d.len()
    } else {
        4
    }
}

/// `n` in decimal, zero-padded on the left to `width` digits.
pub open spec fn padded_decimal(n: nat, width: nat) -> Seq<char> {
    let d = decimal(n);
    if d.len() >= width {
        d
    } else {
        Seq::new((width - d.len()) as nat, |i: int| '0') + d
    }
}

/// The practice-audio file name for sentence number `position` of a
/// batch: the number zero-padded to `width`, then ".mp3".
pub fn practice_file_name(position: usize, width: usize) -> (name: String)
    ensures
        name@ == padded_decimal(position as nat, width as nat) + ".mp3"@,
{
    let d = crate::text::decimal_chars(position as u64);
    let mut v: Vec<char> = Vec::new();
    if d.len() < width {
        let pad = width - d.len();
        let mut i: usize = 0;
        while i < pad
            invariant
                i <= pad,
                v@ == Seq::new(i as nat, |q: int| '0'),
            decreases pad - i,
        {
            v.push('0');
            assert(v@ =~= Seq::new((i + 1) as nat, |q: int| '0'));
            i = i + 1;
        }
    }
    append_chars(&mut v, d.as_slice());
    append_str(&mut v, ".mp3");
    string_from_chars(v.as_slice())
}

/// A path as shown in the settings dialog, or empty when unset.
pub fn path_label(path: Option<&str>) -> (label: String)
    ensures
        label@ == (match path {
            Some(p) => p@,
            None => Seq::empty(),
        }),
{
    match path {
        Some(p) => String::from_str(p),
        None => String::new(),
    }
}

/// The configuration file's location as shown, or why there is none.
pub fn config_path_label(path: Option<&str>) -> (label: String)
    ensures
        label@ == (match path {
            Some(p) => p@,
            None => "unavailable (neither XDG_CONFIG_HOME nor HOME is set)"@,
        }),
{
    match path {
        Some(p) => String::from_str(p),
        None => String::from_str("unavailable (neither XDG_CONFIG_HOME nor HOME is set)"),
    }
}

/// The words to practise for one sentence: its timed words paired in order
/// with the analysed words' translations, as far as both lists go.
pub fn practice_words(timings: &[WordTiming], analysis: &WordAnalysis) -> (words: Vec<WordPracticeSpec>)
    ensures
        words@.len() == (if timings@.len() < analysis.words@.len() {
            timings@.len()
        } else {
            analysis.words@.len()
        }),
        forall|k: int|
            0 <= k < words@.len() ==> (#[trigger] words@[k]).translation@
                == analysis.words@[k].translation@ && words@[k].start_ms == timings@[k].start_ms
                && words@[k].end_ms == timings@[k].end_ms,
{
    let n = if timings.len() < analysis.words.len() {
        timings.len()
    } else {
        analysis.words.len()
    };
    let mut words: Vec<WordPracticeSpec> = Vec::new();
    let mut k: usize = 0;
    while k < n
        invariant
            n <= timings@.len(),
            n <= analysis.words@.len(),
            k <= n,
            words@.len() == k,
            forall|q: int|
                0 <= q < k ==> (#[trigger] words@[q]).translation@
                    == analysis.words@[q].translation@ && words@[q].start_ms == timings@[q].start_ms
                    && words@[q].end_ms == timings@[q].end_ms,
        decreases n - k,
    {
        words.push(
            WordPracticeSpec {
                translation: analysis.words[k].translation.clone(),
                start_ms: timings[k].start_ms,
                end_ms: timings[k].end_ms,
            },
        );
        k = k + 1;
    }
    words
}

/// The state of a batch run shown in its panel.
#[derive(Debug, Clone, Copy, PartialEq, Eq, Structural)]
pub enum BatchStatus {
    /// Not run yet.
    Idle,
    /// Running.
    Running,
    /// Finished without errors.
    Done,
    /// Finished with at least one error.
    Error,
}

/// What a batch run's panel shows.
#[derive(Debug, Clone, PartialEq, Eq)]
pub struct BatchView {
    /// The run's state.
    pub status: BatchStatus,
    /// Items done so far.
    pub current: i32,
    /// Items in the run.
    pub total: i32,
    /// The last error, or empty.
    pub error_message: String,
}

/// `n` as the panel's `i32` (wrapping as `as i32` does).
pub open spec fn as_count(n: usize) -> i32 {
    n as i32
}

/// The panel when a run of `total` items starts: running, none done, no
/// error.
pub fn open_batch_running(total: usize) -> (view: BatchView)
    ensures
        view.status == BatchStatus::Running,
        view.current == 0,
        view.total == as_count(total),
        view.error_message@.len() == 0,
{
    BatchView {
        status: BatchStatus::Running,
        current: 0,
        total: #[verifier::truncate] (total as i32),
        error_message: String::new(),
    }
}

/// The panel after `done` of `total` items: running, with those counts;
/// the error message is left as it was.
pub fn apply_batch_progress(view: &mut BatchView, done: usize, total: usize)
    ensures
        final(view).status == BatchStatus::Running,
        final(view).current == as_count(done),
        final(view).total == as_count(total),
        final(view).error_message == old(view).error_message,
{
    view.status = BatchStatus::Running;
    view.current = #[verifier::truncate] (done as i32);
    view.total = #[verifier::truncate] (total as i32);
}

/// The panel when the run ends: done with no error message, or an error
/// with the run's last error message; counts are left as they were.
pub fn apply_batch_result(view: &mut BatchView, result: Result<(), String>)
    ensures
        final(view).current == old(view).current,
        final(view).total == old(view).total,
        match result {
            Ok(()) => final(view).status == BatchStatus::Done && final(view).error_message@.len() == 0,
            Err(m) => final(view).status == BatchStatus::Error && final(view).error_message@ == m@,
        },
{
    match result {
        Ok(()) => {
            view.status = BatchStatus::Done;
            view.error_message = String::new();
        },
        Err(m) => {
            view.status = BatchStatus::Error;
            view.error_message = m;
        },
    }
}

} // verus!
