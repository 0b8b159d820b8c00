//! Pronunciation-practice audio for one sentence: for each word, its
//! spoken translation and then its real audio at half, three-quarter and
//! full speed, twice each; then the whole sentence's real audio three
//! times; every piece followed by a pause as long as the piece plus one
//! second. The plan of pieces is computed here; the tools that cut, re-time,
//! speak and concatenate audio are run by the caller, action by action.
use vstd::prelude::*;
use crate::text::{
    append_chars, append_decimal, append_str, append_three_digits, chars_of, decimal,
    decimal_chars_wide, last_line_or, last_stderr_line, lowercase_of, push_string, string_from_chars,
    string_views, three_digits, to_lowercase, trim_string, trim_ws,
};
use crate::tool_run::ToolRun;

verus! {

/// The extra pause after every piece, in milliseconds.
pub const PAUSE_MARGIN_MS: u128 = 1000;

/// How many piece files one word's practice produces.
pub const PIECES_PER_WORD: usize = 11;

/// One word to practise: its translation (spoken first) and its real audio
/// span within the source file, in milliseconds.
#[derive(Debug, Clone, PartialEq, Eq)]
pub struct WordPracticeSpec {
    /// The word's translation, spoken before its audio repeats.
    pub translation: String,
    /// Start of the word's audio within the source file.
    pub start_ms: u64,
    /// End of the word's audio within the source file.
    pub end_ms: u64,
}

/// A slowed-down playback tempo.
#[derive(Debug, Clone, Copy, PartialEq, Eq, Structural)]
pub enum Tempo {
    /// Half speed: the piece lasts twice as long.
    Half,
    /// Three-quarter speed: the piece lasts four thirds as long.
    ThreeQuarters,
}

/// One step of assembling the practice audio. Every step writes one new
/// piece file, numbered `out`.
#[derive(Debug, Clone, Copy, PartialEq, Eq, Structural)]
pub enum PieceAction {
    /// Speak the translation of word number `word` in the request's voice.
    SpeakTranslation { word: usize, out: u32 },
    /// Silence as long as spoken piece `speech`, plus the pause margin.
    PauseAfterSpeech { speech: u32, out: u32 },
    /// Cut `[start_ms, end_ms)` out of the source's audio.
    CutClip { start_ms: u64, end_ms: u64, out: u32 },
    /// Re-time piece `clip` to `tempo`.
    ChangeTempo { clip: u32, tempo: Tempo, out: u32 },
    /// Silence of `duration_ms` milliseconds.
    Pause { duration_ms: u128, out: u32 },
}

/// The practice audio's assembly: the actions to run in order, then the
/// pieces to concatenate in order (by piece number; a piece may repeat).
#[derive(Debug, Clone, PartialEq, Eq)]
pub struct PracticePlan {
    /// The actions, in order.
    pub actions: Vec<PieceAction>,
    /// The piece numbers to concatenate, in order.
    pub pieces: Vec<u32>,
}

/// The length of `[start, end)` in milliseconds (zero when `end` is not
/// after `start`).
pub open spec fn span_ms(start: u64, end: u64) -> nat {
    if end >= start {
        (end - start) as nat
    } else {
        0
    }
}

/// How long a piece of `ms` milliseconds lasts at `tempo`, rounded to the
/// nearest millisecond.
pub open spec fn retimed_ms(ms: nat, tempo: Tempo) -> nat {
    match tempo {
        Tempo::Half => 2 * ms,
        Tempo::ThreeQuarters => (4 * ms + 1) / 3,
    }
}

/// The pause after a piece of `ms` milliseconds.
pub open spec fn pause_ms(ms: nat) -> u128 {
    (ms + PAUSE_MARGIN_MS) as u128
}

/// The piece number `base + k` as stored.
pub open spec fn piece(base: nat, k: nat) -> u32 {
    (base + k) as u32
}

/// The actions for word number `k` of a sentence.
pub open spec fn word_actions(w: WordPracticeSpec, k: nat) -> Seq<PieceAction> {
    let c = 11 * k;
    let d = span_ms(w.start_ms, w.end_ms);
    seq![
        PieceAction::SpeakTranslation { word: k as usize, out: piece(c, 1) },
        PieceAction::PauseAfterSpeech { speech: piece(c, 1), out: piece(c, 2) },
        PieceAction::CutClip { start_ms: w.start_ms, end_ms: w.end_ms, out: piece(c, 3) },
        PieceAction::ChangeTempo { clip: piece(c, 3), tempo: Tempo::Half, out: piece(c, 4) },
        PieceAction::Pause { duration_ms: pause_ms(retimed_ms(d, Tempo::Half)), out: piece(c, 5) },
        PieceAction::Pause { duration_ms: pause_ms(retimed_ms(d, Tempo::Half)), out: piece(c, 6) },
        PieceAction::ChangeTempo { clip: piece(c, 3), tempo: Tempo::ThreeQuarters, out: piece(c, 7) },
        PieceAction::Pause {
            duration_ms: pause_ms(retimed_ms(d, Tempo::ThreeQuarters)),
            out: piece(c, 8),
        },
        PieceAction::Pause {
            duration_ms: pause_ms(retimed_ms(d, Tempo::ThreeQuarters)),
            out: piece(c, 9),
        },
        PieceAction::Pause { duration_ms: pause_ms(d), out: piece(c, 10) },
        PieceAction::Pause { duration_ms: pause_ms(d), out: piece(c, 11) },
    ]
}

/// The pieces word number `k` contributes, in playing order: its spoken
/// translation and pause, then the half-speed, three-quarter-speed and
/// full-speed audio, each twice with a pause after each.
pub open spec fn word_pieces(k: nat) -> Seq<u32> {
    let c = 11 * k;
    seq![
        piece(c, 1),
        piece(c, 2),
        piece(c, 4),
        piece(c, 5),
        piece(c, 4),
        piece(c, 6),
        piece(c, 7),
        piece(c, 8),
        piece(c, 7),
        piece(c, 9),
        piece(c, 3),
        piece(c, 10),
        piece(c, 3),
        piece(c, 11),
    ]
}

/// The actions for all of `words`, in order.
pub open spec fn words_actions(words: Seq<WordPracticeSpec>) -> Seq<PieceAction>
    decreases words.len(),
{
    if words.len() == 0 {
        Seq::empty()
    } else {
        words_actions(words.drop_last()) + word_actions(words.last(), (words.len() - 1) as nat)
    }
}

/// The pieces of the first `n` words, in order.
pub open spec fn words_pieces(n: nat) -> Seq<u32>
    decreases n,
{
    if n == 0 {
        Seq::empty()
    } else {
        words_pieces((n - 1) as nat) + word_pieces((n - 1) as nat)
    }
}

/// The actions for the whole sentence's audio, after `n` words.
pub open spec fn sentence_actions(start_ms: u64, end_ms: u64, n: nat) -> Seq<PieceAction> {
    let c = 11 * n;
    let d = span_ms(start_ms, end_ms);
    seq![
        PieceAction::CutClip { start_ms, end_ms, out: piece(c, 1) },
        PieceAction::Pause { duration_ms: pause_ms(d), out: piece(c, 2) },
        PieceAction::Pause { duration_ms: pause_ms(d), out: piece(c, 3) },
        PieceAction::Pause { duration_ms: pause_ms(d), out: piece(c, 4) },
    ]
}

/// The sentence's pieces after `n` words: its audio three times, each
/// followed by a pause.
pub open spec fn sentence_pieces(n: nat) -> Seq<u32> {
    let c = 11 * n;
    seq![piece(c, 1), piece(c, 2), piece(c, 1), piece(c, 3), piece(c, 1), piece(c, 4)]
}

/// The whole plan's actions.
pub open spec fn plan_actions(words: Seq<WordPracticeSpec>, start_ms: u64, end_ms: u64) -> Seq<
    PieceAction,
> {
    words_actions(words) + sentence_actions(start_ms, end_ms, words.len())
}

/// The whole plan's pieces.
pub open spec fn plan_pieces(n: nat) -> Seq<u32> {
    words_pieces(n) + sentence_pieces(n)
}

/// Whether a plan for `n` words keeps every piece number within `u32`.
pub open spec fn plan_fits(n: nat) -> bool {
    11 * n + 4 <= u32::MAX
}


/// The inputs for one sentence's practice audio.
#[derive(Debug, Clone, PartialEq, Eq)]
pub struct SentencePracticeAudioRequest {
    /// The video or audio file all the times below refer to.
    pub source_path: String,
    /// The sentence's words, in order.
    pub words: Vec<WordPracticeSpec>,
    /// Start of the whole sentence's audio within the source.
    pub sentence_start_ms: u64,
    /// End of the whole sentence's audio within the source.
    pub sentence_end_ms: u64,
    /// The speech voice code each translation is spoken in.
    pub voice: String,
}

/// `ms` re-timed to `tempo`, rounded to the nearest millisecond, plus the
/// pause margin.
fn retimed_pause(ms: u64, tempo: Tempo) -> (p: u128)
    ensures
        p == pause_ms(retimed_ms(ms as nat, tempo)),
{
    let m = ms as u128;
    match tempo {
        Tempo::Half => m * 2 + PAUSE_MARGIN_MS,
        Tempo::ThreeQuarters => (m * 4 + 1) / 3 + PAUSE_MARGIN_MS,
    }
}

/// Appends word number `k`'s actions and pieces.
fn push_word_plan(
    actions: &mut Vec<PieceAction>,
    pieces: &mut Vec<u32>,
    w: &WordPracticeSpec,
    k: usize,
)
    requires
        11 * k + 11 <= u32::MAX,
    ensures
        final(actions)@ == old(actions)@ + word_actions(*w, k as nat),
        final(pieces)@ == old(pieces)@ + word_pieces(k as nat),
{
    let ghost a0 = actions@;
    let ghost p0 = pieces@;
    let c: u32 = 11 * (k as u32);
    let d: u64 = if w.end_ms >= w.start_ms {
        w.end_ms - w.start_ms
    } else {
        0
    };
    let half = retimed_pause(d, Tempo::Half);
    let three_quarters = retimed_pause(d, Tempo::ThreeQuarters);
    let full = (d as u128) + PAUSE_MARGIN_MS;
    actions.push(PieceAction::SpeakTranslation { word: k, out: c + 1 });
    actions.push(PieceAction::PauseAfterSpeech { speech: c + 1, out: c + 2 });
    actions.push(PieceAction::CutClip { start_ms: w.start_ms, end_ms: w.end_ms, out: c + 3 });
    actions.push(PieceAction::ChangeTempo { clip: c + 3, tempo: Tempo::Half, out: c + 4 });
    actions.push(PieceAction::Pause { duration_ms: half, out: c + 5 });
    actions.push(PieceAction::Pause { duration_ms: half, out: c + 6 });
    actions.push(PieceAction::ChangeTempo { clip: c + 3, tempo: Tempo::ThreeQuarters, out: c + 7 });
    actions.push(PieceAction::Pause { duration_ms: three_quarters, out: c + 8 });
    actions.push(PieceAction::Pause { duration_ms: three_quarters, out: c + 9 });
    actions.push(PieceAction::Pause { duration_ms: full, out: c + 10 });
    actions.push(PieceAction::Pause { duration_ms: full, out: c + 11 });
    pieces.push(c + 1);
    pieces.push(c + 2);
    pieces.push(c + 4);
    pieces.push(c + 5);
    pieces.push(c + 4);
    pieces.push(c + 6);
    pieces.push(c + 7);
    pieces.push(c + 8);
    pieces.push(c + 7);
    pieces.push(c + 9);
    pieces.push(c + 3);
    pieces.push(c + 10);
    pieces.push(c + 3);
    pieces.push(c + 11);
    assert(actions@ =~= a0 + word_actions(*w, k as nat));
    assert(pieces@ =~= p0 + word_pieces(k as nat));
}

/// The assembly plan for `request`: for each word, in order, its spoken
/// translation and a pause as long as the speech plus one second, then its
/// real audio at half, three-quarter and full speed, twice each, each
/// followed by a pause as long as that piece plus one second; then the
/// whole sentence's real audio three times, each followed by its pause.
/// Every action writes a new piece file, numbered from 1 in action order.
pub fn practice_plan(request: &SentencePracticeAudioRequest) -> (plan: PracticePlan)
    requires
        plan_fits(request.words@.len() as nat),
    ensures
        plan.actions@ == plan_actions(
            request.words@,
            request.sentence_start_ms,
            request.sentence_end_ms,
        ),
        plan.pieces@ == plan_pieces(request.words@.len() as nat),
{
    let mut actions: Vec<PieceAction> = Vec::new();
    let mut pieces: Vec<u32> = Vec::new();
    let n = request.words.len();
    let mut k: usize = 0;
    while k < n
        invariant
            n == request.words@.len(),
            plan_fits(n as nat),
            k <= n,
            actions@ == words_actions(request.words@.take(k as int)),
            pieces@ == words_pieces(k as nat),
        decreases n - k,
    {
        assert(request.words@.take(k + 1).drop_last() =~= request.words@.take(k as int));
        push_word_plan(&mut actions, &mut pieces, &request.words[k], k);
        k = k + 1;
    }
    assert(request.words@.take(n as int) =~= request.words@);
    let c: u32 = 11 * (n as u32);
    let start = request.sentence_start_ms;
    let end = request.sentence_end_ms;
    let d: u64 = if end >= start {
        end - start
    } else {
        0
    };
    let full = (d as u128) + PAUSE_MARGIN_MS;
    let ghost a0 = actions@;
    let ghost p0 = pieces@;
    actions.push(PieceAction::CutClip { start_ms: start, end_ms: end, out: c + 1 });
    actions.push(PieceAction::Pause { duration_ms: full, out: c + 2 });
    actions.push(PieceAction::Pause { duration_ms: full, out: c + 3 });
    actions.push(PieceAction::Pause { duration_ms: full, out: c + 4 });
    pieces.push(c + 1);
    pieces.push(c + 2);
    pieces.push(c + 1);
    pieces.push(c + 3);
    pieces.push(c + 1);
    pieces.push(c + 4);
    assert(actions@ =~= a0 + sentence_actions(start, end, n as nat));
    assert(pieces@ =~= p0 + sentence_pieces(n as nat));
    PracticePlan { actions, pieces }
}


/// The piece number an action writes.
pub open spec fn action_out(a: PieceAction) -> u32 {
    match a {
        PieceAction::SpeakTranslation { out, .. } => out,
        PieceAction::PauseAfterSpeech { out, .. } => out,
        PieceAction::CutClip { out, .. } => out,
        PieceAction::ChangeTempo { out, .. } => out,
        PieceAction::Pause { out, .. } => out,
    }
}

/// The piece number an action reads, if it reads one.
pub open spec fn action_input(a: PieceAction) -> Option<u32> {
    match a {
        PieceAction::PauseAfterSpeech { speech, .. } => Some(speech),
        PieceAction::ChangeTempo { clip, .. } => Some(clip),
        _ => None,
    }
}

proof fn lemma_words_pieces_len(n: nat)
    ensures
        words_pieces(n).len() == 14 * n,
    decreases n,
{
    if n > 0 {
        lemma_words_pieces_len((n - 1) as nat);
    }
}

proof fn lemma_words_actions_len(words: Seq<WordPracticeSpec>)
    ensures
        words_actions(words).len() == 11 * words.len(),
    decreases words.len(),
{
    if words.len() > 0 {
        lemma_words_actions_len(words.drop_last());
    }
}

/// A sentence of `n` words is assembled from `14 * n + 6` pieces, written
/// by `11 * n + 4` actions: per word, the spoken translation and its pause
/// plus three speeds times two repeats of the audio and its pause; then
/// the sentence's audio three times with its pause.
pub proof fn lemma_plan_sizes(words: Seq<WordPracticeSpec>, start_ms: u64, end_ms: u64)
    ensures
        plan_pieces(words.len() as nat).len() == 14 * words.len() + 6,
        plan_actions(words, start_ms, end_ms).len() == 11 * words.len() + 4,
{
    lemma_words_pieces_len(words.len() as nat);
    lemma_words_actions_len(words);
}

proof fn lemma_words_actions_numbered(words: Seq<WordPracticeSpec>, k: int)
    requires
        11 * words.len() <= u32::MAX,
        0 <= k < 11 * words.len(),
    ensures
        action_out(words_actions(words)[k]) == k + 1,
        action_input(words_actions(words)[k]) matches Some(i) ==> 1 <= i < k + 1,
    decreases words.len(),
{
    let n = words.len();
    lemma_words_actions_len(words.drop_last());
    if k < 11 * (n - 1) {
        lemma_words_actions_numbered(words.drop_last(), k);
    } else {
        let j = k - 11 * (n - 1);
        assert(words_actions(words)[k] == word_actions(words.last(), (n - 1) as nat)[j]);
    }
}

/// Every action of a plan writes a fresh piece: action number `k` (from
/// zero) writes piece `k + 1`, and an action that reads a piece reads one
/// that an earlier action wrote.
pub proof fn lemma_plan_actions_numbered(
    words: Seq<WordPracticeSpec>,
    start_ms: u64,
    end_ms: u64,
    k: int,
)
    requires
        plan_fits(words.len() as nat),
        0 <= k < plan_actions(words, start_ms, end_ms).len(),
    ensures
        action_out(plan_actions(words, start_ms, end_ms)[k]) == k + 1,
        action_input(plan_actions(words, start_ms, end_ms)[k]) matches Some(i) ==> 1 <= i < k + 1,
{
    lemma_words_actions_len(words);
    let n = words.len();
    if k < 11 * n {
        lemma_words_actions_numbered(words, k);
    }
}

proof fn lemma_words_pieces_bounded(n: nat, q: int)
    requires
        0 <= q < words_pieces(n).len(),
        11 * n <= u32::MAX,
    ensures
        1 <= words_pieces(n)[q] <= 11 * n,
    decreases n,
{
    lemma_words_pieces_len((n - 1) as nat);
    if q < 14 * (n - 1) {
        lemma_words_pieces_bounded((n - 1) as nat, q);
    }
}

/// Every piece a plan concatenates is one that one of its actions wrote:
/// the pieces are numbered from 1 up to the number of actions.
pub proof fn lemma_plan_pieces_written(words: Seq<WordPracticeSpec>, start_ms: u64, end_ms: u64, q: int)
    requires
        plan_fits(words.len() as nat),
        0 <= q < plan_pieces(words.len() as nat).len(),
    ensures
        1 <= plan_pieces(words.len() as nat)[q] <= plan_actions(words, start_ms, end_ms).len(),
{
    lemma_plan_sizes(words, start_ms, end_ms);
    lemma_words_pieces_len(words.len() as nat);
    if q < 14 * words.len() {
        lemma_words_pieces_bounded(words.len() as nat, q);
    }
}


proof fn lemma_words_pieces_at(n: nat, k: int, j: int)
    requires
        0 <= k < n,
        0 <= j < 14,
    ensures
        words_pieces(n)[14 * k + j] == word_pieces(k as nat)[j],
    decreases n,
{
    lemma_words_pieces_len((n - 1) as nat);
    if k < n - 1 {
        lemma_words_pieces_at((n - 1) as nat, k, j);
    }
}

proof fn lemma_words_actions_at(words: Seq<WordPracticeSpec>, k: int, j: int)
    requires
        0 <= k < words.len(),
        0 <= j < 11,
    ensures
        words_actions(words)[11 * k + j] == word_actions(words[k], k as nat)[j],
    decreases words.len(),
{
    let n = words.len();
    lemma_words_actions_len(words.drop_last());
    if k < n - 1 {
        lemma_words_actions_at(words.drop_last(), k, j);
        assert(words.drop_last()[k] == words[k]);
    }
}

/// The action of `actions` that writes piece `p` (actions write pieces
/// 1, 2, ... in order, see [`lemma_plan_actions_numbered`]).
pub open spec fn writer_of(actions: Seq<PieceAction>, p: u32) -> PieceAction {
    actions[p - 1]
}

/// How each word is practised, piece by piece: its translation is spoken,
/// with a pause as long as the speech after it; then the word's own audio
/// (the clip cut from its span) is heard at half speed, at three-quarter
/// speed and at full speed, each twice, each time followed by a pause of
/// its own as long as the audio at that speed plus one second. The slowed
/// pieces are re-timings of that clip, and the full-speed pieces are the
/// clip itself.
pub proof fn lemma_word_practice_pieces(
    words: Seq<WordPracticeSpec>,
    start_ms: u64,
    end_ms: u64,
    k: int,
)
    requires
        plan_fits(words.len() as nat),
        0 <= k < words.len(),
    ensures
        ({
            let ps = plan_pieces(words.len() as nat);
            let acts = plan_actions(words, start_ms, end_ms);
            let b = 14 * k;
            let w = words[k];
            let d: nat = if w.end_ms >= w.start_ms { (w.end_ms - w.start_ms) as nat } else { 0 };
            let clip = ps[b + 10];
            &&& writer_of(acts, ps[b]) == PieceAction::SpeakTranslation { word: k as usize, out: ps[b] }
            &&& writer_of(acts, ps[b + 1]) == PieceAction::PauseAfterSpeech {
                speech: ps[b],
                out: ps[b + 1],
            }
            &&& writer_of(acts, clip) == PieceAction::CutClip {
                start_ms: w.start_ms,
                end_ms: w.end_ms,
                out: clip,
            }
            &&& writer_of(acts, ps[b + 2]) == PieceAction::ChangeTempo {
                clip,
                tempo: Tempo::Half,
                out: ps[b + 2],
            }
            &&& ps[b + 4] == ps[b + 2]
            &&& writer_of(acts, ps[b + 6]) == PieceAction::ChangeTempo {
                clip,
                tempo: Tempo::ThreeQuarters,
                out: ps[b + 6],
            }
            &&& ps[b + 8] == ps[b + 6]
            &&& ps[b + 12] == clip
            &&& writer_of(acts, ps[b + 3]) == PieceAction::Pause {
                duration_ms: (2 * d + 1000) as u128,
                out: ps[b + 3],
            }
            &&& writer_of(acts, ps[b + 5]) == PieceAction::Pause {
                duration_ms: (2 * d + 1000) as u128,
                out: ps[b + 5],
            }
            &&& writer_of(acts, ps[b + 7]) == PieceAction::Pause {
                duration_ms: ((4 * d + 1) / 3 + 1000) as u128,
                out: ps[b + 7],
            }
            &&& writer_of(acts, ps[b + 9]) == PieceAction::Pause {
                duration_ms: ((4 * d + 1) / 3 + 1000) as u128,
                out: ps[b + 9],
            }
            &&& writer_of(acts, ps[b + 11]) == PieceAction::Pause {
                duration_ms: (d + 1000) as u128,
                out: ps[b + 11],
            }
            &&& writer_of(acts, ps[b + 13]) == PieceAction::Pause {
                duration_ms: (d + 1000) as u128,
                out: ps[b + 13],
            }
            &&& ps[b + 3] != ps[b + 5] && ps[b + 7] != ps[b + 9] && ps[b + 11] != ps[b + 13]
        }),
{
    let n = words.len() as nat;
    lemma_words_pieces_len(n);
    lemma_words_actions_len(words);
    let c = 11 * k;
    let wp = word_pieces(k as nat);
    let wa = word_actions(words[k], k as nat);
    assert(11 * k + 11 <= u32::MAX);
    assert forall|j: int| 0 <= j < 14 implies #[trigger] plan_pieces(n)[14 * k + j] == wp[j] by {
        lemma_words_pieces_at(n, k, j);
    }
    assert forall|j: int| 0 <= j < 11 implies #[trigger] plan_actions(words, start_ms, end_ms)[c + j]
        == wa[j] by {
        lemma_words_actions_at(words, k, j);
    }
    let ps = plan_pieces(n);
    let acts = plan_actions(words, start_ms, end_ms);
    let b = 14 * k;
    assert(plan_pieces(n)[14 * k + 0] == wp[0]);
    assert(ps[b + 0] == c + 1);
    assert(plan_pieces(n)[14 * k + 1] == wp[1]);
    assert(ps[b + 1] == c + 2);
    assert(plan_pieces(n)[14 * k + 2] == wp[2]);
    assert(ps[b + 2] == c + 4);
    assert(plan_pieces(n)[14 * k + 3] == wp[3]);
    assert(ps[b + 3] == c + 5);
    assert(plan_pieces(n)[14 * k + 4] == wp[4]);
    assert(ps[b + 4] == c + 4);
    assert(plan_pieces(n)[14 * k + 5] == wp[5]);
    assert(ps[b + 5] == c + 6);
    assert(plan_pieces(n)[14 * k + 6] == wp[6]);
    assert(ps[b + 6] == c + 7);
    assert(plan_pieces(n)[14 * k + 7] == wp[7]);
    assert(ps[b + 7] == c + 8);
    assert(plan_pieces(n)[14 * k + 8] == wp[8]);
    assert(ps[b + 8] == c + 7);
    assert(plan_pieces(n)[14 * k + 9] == wp[9]);
    assert(ps[b + 9] == c + 9);
    assert(plan_pieces(n)[14 * k + 10] == wp[10]);
    assert(ps[b + 10] == c + 3);
    assert(plan_pieces(n)[14 * k + 11] == wp[11]);
    assert(ps[b + 11] == c + 10);
    assert(plan_pieces(n)[14 * k + 12] == wp[12]);
    assert(ps[b + 12] == c + 3);
    assert(plan_pieces(n)[14 * k + 13] == wp[13]);
    assert(ps[b + 13] == c + 11);
    assert(plan_actions(words, start_ms, end_ms)[c + 0] == wa[0]);
    assert(plan_actions(words, start_ms, end_ms)[c + 1] == wa[1]);
    assert(plan_actions(words, start_ms, end_ms)[c + 2] == wa[2]);
    assert(plan_actions(words, start_ms, end_ms)[c + 3] == wa[3]);
    assert(plan_actions(words, start_ms, end_ms)[c + 4] == wa[4]);
    assert(plan_actions(words, start_ms, end_ms)[c + 5] == wa[5]);
    assert(plan_actions(words, start_ms, end_ms)[c + 6] == wa[6]);
    assert(plan_actions(words, start_ms, end_ms)[c + 7] == wa[7]);
    assert(plan_actions(words, start_ms, end_ms)[c + 8] == wa[8]);
    assert(plan_actions(words, start_ms, end_ms)[c + 9] == wa[9]);
    assert(plan_actions(words, start_ms, end_ms)[c + 10] == wa[10]);
}

/// After its words, the practice ends with the whole sentence: the clip
/// cut from the sentence's span is heard three times, each time followed
/// by a pause of its own as long as the sentence plus one second.
pub proof fn lemma_sentence_practice_pieces(words: Seq<WordPracticeSpec>, start_ms: u64, end_ms: u64)
    requires
        plan_fits(words.len() as nat),
    ensures
        ({
            let n = words.len() as nat;
            let ps = plan_pieces(n);
            let acts = plan_actions(words, start_ms, end_ms);
            let b = (14 * n) as int;
            let d: nat = if end_ms >= start_ms { (end_ms - start_ms) as nat } else { 0 };
            let clip = ps[b];
            &&& ps.len() == b + 6
            &&& writer_of(acts, clip) == PieceAction::CutClip { start_ms, end_ms, out: clip }
            &&& ps[b + 2] == clip && ps[b + 4] == clip
            &&& writer_of(acts, ps[b + 1]) == PieceAction::Pause {
                duration_ms: (d + 1000) as u128,
                out: ps[b + 1],
            }
            &&& writer_of(acts, ps[b + 3]) == PieceAction::Pause {
                duration_ms: (d + 1000) as u128,
                out: ps[b + 3],
            }
            &&& writer_of(acts, ps[b + 5]) == PieceAction::Pause {
                duration_ms: (d + 1000) as u128,
                out: ps[b + 5],
            }
            &&& ps[b + 1] != ps[b + 3] && ps[b + 3] != ps[b + 5] && ps[b + 1] != ps[b + 5]
        }),
{
    let n = words.len() as nat;
    lemma_words_pieces_len(n);
    lemma_words_actions_len(words);
    let c = (11 * n) as int;
    let b = (14 * n) as int;
    let ps = plan_pieces(n);
    let acts = plan_actions(words, start_ms, end_ms);
    let sp = sentence_pieces(n);
    let sa = sentence_actions(start_ms, end_ms, n);
    assert(ps[b] == sp[0]);
    assert(ps[b + 1] == sp[1]);
    assert(ps[b + 2] == sp[2]);
    assert(ps[b + 3] == sp[3]);
    assert(ps[b + 4] == sp[4]);
    assert(ps[b + 5] == sp[5]);
    assert(acts[c] == sa[0]);
    assert(acts[c + 1] == sa[1]);
    assert(acts[c + 2] == sa[2]);
    assert(acts[c + 3] == sa[3]);
}

/// Errors of assembling a sentence's practice audio. Each message is ready
/// to show as it is.
#[derive(Debug, Clone, PartialEq, Eq)]
pub enum PracticeAudioError {
    /// Reading or writing a file failed.
    IoError(String),
    /// Running an external tool failed: it was not found, exited with an
    /// error, or produced no output file.
    GenerationFailed(String),
}

impl PracticeAudioError {
    /// The error's message.
    pub fn message(&self) -> (m: String)
        ensures
            m@ == (match *self {
                PracticeAudioError::IoError(e) => "failed to read/write file: "@ + e@,
                PracticeAudioError::GenerationFailed(e) => e@,
            }),
    {
        match self {
            PracticeAudioError::IoError(e) => {
                let mut v: Vec<char> = Vec::new();
                append_str(&mut v, "failed to read/write file: ");
                append_str(&mut v, e.as_str());
                string_from_chars(v.as_slice())
            },
            PracticeAudioError::GenerationFailed(e) => e.clone(),
        }
    }
}

/// Speaks text to a WAV file with the external `espeak-ng` binary.
#[derive(Debug, Clone, PartialEq, Eq)]
pub struct EspeakTtsSynthesizer {
    /// Path or bare name of the `espeak-ng` binary.
    pub binary_path: String,
}

impl EspeakTtsSynthesizer {
    /// The synthesizer that runs `espeak-ng` from `PATH`.
    pub fn default() -> (s: Self)
        ensures
            s.binary_path@ == "espeak-ng"@,
    {
        EspeakTtsSynthesizer { binary_path: String::from_str("espeak-ng") }
    }
}

/// Builds one sentence's practice audio with the `ffmpeg` and `espeak-ng`
/// binaries.
#[derive(Debug, Clone, PartialEq, Eq)]
pub struct PracticeAudioBuilder {
    /// Path or bare name of the `ffmpeg` binary.
    pub ffmpeg_path: String,
    /// The speech synthesizer for each word's translation.
    pub tts: EspeakTtsSynthesizer,
}

impl PracticeAudioBuilder {
    /// The builder that runs `ffmpeg` and `espeak-ng` from `PATH`.
    pub fn default() -> (b: Self)
        ensures
            b.ffmpeg_path@ == "ffmpeg"@,
            b.tts.binary_path@ == "espeak-ng"@,
    {
        PracticeAudioBuilder {
            ffmpeg_path: String::from_str("ffmpeg"),
            tts: EspeakTtsSynthesizer::default(),
        }
    }
}

/// A duration of `ms` milliseconds as seconds with three decimals, the way
/// `ffmpeg`'s time options take it (e.g. `"1.500"`).
pub open spec fn seconds_text(ms: nat) -> Seq<char> {
    decimal(ms / 1000) + seq!['.'] + three_digits(ms % 1000)
}

/// `ms` milliseconds as seconds with three decimals.
pub fn format_seconds(ms: u128) -> (s: String)
    ensures
        s@ == seconds_text(ms as nat),
{
    let mut v = decimal_chars_wide(ms / 1000);
    v.push('.');
    append_three_digits(&mut v, (ms % 1000) as u64);
    string_from_chars(v.as_slice())
}

/// The file name of piece number `n`.
pub open spec fn piece_file_name(n: nat) -> Seq<char> {
    "piece-"@ + decimal(n) + ".wav"@
}

/// The file name piece number `n` is written to, e.g. `"piece-3.wav"`.
pub fn piece_name(n: u32) -> (name: String)
    ensures
        name@ == piece_file_name(n as nat),
{
    let mut v: Vec<char> = Vec::new();
    append_str(&mut v, "piece-");
    append_decimal(&mut v, n as u64);
    append_str(&mut v, ".wav");
    string_from_chars(v.as_slice())
}

/// The sample rate of every piece.
pub const SAMPLE_RATE: u64 = 22050;

/// The size of the header of every WAV piece, in bytes.
pub const WAV_HEADER_BYTES: u64 = 44;

/// The pause after a spoken piece whose WAV file is `file_size` bytes
/// long: the audio after the header lasts `(file_size - 44) / 44100`
/// seconds (22050 samples a second, mono, two bytes a sample); that length
/// rounded to the nearest millisecond, plus the pause margin.
pub open spec fn speech_pause(file_size: nat) -> nat {
    let data: nat = if file_size >= WAV_HEADER_BYTES {
        (file_size - WAV_HEADER_BYTES) as nat
    } else {
        0
    };
    ((20 * data + 441) / 882 + PAUSE_MARGIN_MS) as nat
}

/// The pause after a spoken piece of `file_size` bytes, in milliseconds.
pub fn speech_pause_ms(file_size: u64) -> (p: u128)
    ensures
        p == speech_pause(file_size as nat),
{
    let data: u64 = if file_size >= WAV_HEADER_BYTES {
        file_size - WAV_HEADER_BYTES
    } else {
        0
    };
    ((data as u128) * 20 + 441) / 882 + PAUSE_MARGIN_MS
}

/// The tempo filter for `tempo`.
pub open spec fn tempo_filter(tempo: Tempo) -> Seq<char> {
    match tempo {
        Tempo::Half => "atempo=0.5"@,
        Tempo::ThreeQuarters => "atempo=0.75"@,
    }
}

/// `ffmpeg`'s arguments to cut `[start_ms, end_ms)` of `source`'s audio
/// into `out` as 22050 Hz mono 16-bit PCM.
pub open spec fn cut_clip_args(source: Seq<char>, start_ms: nat, end_ms: nat, out: Seq<char>) -> Seq<
    Seq<char>,
> {
    seq![
        "-y"@,
        "-i"@,
        source,
        "-ss"@,
        seconds_text(start_ms),
        "-to"@,
        seconds_text(end_ms),
        "-ar"@,
        "22050"@,
        "-ac"@,
        "1"@,
        "-c:a"@,
        "pcm_s16le"@,
        out,
    ]
}

/// `ffmpeg`'s arguments to cut `[start_ms, end_ms)` of `source`'s audio.
pub fn cut_clip_command(source: &str, start_ms: u64, end_ms: u64, out: &str) -> (args: Vec<String>)
    ensures
        string_views(args@) == cut_clip_args(source@, start_ms as nat, end_ms as nat, out@),
{
    let mut args: Vec<String> = Vec::new();
    push_string(&mut args, "-y");
    push_string(&mut args, "-i");
    push_string(&mut args, source);
    push_string(&mut args, "-ss");
    let start = format_seconds(start_ms as u128);
    push_string(&mut args, start.as_str());
    push_string(&mut args, "-to");
    let end = format_seconds(end_ms as u128);
    push_string(&mut args, end.as_str());
    push_string(&mut args, "-ar");
    push_string(&mut args, "22050");
    push_string(&mut args, "-ac");
    push_string(&mut args, "1");
    push_string(&mut args, "-c:a");
    push_string(&mut args, "pcm_s16le");
    push_string(&mut args, out);
    assert(string_views(args@) =~= cut_clip_args(source@, start_ms as nat, end_ms as nat, out@));
    args
}

/// `ffmpeg`'s arguments to re-time `clip` to `tempo` into `out`.
pub open spec fn tempo_args(clip: Seq<char>, tempo: Tempo, out: Seq<char>) -> Seq<Seq<char>> {
    seq![
        "-y"@,
        "-i"@,
        clip,
        "-af"@,
        tempo_filter(tempo),
        "-ar"@,
        "22050"@,
        "-ac"@,
        "1"@,
        "-c:a"@,
        "pcm_s16le"@,
        out,
    ]
}

/// `ffmpeg`'s arguments to re-time `clip` to `tempo` into `out`.
pub fn tempo_command(clip: &str, tempo: Tempo, out: &str) -> (args: Vec<String>)
    ensures
        string_views(args@) == tempo_args(clip@, tempo, out@),
{
    let mut args: Vec<String> = Vec::new();
    push_string(&mut args, "-y");
    push_string(&mut args, "-i");
    push_string(&mut args, clip);
    push_string(&mut args, "-af");
    match tempo {
        Tempo::Half => push_string(&mut args, "atempo=0.5"),
        Tempo::ThreeQuarters => push_string(&mut args, "atempo=0.75"),
    }
    push_string(&mut args, "-ar");
    push_string(&mut args, "22050");
    push_string(&mut args, "-ac");
    push_string(&mut args, "1");
    push_string(&mut args, "-c:a");
    push_string(&mut args, "pcm_s16le");
    push_string(&mut args, out);
    assert(string_views(args@) =~= tempo_args(clip@, tempo, out@));
    args
}

/// `ffmpeg`'s arguments to write `ms` milliseconds of silence into `out`.
pub open spec fn silence_args(ms: nat, out: Seq<char>) -> Seq<Seq<char>> {
    seq![
        "-y"@,
        "-f"@,
        "lavfi"@,
        "-i"@,
        "anullsrc=r=22050:cl=mono"@,
        "-t"@,
        seconds_text(ms),
        "-c:a"@,
        "pcm_s16le"@,
        out,
    ]
}

/// `ffmpeg`'s arguments to write `ms` milliseconds of silence into `out`.
pub fn silence_command(ms: u128, out: &str) -> (args: Vec<String>)
    ensures
        string_views(args@) == silence_args(ms as nat, out@),
{
    let mut args: Vec<String> = Vec::new();
    push_string(&mut args, "-y");
    push_string(&mut args, "-f");
    push_string(&mut args, "lavfi");
    push_string(&mut args, "-i");
    push_string(&mut args, "anullsrc=r=22050:cl=mono");
    push_string(&mut args, "-t");
    let t = format_seconds(ms);
    push_string(&mut args, t.as_str());
    push_string(&mut args, "-c:a");
    push_string(&mut args, "pcm_s16le");
    push_string(&mut args, out);
    assert(string_views(args@) =~= silence_args(ms as nat, out@));
    args
}

/// `ffmpeg`'s arguments to concatenate the pieces listed in `list` into
/// the MP3 file `out`.
pub open spec fn concat_args(list: Seq<char>, out: Seq<char>) -> Seq<Seq<char>> {
    seq![
        "-y"@,
        "-f"@,
        "concat"@,
        "-safe"@,
        "0"@,
        "-i"@,
        list,
        "-c:a"@,
        "libmp3lame"@,
        "-q:a"@,
        "4"@,
        out,
    ]
}

/// `ffmpeg`'s arguments to concatenate the pieces listed in `list` into
/// `out`.
pub fn concat_command(list: &str, out: &str) -> (args: Vec<String>)
    ensures
        string_views(args@) == concat_args(list@, out@),
{
    let mut args: Vec<String> = Vec::new();
    push_string(&mut args, "-y");
    push_string(&mut args, "-f");
    push_string(&mut args, "concat");
    push_string(&mut args, "-safe");
    push_string(&mut args, "0");
    push_string(&mut args, "-i");
    push_string(&mut args, list);
    push_string(&mut args, "-c:a");
    push_string(&mut args, "libmp3lame");
    push_string(&mut args, "-q:a");
    push_string(&mut args, "4");
    push_string(&mut args, out);
    assert(string_views(args@) =~= concat_args(list@, out@));
    args
}

/// `espeak-ng`'s arguments to speak `text` in `voice` into `out`.
pub open spec fn speak_args(voice: Seq<char>, out: Seq<char>, text: Seq<char>) -> Seq<Seq<char>> {
    seq!["-v"@, voice, "-w"@, out, text]
}

/// `espeak-ng`'s arguments to speak `text` in `voice` into `out`.
pub fn speak_command(voice: &str, out: &str, text: &str) -> (args: Vec<String>)
    ensures
        string_views(args@) == speak_args(voice@, out@, text@),
{
    let mut args: Vec<String> = Vec::new();
    push_string(&mut args, "-v");
    push_string(&mut args, voice);
    push_string(&mut args, "-w");
    push_string(&mut args, out);
    push_string(&mut args, text);
    assert(string_views(args@) =~= speak_args(voice@, out@, text@));
    args
}

/// `path` quoted for a line of `ffmpeg`'s concat list: every `'` becomes
/// `'\''`.
pub open spec fn quote_escaped(path: Seq<char>) -> Seq<char>
    decreases path.len(),
{
    if path.len() == 0 {
        Seq::empty()
    } else {
        quote_escaped(path.drop_last()) + if path.last() == '\'' {
            seq!['\'', '\\', '\'', '\'']
        } else {
            seq![path.last()]
        }
    }
}

/// The concat list line for one piece.
pub open spec fn concat_line(path: Seq<char>) -> Seq<char> {
    "file '"@ + quote_escaped(path) + "'\n"@
}

/// The concat list for `paths`: one `file '<path>'` line per piece, in
/// order.
pub open spec fn concat_list_text(paths: Seq<Seq<char>>) -> Seq<char>
    decreases paths.len(),
{
    if paths.len() == 0 {
        Seq::empty()
    } else {
        concat_list_text(paths.drop_last()) + concat_line(paths.last())
    }
}

/// The contents of `ffmpeg`'s concat list for `paths`, in order.
pub fn concat_list(paths: &Vec<String>) -> (list: String)
    ensures
        list@ == concat_list_text(string_views(paths@)),
{
    let mut v: Vec<char> = Vec::new();
    let mut i: usize = 0;
    while i < paths.len()
        invariant
            i <= paths@.len(),
            v@ == concat_list_text(string_views(paths@).take(i as int)),
        decreases paths@.len() - i,
    {
        assert(string_views(paths@).take(i + 1).drop_last() =~= string_views(paths@).take(
            i as int,
        ));
        let ghost before = v@;
        append_str(&mut v, "file '");
        let cs = chars_of(paths[i].as_str());
        let mut j: usize = 0;
        let ghost mid = v@;
        while j < cs.len()
            invariant
                j <= cs@.len(),
                v@ == mid + quote_escaped(cs@.take(j as int)),
            decreases cs@.len() - j,
        {
            assert(cs@.take(j + 1).drop_last() =~= cs@.take(j as int));
            if cs[j] == '\'' {
                v.push('\'');
                v.push('\\');
                v.push('\'');
                v.push('\'');
            } else {
                v.push(cs[j]);
            }
            assert(v@ =~= mid + quote_escaped(cs@.take(j + 1)));
            j = j + 1;
        }
        assert(cs@.take(cs@.len() as int) =~= cs@);
        append_str(&mut v, "'\n");
        assert(v@ =~= before + concat_line(paths@[i as int]@));
        i = i + 1;
    }
    assert(string_views(paths@).take(paths@.len() as int) =~= string_views(paths@));
    string_from_chars(v.as_slice())
}

/// The error for a failed run of the tool `tool` (at `binary`), which is
/// configured by the environment variable `env_var`.
pub open spec fn tool_failure_text(
    tool: Seq<char>,
    env_var: Seq<char>,
    binary: Seq<char>,
    run: ToolRun,
) -> Option<Seq<char>> {
    match run {
        ToolRun::NotFound => Some(
            tool + " not found (looked for \""@ + binary + "\"). Install "@ + tool
                + " and make sure it's on PATH, or set "@ + env_var
                + " to its location — see docs/src/usage."@,
        ),
        ToolRun::SpawnFailed(e) => Some("failed to run "@ + tool + ": "@ + e@),
        ToolRun::Exited { success, status, stderr } => if success {
            None
        } else {
            Some(tool + " exited with "@ + status@ + ": "@ + last_line_or(stderr@, "no error output"@))
        },
    }
}

/// The outcome of one run of the tool `tool` (at `binary`, configured by
/// `env_var`): success when it ran and exited successfully; otherwise a
/// generation failure explaining a missing binary (and how to install or
/// point to it), a failure to start, or the exit status with the last line
/// of its error output.
pub fn tool_outcome(tool: &str, env_var: &str, binary: &str, run: ToolRun) -> (r: Result<
    (),
    PracticeAudioError,
>)
    ensures
        r is Ok <==> tool_failure_text(tool@, env_var@, binary@, run) is None,
        r matches Err(e) ==> e matches PracticeAudioError::GenerationFailed(m) && tool_failure_text(
            tool@,
            env_var@,
            binary@,
            run,
        ) == Some(m@),
{
    match run {
        ToolRun::NotFound => {
            let mut v: Vec<char> = Vec::new();
            append_str(&mut v, tool);
            append_str(&mut v, " not found (looked for \"");
            append_str(&mut v, binary);
            append_str(&mut v, "\"). Install ");
            append_str(&mut v, tool);
            append_str(&mut v, " and make sure it's on PATH, or set ");
            append_str(&mut v, env_var);
            append_str(&mut v, " to its location — see docs/src/usage.");
            Err(PracticeAudioError::GenerationFailed(string_from_chars(v.as_slice())))
        },
        ToolRun::SpawnFailed(e) => {
            let mut v: Vec<char> = Vec::new();
            append_str(&mut v, "failed to run ");
            append_str(&mut v, tool);
            append_str(&mut v, ": ");
            append_str(&mut v, e.as_str());
            Err(PracticeAudioError::GenerationFailed(string_from_chars(v.as_slice())))
        },
        ToolRun::Exited { success, status, stderr } => {
            if success {
                Ok(())
            } else {
                let mut v: Vec<char> = Vec::new();
                append_str(&mut v, tool);
                append_str(&mut v, " exited with ");
                append_str(&mut v, status.as_str());
                append_str(&mut v, ": ");
                let line = last_stderr_line(stderr.as_str());
                append_str(&mut v, line.as_str());
                Err(PracticeAudioError::GenerationFailed(string_from_chars(v.as_slice())))
            }
        },
    }
}

/// The error when `espeak-ng` ran successfully but left no WAV file at
/// `out`.
pub fn missing_speech_output(out: &str) -> (e: PracticeAudioError)
    ensures
        e matches PracticeAudioError::GenerationFailed(m) && m@
            == "espeak-ng finished but no WAV file was found at "@ + out@,
{
    let mut v: Vec<char> = Vec::new();
    append_str(&mut v, "espeak-ng finished but no WAV file was found at ");
    append_str(&mut v, out);
    PracticeAudioError::GenerationFailed(string_from_chars(v.as_slice()))
}

/// The speech voice code for a lower-case language name, `"en"` for a name
/// not in the table.
pub open spec fn voice_code(name: Seq<char>) -> Seq<char> {
    if name == "english"@ {
        "en"@
    } else if name == "finnish"@ || name == "suomi"@ {
        "fi"@
    } else if name == "swedish"@ {
        "sv"@
    } else if name == "hebrew"@ {
        "he"@
    } else if name == "german"@ {
        "de"@
    } else if name == "french"@ {
        "fr"@
    } else if name == "spanish"@ {
        "es"@
    } else if name == "russian"@ {
        "ru"@
    } else if name == "italian"@ {
        "it"@
    } else if name == "portuguese"@ {
        "pt"@
    } else if name == "dutch"@ {
        "nl"@
    } else if name == "polish"@ {
        "pl"@
    } else if name == "arabic"@ {
        "ar"@
    } else if name == "japanese"@ {
        "ja"@
    } else if name == "chinese"@ {
        "zh"@
    } else if name == "korean"@ {
        "ko"@
    } else {
        "en"@
    }
}

/// Whether `name` spells `word`.
fn spells(name: &Vec<char>, word: &str) -> (b: bool)
    ensures
        b == (name@ == word@),
{
    let w = chars_of(word);
    crate::hebrew_word_merge::chars_equal(name.as_slice(), w.as_slice())
}

/// The speech voice code for an already lower-case, trimmed language name:
/// the known languages' codes, `"en"` for any other name (the speech tool
/// refuses an unknown voice, so an unknown language falls back to one that
/// works).
pub fn voice_for_language_name(name: &str) -> (voice: &'static str)
    ensures
        voice@ == voice_code(name@),
{
    let n = chars_of(name);
    if spells(&n, "english") {
        "en"
    } else if spells(&n, "finnish") || spells(&n, "suomi") {
        "fi"
    } else if spells(&n, "swedish") {
        "sv"
    } else if spells(&n, "hebrew") {
        "he"
    } else if spells(&n, "german") {
        "de"
    } else if spells(&n, "french") {
        "fr"
    } else if spells(&n, "spanish") {
        "es"
    } else if spells(&n, "russian") {
        "ru"
    } else if spells(&n, "italian") {
        "it"
    } else if spells(&n, "portuguese") {
        "pt"
    } else if spells(&n, "dutch") {
        "nl"
    } else if spells(&n, "polish") {
        "pl"
    } else if spells(&n, "arabic") {
        "ar"
    } else if spells(&n, "japanese") {
        "ja"
    } else if spells(&n, "chinese") {
        "zh"
    } else if spells(&n, "korean") {
        "ko"
    } else {
        "en"
    }
}

/// The speech voice code for a language's display name, matched without
/// regard to case or surrounding white space; `"en"` for an unknown name.
pub fn espeak_voice_for_language(display_name: &str) -> (voice: &'static str)
    ensures
        voice@ == voice_code(lowercase_of(trim_ws(display_name@))),
{
    let trimmed = trim_string(display_name);
    let lower = to_lowercase(trimmed.as_str());
    voice_for_language_name(lower.as_str())
}

} // verus!
