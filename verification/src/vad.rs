//! Voice-activity segmentation of a continuous 16 kHz mono PCM stream:
//! samples are classified 30 ms frame by frame by WebRTC's speech
//! classifier, and runs of speech are cut into segments at pauses, so each
//! segment can be transcribed on its own.
use vstd::prelude::*;

verus! {

/// Samples per classified frame: 30 ms at 16 kHz, the longest frame the
/// classifier accepts.
pub const FRAME_LEN: usize = 480;

/// The stream's sample rate.
pub const SAMPLE_RATE_HZ: u64 = 16_000;

/// The most samples a segmenter can account for: beyond this, sample
/// positions in milliseconds no longer fit in `u64`.
pub const MAX_STREAM_SAMPLES: u64 = 18_446_744_073_709_551;

/// WebRTC's speech classifier, declared for use in signatures and fields.
#[verifier::external_type_specification]
#[verifier::external_body]
pub struct ExVad(webrtc_vad::Vad);

/// The sample rates the classifier accepts.
#[derive(Debug, Clone, Copy, PartialEq, Eq, Structural)]
pub enum ClassifierRate {
    Rate8kHz,
    Rate16kHz,
    Rate32kHz,
    Rate48kHz,
}

/// The classifier's modes, from least to most inclined to answer "not
/// speech" on borderline frames.
#[derive(Debug, Clone, Copy, PartialEq, Eq, Structural)]
pub enum ClassifierMode {
    Quality,
    LowBitrate,
    Aggressive,
    VeryAggressive,
}

/// The frames `vad` has been given to classify since it was created, in
/// order.
pub uninterp spec fn vad_history(vad: webrtc_vad::Vad) -> Seq<Seq<i16>>;

/// The rate and mode `vad` was created with.
pub uninterp spec fn vad_setup(vad: webrtc_vad::Vad) -> (ClassifierRate, ClassifierMode);

/// The answer (`Vad::is_voice_segment`) of a classifier created with
/// `rate` and `mode` for the last of `frames`, when it has been given
/// exactly `frames`, in order, since it was created.
pub uninterp spec fn vad_answer(rate: ClassifierRate, mode: ClassifierMode, frames: Seq<Seq<i16>>) -> Result<
    bool,
    (),
>;

/// A new classifier (`Vad::new_with_rate_and_mode`), which has been given
/// no frame yet.
#[verifier::external_body]
fn new_vad(rate: ClassifierRate, mode: ClassifierMode) -> (vad: webrtc_vad::Vad)
    ensures
        vad_history(vad) == Seq::<Seq<i16>>::empty(),
        vad_setup(vad) == (rate, mode),
{
    let rate = match rate {
        ClassifierRate::Rate8kHz => webrtc_vad::SampleRate::Rate8kHz,
        ClassifierRate::Rate16kHz => webrtc_vad::SampleRate::Rate16kHz,
        ClassifierRate::Rate32kHz => webrtc_vad::SampleRate::Rate32kHz,
        ClassifierRate::Rate48kHz => webrtc_vad::SampleRate::Rate48kHz,
    };
    let mode = match mode {
        ClassifierMode::Quality => webrtc_vad::VadMode::Quality,
        ClassifierMode::LowBitrate => webrtc_vad::VadMode::LowBitrate,
        ClassifierMode::Aggressive => webrtc_vad::VadMode::Aggressive,
        ClassifierMode::VeryAggressive => webrtc_vad::VadMode::VeryAggressive,
    };
    webrtc_vad::Vad::new_with_rate_and_mode(rate, mode)
}

/// Classifies one frame (`Vad::is_voice_segment`): `Ok(true)` for speech,
/// `Ok(false)` for non-speech, `Err(())` for a frame length the classifier
/// does not accept. The classifier is deterministic: its answer is a
/// function of its rate, mode and every frame it has been given, this one
/// last.
#[verifier::external_body]
fn classify_frame(vad: &mut webrtc_vad::Vad, frame: &[i16]) -> (r: Result<bool, ()>)
    requires
        frame@.len() > 0,
    ensures
        vad_history(*final(vad)) == vad_history(*old(vad)).push(frame@),
        vad_setup(*final(vad)) == vad_setup(*old(vad)),
        r == vad_answer(vad_setup(*old(vad)).0, vad_setup(*old(vad)).1, vad_history(*final(vad))),
{
    vad.is_voice_segment(frame)
}

/// Whether an answer counts as speech: a refused frame does not.
pub open spec fn is_speech(answer: Result<bool, ()>) -> bool {
    match answer {
        Ok(v) => v,
        Err(_) => false,
    }
}

/// The answers, counted as speech or not, of a classifier set up as
/// `setup` for each frame of `history`, given in order.
pub open spec fn answers_of(setup: (ClassifierRate, ClassifierMode), history: Seq<Seq<i16>>) -> Seq<bool> {
    Seq::new(history.len(), |i: int| is_speech(vad_answer(setup.0, setup.1, history.take(i + 1))))
}

/// Giving one more frame adds its answer and leaves the earlier ones.
proof fn lemma_answers_push(setup: (ClassifierRate, ClassifierMode), history: Seq<Seq<i16>>, frame: Seq<i16>)
    ensures
        answers_of(setup, history.push(frame)) == answers_of(setup, history).push(
            is_speech(vad_answer(setup.0, setup.1, history.push(frame))),
        ),
{
    let h = history.push(frame);
    assert forall|i: int| 0 <= i < history.len() implies #[trigger] h.take(i + 1) == history.take(i + 1) by {
        assert(h.take(i + 1) =~= history.take(i + 1));
    }
    assert(h.take(h.len() as int) =~= h);
    assert(answers_of(setup, h) =~= answers_of(setup, history).push(
        is_speech(vad_answer(setup.0, setup.1, h)),
    ));
}

/// The answers for the first `k` frames of a history are those the
/// classifier gave when it had been given just those frames.
pub proof fn lemma_answers_prefix(setup: (ClassifierRate, ClassifierMode), history: Seq<Seq<i16>>, k: int)
    requires
        0 <= k <= history.len(),
    ensures
        answers_of(setup, history).take(k) == answers_of(setup, history.take(k)),
{
    assert forall|i: int| 0 <= i < k implies #[trigger] history.take(k).take(i + 1) == history.take(i + 1) by {
        assert(history.take(k).take(i + 1) =~= history.take(i + 1));
    }
    assert(answers_of(setup, history).take(k) =~= answers_of(setup, history.take(k)));
}

/// `samples` at 16 kHz in whole milliseconds, rounded down.
pub open spec fn ms_of(samples: nat) -> nat {
    samples * 1000 / (SAMPLE_RATE_HZ as nat)
}

/// A sample count at 16 kHz in whole milliseconds, rounded down.
pub fn ms(samples: u64) -> (m: u64)
    requires
        samples <= MAX_STREAM_SAMPLES,
    ensures
        m == ms_of(samples as nat),
{
    samples * 1000 / SAMPLE_RATE_HZ
}

/// A run of speech found in the stream: where it lies, in milliseconds
/// from the start of the stream, and its samples.
#[derive(Debug, Clone, PartialEq, Eq)]
pub struct SpeechSegment {
    /// Start of the segment, in milliseconds from the start of the stream.
    pub start_ms: u64,
    /// End of the segment, in milliseconds from the start of the stream.
    pub end_ms: u64,
    /// The segment's samples.
    pub samples: Vec<i16>,
}

/// The segmenter's state between frames.
#[derive(Debug)]
pub enum SegmentState {
    /// No speech is accumulating.
    Silence,
    /// A candidate speech segment is accumulating: it began at sample
    /// `start_sample`, and the last `trailing_silence_samples` of `samples`
    /// were classified as silence.
    Speech { start_sample: u64, samples: Vec<i16>, trailing_silence_samples: u64 },
}

/// The segment that a candidate becomes once it ends: its trailing silence
/// cut off, and nothing if what remains is shorter than `min_speech_ms`.
pub open spec fn finalized(
    start_sample: nat,
    samples: Seq<i16>,
    trailing: nat,
    min_speech_ms: nat,
) -> Option<(nat, nat, Seq<i16>)> {
    let trim = if trailing < samples.len() {
        trailing
    } else {
        samples.len() as nat
    };
    let kept = samples.take(samples.len() - trim);
    if ms_of(kept.len()) < min_speech_ms {
        None
    } else {
        Some((ms_of(start_sample), ms_of(start_sample + kept.len()), kept))
    }
}

/// Whether `seg` is the segment `(start_ms, end_ms, samples)`.
pub open spec fn segment_is(seg: SpeechSegment, s: (nat, nat, Seq<i16>)) -> bool {
    seg.start_ms == s.0 && seg.end_ms == s.1 && seg.samples@ == s.2
}

/// The value of a [`SegmentState`].
pub enum StateView {
    /// No speech is accumulating.
    Silence,
    /// A candidate segment from `start` with `samples`, the last
    /// `trailing` of them silence.
    Speech { start: nat, samples: Seq<i16>, trailing: nat },
}

/// The value of `st`.
pub open spec fn state_view(st: SegmentState) -> StateView {
    match st {
        SegmentState::Silence => StateView::Silence,
        SegmentState::Speech { start_sample, samples, trailing_silence_samples } => StateView::Speech {
            start: start_sample as nat,
            samples: samples@,
            trailing: trailing_silence_samples as nat,
        },
    }
}

/// One classified frame's effect, at stream position `processed`: from
/// silence, a speech frame starts a candidate segment there; inside a
/// candidate, the frame is appended, the trailing-silence count resets on
/// speech and grows on silence, and once the trailing silence lasts
/// `min_silence_ms` the candidate ends (see [`finalized`]).
pub open spec fn frame_step(
    st: StateView,
    processed: nat,
    frame: Seq<i16>,
    is_voice: bool,
    min_speech_ms: nat,
    min_silence_ms: nat,
) -> (StateView, Option<(nat, nat, Seq<i16>)>) {
    match st {
        StateView::Silence => if is_voice {
            (StateView::Speech { start: processed, samples: frame, trailing: 0 }, None)
        } else {
            (StateView::Silence, None)
        },
        StateView::Speech { start, samples, trailing } => {
            let grown = samples + frame;
            let t = if is_voice {
                0
            } else {
                trailing + frame.len()
            };
            if ms_of(t) >= min_silence_ms {
                (StateView::Silence, finalized(start, grown, t, min_speech_ms))
            } else {
                (StateView::Speech { start, samples: grown, trailing: t }, None)
            }
        },
    }
}

/// The whole frames of `s`, in order; the samples after the last whole
/// frame are left out.
pub open spec fn frames_of(s: Seq<i16>) -> Seq<Seq<i16>>
    decreases s.len(),
{
    if s.len() < FRAME_LEN {
        Seq::empty()
    } else {
        seq![s.take(FRAME_LEN as int)] + frames_of(s.skip(FRAME_LEN as int))
    }
}

/// The samples of `s` after its last whole frame.
pub open spec fn leftover(s: Seq<i16>) -> Seq<i16> {
    s.skip((FRAME_LEN * (s.len() / (FRAME_LEN as nat))) as int)
}

/// The segments in their values: start and end in milliseconds, and the
/// samples.
pub open spec fn seg_views(segs: Seq<SpeechSegment>) -> Seq<(nat, nat, Seq<i16>)> {
    segs.map_values(|s: SpeechSegment| (s.start_ms as nat, s.end_ms as nat, s.samples@))
}

/// Runs [`frame_step`] over `frames` (the first at stream position
/// `processed`, each one frame long) with the classifier's answers
/// `answers`, from state `st`: the state afterwards and the segments
/// completed, in order.
pub open spec fn run_frames(
    st: StateView,
    processed: nat,
    frames: Seq<Seq<i16>>,
    answers: Seq<bool>,
    min_speech_ms: nat,
    min_silence_ms: nat,
) -> (StateView, Seq<(nat, nat, Seq<i16>)>)
    decreases frames.len(),
{
    if frames.len() == 0 {
        (st, Seq::empty())
    } else {
        let n = (frames.len() - 1) as nat;
        let (st0, out0) = run_frames(
            st,
            processed,
            frames.drop_last(),
            answers.take(n as int),
            min_speech_ms,
            min_silence_ms,
        );
        let (st1, o) = frame_step(
            st0,
            (processed + FRAME_LEN * n) as nat,
            frames.last(),
            answers[n as int],
            min_speech_ms,
            min_silence_ms,
        );
        (
            st1,
            match o {
                Some(f) => out0.push(f),
                None => out0,
            },
        )
    }
}

/// One more frame: running over the first `k + 1` frames is running over
/// the first `k`, then one [`frame_step`] with the next answer.
proof fn lemma_run_frames_step(
    st: StateView,
    processed: nat,
    frames: Seq<Seq<i16>>,
    answers: Seq<bool>,
    answer: bool,
    k: nat,
    min_speech_ms: nat,
    min_silence_ms: nat,
)
    requires
        k < frames.len(),
        answers.len() == k,
    ensures
        ({
            let (st0, out0) = run_frames(
                st,
                processed,
                frames.take(k as int),
                answers,
                min_speech_ms,
                min_silence_ms,
            );
            let (st1, o) = frame_step(
                st0,
                (processed + FRAME_LEN * k) as nat,
                frames[k as int],
                answer,
                min_speech_ms,
                min_silence_ms,
            );
            run_frames(
                st,
                processed,
                frames.take((k + 1) as int),
                answers.push(answer),
                min_speech_ms,
                min_silence_ms,
            ) == (
                st1,
                match o {
                    Some(f) => out0.push(f),
                    None => out0,
                },
            )
        }),
{
    let fk = frames.take((k + 1) as int);
    assert(fk.drop_last() =~= frames.take(k as int));
    assert(answers.push(answer).take(k as int) =~= answers);
}

/// The frames of `x + y`, when `x` is whole frames, are those of `x` then
/// those of `y`.
proof fn lemma_frames_of_append(x: Seq<i16>, y: Seq<i16>)
    requires
        x.len() % (FRAME_LEN as nat) == 0,
    ensures
        frames_of(x + y) == frames_of(x) + frames_of(y),
    decreases x.len(),
{
    if x.len() == 0 {
        assert(x + y =~= y);
        assert(frames_of(x) =~= Seq::<Seq<i16>>::empty());
        assert(frames_of(x) + frames_of(y) =~= frames_of(y));
    } else {
        assert(x.len() >= FRAME_LEN);
        assert((x + y).take(FRAME_LEN as int) =~= x.take(FRAME_LEN as int));
        assert((x + y).skip(FRAME_LEN as int) =~= x.skip(FRAME_LEN as int) + y);
        lemma_frames_of_append(x.skip(FRAME_LEN as int), y);
        assert(frames_of(x + y) =~= frames_of(x) + frames_of(y));
    }
}

/// `s` is its whole frames followed by its leftover samples, of which
/// there are fewer than a frame.
proof fn lemma_frames_and_leftover(s: Seq<i16>)
    ensures
        leftover(s).len() < FRAME_LEN,
        frames_of(s).len() == s.len() / (FRAME_LEN as nat),
        forall|k: int|
            0 <= k < frames_of(s).len() ==> #[trigger] frames_of(s)[k] == s.subrange(
                FRAME_LEN * k,
                FRAME_LEN * k + FRAME_LEN,
            ),
        frames_of(s) == frames_of(s.take((FRAME_LEN * (s.len() / (FRAME_LEN as nat))) as int)),
        s == s.take((FRAME_LEN * (s.len() / (FRAME_LEN as nat))) as int) + leftover(s),
    decreases s.len(),
{
    let w = (FRAME_LEN * (s.len() / (FRAME_LEN as nat))) as int;
    assert(s =~= s.take(w) + leftover(s));
    if s.len() < FRAME_LEN {
        assert(w == 0);
        assert(s.take(w) =~= Seq::<i16>::empty());
    } else {
        let r = s.skip(FRAME_LEN as int);
        lemma_frames_and_leftover(r);
        let wr = (FRAME_LEN * (r.len() / (FRAME_LEN as nat))) as int;
        assert(r.len() == s.len() - FRAME_LEN);
        assert(r.len() / (FRAME_LEN as nat) == s.len() / (FRAME_LEN as nat) - 1);
        assert(w == wr + FRAME_LEN);
        assert(leftover(s) =~= leftover(r));
        assert(s.take(w) =~= s.take(FRAME_LEN as int) + r.take(wr));
        assert(frames_of(s.take(w)).len() > 0 ==> true);
        assert(s.take(w).take(FRAME_LEN as int) =~= s.take(FRAME_LEN as int));
        assert(s.take(w).skip(FRAME_LEN as int) =~= r.take(wr));
        assert forall|k: int| 0 <= k < frames_of(s).len() implies #[trigger] frames_of(s)[k]
            == s.subrange(FRAME_LEN * k, FRAME_LEN * k + FRAME_LEN) by {
            if k == 0 {
                assert(s.take(FRAME_LEN as int) =~= s.subrange(0, FRAME_LEN as int));
            } else {
                assert(frames_of(s)[k] == frames_of(r)[k - 1]);
                assert(r.subrange(FRAME_LEN * (k - 1), FRAME_LEN * (k - 1) + FRAME_LEN) =~= s.subrange(
                    FRAME_LEN * k,
                    FRAME_LEN * k + FRAME_LEN,
                ));
            }
        }
    }
}

/// The frames of two pushes, `a` after the carried-over `pending` and
/// then `b` after what `a` left over, are the frames of pushing `a + b`
/// at once, and the same samples are left over.
pub proof fn lemma_pushes_cut_the_same_frames(pending: Seq<i16>, a: Seq<i16>, b: Seq<i16>)
    ensures
        frames_of(pending + a) + frames_of(leftover(pending + a) + b) == frames_of(pending + (a + b)),
        leftover(leftover(pending + a) + b) == leftover(pending + (a + b)),
{
    let s = pending + a;
    lemma_frames_and_leftover(s);
    let w = (FRAME_LEN * (s.len() / (FRAME_LEN as nat))) as int;
    let whole = s.take(w);
    let rest = leftover(s);
    assert(whole.len() % (FRAME_LEN as nat) == 0) by {
        assert(whole.len() == FRAME_LEN * (s.len() / (FRAME_LEN as nat)));
    }
    assert(pending + (a + b) =~= whole + (rest + b));
    lemma_frames_of_append(whole, rest + b);
    lemma_frames_of_append(whole, rest);
    assert(frames_of(rest) =~= Seq::<Seq<i16>>::empty());
    assert(whole + rest =~= s);
    assert(frames_of(s) =~= frames_of(whole));
    let t = rest + b;
    let total = whole + t;
    lemma_frames_and_leftover(t);
    lemma_frames_and_leftover(total);
    let wt = (FRAME_LEN * (t.len() / (FRAME_LEN as nat))) as int;
    let wtot = (FRAME_LEN * (total.len() / (FRAME_LEN as nat))) as int;
    assert(total.len() == whole.len() + t.len());
    assert(total.len() / (FRAME_LEN as nat) == whole.len() / (FRAME_LEN as nat) + t.len() / (FRAME_LEN as nat)) by {
        assert(whole.len() == FRAME_LEN * (s.len() / (FRAME_LEN as nat)));
    }
    assert(wtot == whole.len() + wt);
    assert(leftover(total) =~= leftover(t));
}

/// Pushing `a` and then `b` classifies the same frames, in the same
/// order, as pushing `a + b` at once, and leaves the same samples pending;
/// so, the classifier giving the same answers for those frames, the two
/// pushes reach the same state and complete the same segments, in order,
/// as the one push: how the stream is cut into pushes does not matter.
pub proof fn lemma_chunked_pushes_match_one_push(
    st: StateView,
    processed: nat,
    pending: Seq<i16>,
    a: Seq<i16>,
    b: Seq<i16>,
    answers: Seq<bool>,
    min_speech_ms: nat,
    min_silence_ms: nat,
)
    requires
        answers.len() == frames_of(pending + (a + b)).len(),
    ensures
        frames_of(pending + a) + frames_of(leftover(pending + a) + b) == frames_of(pending + (a + b)),
        leftover(leftover(pending + a) + b) == leftover(pending + (a + b)),
        ({
            let n1 = frames_of(pending + a).len();
            let (st1, out1) = run_frames(
                st,
                processed,
                frames_of(pending + a),
                answers.take(n1 as int),
                min_speech_ms,
                min_silence_ms,
            );
            let (st2, out2) = run_frames(
                st1,
                (processed + FRAME_LEN * n1) as nat,
                frames_of(leftover(pending + a) + b),
                answers.skip(n1 as int),
                min_speech_ms,
                min_silence_ms,
            );
            run_frames(
                st,
                processed,
                frames_of(pending + (a + b)),
                answers,
                min_speech_ms,
                min_silence_ms,
            ) == (st2, out1 + out2)
        }),
{
    lemma_pushes_cut_the_same_frames(pending, a, b);
    let f1 = frames_of(pending + a);
    let f2 = frames_of(leftover(pending + a) + b);
    let n1 = f1.len();
    assert(answers =~= answers.take(n1 as int) + answers.skip(n1 as int));
    lemma_run_frames_append(
        st,
        processed,
        f1,
        f2,
        answers.take(n1 as int),
        answers.skip(n1 as int),
        min_speech_ms,
        min_silence_ms,
    );
}

/// For a classifier set up as `setup` that has been given `history`:
/// pushing `a` and then `b` gives it the same frames as pushing `a + b` at
/// once, so it answers the same, and the two pushes reach the same state
/// and complete the same segments, in order, as the one push (with the same
/// samples left pending). How a stream is cut into pushes does not matter.
pub proof fn lemma_two_pushes_match_one_push(
    setup: (ClassifierRate, ClassifierMode),
    history: Seq<Seq<i16>>,
    st: StateView,
    processed: nat,
    pending: Seq<i16>,
    a: Seq<i16>,
    b: Seq<i16>,
    min_speech_ms: nat,
    min_silence_ms: nat,
)
    ensures
        history + frames_of(pending + a) + frames_of(leftover(pending + a) + b) == history
            + frames_of(pending + (a + b)),
        leftover(leftover(pending + a) + b) == leftover(pending + (a + b)),
        ({
            let f1 = frames_of(pending + a);
            let f2 = frames_of(leftover(pending + a) + b);
            let h1 = history + f1;
            let (st1, out1) = run_frames(
                st,
                processed,
                f1,
                answers_of(setup, h1).skip(history.len() as int),
                min_speech_ms,
                min_silence_ms,
            );
            let (st2, out2) = run_frames(
                st1,
                (processed + FRAME_LEN * f1.len()) as nat,
                f2,
                answers_of(setup, h1 + f2).skip(h1.len() as int),
                min_speech_ms,
                min_silence_ms,
            );
            run_frames(
                st,
                processed,
                frames_of(pending + (a + b)),
                answers_of(setup, history + frames_of(pending + (a + b))).skip(history.len() as int),
                min_speech_ms,
                min_silence_ms,
            ) == (st2, out1 + out2)
        }),
{
    lemma_pushes_cut_the_same_frames(pending, a, b);
    let f1 = frames_of(pending + a);
    let f2 = frames_of(leftover(pending + a) + b);
    let f = frames_of(pending + (a + b));
    let h = history.len() as int;
    let n1 = f1.len() as int;
    let h1 = history + f1;
    assert(h1 + f2 =~= history + f);
    let all = answers_of(setup, history + f);
    let ans = all.skip(h);
    lemma_answers_prefix(setup, history + f, h + n1);
    assert((history + f).take(h + n1) =~= h1);
    assert(answers_of(setup, h1).skip(h) =~= ans.take(n1));
    assert(answers_of(setup, h1 + f2).skip(h1.len() as int) =~= ans.skip(n1));
    lemma_chunked_pushes_match_one_push(
        st,
        processed,
        pending,
        a,
        b,
        ans,
        min_speech_ms,
        min_silence_ms,
    );
}

/// Running over `f1 + f2` (with the answers `a1 + a2`) is running over
/// `f1`, then over `f2` from where that left off: the segments of both
/// runs, in order.
pub proof fn lemma_run_frames_append(
    st: StateView,
    processed: nat,
    f1: Seq<Seq<i16>>,
    f2: Seq<Seq<i16>>,
    a1: Seq<bool>,
    a2: Seq<bool>,
    min_speech_ms: nat,
    min_silence_ms: nat,
)
    requires
        a1.len() == f1.len(),
        a2.len() == f2.len(),
    ensures
        ({
            let (st1, out1) = run_frames(st, processed, f1, a1, min_speech_ms, min_silence_ms);
            let (st2, out2) = run_frames(
                st1,
                (processed + FRAME_LEN * f1.len()) as nat,
                f2,
                a2,
                min_speech_ms,
                min_silence_ms,
            );
            run_frames(st, processed, f1 + f2, a1 + a2, min_speech_ms, min_silence_ms) == (st2, out1
                + out2)
        }),
    decreases f2.len(),
{
    let (st1, out1) = run_frames(st, processed, f1, a1, min_speech_ms, min_silence_ms);
    if f2.len() == 0 {
        assert(f1 + f2 =~= f1);
        assert(a1 + a2 =~= a1);
        assert(out1 + Seq::<(nat, nat, Seq<i16>)>::empty() =~= out1);
    } else {
        let n2 = (f2.len() - 1) as nat;
        lemma_run_frames_append(
            st,
            processed,
            f1,
            f2.drop_last(),
            a1,
            a2.take(n2 as int),
            min_speech_ms,
            min_silence_ms,
        );
        let f = f1 + f2;
        let a = a1 + a2;
        assert(f.drop_last() =~= f1 + f2.drop_last());
        assert(a.take((f.len() - 1) as int) =~= a1 + a2.take(n2 as int));
        assert(f.last() == f2.last());
        assert(a[(f.len() - 1) as int] == a2[n2 as int]);
        assert(processed + FRAME_LEN * (f.len() - 1) == processed + FRAME_LEN * f1.len() + FRAME_LEN * n2) by (nonlinear_arith)
            requires
                f.len() == f1.len() + n2 + 1,
        ;
        let (st3, out3) = run_frames(
            st1,
            (processed + FRAME_LEN * f1.len()) as nat,
            f2.drop_last(),
            a2.take(n2 as int),
            min_speech_ms,
            min_silence_ms,
        );
        let (_, o) = frame_step(
            st3,
            (processed + FRAME_LEN * f1.len() + FRAME_LEN * n2) as nat,
            f2.last(),
            a2[n2 as int],
            min_speech_ms,
            min_silence_ms,
        );
        match o {
            Some(x) => {
                assert((out1 + out3).push(x) =~= out1 + out3.push(x));
            },
            None => {},
        }
    }
}

/// The point, in milliseconds, that the segments completed so far end by
/// and later segments start from: a candidate's start, or with none, the
/// position classification has got to.
pub open spec fn settled_ms(st: StateView, processed: nat) -> nat {
    match st {
        StateView::Speech { start, .. } => ms_of(start),
        StateView::Silence => ms_of(processed),
    }
}

/// A candidate that ends at the classified position, its trailing silence
/// within it.
pub open spec fn state_ok(st: StateView, processed: nat) -> bool {
    match st {
        StateView::Speech { start, samples, trailing } => start + samples.len() == processed
            && trailing <= samples.len(),
        StateView::Silence => true,
    }
}

/// Running over whole frames keeps the candidate at the classified
/// position, never moves the settled point back, and completes only
/// segments that start from the settled point before the run and end by
/// the settled point after it.
proof fn lemma_run_frames_settled(
    st: StateView,
    processed: nat,
    frames: Seq<Seq<i16>>,
    answers: Seq<bool>,
    min_speech_ms: nat,
    min_silence_ms: nat,
)
    requires
        state_ok(st, processed),
        forall|j: int| 0 <= j < frames.len() ==> (#[trigger] frames[j]).len() == FRAME_LEN,
    ensures
        ({
            let (st1, out) = run_frames(st, processed, frames, answers, min_speech_ms, min_silence_ms);
            let p1 = (processed + FRAME_LEN * frames.len()) as nat;
            &&& state_ok(st1, p1)
            &&& settled_ms(st1, p1) >= settled_ms(st, processed)
            &&& forall|i: int|
                0 <= i < out.len() ==> (#[trigger] out[i]).0 >= settled_ms(st, processed) && out[i].1
                    <= settled_ms(st1, p1)
        }),
    decreases frames.len(),
{
    if frames.len() > 0 {
        let n = (frames.len() - 1) as nat;
        let pre = frames.drop_last();
        assert forall|j: int| 0 <= j < pre.len() implies (#[trigger] pre[j]).len() == FRAME_LEN by {
            assert(pre[j] == frames[j]);
        }
        lemma_run_frames_settled(
            st,
            processed,
            pre,
            answers.take(n as int),
            min_speech_ms,
            min_silence_ms,
        );
        let (st0, out0) = run_frames(
            st,
            processed,
            pre,
            answers.take(n as int),
            min_speech_ms,
            min_silence_ms,
        );
        let p0 = (processed + FRAME_LEN * n) as nat;
        let p1 = (processed + FRAME_LEN * frames.len()) as nat;
        let frame = frames.last();
        assert(frame.len() == FRAME_LEN);
        assert(p1 == p0 + FRAME_LEN);
        lemma_ms_of_monotone(p0, p1);
        let (st1, o) = frame_step(
            st0,
            p0,
            frame,
            answers[n as int],
            min_speech_ms,
            min_silence_ms,
        );
        match st0 {
            StateView::Silence => {},
            StateView::Speech { start, samples, trailing } => {
                let grown = samples + frame;
                let t = if answers[n as int] {
                    0
                } else {
                    trailing + frame.len()
                };
                if ms_of(t) >= min_silence_ms {
                    let trim = if t < grown.len() {
                        t
                    } else {
                        grown.len() as nat
                    };
                    lemma_ms_of_monotone(start, p0);
                    lemma_ms_of_monotone((start + (grown.len() - trim)) as nat, p1);
                }
            },
        }
    }
}

/// What every segment the segmenter returns satisfies: it lasts at least
/// `min_speech_ms`, is made of whole 480-sample frames, begins on a frame
/// boundary (a multiple of 30 ms), and its span in
/// milliseconds is exactly the duration of its samples.
pub open spec fn segment_ok(seg: SpeechSegment, min_speech_ms: nat) -> bool {
    &&& ms_of(seg.samples@.len()) >= min_speech_ms
    &&& seg.samples@.len() % 480 == 0
    &&& seg.start_ms as nat % 30 == 0
    &&& seg.end_ms >= seg.start_ms
    &&& seg.end_ms - seg.start_ms == ms_of(seg.samples@.len())
}

/// A whole number of frames lasts exactly 30 ms per frame.
proof fn lemma_ms_of_frames(a: nat)
    ensures
        ms_of(480 * a) == 30 * a,
{
    assert(480 * a * 1000 == 16000 * (30 * a)) by (nonlinear_arith);
    assert((16000 * (30 * a)) / 16000 == 30 * a) by (nonlinear_arith);
}

/// A segment finalized from whole frames at a frame position is well
/// formed and ends no later than its candidate's end.
proof fn lemma_finalized_ok(start: nat, samples: Seq<i16>, trailing: nat, min_speech_ms: nat)
    requires
        start % 480 == 0,
        samples.len() % 480 == 0,
        trailing % 480 == 0,
        trailing <= samples.len(),
    ensures
        finalized(start, samples, trailing, min_speech_ms) matches Some(f) ==> {
            &&& ms_of(f.2.len()) >= min_speech_ms
            &&& f.2.len() % 480 == 0
            &&& f.0 % 30 == 0
            &&& f.1 >= f.0
            &&& f.1 - f.0 == ms_of(f.2.len())
            &&& f.0 == ms_of(start)
            &&& f.1 <= ms_of(start + samples.len())
        },
{
    let kept = (samples.len() - trailing) as nat;
    let a = start / 480;
    let b = kept / 480;
    assert(kept % 480 == 0);
    assert(start == 480 * a);
    assert(kept == 480 * b);
    lemma_ms_of_frames(a);
    lemma_ms_of_frames(b);
    lemma_ms_of_frames(a + b);
    assert(480 * a + 480 * b == 480 * (a + b));
    let c = (samples.len() / 480) as nat;
    assert(samples.len() == 480 * c);
    lemma_ms_of_frames(a + c);
    assert(480 * a + 480 * c == 480 * (a + c));
    assert(b <= c);
}

/// Chops a 16 kHz mono stream into speech segments at pauses. Samples are
/// pushed as they arrive; [`VadSegmenter::flush`] ends the stream.
pub struct VadSegmenter {
    vad: webrtc_vad::Vad,
    frame_buffer: Vec<i16>,
    samples_processed: u64,
    state: SegmentState,
    min_speech_duration_ms: u64,
    min_silence_duration_ms: u64,
    answers: Ghost<Seq<bool>>,
}

impl VadSegmenter {
    /// The classifier's answers so far, one per classified frame, in
    /// order (a frame it refused counts as non-speech).
    pub closed spec fn answers(&self) -> Seq<bool> {
        self.answers@
    }

    /// The frames given to the classifier so far, in order.
    pub closed spec fn history(&self) -> Seq<Seq<i16>> {
        vad_history(self.vad)
    }

    /// The classifier's rate and mode.
    pub closed spec fn setup(&self) -> (ClassifierRate, ClassifierMode) {
        vad_setup(self.vad)
    }

    /// The answers a segmenter has recorded are the classifier's for the
    /// frames it was given, a refused frame counting as non-speech.
    pub proof fn lemma_answers_from_classifier(&self)
        requires
            self.well_formed(),
        ensures
            self.answers() == answers_of(self.setup(), self.history()),
    {
    }

    /// Samples pushed but not yet classified (less than one frame).
    pub closed spec fn pending(&self) -> Seq<i16> {
        self.frame_buffer@
    }

    /// Samples classified so far.
    pub closed spec fn processed(&self) -> nat {
        self.samples_processed as nat
    }

    /// The state between frames.
    pub closed spec fn segment_state(&self) -> SegmentState {
        self.state
    }

    /// The shortest speech kept as a segment, in milliseconds.
    pub closed spec fn min_speech_ms(&self) -> nat {
        self.min_speech_duration_ms as nat
    }

    /// The pause, in milliseconds, that ends a segment.
    pub closed spec fn min_silence_ms(&self) -> nat {
        self.min_silence_duration_ms as nat
    }

    /// The segmenter's invariant: less than a frame pending, whole frames
    /// classified, and a candidate segment made of whole frames that ends
    /// where classification has got to.
    pub closed spec fn well_formed(&self) -> bool {
        &&& self.answers@ == answers_of(vad_setup(self.vad), vad_history(self.vad))
        &&& self.frame_buffer@.len() < FRAME_LEN
        &&& self.samples_processed as nat % (FRAME_LEN as nat) == 0
        &&& self.samples_processed + self.frame_buffer@.len() <= MAX_STREAM_SAMPLES
        &&& match self.state {
            SegmentState::Silence => true,
            SegmentState::Speech { start_sample, samples, trailing_silence_samples } => {
                &&& start_sample as nat % (FRAME_LEN as nat) == 0
                &&& samples@.len() % (FRAME_LEN as nat) == 0
                &&& start_sample + samples@.len() == self.samples_processed
                &&& trailing_silence_samples <= samples@.len()
                &&& trailing_silence_samples as nat % (FRAME_LEN as nat) == 0
            },
        }
    }

    /// Where this segmenter has settled to (see [`settled_ms`]).
    pub open spec fn settled(&self) -> nat {
        settled_ms(state_view(self.segment_state()), self.processed())
    }

    /// Whether this segmenter and `other` are at the same point of the
    /// same stream: same candidate, classified samples, pending samples,
    /// classifier frames and setup, and thresholds.
    pub open spec fn same_progress(&self, other: &Self) -> bool {
        &&& state_view(self.segment_state()) == state_view(other.segment_state())
        &&& self.processed() == other.processed()
        &&& self.pending() == other.pending()
        &&& self.history() == other.history()
        &&& self.setup() == other.setup()
        &&& self.min_speech_ms() == other.min_speech_ms()
        &&& self.min_silence_ms() == other.min_silence_ms()
    }

    /// Whether `after` is this segmenter once `samples` were pushed, the
    /// push completing `completed`, as [`VadSegmenter::push_samples`]
    /// states it: the whole frames of the pending and pushed samples go to
    /// the classifier, and its answers drive [`run_frames`].
    pub open spec fn pushed(&self, samples: Seq<i16>, after: &Self, completed: Seq<SpeechSegment>) -> bool {
        let frames = frames_of(self.pending() + samples);
        &&& after.well_formed()
        &&& after.min_speech_ms() == self.min_speech_ms()
        &&& after.min_silence_ms() == self.min_silence_ms()
        &&& after.setup() == self.setup()
        &&& after.history() == self.history() + frames
        &&& after.pending() == leftover(self.pending() + samples)
        &&& after.processed() == self.processed() + FRAME_LEN * frames.len()
        &&& segments_in_order(completed, self.min_speech_ms(), ms_of(after.processed()))
        &&& run_frames(
            state_view(self.segment_state()),
            self.processed(),
            frames,
            answers_of(self.setup(), after.history()).skip(self.history().len() as int),
            self.min_speech_ms(),
            self.min_silence_ms(),
        ) == (state_view(after.segment_state()), seg_views(completed))
    }

    /// Whether `after` is this segmenter once flushed, the flush returning
    /// `seg`, as [`VadSegmenter::flush`] states it.
    pub open spec fn flushed(&self, after: &Self, seg: Option<SpeechSegment>) -> bool {
        &&& after.well_formed()
        &&& after.segment_state() is Silence
        &&& after.history() == self.history()
        &&& after.setup() == self.setup()
        &&& after.processed() == self.processed()
        &&& after.pending() == Seq::<i16>::empty()
        &&& after.min_speech_ms() == self.min_speech_ms()
        &&& after.min_silence_ms() == self.min_silence_ms()
        &&& match state_view(self.segment_state()) {
            StateView::Silence => seg is None,
            StateView::Speech { start, samples, trailing } => match finalized(
                start,
                samples,
                trailing,
                self.min_speech_ms(),
            ) {
                None => seg is None,
                Some(f) => seg matches Some(x) && segment_is(x, f),
            },
        }
        &&& seg matches Some(x) ==> segment_ok(x, self.min_speech_ms())
    }

    /// A segmenter that keeps speech of at least 250 ms and ends a segment
    /// after 500 ms of silence: long enough that a breath does not split a
    /// sentence, short enough to land near sentence ends.
    pub fn new() -> (s: Self)
        ensures
            s.history().len() == 0,
            s.setup() == (ClassifierRate::Rate16kHz, ClassifierMode::Aggressive),
            s.answers().len() == 0,
            s.well_formed(),
            s.pending().len() == 0,
            s.processed() == 0,
            s.segment_state() is Silence,
            s.min_speech_ms() == 250,
            s.min_silence_ms() == 500,
    {
        Self::with_thresholds(250, 500)
    }

    /// The same as [`VadSegmenter::new`].
    pub fn default() -> (s: Self)
        ensures
            s.history().len() == 0,
            s.setup() == (ClassifierRate::Rate16kHz, ClassifierMode::Aggressive),
            s.answers().len() == 0,
            s.well_formed(),
            s.pending().len() == 0,
            s.processed() == 0,
            s.segment_state() is Silence,
            s.min_speech_ms() == 250,
            s.min_silence_ms() == 500,
    {
        Self::new()
    }

    /// A segmenter that keeps speech of at least `min_speech_duration_ms`
    /// and ends a segment after `min_silence_duration_ms` of silence.
    pub fn with_thresholds(min_speech_duration_ms: u64, min_silence_duration_ms: u64) -> (s: Self)
        ensures
            s.history().len() == 0,
            s.setup() == (ClassifierRate::Rate16kHz, ClassifierMode::Aggressive),
            s.answers().len() == 0,
            s.well_formed(),
            s.pending().len() == 0,
            s.processed() == 0,
            s.segment_state() is Silence,
            s.min_speech_ms() == min_speech_duration_ms,
            s.min_silence_ms() == min_silence_duration_ms,
    {
        let vad = new_vad(ClassifierRate::Rate16kHz, ClassifierMode::Aggressive);
        assert(answers_of(vad_setup(vad), vad_history(vad)) =~= Seq::<bool>::empty());
        VadSegmenter {
            vad,
            frame_buffer: Vec::new(),
            samples_processed: 0,
            state: SegmentState::Silence,
            min_speech_duration_ms,
            min_silence_duration_ms,
            answers: Ghost(Seq::empty()),
        }
    }

    /// Ends a candidate segment: trims its trailing silence and keeps it
    /// if what remains lasts at least the minimum speech duration.
    fn finalize_segment(
        &self,
        start_sample: u64,
        samples: Vec<i16>,
        trailing_silence_samples: u64,
    ) -> (seg: Option<SpeechSegment>)
        requires
            start_sample + samples@.len() <= MAX_STREAM_SAMPLES,
        ensures
            match finalized(
                start_sample as nat,
                samples@,
                trailing_silence_samples as nat,
                self.min_speech_duration_ms as nat,
            ) {
                None => seg is None,
                Some(f) => seg matches Some(s) && segment_is(s, f),
            },
    {
        let ghost all = samples@;
        let mut samples = samples;
        let len = samples.len();
        let trim: usize = if trailing_silence_samples < len as u64 {
            trailing_silence_samples as usize
        } else {
            len
        };
        samples.truncate(len - trim);
        assert(samples@ =~= all.take(len - trim));
        let kept = samples.len() as u64;
        if ms(kept) < self.min_speech_duration_ms {
            return None;
        }
        let end_sample = start_sample + kept;
        Some(SpeechSegment { start_ms: ms(start_sample), end_ms: ms(end_sample), samples })
    }
}


impl VadSegmenter {
    /// Advances the segmenter by one classified frame, returning the
    /// segment it completes, if any (see [`frame_step`]).
    fn process_frame(&mut self, frame: Vec<i16>, is_voice: bool) -> (seg: Option<SpeechSegment>)
        requires
            old(self).well_formed(),
            frame@.len() == FRAME_LEN,
            old(self).samples_processed + FRAME_LEN + old(self).frame_buffer@.len()
                <= MAX_STREAM_SAMPLES,
        ensures
            final(self).well_formed(),
            final(self).samples_processed == old(self).samples_processed + FRAME_LEN,
            final(self).frame_buffer == old(self).frame_buffer,
            final(self).min_speech_duration_ms == old(self).min_speech_duration_ms,
            final(self).min_silence_duration_ms == old(self).min_silence_duration_ms,
            final(self).answers == old(self).answers,
            final(self).vad == old(self).vad,
            ({
                let (st, out) = frame_step(
                    state_view(old(self).state),
                    old(self).samples_processed as nat,
                    frame@,
                    is_voice,
                    old(self).min_speech_duration_ms as nat,
                    old(self).min_silence_duration_ms as nat,
                );
                &&& state_view(final(self).state) == st
                &&& match out {
                    None => seg is None,
                    Some(f) => seg matches Some(s) && segment_is(s, f),
                }
            }),
    {
        let frame_len = frame.len() as u64;
        let ghost fv = frame@;
        let mut state = SegmentState::Silence;
        std::mem::swap(&mut state, &mut self.state);
        let result = match state {
            SegmentState::Silence => {
                if is_voice {
                    self.state = SegmentState::Speech {
                        start_sample: self.samples_processed,
                        samples: frame,
                        trailing_silence_samples: 0,
                    };
                }
                None
            },
            SegmentState::Speech { start_sample, samples, trailing_silence_samples } => {
                let mut samples = samples;
                let ghost before = samples@;
                let mut frame = frame;
                samples.append(&mut frame);
                assert(samples@ =~= before + fv);
                let trailing = if is_voice {
                    0
                } else {
                    trailing_silence_samples + frame_len
                };
                if ms(trailing) >= self.min_silence_duration_ms {
                    self.finalize_segment(start_sample, samples, trailing)
                } else {
                    self.state = SegmentState::Speech {
                        start_sample,
                        samples,
                        trailing_silence_samples: trailing,
                    };
                    None
                }
            },
        };
        self.samples_processed = self.samples_processed + frame_len;
        result
    }
}


/// Milliseconds grow with the sample count.
proof fn lemma_ms_of_monotone(a: nat, b: nat)
    requires
        a <= b,
    ensures
        ms_of(a) <= ms_of(b),
{
    assert(a * 1000 <= b * 1000) by (nonlinear_arith)
        requires
            a <= b,
    ;
    assert((a * 1000) / 16000 <= (b * 1000) / 16000) by (nonlinear_arith)
        requires
            a * 1000 <= b * 1000,
    ;
}

/// Whether `segs` are all well formed, in order and not overlapping, and
/// end no later than `until_ms`.
pub open spec fn segments_in_order(segs: Seq<SpeechSegment>, min_speech_ms: nat, until_ms: nat) -> bool {
    &&& forall|i: int| 0 <= i < segs.len() ==> segment_ok(#[trigger] segs[i], min_speech_ms)
    &&& forall|i: int, j: int| 0 <= i < j < segs.len() ==> segs[i].end_ms <= segs[j].start_ms
    &&& forall|i: int| 0 <= i < segs.len() ==> #[trigger] segs[i].end_ms <= until_ms
}

impl VadSegmenter {
    /// Feeds newly captured samples in, returning the segments they
    /// complete (those followed by a long enough pause). Samples short of a
    /// whole frame wait for the next call, so any chunk size works. The
    /// returned segments are each at least the minimum speech duration
    /// long, exactly as long in milliseconds as their samples, in order and
    /// not overlapping, and end no later than the samples classified so
    /// far.
    #[verifier::rlimit(60)]
    #[verifier::spinoff_prover]
    pub fn push_samples(&mut self, samples: &[i16]) -> (completed: Vec<SpeechSegment>)
        requires
            old(self).well_formed(),
            old(self).processed() + old(self).pending().len() + samples@.len() <= MAX_STREAM_SAMPLES,
        ensures
            final(self).well_formed(),
            final(self).processed() + final(self).pending().len() == old(self).processed() + old(
                self,
            ).pending().len() + samples@.len(),
            final(self).processed() >= old(self).processed(),
            final(self).pending() == (old(self).pending() + samples@).skip(
                final(self).processed() - old(self).processed(),
            ),
            final(self).pending() == leftover(old(self).pending() + samples@),
            final(self).processed() == old(self).processed() + FRAME_LEN * frames_of(
                old(self).pending() + samples@,
            ).len(),
            final(self).min_speech_ms() == old(self).min_speech_ms(),
            final(self).min_silence_ms() == old(self).min_silence_ms(),
            segments_in_order(completed@, old(self).min_speech_ms(), ms_of(final(self).processed())),
            final(self).answers().len() == old(self).answers().len() + frames_of(
                old(self).pending() + samples@,
            ).len(),
            final(self).answers().take(old(self).answers().len() as int) == old(self).answers(),
            final(self).history() == old(self).history() + frames_of(old(self).pending() + samples@),
            final(self).setup() == old(self).setup(),
            run_frames(
                state_view(old(self).segment_state()),
                old(self).processed(),
                frames_of(old(self).pending() + samples@),
                final(self).answers().skip(old(self).answers().len() as int),
                old(self).min_speech_ms(),
                old(self).min_silence_ms(),
            ) == (state_view(final(self).segment_state()), seg_views(completed@)),
            old(self).pushed(samples@, final(self), completed@),
    {
        let ghost total = self.frame_buffer@ + samples@;
        let ghost p0 = self.samples_processed as nat;
        let mut buf: Vec<i16> = Vec::new();
        std::mem::swap(&mut buf, &mut self.frame_buffer);
        buf.extend_from_slice(samples);
        assert(buf@ =~= total.skip(0));
        let ghost a0 = self.answers@;
        let ghost h0 = vad_history(self.vad);
        let ghost setup0 = vad_setup(self.vad);
        let ghost st0 = state_view(self.state);
        let ghost sp = self.min_speech_duration_ms as nat;
        let ghost si = self.min_silence_duration_ms as nat;
        let ghost frames = frames_of(total);
        proof {
            lemma_frames_and_leftover(total);
            assert(frames.take(0) =~= Seq::<Seq<i16>>::empty());
            assert(self.answers@.skip(a0.len() as int) =~= Seq::<bool>::empty());
            assert(self.answers@.take(a0.len() as int) =~= a0);
            assert(seg_views(Seq::<SpeechSegment>::empty()) =~= Seq::<(nat, nat, Seq<i16>)>::empty());
        }
        let mut completed: Vec<SpeechSegment> = Vec::new();
        while buf.len() >= FRAME_LEN
            invariant
                self.well_formed(),
                p0 % (FRAME_LEN as nat) == 0,
                frames == frames_of(total),
                frames.len() == total.len() / (FRAME_LEN as nat),
                forall|j: int|
                    0 <= j < frames.len() ==> #[trigger] frames[j] == total.subrange(
                        FRAME_LEN * j,
                        FRAME_LEN * j + FRAME_LEN,
                    ),
                sp == self.min_speech_duration_ms,
                si == self.min_silence_duration_ms,
                self.answers@.len() == a0.len() + ((self.samples_processed - p0) as nat) / (FRAME_LEN as nat),
                self.answers@.take(a0.len() as int) == a0,
                vad_setup(self.vad) == setup0,
                vad_history(self.vad) == h0 + frames.take(
                    (((self.samples_processed - p0) as nat) / (FRAME_LEN as nat)) as int,
                ),
                run_frames(
                    st0,
                    p0,
                    frames.take((((self.samples_processed - p0) as nat) / (FRAME_LEN as nat)) as int),
                    self.answers@.skip(a0.len() as int),
                    sp,
                    si,
                ) == (state_view(self.state), seg_views(completed@)),
                self.frame_buffer@.len() == 0,
                self.samples_processed as nat >= p0,
                self.samples_processed + buf@.len() == p0 + total.len(),
                p0 + total.len() <= MAX_STREAM_SAMPLES,
                buf@ == total.skip(self.samples_processed - p0),
                self.min_speech_duration_ms == old(self).min_speech_duration_ms,
                self.min_silence_duration_ms == old(self).min_silence_duration_ms,
                segments_in_order(
                    completed@,
                    self.min_speech_duration_ms as nat,
                    ms_of(self.samples_processed as nat),
                ),
                self.state matches SegmentState::Speech { start_sample, .. } ==> completed@.len()
                    > 0 ==> completed@.last().end_ms <= ms_of(start_sample as nat),
            decreases buf@.len(),
        {
            let ghost d = (self.samples_processed - p0) as nat;
            let ghost k = d / (FRAME_LEN as nat);
            let ghost buf0 = buf@;
            let rest = buf.split_off(FRAME_LEN);
            let mut frame = rest;
            std::mem::swap(&mut frame, &mut buf);
            assert(buf@ =~= total.skip(self.samples_processed + FRAME_LEN - p0));
            proof {
                assert(d % (FRAME_LEN as nat) == 0);
                assert(d == 480 * k) by (nonlinear_arith)
                    requires
                        d % 480 == 0,
                        k == d / 480,
                ;
                assert(k + 1 <= total.len() / 480) by (nonlinear_arith)
                    requires
                        d == 480 * k,
                        d + 480 <= total.len(),
                ;
                assert(frame@ =~= buf0.take(FRAME_LEN as int));
                assert(frame@ =~= frames[k as int]);
            }
            let is_voice = match classify_frame(&mut self.vad, frame.as_slice()) {
                Ok(v) => v,
                Err(_) => false,
            };
            let ghost old_answers = self.answers@;
            let ghost old_completed = completed@;
            proof {
                lemma_answers_push(setup0, h0 + frames.take(k as int), frame@);
                assert((h0 + frames.take(k as int)).push(frame@) =~= h0 + frames.take((k + 1) as int));
            }
            self.answers = Ghost(self.answers@.push(is_voice));
            let ghost pre = self.state;
            let ghost pre_processed = self.samples_processed as nat;
            proof {
                match pre {
                    SegmentState::Speech { start_sample, samples, trailing_silence_samples } => {
                        lemma_finalized_ok(
                            start_sample as nat,
                            samples@ + frame@,
                            if is_voice {
                                0
                            } else {
                                (trailing_silence_samples + FRAME_LEN) as nat
                            },
                            self.min_speech_duration_ms as nat,
                        );
                    },
                    SegmentState::Silence => {},
                }
                lemma_ms_of_monotone(pre_processed, (pre_processed + FRAME_LEN) as nat);
            }
            let ghost fv = frame@;
            let seg = self.process_frame(frame, is_voice);
            let ghost sg = seg;
            match seg {
                Some(s) => {
                    let ghost before = completed@;
                    completed.push(s);
                    assert(completed@ == before.push(s));
                },
                None => {},
            }
            proof {
                assert((d + 480) / 480 == k + 1) by (nonlinear_arith)
                    requires
                        d == 480 * k,
                ;
                assert(self.samples_processed - p0 == d + 480);
                assert(self.answers@.skip(a0.len() as int) =~= old_answers.skip(a0.len() as int).push(
                    is_voice,
                ));
                assert(self.answers@.take(a0.len() as int) =~= a0);
                lemma_run_frames_step(
                    st0,
                    p0,
                    frames,
                    old_answers.skip(a0.len() as int),
                    is_voice,
                    k,
                    sp,
                    si,
                );
                match sg {
                    Some(s) => {
                        assert(seg_views(completed@) =~= seg_views(old_completed).push(
                            (s.start_ms as nat, s.end_ms as nat, s.samples@),
                        ));
                    },
                    None => {
                        assert(completed@ == old_completed);
                    },
                }
            }
        }
        proof {
            let d = (self.samples_processed - p0) as nat;
            let k = d / (FRAME_LEN as nat);
            assert(d % (FRAME_LEN as nat) == 0);
            assert(total.len() / 480 == k) by (nonlinear_arith)
                requires
                    d % 480 == 0,
                    k == d / 480,
                    d + buf@.len() == total.len(),
                    buf@.len() < 480,
            ;
            assert(frames.take(k as int) =~= frames);
            assert(leftover(total) =~= buf@);
            assert(d == 480 * k) by (nonlinear_arith)
                requires
                    d % 480 == 0,
                    k == d / 480,
            ;
        }
        std::mem::swap(&mut buf, &mut self.frame_buffer);
        completed
    }

    /// Ends the stream: a candidate segment still in progress (the stream
    /// stopped before a long enough pause) is finalized as it stands;
    /// samples short of a whole frame are dropped, as they cannot be
    /// classified. Afterwards no candidate and no sample remain.
    pub fn flush(&mut self) -> (seg: Option<SpeechSegment>)
        requires
            old(self).well_formed(),
        ensures
            final(self).well_formed(),
            final(self).segment_state() is Silence,
            final(self).answers() == old(self).answers(),
            final(self).history() == old(self).history(),
            final(self).setup() == old(self).setup(),
            final(self).processed() == old(self).processed(),
            final(self).pending() == Seq::<i16>::empty(),
            final(self).min_speech_ms() == old(self).min_speech_ms(),
            final(self).min_silence_ms() == old(self).min_silence_ms(),
            match state_view(old(self).segment_state()) {
                StateView::Silence => seg is None,
                StateView::Speech { start, samples, trailing } => match finalized(
                    start,
                    samples,
                    trailing,
                    old(self).min_speech_ms(),
                ) {
                    None => seg is None,
                    Some(f) => seg matches Some(s) && segment_is(s, f),
                },
            },
            seg matches Some(s) ==> segment_ok(s, old(self).min_speech_ms()) && s.end_ms <= ms_of(
                old(self).processed(),
            ),
            old(self).flushed(final(self), seg),
    {
        self.frame_buffer = Vec::new();
        let mut state = SegmentState::Silence;
        std::mem::swap(&mut state, &mut self.state);
        match state {
            SegmentState::Silence => None,
            SegmentState::Speech { start_sample, samples, trailing_silence_samples } => {
                proof {
                    lemma_finalized_ok(
                        start_sample as nat,
                        samples@,
                        trailing_silence_samples as nat,
                        self.min_speech_duration_ms as nat,
                    );
                }
                self.finalize_segment(start_sample, samples, trailing_silence_samples)
            },
        }
    }
}

/// Pushing a stream in two chunks completes the same segments, in order,
/// as pushing it at once, and leaves the segmenter at the same point: for
/// two segmenters at the same point of a stream (two fresh ones made with
/// the same thresholds among them), `a` pushed `c1 + c2` and `b` pushed
/// `c1`, then `c2`.
pub proof fn lemma_pushes_in_chunks(
    a0: VadSegmenter,
    a1: VadSegmenter,
    sa: Seq<SpeechSegment>,
    b0: VadSegmenter,
    b1: VadSegmenter,
    s1: Seq<SpeechSegment>,
    b2: VadSegmenter,
    s2: Seq<SpeechSegment>,
    c1: Seq<i16>,
    c2: Seq<i16>,
)
    requires
        a0.same_progress(&b0),
        a0.pushed(c1 + c2, &a1, sa),
        b0.pushed(c1, &b1, s1),
        b1.pushed(c2, &b2, s2),
    ensures
        seg_views(sa) == seg_views(s1) + seg_views(s2),
        a1.same_progress(&b2),
{
    lemma_two_pushes_match_one_push(
        a0.setup(),
        a0.history(),
        state_view(a0.segment_state()),
        a0.processed(),
        a0.pending(),
        c1,
        c2,
        a0.min_speech_ms(),
        a0.min_silence_ms(),
    );
    let f1 = frames_of(a0.pending() + c1);
    let f2 = frames_of(leftover(a0.pending() + c1) + c2);
    let f = frames_of(a0.pending() + (c1 + c2));
    assert(f1.len() + f2.len() == f.len()) by {
        assert((a0.history() + f1 + f2).len() == (a0.history() + f).len());
    }
    assert(b2.processed() == a1.processed()) by (nonlinear_arith)
        requires
            b2.processed() == b1.processed() + FRAME_LEN * f2.len(),
            b1.processed() == a0.processed() + FRAME_LEN * f1.len(),
            a1.processed() == a0.processed() + FRAME_LEN * f.len(),
            f1.len() + f2.len() == f.len(),
    ;
}

/// Flushing two segmenters at the same point returns the same segment and
/// leaves them at the same point.
pub proof fn lemma_flush_same_progress(
    a0: VadSegmenter,
    a1: VadSegmenter,
    sa: Option<SpeechSegment>,
    b0: VadSegmenter,
    b1: VadSegmenter,
    sb: Option<SpeechSegment>,
)
    requires
        a0.same_progress(&b0),
        a0.flushed(&a1, sa),
        b0.flushed(&b1, sb),
    ensures
        sa is Some <==> sb is Some,
        sa matches Some(x) ==> sb matches Some(y) && x.start_ms == y.start_ms && x.end_ms == y.end_ms
            && x.samples@ == y.samples@,
        a1.same_progress(&b1),
{
}

/// Whatever is pushed and flushed, segments come out in stream order: a
/// push completes only segments that start at or after where the segmenter
/// had settled and end by where it settles afterwards, and the settled
/// point never moves back; the same holds of a flush, after which nothing
/// is left to flush.
pub proof fn lemma_segments_follow_on(
    s0: VadSegmenter,
    samples: Seq<i16>,
    s1: VadSegmenter,
    completed: Seq<SpeechSegment>,
    f1: VadSegmenter,
    seg: Option<SpeechSegment>,
)
    requires
        s0.well_formed(),
    ensures
        s0.pushed(samples, &s1, completed) ==> {
            &&& s1.settled() >= s0.settled()
            &&& forall|i: int|
                0 <= i < completed.len() ==> (#[trigger] completed[i]).start_ms >= s0.settled()
                    && completed[i].end_ms <= s1.settled()
        },
        s0.flushed(&f1, seg) ==> {
            &&& f1.settled() >= s0.settled()
            &&& f1.settled() == ms_of(s0.processed())
            &&& seg matches Some(x) ==> x.start_ms >= s0.settled() && x.end_ms <= f1.settled()
            &&& forall|f2: VadSegmenter, again: Option<SpeechSegment>|
                #[trigger] f1.flushed(&f2, again) ==> again is None
        },
{
    let st = state_view(s0.segment_state());
    if s0.pushed(samples, &s1, completed) {
        let frames = frames_of(s0.pending() + samples);
        lemma_frames_and_leftover(s0.pending() + samples);
        assert forall|j: int| 0 <= j < frames.len() implies (#[trigger] frames[j]).len()
            == FRAME_LEN by {
            assert(frames[j] == (s0.pending() + samples).subrange(
                FRAME_LEN * j,
                FRAME_LEN * j + FRAME_LEN,
            ));
        }
        lemma_run_frames_settled(
            st,
            s0.processed(),
            frames,
            answers_of(s0.setup(), s1.history()).skip(s0.history().len() as int),
            s0.min_speech_ms(),
            s0.min_silence_ms(),
        );
        assert forall|i: int| 0 <= i < completed.len() implies (#[trigger] completed[i]).start_ms
            >= s0.settled() && completed[i].end_ms <= s1.settled() by {
            let out = run_frames(
                st,
                s0.processed(),
                frames,
                answers_of(s0.setup(), s1.history()).skip(s0.history().len() as int),
                s0.min_speech_ms(),
                s0.min_silence_ms(),
            ).1;
            assert(out == seg_views(completed));
            assert(out[i].0 >= settled_ms(st, s0.processed()));
            assert(out[i].1 <= settled_ms(state_view(s1.segment_state()), s1.processed()));
            assert(seg_views(completed)[i] == (
                completed[i].start_ms as nat,
                completed[i].end_ms as nat,
                completed[i].samples@,
            ));
        }
    }
    if s0.flushed(&f1, seg) {
        match st {
            StateView::Silence => {},
            StateView::Speech { start, samples: cand, trailing } => {
                lemma_ms_of_monotone(start, s0.processed());
                let trim = if trailing < cand.len() {
                    trailing
                } else {
                    cand.len() as nat
                };
                lemma_ms_of_monotone((start + (cand.len() - trim)) as nat, s0.processed());
            },
        }
    }
}

/// The samples of `chunks`, one after another.
pub open spec fn joined_samples(chunks: Seq<Seq<i16>>) -> Seq<i16>
    decreases chunks.len(),
{
    if chunks.len() == 0 {
        Seq::empty()
    } else {
        joined_samples(chunks.drop_last()) + chunks.last()
    }
}

/// The segments of `outs`, one push's after another, in their values.
pub open spec fn joined_segments(outs: Seq<Seq<SpeechSegment>>) -> Seq<(nat, nat, Seq<i16>)>
    decreases outs.len(),
{
    if outs.len() == 0 {
        Seq::empty()
    } else {
        joined_segments(outs.drop_last()) + seg_views(outs.last())
    }
}

/// After the first `k` pushes of a chain that starts at `b0`, the chain
/// stands where one push of those `k` chunks at once would leave it, with
/// the segments of those pushes, in order.
proof fn lemma_chain_matches_one_push(
    b0: VadSegmenter,
    chunks: Seq<Seq<i16>>,
    bs: Seq<VadSegmenter>,
    outs: Seq<Seq<SpeechSegment>>,
    k: int,
)
    requires
        1 <= k <= chunks.len(),
        bs.len() == chunks.len() + 1,
        outs.len() == chunks.len(),
        bs[0] == b0,
        forall|i: int| 0 <= i < chunks.len() ==> #[trigger] bs[i].pushed(chunks[i], &bs[i + 1], outs[i]),
    ensures
        ({
            let f = frames_of(b0.pending() + joined_samples(chunks.take(k)));
            let b = bs[k];
            &&& b.history() == b0.history() + f
            &&& b.setup() == b0.setup()
            &&& b.min_speech_ms() == b0.min_speech_ms()
            &&& b.min_silence_ms() == b0.min_silence_ms()
            &&& b.pending() == leftover(b0.pending() + joined_samples(chunks.take(k)))
            &&& b.processed() == b0.processed() + FRAME_LEN * f.len()
            &&& run_frames(
                state_view(b0.segment_state()),
                b0.processed(),
                f,
                answers_of(b0.setup(), b0.history() + f).skip(b0.history().len() as int),
                b0.min_speech_ms(),
                b0.min_silence_ms(),
            ) == (state_view(b.segment_state()), joined_segments(outs.take(k)))
        }),
    decreases k,
{
    if k == 1 {
        assert(bs[0].pushed(chunks[0], &bs[0int + 1], outs[0]));
        assert(chunks.take(1).drop_last() =~= Seq::<Seq<i16>>::empty());
        assert(joined_samples(Seq::<Seq<i16>>::empty()) == Seq::<i16>::empty());
        assert(chunks.take(1).last() == chunks[0]);
        assert(joined_samples(chunks.take(1)) =~= chunks[0]);
        assert(outs.take(1).drop_last() =~= Seq::<Seq<SpeechSegment>>::empty());
        assert(joined_segments(Seq::<Seq<SpeechSegment>>::empty()) == Seq::<
            (nat, nat, Seq<i16>),
        >::empty());
        assert(outs.take(1).last() == outs[0]);
        assert(joined_segments(outs.take(1)) =~= seg_views(outs[0]));
    } else {
        lemma_chain_matches_one_push(b0, chunks, bs, outs, k - 1);
        let j = joined_samples(chunks.take(k - 1));
        let c = chunks[k - 1];
        assert(chunks.take(k).drop_last() =~= chunks.take(k - 1));
        assert(joined_samples(chunks.take(k)) == j + c);
        assert(outs.take(k).drop_last() =~= outs.take(k - 1));
        assert(joined_segments(outs.take(k)) == joined_segments(outs.take(k - 1)) + seg_views(
            outs[k - 1],
        ));
        assert(bs[k - 1].pushed(chunks[k - 1], &bs[(k - 1) + 1], outs[k - 1]));
        assert((k - 1) + 1 == k);
        lemma_two_pushes_match_one_push(
            b0.setup(),
            b0.history(),
            state_view(b0.segment_state()),
            b0.processed(),
            b0.pending(),
            j,
            c,
            b0.min_speech_ms(),
            b0.min_silence_ms(),
        );
        let f1 = frames_of(b0.pending() + j);
        let f2 = frames_of(leftover(b0.pending() + j) + c);
        let f = frames_of(b0.pending() + (j + c));
        assert(b0.pending() + (j + c) == b0.pending() + joined_samples(chunks.take(k)));
        assert(f1.len() + f2.len() == f.len()) by {
            assert((b0.history() + f1 + f2).len() == (b0.history() + f).len());
        }
        assert(bs[k].processed() == b0.processed() + FRAME_LEN * f.len()) by (nonlinear_arith)
            requires
                bs[k].processed() == bs[k - 1].processed() + FRAME_LEN * f2.len(),
                bs[k - 1].processed() == b0.processed() + FRAME_LEN * f1.len(),
                f1.len() + f2.len() == f.len(),
        ;
    }
}

/// However a stream is cut into pushes, the pushes complete the same
/// segments, in order, as pushing it at once, and leave the segmenter at
/// the same point (so a flush then returns the same segment, see
/// [`lemma_flush_same_progress`]): for `a0` at the same point as `bs[0]`
/// (two fresh segmenters made with the same thresholds among them), `a0`
/// pushed the chunks joined and `bs[i]` pushed `chunks[i]`, giving
/// `bs[i + 1]`.
pub proof fn lemma_pushes_in_any_chunks(
    a0: VadSegmenter,
    a1: VadSegmenter,
    sa: Seq<SpeechSegment>,
    chunks: Seq<Seq<i16>>,
    bs: Seq<VadSegmenter>,
    outs: Seq<Seq<SpeechSegment>>,
)
    requires
        chunks.len() >= 1,
        bs.len() == chunks.len() + 1,
        outs.len() == chunks.len(),
        a0.same_progress(&bs[0]),
        a0.pushed(joined_samples(chunks), &a1, sa),
        forall|i: int| 0 <= i < chunks.len() ==> #[trigger] bs[i].pushed(chunks[i], &bs[i + 1], outs[i]),
    ensures
        seg_views(sa) == joined_segments(outs),
        a1.same_progress(&bs[chunks.len() as int]),
{
    let n = chunks.len() as int;
    lemma_chain_matches_one_push(bs[0], chunks, bs, outs, n);
    assert(chunks.take(n) =~= chunks);
    assert(outs.take(n) =~= outs);
}

} // verus!
