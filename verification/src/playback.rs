//! The playback state machine: mode, loaded cues, the cursor into them, and
//! the navigation transitions (next/previous/jump/repeat, syncing the cursor
//! to a playback time). Pure state: interpreting the returned commands
//! against a real player is the caller's job.
use vstd::prelude::*;

verus! {

/// Whether the player runs continuous playback, stops after each cue, or has
/// no video loaded at all.
#[derive(Debug, Clone, Copy, PartialEq, Eq, Structural)]
pub enum PlaybackMode {
    /// Continuous playback, uninterrupted by cue boundaries.
    Normal,
    /// Playback pauses at the end of each cue, waiting for manual navigation.
    SentenceBySentence,
    /// No video loaded: cues come from a linked subtitle or live recording.
    NoVideo,
}

impl Default for PlaybackMode {
    /// A fresh player starts sentence by sentence, the primary
    /// language-learning use case.
    fn default() -> (mode: Self)
        ensures
            mode == PlaybackMode::SentenceBySentence,
    {
        PlaybackMode::SentenceBySentence
    }
}

/// Which source panel is active: a video file, or an audio-only source.
#[derive(Debug, Clone, Copy, PartialEq, Eq, Structural)]
pub enum MediaSource {
    /// A video file, played and seeked through the video player.
    Video,
    /// No video: captured or recorded audio.
    Audio,
}

impl Default for MediaSource {
    /// The video source is the default.
    fn default() -> (source: Self)
        ensures
            source == MediaSource::Video,
    {
        MediaSource::Video
    }
}

/// One subtitle cue: its number in the subtitle file, its time span in
/// milliseconds, its text, and the merged translation line if one is linked.
#[derive(Debug, Clone, PartialEq, Eq)]
pub struct Cue {
    /// The cue's sequence number as written in the subtitle file.
    pub index: u32,
    /// Start of the cue, in milliseconds from the start of the media.
    pub start_ms: u64,
    /// End of the cue, in milliseconds from the start of the media.
    pub end_ms: u64,
    /// The cue's (original-language) text.
    pub text: String,
    /// The translated line merged in from a translation subtitle, if any.
    pub translation: Option<String>,
}

/// A directive to seek the playhead to `start_ms` and stay paused there.
#[derive(Debug, Clone, Copy, PartialEq, Eq, Structural)]
pub struct SeekCommand {
    /// Timestamp to seek to, in milliseconds.
    pub start_ms: u64,
}

/// A directive to play from `start_ms` through `end_ms` and pause there.
#[derive(Debug, Clone, Copy, PartialEq, Eq, Structural)]
pub struct PlaySpanCommand {
    /// Timestamp to start playback from, in milliseconds.
    pub start_ms: u64,
    /// Timestamp at which playback should pause, in milliseconds.
    pub end_ms: u64,
}

/// The player's full observable state: mode, loaded cues, the cursor into
/// them, and whether translations are shown.
#[derive(Debug, Clone)]
pub struct PlayerState {
    /// Current playback mode.
    pub mode: PlaybackMode,
    /// The subtitle cues currently loaded.
    pub cues: Vec<Cue>,
    /// Index into `cues` of the cue in focus, if any.
    pub current_cue_index: Option<usize>,
    /// Whether the translation text is shown alongside the original.
    pub show_translation: bool,
}

/// `cues` are ordered by start time (non-decreasing), as a parsed subtitle
/// file's cues are.
pub open spec fn sorted_by_start(cues: Seq<Cue>) -> bool {
    forall|i: int, j: int| 0 <= i <= j < cues.len() ==> cues[i].start_ms <= cues[j].start_ms
}

/// `p` splits `cues` at `time`: the cue before `p` (if any) has started by
/// `time`, and the cue at `p` (if any) starts after it.
pub open spec fn is_time_boundary(cues: Seq<Cue>, time: u64, p: int) -> bool {
    &&& 0 <= p <= cues.len()
    &&& (p == 0 || cues[p - 1].start_ms <= time)
    &&& (p == cues.len() || cues[p].start_ms > time)
}

/// The number of cues whose start is at or before `time`.
pub open spec fn started_count(cues: Seq<Cue>, time: u64) -> nat {
    cues.filter(|c: Cue| c.start_ms <= time).len()
}

/// The command that seeks to the start of `cue`.
pub open spec fn seek_to(cue: Cue) -> SeekCommand {
    SeekCommand { start_ms: cue.start_ms }
}

/// The cursor points at a loaded cue, or there is none.
pub open spec fn cursor_in_range(cues: Seq<Cue>, cursor: Option<usize>) -> bool {
    match cursor {
        Some(i) => i < cues.len(),
        None => true,
    }
}

/// Moving to the next cue: from cue `i` with a cue after it, the cursor
/// moves to `i + 1` and the command seeks to that cue's start; otherwise
/// nothing moves and there is no command.
pub open spec fn next_step(cues: Seq<Cue>, cursor: Option<usize>) -> (Option<usize>, Option<SeekCommand>) {
    match cursor {
        Some(i) => if i + 1 < cues.len() {
            (Some((i + 1) as usize), Some(seek_to(cues[i + 1])))
        } else {
            (cursor, None)
        },
        None => (cursor, None),
    }
}

/// Moving to the previous cue: from cue `i > 0` with cue `i - 1` loaded,
/// the cursor moves to `i - 1` and the command seeks to that cue's start;
/// otherwise nothing moves and there is no command.
pub open spec fn previous_step(cues: Seq<Cue>, cursor: Option<usize>) -> (
    Option<usize>,
    Option<SeekCommand>,
) {
    match cursor {
        Some(i) => if 0 < i && i - 1 < cues.len() {
            (Some((i - 1) as usize), Some(seek_to(cues[i - 1])))
        } else {
            (cursor, None)
        },
        None => (cursor, None),
    }
}

/// Jumping to cue `index`: when it is loaded the cursor moves there and
/// the command seeks to its start; otherwise nothing moves and there is
/// no command.
pub open spec fn jump_step(cues: Seq<Cue>, cursor: Option<usize>, index: usize) -> (
    Option<usize>,
    Option<SeekCommand>,
) {
    if index < cues.len() {
        (Some(index), Some(seek_to(cues[index as int])))
    } else {
        (cursor, None)
    }
}

/// Repeating the cue in focus: in sentence-by-sentence mode, the command
/// to play the cue under the cursor from its start to its end; `None`
/// otherwise or when no loaded cue is in focus.
pub open spec fn repeat_command(mode: PlaybackMode, cues: Seq<Cue>, cursor: Option<usize>) -> Option<
    PlaySpanCommand,
> {
    if mode == PlaybackMode::SentenceBySentence {
        match cursor {
            Some(i) => if i < cues.len() {
                Some(PlaySpanCommand { start_ms: cues[i as int].start_ms, end_ms: cues[i as int].end_ms })
            } else {
                None
            },
            None => None,
        }
    } else {
        None
    }
}

/// On cues ordered by start time, the cursor after syncing to `time`: the
/// last cue that has started, or none.
pub open spec fn synced_cursor(cues: Seq<Cue>, time: u64) -> Option<usize> {
    let n = started_count(cues, time);
    if n == 0 {
        None
    } else {
        Some((n - 1) as usize)
    }
}

impl PlayerState {
    /// A fresh state: sentence-by-sentence mode, no cues, no cursor,
    /// translation hidden.
    pub fn new() -> (state: Self)
        ensures
            state.mode == PlaybackMode::SentenceBySentence,
            state.cues@.len() == 0,
            state.current_cue_index is None,
            !state.show_translation,
    {
        PlayerState {
            mode: PlaybackMode::SentenceBySentence,
            cues: Vec::new(),
            current_cue_index: None,
            show_translation: false,
        }
    }

    /// Switches to `mode`, touching nothing else.
    pub fn set_mode(&mut self, mode: PlaybackMode)
        ensures
            final(self).mode == mode,
            final(self).cues@ == old(self).cues@,
            final(self).current_cue_index == old(self).current_cue_index,
            final(self).show_translation == old(self).show_translation,
    {
        self.mode = mode;
    }

    /// Replaces the loaded cues and resets the cursor to the first cue, or
    /// to `None` if `cues` is empty.
    pub fn set_cues(&mut self, cues: Vec<Cue>)
        ensures
            final(self).cues@ == cues@,
            final(self).current_cue_index == (if cues@.len() == 0 {
                None::<usize>
            } else {
                Some(0usize)
            }),
            final(self).mode == old(self).mode,
            final(self).show_translation == old(self).show_translation,
    {
        self.current_cue_index = if cues.len() == 0 { None } else { Some(0) };
        self.cues = cues;
    }

    /// Flips whether translation text is shown.
    pub fn toggle_translation(&mut self)
        ensures
            final(self).show_translation == !old(self).show_translation,
            final(self).mode == old(self).mode,
            final(self).cues@ == old(self).cues@,
            final(self).current_cue_index == old(self).current_cue_index,
    {
        self.show_translation = !self.show_translation;
    }

    /// Moves the cursor to the cue whose start is the latest one at or
    /// before `time_ms` (`None` if no cue has started yet or none are
    /// loaded), and reports whether the cursor changed. On cues ordered by
    /// start time this is exactly the last cue that has started; on other
    /// input the new cursor still sits at a split point between a started
    /// cue and a not-yet-started one.
    pub fn sync_cue_to_time(&mut self, time_ms: u64) -> (changed: bool)
        ensures
            final(self).cues@ == old(self).cues@,
            final(self).mode == old(self).mode,
            final(self).show_translation == old(self).show_translation,
            is_time_boundary(
                old(self).cues@,
                time_ms,
                match final(self).current_cue_index {
                    Some(i) => i + 1,
                    None => 0,
                },
            ),
            sorted_by_start(old(self).cues@) ==> final(self).current_cue_index == synced_cursor(
                old(self).cues@,
                time_ms,
            ),
            changed == (final(self).current_cue_index != old(self).current_cue_index),
    {
        let started = partition_point_by_start(&self.cues, time_ms);
        proof {
            if sorted_by_start(self.cues@) {
                lemma_boundary_is_started_count(self.cues@, time_ms, started as int);
            }
        }
        let new_index: Option<usize> = if started == 0 { None } else { Some(started - 1) };
        let changed = !option_usize_eq(new_index, self.current_cue_index);
        self.current_cue_index = new_index;
        changed
    }

    /// Advances the cursor to the next cue and returns the command seeking
    /// to its start, or `None` (cursor untouched) if no cue is in focus or
    /// the cursor is already on the last cue.
    pub fn next_cue(&mut self) -> (command: Option<SeekCommand>)
        ensures
            final(self).cues@ == old(self).cues@,
            final(self).mode == old(self).mode,
            final(self).show_translation == old(self).show_translation,
            (final(self).current_cue_index, command) == next_step(
                old(self).cues@,
                old(self).current_cue_index,
            ),
    {
        match self.current_cue_index {
            Some(i) => {
                if i < self.cues.len() && i + 1 < self.cues.len() {
                    let next_index = i + 1;
                    let start_ms = self.cues[next_index].start_ms;
                    self.current_cue_index = Some(next_index);
                    Some(SeekCommand { start_ms })
                } else {
                    None
                }
            },
            None => None,
        }
    }

    /// Moves the cursor to the previous cue and returns the command seeking
    /// to its start, or `None` (cursor untouched) if no cue is in focus,
    /// the cursor is on the first cue, or the cue before it is not loaded.
    pub fn previous_cue(&mut self) -> (command: Option<SeekCommand>)
        ensures
            final(self).cues@ == old(self).cues@,
            final(self).mode == old(self).mode,
            final(self).show_translation == old(self).show_translation,
            (final(self).current_cue_index, command) == previous_step(
                old(self).cues@,
                old(self).current_cue_index,
            ),
    {
        match self.current_cue_index {
            Some(i) => {
                if i > 0 && i - 1 < self.cues.len() {
                    let previous_index = i - 1;
                    let start_ms = self.cues[previous_index].start_ms;
                    self.current_cue_index = Some(previous_index);
                    Some(SeekCommand { start_ms })
                } else {
                    None
                }
            },
            None => None,
        }
    }

    /// The command to play the cue in focus from its start to its end,
    /// without moving the cursor. `None` outside sentence-by-sentence mode
    /// (there playback is a plain play/pause toggle instead) and when no
    /// loaded cue is in focus.
    pub fn repeat_current_cue(&self) -> (command: Option<PlaySpanCommand>)
        ensures
            command == repeat_command(self.mode, self.cues@, self.current_cue_index),
    {
        if self.mode != PlaybackMode::SentenceBySentence {
            return None;
        }
        match self.current_cue_index {
            Some(i) => {
                if i < self.cues.len() {
                    Some(PlaySpanCommand { start_ms: self.cues[i].start_ms, end_ms: self.cues[i].end_ms })
                } else {
                    None
                }
            },
            None => None,
        }
    }

    /// Moves the cursor directly to `index` and returns the command seeking
    /// to that cue's start; `None`, cursor untouched, if `index` is out of
    /// range.
    pub fn jump_to_cue(&mut self, index: usize) -> (command: Option<SeekCommand>)
        ensures
            final(self).cues@ == old(self).cues@,
            final(self).mode == old(self).mode,
            final(self).show_translation == old(self).show_translation,
            (final(self).current_cue_index, command) == jump_step(
                old(self).cues@,
                old(self).current_cue_index,
                index,
            ),
    {
        if index < self.cues.len() {
            let start_ms = self.cues[index].start_ms;
            self.current_cue_index = Some(index);
            Some(SeekCommand { start_ms })
        } else {
            None
        }
    }

    /// Appends live-transcribed `cues` after the loaded ones; if nothing was
    /// in focus and something was appended, the cursor moves to the first
    /// appended cue.
    pub fn push_cues(&mut self, cues: Vec<Cue>)
        requires
            old(self).cues@.len() + cues@.len() <= usize::MAX,
        ensures
            final(self).cues@ == old(self).cues@ + cues@,
            final(self).mode == old(self).mode,
            final(self).show_translation == old(self).show_translation,
            final(self).current_cue_index == (if old(self).current_cue_index is None
                && cues@.len() > 0 {
                Some(old(self).cues@.len() as usize)
            } else {
                old(self).current_cue_index
            }),
    {
        let old_len = self.cues.len();
        let mut cues = cues;
        let added = cues.len();
        self.cues.append(&mut cues);
        if self.current_cue_index.is_none() && added > 0 {
            self.current_cue_index = Some(old_len);
        }
    }
}

/// Equality of two optional cursors.
fn option_usize_eq(a: Option<usize>, b: Option<usize>) -> (eq: bool)
    ensures
        eq == (a == b),
{
    match (a, b) {
        (Some(x), Some(y)) => x == y,
        (None, None) => true,
        _ => false,
    }
}

/// Binary search for a split point of `cues` at `time_ms`: the returned
/// index is preceded by a started cue (or is 0) and followed by a
/// not-yet-started one (or is the length).
fn partition_point_by_start(cues: &Vec<Cue>, time_ms: u64) -> (p: usize)
    ensures
        is_time_boundary(cues@, time_ms, p as int),
{
    let mut lo: usize = 0;
    let mut hi: usize = cues.len();
    while lo < hi
        invariant
            lo <= hi <= cues@.len(),
            lo == 0 || cues@[lo - 1].start_ms <= time_ms,
            hi == cues@.len() || cues@[hi as int].start_ms > time_ms,
        decreases hi - lo,
    {
        let mid = lo + (hi - lo) / 2;
        if cues[mid].start_ms <= time_ms {
            lo = mid + 1;
        } else {
            hi = mid;
        }
    }
    lo
}

/// On cues ordered by start time, the only split point at `time` is the
/// number of cues that have started by then.
pub proof fn lemma_boundary_is_started_count(cues: Seq<Cue>, time: u64, p: int)
    requires
        sorted_by_start(cues),
        is_time_boundary(cues, time, p),
    ensures
        p == started_count(cues, time),
{
    let pred = |c: Cue| c.start_ms <= time;
    let front = cues.take(p);
    let back = cues.skip(p);
    assert forall|i: int| 0 <= i < front.len() implies pred(front[i]) by {
        assert(cues[i].start_ms <= cues[p - 1].start_ms);
    }
    assert forall|i: int| 0 <= i < back.len() implies !pred(back[i]) by {
        assert(cues[p].start_ms <= cues[p + i].start_ms);
    }
    lemma_filter_all(front, pred);
    back.lemma_all_neg_filter_empty(pred);
    assert(cues =~= front + back);
    Seq::filter_distributes_over_add(front, back, pred);
}

/// Filtering keeps everything when every element satisfies the predicate.
proof fn lemma_filter_all(s: Seq<Cue>, pred: spec_fn(Cue) -> bool)
    requires
        forall|i: int| 0 <= i < s.len() ==> pred(s[i]),
    ensures
        s.filter(pred) =~= s,
    decreases s.len(),
{
    reveal(Seq::filter);
    if s.len() > 0 {
        lemma_filter_all(s.drop_last(), pred);
    }
}


/// Stepping to the next cue and back returns the cursor to where it was,
/// and seeks back to that cue's start.
pub proof fn lemma_next_then_previous(cues: Seq<Cue>, i: usize)
    requires
        i + 1 < cues.len(),
        cues.len() <= usize::MAX,
    ensures
        previous_step(cues, next_step(cues, Some(i)).0) == (Some(i), Some(seek_to(cues[i as int]))),
{
}

/// Stepping to the previous cue and forward again returns the cursor to
/// where it was, and seeks back to that cue's start.
pub proof fn lemma_previous_then_next(cues: Seq<Cue>, i: usize)
    requires
        0 < i < cues.len(),
    ensures
        next_step(cues, previous_step(cues, Some(i)).0) == (Some(i), Some(seek_to(cues[i as int]))),
{
}

/// After jumping to a loaded cue, repeating in sentence-by-sentence mode
/// plays exactly that cue.
pub proof fn lemma_jump_then_repeat(cues: Seq<Cue>, cursor: Option<usize>, index: usize)
    requires
        index < cues.len(),
    ensures
        repeat_command(PlaybackMode::SentenceBySentence, cues, jump_step(cues, cursor, index).0)
            == Some(PlaySpanCommand { start_ms: cues[index as int].start_ms, end_ms: cues[index as int].end_ms }),
{
}

/// Navigation never moves the cursor off the loaded cues: a cursor within
/// range stays within range after next, previous or jump.
pub proof fn lemma_navigation_keeps_cursor_in_range(cues: Seq<Cue>, cursor: Option<usize>, index: usize)
    requires
        cursor_in_range(cues, cursor),
    ensures
        cursor_in_range(cues, next_step(cues, cursor).0),
        cursor_in_range(cues, previous_step(cues, cursor).0),
        cursor_in_range(cues, jump_step(cues, cursor, index).0),
{
}

/// A step that returns no command leaves the cursor where it was, and one
/// that returns a command seeks to the start of the cue it moved to.
pub proof fn lemma_command_matches_cursor(cues: Seq<Cue>, cursor: Option<usize>, index: usize)
    requires
        cues.len() <= usize::MAX,
    ensures
        next_step(cues, cursor).1 is None ==> next_step(cues, cursor).0 == cursor,
        previous_step(cues, cursor).1 is None ==> previous_step(cues, cursor).0 == cursor,
        jump_step(cues, cursor, index).1 is None ==> jump_step(cues, cursor, index).0 == cursor,
        next_step(cues, cursor).1 matches Some(c) ==> next_step(cues, cursor).0 matches Some(j) && j
            < cues.len() && c == seek_to(cues[j as int]),
        previous_step(cues, cursor).1 matches Some(c) ==> previous_step(cues, cursor).0 matches Some(
            j,
        ) && j < cues.len() && c == seek_to(cues[j as int]),
        jump_step(cues, cursor, index).1 matches Some(c) ==> jump_step(cues, cursor, index).0 matches Some(
            j,
        ) && j < cues.len() && c == seek_to(cues[j as int]),
{
}

/// On cues ordered by start time, the synced cursor points at a loaded
/// cue that has started by `time`, and every later cue starts after it.
pub proof fn lemma_synced_cursor_is_last_started(cues: Seq<Cue>, time: u64)
    requires
        sorted_by_start(cues),
        cues.len() <= usize::MAX,
    ensures
        cursor_in_range(cues, synced_cursor(cues, time)),
        synced_cursor(cues, time) matches Some(i) ==> cues[i as int].start_ms <= time && forall|j: int|
            i < j < cues.len() ==> cues[j].start_ms > time,
        synced_cursor(cues, time) is None ==> forall|j: int| 0 <= j < cues.len() ==> cues[j].start_ms > time,
{
    let p = started_count(cues, time);
    let pred = |c: Cue| c.start_ms <= time;
    cues.lemma_filter_len(pred);
    lemma_boundary_exists(cues, time);
    let q = choose|q: int| is_time_boundary(cues, time, q);
    lemma_boundary_is_started_count(cues, time, q);
    assert(q == p);
    if p > 0 {
        assert forall|j: int| p - 1 < j < cues.len() implies cues[j].start_ms > time by {
            assert(cues[p as int].start_ms <= cues[j].start_ms);
        }
    } else {
        assert forall|j: int| 0 <= j < cues.len() implies cues[j].start_ms > time by {
            assert(cues[0].start_ms <= cues[j].start_ms);
        }
    }
}

/// Cues ordered by start time always have a split point at any time: the
/// scan from `q` on finds one.
proof fn lemma_boundary_from(cues: Seq<Cue>, time: u64, q: int)
    requires
        0 <= q <= cues.len(),
        q == 0 || cues[q - 1].start_ms <= time,
    ensures
        exists|b: int| is_time_boundary(cues, time, b),
    decreases cues.len() - q,
{
    if q < cues.len() && cues[q].start_ms <= time {
        lemma_boundary_from(cues, time, q + 1);
    } else {
        assert(is_time_boundary(cues, time, q));
    }
}

/// Any cues have a split point at any time.
proof fn lemma_boundary_exists(cues: Seq<Cue>, time: u64)
    ensures
        exists|q: int| is_time_boundary(cues, time, q),
{
    lemma_boundary_from(cues, time, 0);
}

} // verus!
