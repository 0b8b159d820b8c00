//! The video player's control decisions, kept apart from the player
//! itself: what to tell the player on a seek, a play-span toggle, a
//! play/pause toggle and each timer tick, and what to remember between
//! them (where to pause at the end of a played cue, and the start-of-video
//! seek to make once the player can seek). The caller performs the
//! returned actions on the real player and reports back what it observes.
use vstd::prelude::*;
use crate::playback::{Cue, PlaySpanCommand, PlaybackMode, SeekCommand};

verus! {

/// One thing to tell the player.
#[derive(Debug, Clone, Copy, PartialEq, Eq, Structural)]
pub enum PlayerAction {
    /// Seek to this position, in milliseconds.
    SeekTo(u64),
    /// Pause (`true`) or resume (`false`).
    SetPaused(bool),
}

/// What the controller remembers between events.
#[derive(Debug, Clone, Copy, PartialEq, Eq, Structural)]
pub struct PlayerControl {
    /// Where to pause once playback reaches it (the end of a played cue).
    pub pause_at_ms: Option<u64>,
    /// The seek to make once a freshly loaded video can seek.
    pub pending_start_seek_ms: Option<u64>,
}

impl PlayerControl {
    /// Nothing remembered.
    pub fn new() -> (c: Self)
        ensures
            c.pause_at_ms is None,
            c.pending_start_seek_ms is None,
    {
        PlayerControl { pause_at_ms: None, pending_start_seek_ms: None }
    }

    /// Seek to the command's start and stay paused there; any pending
    /// end-of-cue pause is dropped.
    pub fn seek_and_pause(&mut self, command: SeekCommand) -> (actions: Vec<PlayerAction>)
        ensures
            actions@ == seq![PlayerAction::SeekTo(command.start_ms), PlayerAction::SetPaused(true)],
            final(self).pause_at_ms is None,
            final(self).pending_start_seek_ms == old(self).pending_start_seek_ms,
    {
        self.pause_at_ms = None;
        let mut actions: Vec<PlayerAction> = Vec::new();
        actions.push(PlayerAction::SeekTo(command.start_ms));
        actions.push(PlayerAction::SetPaused(true));
        assert(actions@ =~= seq![PlayerAction::SeekTo(command.start_ms), PlayerAction::SetPaused(true)]);
        actions
    }

    /// Plays the command's span, or stops it: while playing, pause now and
    /// drop the pending end-of-cue pause; while paused, seek to the span's
    /// start, resume, and remember to pause at its end.
    pub fn toggle_play_span(&mut self, command: PlaySpanCommand, is_playing: bool) -> (actions: Vec<
        PlayerAction,
    >)
        ensures
            is_playing ==> actions@ == seq![PlayerAction::SetPaused(true)] && final(self).pause_at_ms
                is None,
            !is_playing ==> actions@ == seq![
                PlayerAction::SeekTo(command.start_ms),
                PlayerAction::SetPaused(false),
            ] && final(self).pause_at_ms == Some(command.end_ms),
            final(self).pending_start_seek_ms == old(self).pending_start_seek_ms,
    {
        let mut actions: Vec<PlayerAction> = Vec::new();
        if is_playing {
            actions.push(PlayerAction::SetPaused(true));
            self.pause_at_ms = None;
            assert(actions@ =~= seq![PlayerAction::SetPaused(true)]);
        } else {
            actions.push(PlayerAction::SeekTo(command.start_ms));
            actions.push(PlayerAction::SetPaused(false));
            self.pause_at_ms = Some(command.end_ms);
            assert(actions@ =~= seq![
                PlayerAction::SeekTo(command.start_ms),
                PlayerAction::SetPaused(false),
            ]);
        }
        actions
    }

    /// Plain play/pause: pause while playing (dropping any pending
    /// end-of-cue pause), resume while paused.
    pub fn toggle_playback(&mut self, is_playing: bool) -> (action: PlayerAction)
        ensures
            action == PlayerAction::SetPaused(is_playing),
            final(self).pause_at_ms == (if is_playing {
                None
            } else {
                old(self).pause_at_ms
            }),
            final(self).pending_start_seek_ms == old(self).pending_start_seek_ms,
    {
        if is_playing {
            self.pause_at_ms = None;
        }
        PlayerAction::SetPaused(is_playing)
    }

    /// A timer tick for the end-of-cue pause: when one is pending and
    /// playback has reached it (`reached` is `Some(true)`; `None` when the
    /// position could not be read), pause and forget it.
    pub fn apply_pending_pause(&mut self, reached: Option<bool>) -> (action: Option<PlayerAction>)
        ensures
            (old(self).pause_at_ms is Some && reached == Some(true)) ==> action == Some(
                PlayerAction::SetPaused(true),
            ) && final(self).pause_at_ms is None,
            !(old(self).pause_at_ms is Some && reached == Some(true)) ==> action is None
                && final(self).pause_at_ms == old(self).pause_at_ms,
            final(self).pending_start_seek_ms == old(self).pending_start_seek_ms,
    {
        if self.pause_at_ms.is_some() {
            if let Some(true) = reached {
                self.pause_at_ms = None;
                return Some(PlayerAction::SetPaused(true));
            }
        }
        None
    }

    /// After loading a video (which pauses it): remembers, in
    /// sentence-by-sentence mode, the seek to the first cue's start to make
    /// once the player can seek; otherwise nothing.
    pub fn arm_start_seek(&mut self, mode: PlaybackMode, cues: &Vec<Cue>) -> (action: PlayerAction)
        ensures
            action == PlayerAction::SetPaused(true),
            final(self).pending_start_seek_ms == (if mode == PlaybackMode::SentenceBySentence
                && cues@.len() > 0 {
                Some(cues@[0].start_ms)
            } else {
                None::<u64>
            }),
            final(self).pause_at_ms == old(self).pause_at_ms,
    {
        self.pending_start_seek_ms = if mode == PlaybackMode::SentenceBySentence && cues.len() > 0 {
            Some(cues[0].start_ms)
        } else {
            None
        };
        PlayerAction::SetPaused(true)
    }

    /// A timer tick for the start-of-video seek: when one is pending and the
    /// player reports a position (so it can seek), seek and forget it.
    pub fn apply_pending_start_seek(&mut self, position_known: bool) -> (action: Option<PlayerAction>)
        ensures
            match old(self).pending_start_seek_ms {
                Some(start) => if position_known {
                    action == Some(PlayerAction::SeekTo(start)) && final(self).pending_start_seek_ms
                        is None
                } else {
                    action is None && final(self).pending_start_seek_ms
                        == old(self).pending_start_seek_ms
                },
                None => action is None && final(self).pending_start_seek_ms is None,
            },
            final(self).pause_at_ms == old(self).pause_at_ms,
    {
        match self.pending_start_seek_ms {
            Some(start) => {
                if position_known {
                    self.pending_start_seek_ms = None;
                    Some(PlayerAction::SeekTo(start))
                } else {
                    None
                }
            },
            None => None,
        }
    }
}

} // verus!
