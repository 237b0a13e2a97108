//! Playback session control state.
//!
//! The session is the mutable state threaded through every render-callback
//! invocation: the pause flag, the row/pause change-detection memo, and the
//! track-advance latch.  Each method is one decision of the render path;
//! the caller owns the decoding engine and the command channel, performs the
//! seeks and the process exit, and feeds the observations back in.

use vstd::prelude::*;
use crate::command::Key;

verus! {

/// What the render thread must do after a command was applied.
#[derive(Clone, Copy, Debug, PartialEq, Eq, Structural)]
pub enum Action {
    /// Nothing beyond the state change; the callback proceeds.
    Continue,
    /// Ask the engine to seek to this position.
    Seek(usize),
    /// Restore the terminal and end the process.
    Terminate,
}

/// Control state of the playback session.
#[derive(Clone, Copy, Debug, PartialEq, Eq, Structural)]
pub struct Session {
    /// Whether playback is paused.
    pub pause: bool,
    /// Pause flag at the last status emission.
    pub old_pause: bool,
    /// Row at the last status emission.
    pub old_row: usize,
    /// Latch: the current track is done and the next one should be loaded.
    pub load_next: bool,
}

/// The row value a fresh session remembers, chosen to differ from every row
/// a module can report so that the first frame always emits a status line.
pub open spec fn initial_row() -> usize {
    9999
}

/// Applying a command received while paused: only `Pause` and `Exit` have an
/// effect; every other command is accepted and changes nothing.
pub open spec fn paused_step(s: Session, cmd: Key) -> (Session, Action) {
    match cmd {
        Key::Pause => (Session { pause: !s.pause, ..s }, Action::Continue),
        Key::Exit => (s, Action::Terminate),
        _ => (s, Action::Continue),
    }
}

/// Applying a command received while running, with the engine at position
/// `pos`.  Seeking clamps at zero and always unpauses, so a seek is audible
/// at once; `Next` latches the track advance.
pub open spec fn step(s: Session, cmd: Key, pos: usize) -> (Session, Action) {
    match cmd {
        Key::Pause => (Session { pause: !s.pause, ..s }, Action::Continue),
        Key::Exit => (s, Action::Terminate),
        Key::Forward => (Session { pause: false, ..s }, Action::Seek((pos + 1) as usize)),
        Key::Backward => (
            Session { pause: false, ..s },
            Action::Seek(if pos > 0 { (pos - 1) as usize } else { 0 }),
        ),
        Key::Next => (Session { pause: false, load_next: true, ..s }, Action::Continue),
        Key::Previous => (Session { pause: false, ..s }, Action::Continue),
    }
}

impl Session {
    /// A fresh session: running, advance latch clear, memo primed so the
    /// first observed frame emits a status line.
    pub fn new() -> (s: Session)
        ensures
            !s.pause,
            !s.old_pause,
            s.old_row == initial_row(),
            !s.load_next,
    {
        Session { pause: false, old_pause: false, old_row: 9999, load_next: false }
    }

    /// Record the row reported by the engine for this callback.  Returns
    /// whether a status line is due: the row moved or the pause flag changed
    /// since the last emission.  The memo is brought up to date.
    pub fn observe(&mut self, row: usize) -> (changed: bool)
        ensures
            changed == (old(self).old_row != row || old(self).pause != old(self).old_pause),
            final(self).old_row == row,
            final(self).old_pause == old(self).pause,
            final(self).pause == old(self).pause,
            final(self).load_next == old(self).load_next,
    {
        if self.old_row != row || self.pause != self.old_pause {
            self.old_row = row;
            self.old_pause = self.pause;
            true
        } else {
            false
        }
    }

    /// Apply a command drained while paused.
    pub fn apply_paused(&mut self, cmd: Key) -> (act: Action)
        ensures
            (*final(self), act) == paused_step(*old(self), cmd),
    {
        match cmd {
            Key::Pause => {
                self.pause = !self.pause;
                Action::Continue
            },
            Key::Exit => Action::Terminate,
            _ => Action::Continue,
        }
    }

    /// Apply a command drained while running, with the engine at position
    /// `pos`.
    pub fn apply(&mut self, cmd: Key, pos: usize) -> (act: Action)
        requires
            pos < usize::MAX,
        ensures
            (*final(self), act) == step(*old(self), cmd, pos),
    {
        match cmd {
            Key::Pause => {
                self.pause = !self.pause;
                Action::Continue
            },
            Key::Exit => Action::Terminate,
            Key::Forward => {
                self.pause = false;
                Action::Seek(pos + 1)
            },
            Key::Backward => {
                self.pause = false;
                Action::Seek(if pos > 0 { pos - 1 } else { 0 })
            },
            Key::Next => {
                self.load_next = true;
                self.pause = false;
                Action::Continue
            },
            Key::Previous => {
                self.pause = false;
                Action::Continue
            },
        }
    }

    /// Record the loop count the engine reported: a track that has completed
    /// at least one loop latches the advance request.
    pub fn note_loop(&mut self, loop_count: usize)
        ensures
            final(self).load_next == (old(self).load_next || loop_count > 0),
            final(self).pause == old(self).pause,
            final(self).old_pause == old(self).old_pause,
            final(self).old_row == old(self).old_row,
    {
        if loop_count > 0 {
            self.load_next = true;
        }
    }

    /// A new track was loaded: the advance latch is cleared.
    pub fn begin_track(&mut self)
        ensures
            !final(self).load_next,
            final(self).pause == old(self).pause,
            final(self).old_pause == old(self).old_pause,
            final(self).old_row == old(self).old_row,
    {
        self.load_next = false;
    }
}

/// Pause idempotence: toggling `Pause` twice in succession, with no
/// intervening render, returns the session to its starting state, and
/// neither toggle seeks, terminates, or requests a track advance.  This
/// holds whichever way the second toggle is drained: through the running
/// path or through the paused drain.
pub proof fn lemma_pause_toggle_idempotent(s: Session, pos: usize)
    requires
        pos < usize::MAX,
    ensures
        step(step(s, Key::Pause, pos).0, Key::Pause, pos).0 == s,
        paused_step(step(s, Key::Pause, pos).0, Key::Pause).0 == s,
        step(s, Key::Pause, pos).1 is Continue,
        paused_step(s, Key::Pause).1 is Continue,
        step(s, Key::Pause, pos).0.load_next == s.load_next,
        step(s, Key::Pause, pos).0.old_row == s.old_row,
{
}

/// Seeks are clamped below at zero: `Backward` always seeks, never past the
/// start, and at position zero it seeks to zero; `Forward` seeks one ahead.
pub proof fn lemma_seek_clamped(s: Session, pos: usize)
    requires
        pos < usize::MAX,
    ensures
        step(s, Key::Backward, pos).1 == Action::Seek(if pos > 0 { (pos - 1) as usize } else { 0 }),
        pos == 0 ==> step(s, Key::Backward, pos).1 == Action::Seek(0),
        step(s, Key::Forward, pos).1 == Action::Seek((pos + 1) as usize),
{
}

/// Pause never blocks `Exit`: in every session state, `Exit` terminates,
/// through the paused drain as well as the running path.
pub proof fn lemma_exit_always_terminates(s: Session, pos: usize)
    requires
        pos < usize::MAX,
    ensures
        paused_step(s, Key::Exit).1 is Terminate,
        step(s, Key::Exit, pos).1 is Terminate,
{
}

} // verus!
