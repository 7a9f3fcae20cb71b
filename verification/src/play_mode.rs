//! Edit / Play mode switch for the editor, and when play-mode scripts run.
//!
//! Entering play mode keeps a snapshot of what is being edited and marks the
//! session as not yet started; stopping hands that snapshot back, so edits
//! made while playing never leak into the authored scene. The first tick of a
//! session runs the script's `on_ready` hook and then `on_update`, each later
//! tick runs `on_update` alone, and nothing runs while editing.

use vstd::prelude::*;

verus! {

/// Which mode the editor is in.
#[derive(Debug, Clone, Copy, PartialEq, Eq, Structural)]
pub enum EditorMode {
    Edit,
    Play,
}

impl Default for EditorMode {
    fn default() -> (m: Self)
        ensures
            m == EditorMode::Edit,
    {
        EditorMode::Edit
    }
}

/// Which script hooks a tick runs.
#[derive(Debug, Clone, Copy, PartialEq, Eq, Structural)]
pub enum TickHooks {
    /// Not playing: no script runs.
    Nothing,
    /// First tick of a play session: `on_ready`, then `on_update`.
    ReadyThenUpdate,
    /// `on_update` alone.
    Update,
}

/// Play/edit mode, the snapshot taken when play began, and whether the
/// current session has run `on_ready`.
#[derive(Debug, Clone)]
pub struct PlayState<S> {
    mode: EditorMode,
    edit_snapshot: Option<S>,
    ready_ran: bool,
}

impl<S> PlayState<S> {
    pub closed spec fn spec_mode(self) -> EditorMode {
        self.mode
    }

    /// The snapshot that stopping will hand back.
    pub closed spec fn spec_snapshot(self) -> Option<S> {
        self.edit_snapshot
    }

    /// Whether `on_ready` has run in the current play session.
    pub closed spec fn spec_ready_ran(self) -> bool {
        self.ready_ran
    }
}

/// The state after a tick from `s`, and the hooks the tick runs.
pub open spec fn ticked<S>(s: PlayState<S>) -> (PlayState<S>, TickHooks) {
    if s.spec_mode() != EditorMode::Play {
        (s, TickHooks::Nothing)
    } else if !s.spec_ready_ran() {
        (entered_ready(s), TickHooks::ReadyThenUpdate)
    } else {
        (s, TickHooks::Update)
    }
}

/// `s` with `on_ready` marked as run.
pub closed spec fn entered_ready<S>(s: PlayState<S>) -> PlayState<S> {
    PlayState { mode: s.mode, edit_snapshot: s.edit_snapshot, ready_ran: true }
}

pub proof fn lemma_entered_ready<S>(s: PlayState<S>)
    ensures
        entered_ready(s).spec_mode() == s.spec_mode(),
        entered_ready(s).spec_snapshot() == s.spec_snapshot(),
        entered_ready(s).spec_ready_ran(),
{
}

/// The state after entering play with `snapshot`.
pub closed spec fn entered<S>(s: PlayState<S>, snapshot: S) -> PlayState<S> {
    PlayState { mode: EditorMode::Play, edit_snapshot: Some(snapshot), ready_ran: false }
}

/// The state after stopping, and the snapshot stopping hands back: with no
/// snapshot held, nothing changes and nothing is handed back.
pub closed spec fn exited<S>(s: PlayState<S>) -> (PlayState<S>, Option<S>) {
    match s.edit_snapshot {
        Some(_) => (
            PlayState { mode: EditorMode::Edit, edit_snapshot: None, ready_ran: false },
            s.edit_snapshot,
        ),
        None => (s, None),
    }
}

/// The state after `n` ticks from `s`.
pub open spec fn ticked_n<S>(s: PlayState<S>, n: nat) -> PlayState<S>
    decreases n,
{
    if n == 0 {
        s
    } else {
        ticked_n(ticked(s).0, (n - 1) as nat)
    }
}

impl<S> Default for PlayState<S> {
    fn default() -> (s: Self)
        ensures
            s.spec_mode() == EditorMode::Edit,
            s.spec_snapshot() is None,
            !s.spec_ready_ran(),
    {
        PlayState { mode: EditorMode::Edit, edit_snapshot: None, ready_ran: false }
    }
}

impl<S> PlayState<S> {
    pub fn mode(&self) -> (m: EditorMode)
        ensures
            m == self.spec_mode(),
    {
        self.mode
    }

    pub fn is_playing(&self) -> (b: bool)
        ensures
            b == (self.spec_mode() == EditorMode::Play),
    {
        self.mode == EditorMode::Play
    }

    /// Keep `snapshot` of what is being edited and switch to `Play`; a new
    /// session starts, `on_ready` not yet run.
    pub fn enter_play(&mut self, snapshot: S)
        ensures
            *final(self) == entered(*old(self), snapshot),
            final(self).spec_mode() == EditorMode::Play,
            final(self).spec_snapshot() == Some(snapshot),
            !final(self).spec_ready_ran(),
    {
        self.edit_snapshot = Some(snapshot);
        self.mode = EditorMode::Play;
        self.ready_ran = false;
    }

    /// Switch back to `Edit` and hand back the snapshot taken when play
    /// began. With no snapshot held it does nothing and returns `None`.
    pub fn exit_play(&mut self) -> (snapshot: Option<S>)
        ensures
            (*final(self), snapshot) == exited(*old(self)),
            snapshot == old(self).spec_snapshot(),
            old(self).spec_snapshot() is Some ==> {
                &&& final(self).spec_mode() == EditorMode::Edit
                &&& final(self).spec_snapshot() is None
                &&& !final(self).spec_ready_ran()
            },
            old(self).spec_snapshot() is None ==> *final(self) == *old(self),
    {
        if self.edit_snapshot.is_none() {
            return None;
        }
        self.mode = EditorMode::Edit;
        self.ready_ran = false;
        self.edit_snapshot.take()
    }

    /// Advance one tick: which hooks run (see [`ticked`]).
    pub fn tick(&mut self) -> (hooks: TickHooks)
        ensures
            (*final(self), hooks) == ticked(*old(self)),
    {
        if self.mode != EditorMode::Play {
            return TickHooks::Nothing;
        }
        if !self.ready_ran {
            self.ready_ran = true;
            return TickHooks::ReadyThenUpdate;
        }
        TickHooks::Update
    }
}

/// In a play session, `on_ready` runs once, on the first tick, before
/// `on_update`; every later tick runs `on_update` alone.
pub proof fn law_ready_runs_once<S>(s: PlayState<S>)
    requires
        s.spec_mode() == EditorMode::Play,
        !s.spec_ready_ran(),
    ensures
        ticked(s).1 == TickHooks::ReadyThenUpdate,
        ticked(ticked(s).0).1 == TickHooks::Update,
        ticked(ticked(ticked(s).0).0) == ticked(ticked(s).0),
{
    lemma_entered_ready(s);
}

/// While editing, ticks run no script and change nothing.
pub proof fn law_edit_runs_nothing<S>(s: PlayState<S>)
    requires
        s.spec_mode() == EditorMode::Edit,
    ensures
        ticked(s) == (s, TickHooks::Nothing),
{
}

/// Ticks keep the snapshot.
proof fn lemma_ticks_keep_snapshot<S>(s: PlayState<S>, n: nat)
    ensures
        ticked_n(s, n).spec_snapshot() == s.spec_snapshot(),
    decreases n,
{
    if n > 0 {
        lemma_entered_ready(s);
        lemma_ticks_keep_snapshot(ticked(s).0, (n - 1) as nat);
    }
}

/// Stopping after playing for any number of ticks hands back exactly the
/// snapshot taken when play began, and returns to editing.
pub proof fn law_stop_restores_snapshot<S>(s: PlayState<S>, snapshot: S, n: nat)
    ensures
        exited(ticked_n(entered(s, snapshot), n)).1 == Some(snapshot),
        exited(ticked_n(entered(s, snapshot), n)).0.spec_mode() == EditorMode::Edit,
{
    lemma_ticks_keep_snapshot(entered(s, snapshot), n);
}

} // verus!
