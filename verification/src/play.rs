//! Play mode: entering it snapshots the edited world, leaving it restores
//! that snapshot.
use vstd::prelude::*;

verus! {

/// Whether the game is running in the editor, and the serialized world to
/// restore when it stops.
pub struct PlaySession {
    pub is_playing: bool,
    pub world_snapshot: Option<Vec<u8>>,
}

/// What a play session holds: the mode and the snapshot bytes.
pub struct PlayView {
    pub is_playing: bool,
    pub snapshot: Option<Seq<u8>>,
}

impl View for PlaySession {
    type V = PlayView;

    open spec fn view(&self) -> PlayView {
        PlayView {
            is_playing: self.is_playing,
            snapshot: match self.world_snapshot {
                Some(v) => Some(v@),
                None => None,
            },
        }
    }
}

/// The session after asking to play with `snapshot`: unchanged when already
/// playing, else playing with that snapshot.
pub open spec fn after_start(s: PlayView, snapshot: Seq<u8>) -> PlayView {
    if s.is_playing {
        s
    } else {
        PlayView { is_playing: true, snapshot: Some(snapshot) }
    }
}

/// The session after stopping: in edit mode with no snapshot.
pub open spec fn after_stop(s: PlayView) -> PlayView {
    PlayView { is_playing: false, snapshot: None }
}

impl PlaySession {
    /// The editor starts in edit mode with no snapshot.
    pub fn new() -> (r: Self)
        ensures
            r@ == (PlayView { is_playing: false, snapshot: None }),
    {
        PlaySession { is_playing: false, world_snapshot: None }
    }

    /// Enters play mode, keeping `snapshot` (the world serialized before any
    /// start script runs) to restore afterwards. Does nothing, and returns
    /// `false`, when already playing; the start scripts are run only when it
    /// returns `true`.
    pub fn start_playing(&mut self, snapshot: Vec<u8>) -> (started: bool)
        ensures
            started == !old(self)@.is_playing,
            final(self)@ == after_start(old(self)@, snapshot@),
    {
        if self.is_playing {
            return false;
        }
        self.world_snapshot = Some(snapshot);
        self.is_playing = true;
        true
    }

    /// Leaves play mode. Returns the snapshot to restore the world from, if
    /// one was taken.
    pub fn stop_playing(&mut self) -> (restore: Option<Vec<u8>>)
        ensures
            final(self)@ == after_stop(old(self)@),
            match restore {
                Some(v) => old(self)@.snapshot == Some(v@),
                None => old(self)@.snapshot is None,
            },
    {
        let restore = self.world_snapshot.take();
        self.is_playing = false;
        restore
    }

    /// Saving, building and reloading the project are refused while playing.
    pub fn project_edits_allowed(&self) -> (r: bool)
        ensures
            r == !self@.is_playing,
    {
        !self.is_playing
    }
}

/// Starting play from edit mode and then stopping hands back exactly the
/// world snapshotted when play started, and leaves the editor in edit mode.
pub proof fn lemma_play_then_stop_restores(s: PlayView, snapshot: Seq<u8>)
    requires
        !s.is_playing,
    ensures
        after_start(s, snapshot).snapshot == Some(snapshot),
        !after_stop(after_start(s, snapshot)).is_playing,
        after_stop(after_start(s, snapshot)).snapshot is None,
{
}

/// Asking to play again while playing keeps the first snapshot, so stopping
/// restores the world from before the first start.
pub proof fn lemma_second_start_keeps_snapshot(s: PlayView, first: Seq<u8>, second: Seq<u8>)
    requires
        !s.is_playing,
    ensures
        after_start(after_start(s, first), second).snapshot == Some(first),
{
}

} // verus!
