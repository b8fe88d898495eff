use vstd::prelude::*;

verus! {

/// Lifecycle state of one ingestion session.
///
/// Transitions only move forward — `Initialized` to `Streaming` to `Closed` —
/// never back. A session becomes `Streaming` when its first stream chunk is
/// accepted and `Closed` when it is removed from the registry.
#[derive(Clone, Copy, PartialEq, Eq, Structural, Debug)]
pub enum SessionState {
    Initialized,
    Streaming,
    Closed,
}

/// One ingestion session: the publisher's stream key (used verbatim to
/// namespace filesystem paths), the lifecycle state, and the external
/// transcoder's process identifier once the process has been started.
pub struct Session {
    publish_url: String,
    status: SessionState,
    ffmpeg_pid: Option<u32>,
}

impl Session {
    /// The stream key this session was created for.
    pub closed spec fn spec_key(self) -> Seq<char> {
        self.publish_url@
    }

    /// The lifecycle state.
    pub closed spec fn spec_state(self) -> SessionState {
        self.status
    }

    /// The recorded transcoder process identifier, if any.
    pub closed spec fn spec_pid(self) -> Option<u32> {
        self.ffmpeg_pid
    }

    /// A fresh session for `publish_url`: `Initialized`, no process yet.
    pub fn new(publish_url: String) -> (s: Self)
        ensures
            s.spec_key() == publish_url@,
            s.spec_state() == SessionState::Initialized,
            s.spec_pid() is None,
    {
        Session { publish_url, status: SessionState::Initialized, ffmpeg_pid: None }
    }

    pub fn get_ffmpeg_pid(&self) -> (r: Option<u32>)
        ensures
            r == self.spec_pid(),
    {
        self.ffmpeg_pid
    }

    /// Records the transcoder's process identifier. A session records a
    /// process at most once, before it is considered streamable.
    pub fn set_ffmpeg_pid(&mut self, pid: u32)
        requires
            old(self).spec_pid() is None,
        ensures
            final(self).spec_pid() == Some(pid),
            final(self).spec_key() == old(self).spec_key(),
            final(self).spec_state() == old(self).spec_state(),
    {
        self.ffmpeg_pid = Some(pid);
    }

    pub fn get_publish_url(&self) -> (r: &str)
        ensures
            r@ == self.spec_key(),
    {
        self.publish_url.as_str()
    }

    pub fn get_state(&self) -> (r: SessionState)
        ensures
            r == self.spec_state(),
    {
        self.status
    }

    /// Moves the session forward to `Streaming`; entered when the first
    /// chunk of its stream is accepted. Closed sessions never come back.
    pub fn begin_streaming(&mut self)
        requires
            old(self).spec_state() != SessionState::Closed,
        ensures
            final(self).spec_state() == SessionState::Streaming,
            final(self).spec_key() == old(self).spec_key(),
            final(self).spec_pid() == old(self).spec_pid(),
    {
        self.status = SessionState::Streaming;
    }

    /// Marks the session `Closed`; the state is terminal. Only removal
    /// from the registry closes a session.
    pub(crate) fn mark_closed(&mut self)
        ensures
            final(self).spec_state() == SessionState::Closed,
            final(self).spec_key() == old(self).spec_key(),
            final(self).spec_pid() == old(self).spec_pid(),
    {
        self.status = SessionState::Closed;
    }
}

} // verus!
