use vstd::prelude::*;

use crate::errors::ServiceError;
use crate::session::{Session, SessionState};

verus! {

/// The table of live ingestion sessions.
///
/// Handles are slot indices into a dense array of optional records; a
/// removed slot's index goes onto a free list and is handed out again by the
/// next creation. A handle is therefore unique only among currently-live
/// sessions: after removal the same numeric value may name a new session.
///
/// The registry itself does no I/O and holds no lock; the server wraps one
/// registry in a multi-reader/single-writer lock and keeps every
/// filesystem and process step outside the exclusive section.
pub struct SessionRegistry {
    slots: Vec<Option<Session>>,
    free: Vec<usize>,
}

impl SessionRegistry {
    /// The slot array: `Some` for live sessions, `None` for reclaimed slots.
    pub closed spec fn spec_slots(self) -> Seq<Option<Session>> {
        self.slots@
    }

    /// The reclaimed slot indices, in the order they were freed; creation
    /// reuses the most recently freed one first.
    pub closed spec fn spec_free(self) -> Seq<int> {
        self.free@.map_values(|u: usize| u as int)
    }

    /// `h` names a live session.
    pub open spec fn is_live(self, h: int) -> bool {
        &&& 0 <= h < self.spec_slots().len()
        &&& self.spec_slots()[h] is Some
    }

    /// The live session named by `h`.
    pub open spec fn live_session(self, h: int) -> Session {
        self.spec_slots()[h].unwrap()
    }

    /// The handle the next creation will assign.
    pub open spec fn next_handle(self) -> int {
        if self.spec_free().len() > 0 {
            self.spec_free().last()
        } else {
            self.spec_slots().len() as int
        }
    }

    /// Well-formedness: the free list holds exactly the vacant slot indices,
    /// each at most once, and no live session is `Closed`.
    pub open spec fn wf(self) -> bool {
        &&& (forall|i: int|
            0 <= i < self.spec_free().len() ==> 0 <= #[trigger] self.spec_free()[i]
                < self.spec_slots().len() && self.spec_slots()[self.spec_free()[i]] is None)
        &&& self.spec_free().no_duplicates()
        &&& (forall|j: int|
            0 <= j < self.spec_slots().len() && self.spec_slots()[j] is None
                ==> #[trigger] self.spec_free().contains(j))
        &&& (forall|j: int| #[trigger]
            self.is_live(j) ==> self.live_session(j).spec_state() != SessionState::Closed)
    }

    /// What a successful creation did: `h` was the next handle and was not
    /// live before; afterwards it names a fresh `Initialized` record for
    /// `key` with no process identifier; every other handle is untouched.
    pub open spec fn created(pre: Self, post: Self, h: int, key: Seq<char>) -> bool {
        &&& h == pre.next_handle()
        &&& !pre.is_live(h)
        &&& post.is_live(h)
        &&& post.live_session(h).spec_key() == key
        &&& post.live_session(h).spec_state() == SessionState::Initialized
        &&& post.live_session(h).spec_pid() is None
        &&& (forall|j: int| j != h ==> post.is_live(j) == pre.is_live(j))
        &&& (forall|j: int|
            j != h && pre.is_live(j) ==> post.live_session(j) == pre.live_session(j))
        &&& post.spec_free() == if pre.spec_free().len() > 0 {
            pre.spec_free().drop_last()
        } else {
            pre.spec_free()
        }
        &&& post.spec_slots().len() == if pre.spec_free().len() > 0 {
            pre.spec_slots().len() as int
        } else {
            pre.spec_slots().len() as int + 1
        }
    }

    /// What recording a process identifier did: the session under `h` now
    /// carries `pid`, with key and state unchanged; nothing else moved.
    pub open spec fn pid_recorded(pre: Self, post: Self, h: int, pid: u32) -> bool {
        &&& pre.is_live(h)
        &&& post.is_live(h)
        &&& post.live_session(h).spec_pid() == Some(pid)
        &&& post.live_session(h).spec_key() == pre.live_session(h).spec_key()
        &&& post.live_session(h).spec_state() == pre.live_session(h).spec_state()
        &&& (forall|j: int| j != h ==> post.is_live(j) == pre.is_live(j))
        &&& (forall|j: int|
            j != h && pre.is_live(j) ==> post.live_session(j) == pre.live_session(j))
        &&& post.spec_free() == pre.spec_free()
        &&& post.spec_slots().len() == pre.spec_slots().len()
    }

    /// What accepting the first stream chunk did: the session under `h`
    /// moved forward to `Streaming`, with key and process identifier
    /// unchanged; nothing else moved.
    pub open spec fn streaming_marked(pre: Self, post: Self, h: int) -> bool {
        &&& pre.is_live(h)
        &&& post.is_live(h)
        &&& post.live_session(h).spec_state() == SessionState::Streaming
        &&& post.live_session(h).spec_key() == pre.live_session(h).spec_key()
        &&& post.live_session(h).spec_pid() == pre.live_session(h).spec_pid()
        &&& (forall|j: int| j != h ==> post.is_live(j) == pre.is_live(j))
        &&& (forall|j: int|
            j != h && pre.is_live(j) ==> post.live_session(j) == pre.live_session(j))
        &&& post.spec_free() == pre.spec_free()
        &&& post.spec_slots().len() == pre.spec_slots().len()
    }

    /// What a successful removal did to the table: `h` is dead, its slot
    /// index is the newest entry of the free list, and every other handle is
    /// untouched. Removal is final: only a later creation can revive the
    /// numeric value, as a different session.
    pub open spec fn removed_frame(pre: Self, post: Self, h: int) -> bool {
        &&& pre.is_live(h)
        &&& !post.is_live(h)
        &&& (forall|j: int| j != h ==> post.is_live(j) == pre.is_live(j))
        &&& (forall|j: int|
            j != h && pre.is_live(j) ==> post.live_session(j) == pre.live_session(j))
        &&& post.spec_free() == pre.spec_free().push(h)
        &&& post.spec_slots().len() == pre.spec_slots().len()
    }

    /// What a successful removal did: the table changed as `removed_frame`
    /// says and the detached record `rec` is the removed session, marked
    /// `Closed`.
    pub open spec fn removed(pre: Self, post: Self, h: int, rec: Session) -> bool {
        &&& Self::removed_frame(pre, post, h)
        &&& rec.spec_key() == pre.live_session(h).spec_key()
        &&& rec.spec_pid() == pre.live_session(h).spec_pid()
        &&& rec.spec_state() == SessionState::Closed
    }

    /// Every live handle fits in a machine word: handles are indices into
    /// the slot array.
    pub proof fn lemma_live_handle_bounded(self, h: int)
        requires
            self.is_live(h),
        ensures
            0 <= h <= usize::MAX,
    {
        assert(self.slots.len() == self.spec_slots().len());
    }

    /// An empty registry.
    pub fn new() -> (r: Self)
        ensures
            r.wf(),
            r.spec_slots().len() == 0,
            r.spec_free().len() == 0,
    {
        let r = SessionRegistry { slots: Vec::new(), free: Vec::new() };
        proof {
            assert(r.spec_free() =~= Seq::<int>::empty());
        }
        r
    }

    /// Allocates a handle — reusing the most recently freed slot where one
    /// exists — and stores a fresh `Initialized` record for `stream_key`.
    /// Creation never fails on its own.
    pub fn create(&mut self, stream_key: String) -> (h: usize)
        requires
            old(self).wf(),
        ensures
            final(self).wf(),
            Self::created(*old(self), *final(self), h as int, stream_key@),
    {
        let session = Session::new(stream_key);
        let popped = self.free.pop();
        match popped {
            Some(h) => {
                proof {
                    let pre = *old(self);
                    assert(pre.spec_free()[pre.spec_free().len() - 1] == h as int);
                    assert(self.free@.map_values(|u: usize| u as int) =~= pre.spec_free()
                        .drop_last());
                }
                self.slots[h] = Some(session);
                proof {
                    let pre = *old(self);
                    let post = *self;
                    let hf = h as int;
                    assert(post.spec_slots() == pre.spec_slots().update(hf, Some(session)));
                    assert(post.spec_free() =~= pre.spec_free().drop_last());
                    assert(pre.spec_free()[pre.spec_free().len() - 1] == hf);
                    assert forall|i: int| 0 <= i < post.spec_free().len() implies 0 <= #[trigger]
                    post.spec_free()[i] < post.spec_slots().len() && post.spec_slots()[post
                        .spec_free()[i]] is None by {
                        assert(post.spec_free()[i] == pre.spec_free()[i]);
                        assert(pre.spec_free()[i] != pre.spec_free()[pre.spec_free().len() - 1]);
                    }
                    assert forall|i: int, j: int|
                        0 <= i < post.spec_free().len() && 0 <= j < post.spec_free().len() && i
                            != j implies post.spec_free()[i] != post.spec_free()[j] by {
                        assert(post.spec_free()[i] == pre.spec_free()[i]);
                        assert(post.spec_free()[j] == pre.spec_free()[j]);
                    }
                    assert(post.spec_free().no_duplicates());
                    assert forall|j: int|
                        0 <= j < post.spec_slots().len() && post.spec_slots()[j] is None implies
                        #[trigger] post.spec_free().contains(j) by {
                        assert(pre.spec_slots()[j] is None);
                        assert(pre.spec_free().contains(j));
                        let i = choose|i: int|
                            0 <= i < pre.spec_free().len() && pre.spec_free()[i] == j;
                        assert(i != pre.spec_free().len() - 1);
                        assert(post.spec_free()[i] == j);
                    }
                    assert forall|j: int| #[trigger]
                        post.is_live(j) implies post.live_session(j).spec_state()
                        != SessionState::Closed by {
                        if j != hf {
                            assert(pre.is_live(j));
                            assert(post.live_session(j) == pre.live_session(j));
                        }
                    }
                    assert(post.wf());
                }
                h
            },
            None => {
                let h = self.slots.len();
                self.slots.push(Some(session));
                proof {
                    let pre = *old(self);
                    let post = *self;
                    let hf = h as int;
                    assert(post.spec_free() =~= pre.spec_free());
                    assert(pre.spec_free().len() == 0);
                    assert(post.spec_slots() == pre.spec_slots().push(Some(session)));
                    assert forall|j: int|
                        0 <= j < post.spec_slots().len() && post.spec_slots()[j] is None implies
                        #[trigger] post.spec_free().contains(j) by {
                        assert(j < hf);
                        assert(pre.spec_slots()[j] is None);
                        assert(pre.spec_free().contains(j));
                    }
                    assert forall|j: int| #[trigger]
                        post.is_live(j) implies post.live_session(j).spec_state()
                        != SessionState::Closed by {
                        if j != hf {
                            assert(pre.is_live(j));
                            assert(post.live_session(j) == pre.live_session(j));
                        }
                    }
                    assert(post.wf());
                }
                h
            },
        }
    }

    /// Read-only access to the session named by `handle`; fails with
    /// `SessionLookup` exactly when no live record matches.
    pub fn lookup(&self, handle: usize) -> (r: Result<&Session, ServiceError>)
        ensures
            r is Ok <==> self.is_live(handle as int),
            r matches Ok(s) ==> *s == self.live_session(handle as int),
            r matches Err(e) ==> e == ServiceError::SessionLookup,
    {
        if handle < self.slots.len() {
            match &self.slots[handle] {
                Some(s) => Ok(s),
                None => Err(ServiceError::SessionLookup),
            }
        } else {
            Err(ServiceError::SessionLookup)
        }
    }

    /// Detaches and returns the record under `handle`, marked `Closed`, and
    /// reclaims the slot; fails with `SessionLookup` exactly when no live
    /// record matches. Removal is final.
    pub fn remove(&mut self, handle: usize) -> (r: Result<Session, ServiceError>)
        requires
            old(self).wf(),
        ensures
            final(self).wf(),
            r is Ok <==> old(self).is_live(handle as int),
            r matches Err(e) ==> e == ServiceError::SessionLookup && *final(self) == *old(self),
            r matches Ok(rec) ==> Self::removed(*old(self), *final(self), handle as int, rec),
    {
        if handle >= self.slots.len() {
            return Err(ServiceError::SessionLookup);
        }
        let live = self.slots[handle].is_some();
        if !live {
            return Err(ServiceError::SessionLookup);
        }
        let mut taken: Option<Session> = None;
        core::mem::swap(&mut taken, &mut self.slots[handle]);
        let mut rec = taken.unwrap();
        rec.mark_closed();
        self.free.push(handle);
        proof {
            let pre = *old(self);
            let post = *self;
            let hf = handle as int;
            assert(post.spec_slots() == pre.spec_slots().update(hf, None::<Session>));
            assert(!pre.spec_free().contains(hf)) by {
                if pre.spec_free().contains(hf) {
                    let i = choose|i: int|
                        0 <= i < pre.spec_free().len() && pre.spec_free()[i] == hf;
                    assert(pre.spec_slots()[pre.spec_free()[i]] is None);
                }
            }
            assert(post.spec_free() =~= pre.spec_free().push(hf));
            assert forall|i: int| 0 <= i < post.spec_free().len() implies 0 <= #[trigger]
            post.spec_free()[i] < post.spec_slots().len() && post.spec_slots()[post.spec_free()[i]] is None by {
                if i < pre.spec_free().len() {
                    assert(post.spec_free()[i] == pre.spec_free()[i]);
                    assert(pre.spec_free()[i] != hf) by {
                        if pre.spec_free()[i] == hf {
                            assert(pre.spec_free().contains(hf));
                        }
                    }
                } else {
                    assert(post.spec_free()[i] == hf);
                }
            }
            assert forall|i: int, j: int|
                0 <= i < post.spec_free().len() && 0 <= j < post.spec_free().len() && i
                    != j implies post.spec_free()[i] != post.spec_free()[j] by {
                if i < pre.spec_free().len() && j < pre.spec_free().len() {
                    assert(pre.spec_free()[i] != pre.spec_free()[j]);
                } else if i < pre.spec_free().len() {
                    assert(post.spec_free()[j] == hf);
                    assert(pre.spec_free()[i] != hf) by {
                        if pre.spec_free()[i] == hf {
                            assert(pre.spec_free().contains(hf));
                        }
                    }
                } else {
                    assert(post.spec_free()[i] == hf);
                    assert(pre.spec_free()[j] != hf) by {
                        if pre.spec_free()[j] == hf {
                            assert(pre.spec_free().contains(hf));
                        }
                    }
                }
            }
            assert(post.spec_free().no_duplicates());
            assert forall|j: int|
                0 <= j < post.spec_slots().len() && post.spec_slots()[j] is None implies #[trigger]
                post.spec_free().contains(j) by {
                if j == hf {
                    assert(post.spec_free()[post.spec_free().len() - 1] == j);
                } else {
                    assert(pre.spec_slots()[j] is None);
                    assert(pre.spec_free().contains(j));
                    let i = choose|i: int|
                        0 <= i < pre.spec_free().len() && pre.spec_free()[i] == j;
                    assert(post.spec_free()[i] == j);
                }
            }
            assert forall|j: int| #[trigger]
                post.is_live(j) implies post.live_session(j).spec_state()
                != SessionState::Closed by {
                assert(j != hf);
                assert(pre.is_live(j));
                assert(post.live_session(j) == pre.live_session(j));
            }
            assert(post.wf());
        }
        Ok(rec)
    }

    /// Records the transcoder's process identifier on the session under
    /// `handle`; fails with `SessionLookup` exactly when no live record
    /// matches. A session's identifier is recorded at most once.
    pub fn record_pid(&mut self, handle: usize, pid: u32) -> (r: Result<(), ServiceError>)
        requires
            old(self).wf(),
            old(self).is_live(handle as int) ==> old(self).live_session(
                handle as int,
            ).spec_pid() is None,
        ensures
            final(self).wf(),
            r is Ok <==> old(self).is_live(handle as int),
            r matches Err(e) ==> e == ServiceError::SessionLookup && *final(self) == *old(self),
            r is Ok ==> Self::pid_recorded(*old(self), *final(self), handle as int, pid),
    {
        if handle >= self.slots.len() {
            return Err(ServiceError::SessionLookup);
        }
        let live = self.slots[handle].is_some();
        if !live {
            return Err(ServiceError::SessionLookup);
        }
        let mut taken: Option<Session> = None;
        core::mem::swap(&mut taken, &mut self.slots[handle]);
        let mut sess = taken.unwrap();
        sess.set_ffmpeg_pid(pid);
        self.slots[handle] = Some(sess);
        proof {
            let pre = *old(self);
            let post = *self;
            let hf = handle as int;
            assert(post.spec_slots() =~= pre.spec_slots().update(hf, Some(sess)));
            assert(post.spec_free() == pre.spec_free());
            assert forall|i: int| 0 <= i < post.spec_free().len() implies 0 <= #[trigger]
            post.spec_free()[i] < post.spec_slots().len() && post.spec_slots()[post.spec_free()[i]] is None by {
                assert(pre.spec_slots()[pre.spec_free()[i]] is None);
                assert(pre.spec_free()[i] != hf);
            }
            assert forall|j: int|
                0 <= j < post.spec_slots().len() && post.spec_slots()[j] is None implies #[trigger]
                post.spec_free().contains(j) by {
                assert(j != hf);
                assert(pre.spec_slots()[j] is None);
                assert(pre.spec_free().contains(j));
            }
            assert forall|j: int| #[trigger]
                post.is_live(j) implies post.live_session(j).spec_state()
                != SessionState::Closed by {
                if j != hf {
                    assert(pre.is_live(j));
                    assert(post.live_session(j) == pre.live_session(j));
                } else {
                    assert(pre.is_live(hf));
                    assert(post.live_session(hf).spec_state() == pre.live_session(
                        hf,
                    ).spec_state());
                }
            }
            assert(post.wf());
        }
        Ok(())
    }
    /// Moves the session under `handle` forward to `Streaming`; called when
    /// the first chunk of its stream is accepted. Fails with
    /// `SessionLookup` exactly when no live record matches. A live session
    /// is never `Closed`, so the transition only moves forward.
    pub fn mark_streaming(&mut self, handle: usize) -> (r: Result<(), ServiceError>)
        requires
            old(self).wf(),
        ensures
            final(self).wf(),
            r is Ok <==> old(self).is_live(handle as int),
            r matches Err(e) ==> e == ServiceError::SessionLookup && *final(self) == *old(self),
            r is Ok ==> Self::streaming_marked(*old(self), *final(self), handle as int),
    {
        if handle >= self.slots.len() {
            return Err(ServiceError::SessionLookup);
        }
        let live = self.slots[handle].is_some();
        if !live {
            return Err(ServiceError::SessionLookup);
        }
        proof {
            assert(old(self).is_live(handle as int));
        }
        let mut taken: Option<Session> = None;
        core::mem::swap(&mut taken, &mut self.slots[handle]);
        let mut sess = taken.unwrap();
        sess.begin_streaming();
        self.slots[handle] = Some(sess);
        proof {
            let pre = *old(self);
            let post = *self;
            let hf = handle as int;
            assert(post.spec_slots() =~= pre.spec_slots().update(hf, Some(sess)));
            assert(post.spec_free() == pre.spec_free());
            assert forall|i: int| 0 <= i < post.spec_free().len() implies 0 <= #[trigger]
            post.spec_free()[i] < post.spec_slots().len() && post.spec_slots()[post.spec_free()[i]] is None by {
                assert(pre.spec_slots()[pre.spec_free()[i]] is None);
                assert(pre.spec_free()[i] != hf);
            }
            assert forall|j: int|
                0 <= j < post.spec_slots().len() && post.spec_slots()[j] is None implies #[trigger]
                post.spec_free().contains(j) by {
                assert(j != hf);
                assert(pre.spec_slots()[j] is None);
                assert(pre.spec_free().contains(j));
            }
            assert forall|j: int| #[trigger]
                post.is_live(j) implies post.live_session(j).spec_state()
                != SessionState::Closed by {
                if j != hf {
                    assert(pre.is_live(j));
                    assert(post.live_session(j) == pre.live_session(j));
                }
            }
            assert(post.wf());
        }
        Ok(())
    }
}

/// Law: a full lifecycle run leaves the handle dead. After a creation, a
/// recording of the process identifier, and a removal of the same handle,
/// the state just before removal was live and carried exactly that
/// identifier — so a close request there must, by `remove`'s and
/// `record_pid`'s contracts, succeed — and the state after removal is not
/// live, so any further lookup, stream or close of the handle must, by those
/// operations' contracts, fail with `SessionLookup`.
pub proof fn lemma_session_lifecycle(
    r0: SessionRegistry,
    r1: SessionRegistry,
    r2: SessionRegistry,
    r3: SessionRegistry,
    h: int,
    key: Seq<char>,
    pid: u32,
    rec: Session,
)
    requires
        SessionRegistry::created(r0, r1, h, key),
        SessionRegistry::pid_recorded(r1, r2, h, pid),
        SessionRegistry::removed(r2, r3, h, rec),
    ensures
        r2.is_live(h),
        r2.live_session(h).spec_pid() == Some(pid),
        r2.live_session(h).spec_key() == key,
        rec.spec_pid() == Some(pid),
        !r3.is_live(h),
{
}

/// Law: handles are unique only among currently-live sessions. The slot
/// index freed by a removal is exactly the handle the next creation
/// assigns, so a numeric handle value may name a new session after the old
/// one is gone.
pub proof fn lemma_handle_reuse(
    r0: SessionRegistry,
    r1: SessionRegistry,
    r2: SessionRegistry,
    h: int,
    rec: Session,
    h2: int,
    key: Seq<char>,
)
    requires
        SessionRegistry::removed(r0, r1, h, rec),
        SessionRegistry::created(r1, r2, h2, key),
    ensures
        h2 == h,
{
    assert(r1.spec_free().last() == h);
}

} // verus!
