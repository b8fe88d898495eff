use vstd::prelude::*;

use crate::demux::{Chunk, Demultiplexer};
use crate::errors::ServiceError;
use crate::paths::{derive_paths, paths_for, SessionPaths};
use crate::registry::SessionRegistry;
use crate::session::SessionState;

verus! {

/// Registration step of session creation. It runs after provisioning and
/// spawning have already succeeded — entirely inside the exclusive table
/// section, on plain values copied in — so the table is never held across
/// filesystem or process work, and creations for distinct stream keys
/// contend only here. Never fails on its own.
pub fn register_started_session(
    registry: &mut SessionRegistry,
    stream_key: String,
    pid: u32,
) -> (h: usize)
    requires
        old(registry).wf(),
    ensures
        final(registry).wf(),
        !old(registry).is_live(h as int),
        h as int == old(registry).next_handle(),
        final(registry).is_live(h as int),
        final(registry).live_session(h as int).spec_key() == stream_key@,
        final(registry).live_session(h as int).spec_pid() == Some(pid),
        final(registry).live_session(h as int).spec_state() == SessionState::Initialized,
        forall|j: int| j != h ==> final(registry).is_live(j) == old(registry).is_live(j),
        forall|j: int|
            j != h && old(registry).is_live(j) ==> final(registry).live_session(j) == old(
                registry,
            ).live_session(j),
{
    let h = registry.create(stream_key);
    let recorded = registry.record_pid(h, pid);
    proof {
        assert(recorded is Ok);
    }
    h
}

/// Resolution step of one streaming call: the first chunk names a session
/// by handle, and only a live record lets the call proceed. Acceptance
/// moves the session forward to `Streaming`, and the session's pipe and
/// output paths — the ones its writers must open — come back; on failure
/// the call is refused with `SessionLookup`, the table untouched, before
/// any queue or writer exists.
pub fn resolve_stream(registry: &mut SessionRegistry, session_id: u64) -> (r: Result<
    SessionPaths,
    ServiceError,
>)
    requires
        old(registry).wf(),
    ensures
        final(registry).wf(),
        r is Ok <==> old(registry).is_live(session_id as int),
        r matches Err(e) ==> e == ServiceError::SessionLookup && *final(registry) == *old(
            registry,
        ),
        r matches Ok(p) ==> paths_for(
            p,
            old(registry).live_session(session_id as int).spec_key(),
        ),
        r is Ok ==> SessionRegistry::streaming_marked(
            *old(registry),
            *final(registry),
            session_id as int,
        ),
{
    if session_id > usize::MAX as u64 {
        proof {
            if registry.is_live(session_id as int) {
                registry.lemma_live_handle_bounded(session_id as int);
            }
        }
        return Err(ServiceError::SessionLookup);
    }
    let handle = session_id as usize;
    let paths = match registry.lookup(handle) {
        Ok(session) => derive_paths(session.get_publish_url()),
        Err(_) => {
            return Err(ServiceError::SessionLookup);
        },
    };
    let marked = registry.mark_streaming(handle);
    proof {
        assert(marked is Ok);
    }
    Ok(paths)
}

/// Opens one streaming call. The first chunk names the session; if no live
/// record matches, the whole call fails with `SessionLookup`, the table
/// untouched, and no demultiplexer — and so no pipe writer — is created.
/// Otherwise the session has moved forward to `Streaming`, the first chunk
/// is already dispatched in the returned demultiplexer, and the session's
/// pipe and output paths come with it for the writers to open.
pub fn begin_stream(registry: &mut SessionRegistry, first: Chunk) -> (r: Result<
    (Demultiplexer, SessionPaths),
    ServiceError,
>)
    requires
        old(registry).wf(),
    ensures
        final(registry).wf(),
        r is Ok <==> old(registry).is_live(first.session_id as int),
        r matches Err(e) ==> e == ServiceError::SessionLookup && *final(registry) == *old(
            registry,
        ),
        r is Ok ==> SessionRegistry::streaming_marked(
            *old(registry),
            *final(registry),
            first.session_id as int,
        ),
        r matches Ok(p) ==> {
            &&& p.0.wf()
            &&& p.0.session_handle() == first.session_id
            &&& p.0.consumed() == seq![first@]
            &&& paths_for(p.1, old(registry).live_session(first.session_id as int).spec_key())
        },
{
    let session_id = first.session_id;
    match resolve_stream(registry, session_id) {
        Ok(paths) => {
            let mut demux = Demultiplexer::new(session_id);
            demux.dispatch(first);
            proof {
                assert(demux.consumed() =~= seq![first@]);
            }
            Ok((demux, paths))
        },
        Err(e) => Err(e),
    }
}

/// Close decision: detaches the session's record — removal is final — and
/// yields the recorded process identifier, to which the caller issues
/// exactly one termination request. Fails with `SessionLookup` when no
/// live record matches, and with `Termination` when the record carries no
/// process identifier (the record is gone either way).
pub fn close_session(registry: &mut SessionRegistry, handle: usize) -> (r: Result<
    u32,
    ServiceError,
>)
    requires
        old(registry).wf(),
    ensures
        final(registry).wf(),
        r is Err <==> !old(registry).is_live(handle as int) || old(registry).live_session(
            handle as int,
        ).spec_pid() is None,
        !old(registry).is_live(handle as int) ==> r == Err::<u32, ServiceError>(
            ServiceError::SessionLookup,
        ) && *final(registry) == *old(registry),
        old(registry).is_live(handle as int) ==> SessionRegistry::removed_frame(
            *old(registry),
            *final(registry),
            handle as int,
        ),
        old(registry).is_live(handle as int) ==> match old(registry).live_session(
            handle as int,
        ).spec_pid() {
            Some(pid) => r == Ok::<u32, ServiceError>(pid),
            None => r == Err::<u32, ServiceError>(ServiceError::Termination),
        },
{
    match registry.remove(handle) {
        Err(e) => Err(e),
        Ok(record) => match record.get_ffmpeg_pid() {
            Some(pid) => Ok(pid),
            None => Err(ServiceError::Termination),
        },
    }
}

} // verus!
