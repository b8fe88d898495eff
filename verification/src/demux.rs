use vstd::prelude::*;

verus! {

/// The numeric tag that marks a chunk as audio on the wire.
pub const AUDIO_TAG: i32 = 1;

/// The numeric tag that marks a chunk as video on the wire.
pub const VIDEO_TAG: i32 = 2;

/// One of the two independent media substreams multiplexed over a single
/// ingestion call.
#[derive(Clone, Copy, PartialEq, Eq, Structural, Debug)]
pub enum Track {
    Audio,
    Video,
}

/// One inbound chunk of the interleaved stream: the session it belongs to,
/// the numeric track tag, and the raw payload bytes.
pub struct Chunk {
    pub session_id: u64,
    pub track_type: i32,
    pub payload: Vec<u8>,
}

/// The mathematical image of a chunk.
pub struct ChunkView {
    pub session_id: u64,
    pub track_type: int,
    pub payload: Seq<u8>,
}

impl View for Chunk {
    type V = ChunkView;

    open spec fn view(&self) -> ChunkView {
        ChunkView {
            session_id: self.session_id,
            track_type: self.track_type as int,
            payload: self.payload@,
        }
    }
}

/// The track a tag names, if any: `1` is audio, `2` is video, everything
/// else is unrecognized.
pub open spec fn spec_classify(tag: int) -> Option<Track> {
    if tag == AUDIO_TAG as int {
        Some(Track::Audio)
    } else if tag == VIDEO_TAG as int {
        Some(Track::Video)
    } else {
        None
    }
}

/// The track a chunk is tagged with, if its tag is recognized.
pub open spec fn chunk_track(c: ChunkView) -> Option<Track> {
    spec_classify(c.track_type)
}

/// `c` carries data for track `t`.
pub open spec fn on_track(c: ChunkView, t: Track) -> bool {
    chunk_track(c) == Some(t)
}

/// Maps a chunk's numeric tag to its track; an unrecognized tag maps to
/// `None` and the chunk is dropped by the dispatcher.
pub fn classify_track(tag: i32) -> (t: Option<Track>)
    ensures
        t == spec_classify(tag as int),
{
    if tag == AUDIO_TAG {
        Some(Track::Audio)
    } else if tag == VIDEO_TAG {
        Some(Track::Video)
    } else {
        None
    }
}

/// The subsequence of chunks tagged `t`, in their original relative order.
pub open spec fn track_chunks(chunks: Seq<ChunkView>, t: Track) -> Seq<ChunkView>
    decreases chunks.len(),
{
    if chunks.len() == 0 {
        Seq::empty()
    } else {
        let rest = track_chunks(chunks.drop_last(), t);
        if on_track(chunks.last(), t) {
            rest.push(chunks.last())
        } else {
            rest
        }
    }
}

/// The payloads owed to track `t`'s delivery queue, in arrival order.
pub open spec fn track_payloads(chunks: Seq<ChunkView>, t: Track) -> Seq<Seq<u8>>
    decreases chunks.len(),
{
    if chunks.len() == 0 {
        Seq::empty()
    } else {
        let rest = track_payloads(chunks.drop_last(), t);
        if on_track(chunks.last(), t) {
            rest.push(chunks.last().payload)
        } else {
            rest
        }
    }
}

/// The byte stream a writer produces by draining a queue in dequeue order:
/// the concatenation of the queued payloads.
pub open spec fn concat_payloads(ps: Seq<Seq<u8>>) -> Seq<u8>
    decreases ps.len(),
{
    if ps.len() == 0 {
        Seq::empty()
    } else {
        concat_payloads(ps.drop_last()) + ps.last()
    }
}

/// The bytes owed to track `t`'s pipe after the whole stream `chunks` has
/// been dispatched and the writers have drained their queues.
pub open spec fn track_bytes(chunks: Seq<ChunkView>, t: Track) -> Seq<u8> {
    concat_payloads(track_payloads(chunks, t))
}

/// The images of a sequence of chunks.
pub open spec fn chunk_views(chunks: Seq<Chunk>) -> Seq<ChunkView> {
    chunks.map_values(|c: Chunk| c@)
}

/// The images of a sequence of payloads.
pub open spec fn payload_views(ps: Seq<Vec<u8>>) -> Seq<Seq<u8>> {
    ps.map_values(|p: Vec<u8>| p@)
}

/// Law: the payloads owed to a track are exactly the payloads of the
/// chunks tagged with it, in their original relative order — routing keeps
/// every per-track order and forges no bytes.
pub proof fn lemma_track_payloads_from_chunks(chunks: Seq<ChunkView>, t: Track)
    ensures
        track_payloads(chunks, t) == track_chunks(chunks, t).map_values(
            |c: ChunkView| c.payload,
        ),
    decreases chunks.len(),
{
    if chunks.len() > 0 {
        lemma_track_payloads_from_chunks(chunks.drop_last(), t);
    }
    assert(track_payloads(chunks, t) =~= track_chunks(chunks, t).map_values(
        |c: ChunkView| c.payload,
    ));
}

/// Law: the bytes delivered to a track depend only on that track's
/// subsequence of chunks. Two arrival orders that interleave the other
/// track — or drop unrecognized chunks — differently produce the same
/// bytes, as long as the track's own chunks come in the same order.
pub proof fn lemma_interleaving_independent(a: Seq<ChunkView>, b: Seq<ChunkView>, t: Track)
    requires
        track_chunks(a, t) == track_chunks(b, t),
    ensures
        track_bytes(a, t) == track_bytes(b, t),
{
    lemma_track_payloads_from_chunks(a, t);
    lemma_track_payloads_from_chunks(b, t);
}

/// Law: a chunk with an unrecognized tag contributes to neither track's
/// bytes; dropping it is invisible on both pipes.
pub proof fn lemma_unknown_tag_invisible(chunks: Seq<ChunkView>, c: ChunkView, t: Track)
    requires
        chunk_track(c) is None,
    ensures
        track_bytes(chunks.push(c), t) == track_bytes(chunks, t),
{
    assert(chunks.push(c).drop_last() =~= chunks);
    assert(track_payloads(chunks.push(c), t) == track_payloads(chunks, t));
}

/// The per-call stream demultiplexer, modelled to the boundary where the
/// bytes leave for the pipes.
///
/// In the running server the two queues are a pair of independent,
/// unbounded, order-preserving channels: a single dispatch loop enqueues
/// each recognized chunk's payload onto the queue matching its tag, and two
/// independent writer tasks drain the queues into the session's named
/// pipes, so that a slow pipe stalls neither the other track nor inbound
/// reception. This type carries the routing and ordering logic of that
/// pipeline: what is enqueued where, and which bytes each writer owes its
/// pipe.
pub struct Demultiplexer {
    handle: u64,
    audio_queue: Vec<Vec<u8>>,
    video_queue: Vec<Vec<u8>>,
    history: Ghost<Seq<ChunkView>>,
}

impl Demultiplexer {
    /// Every chunk dispatched on this call so far, in arrival order.
    pub closed spec fn consumed(self) -> Seq<ChunkView> {
        self.history@
    }

    /// The handle of the session this call streams into.
    pub closed spec fn session_handle(self) -> u64 {
        self.handle
    }

    /// The payloads waiting in the audio delivery queue, oldest first.
    pub closed spec fn audio_pending(self) -> Seq<Seq<u8>> {
        payload_views(self.audio_queue@)
    }

    /// The payloads waiting in the video delivery queue, oldest first.
    pub closed spec fn video_pending(self) -> Seq<Seq<u8>> {
        payload_views(self.video_queue@)
    }

    /// Each queue holds exactly its track's payloads in arrival order.
    pub closed spec fn wf(self) -> bool {
        &&& self.audio_pending() == track_payloads(self.consumed(), Track::Audio)
        &&& self.video_pending() == track_payloads(self.consumed(), Track::Video)
    }

    /// A demultiplexer for one resolved session, before any chunk has been
    /// dispatched.
    pub fn new(handle: u64) -> (d: Self)
        ensures
            d.wf(),
            d.consumed() == Seq::<ChunkView>::empty(),
            d.session_handle() == handle,
    {
        let d = Demultiplexer {
            handle,
            audio_queue: Vec::new(),
            video_queue: Vec::new(),
            history: Ghost(Seq::empty()),
        };
        proof {
            assert(d.audio_pending() =~= Seq::<Seq<u8>>::empty());
            assert(d.video_pending() =~= Seq::<Seq<u8>>::empty());
        }
        d
    }

    /// Routes one chunk: a recognized tag enqueues the payload on that
    /// track's queue; an unrecognized tag drops the chunk — reported at the
    /// edge, never fatal — and leaves both queues untouched. Returns the
    /// track the payload went to, if any.
    pub fn dispatch(&mut self, chunk: Chunk) -> (route: Option<Track>)
        requires
            old(self).wf(),
        ensures
            final(self).wf(),
            route == chunk_track(chunk@),
            final(self).consumed() == old(self).consumed().push(chunk@),
            final(self).session_handle() == old(self).session_handle(),
            route == Some(Track::Audio) ==> {
                &&& final(self).audio_pending() == old(self).audio_pending().push(chunk@.payload)
                &&& final(self).video_pending() == old(self).video_pending()
            },
            route == Some(Track::Video) ==> {
                &&& final(self).video_pending() == old(self).video_pending().push(chunk@.payload)
                &&& final(self).audio_pending() == old(self).audio_pending()
            },
            route is None ==> {
                &&& final(self).audio_pending() == old(self).audio_pending()
                &&& final(self).video_pending() == old(self).video_pending()
            },
    {
        let ghost prev = self.history@;
        let ghost cv = chunk@;
        let route = classify_track(chunk.track_type);
        match route {
            Some(Track::Audio) => {
                self.audio_queue.push(chunk.payload);
            },
            Some(Track::Video) => {
                self.video_queue.push(chunk.payload);
            },
            None => {},
        }
        proof {
            self.history@ = prev.push(cv);
            assert(prev.push(cv).drop_last() =~= prev);
            assert(self.audio_pending() =~= track_payloads(self.consumed(), Track::Audio));
            assert(self.video_pending() =~= track_payloads(self.consumed(), Track::Video));
        }
        route
    }

    /// Writer model: drains one queue in dequeue order, writing each
    /// payload wholly before the next — the byte stream its pipe receives.
    fn drain(queue: Vec<Vec<u8>>) -> (out: Vec<u8>)
        ensures
            out@ == concat_payloads(payload_views(queue@)),
    {
        let mut out: Vec<u8> = Vec::new();
        let mut i: usize = 0;
        proof {
            assert(payload_views(queue@.take(0)) =~= Seq::<Seq<u8>>::empty());
        }
        while i < queue.len()
            invariant
                i <= queue.len(),
                out@ == concat_payloads(payload_views(queue@.take(i as int))),
            decreases queue.len() - i,
        {
            let payload = &queue[i];
            let mut j: usize = 0;
            while j < payload.len()
                invariant
                    j <= payload.len(),
                    i < queue.len(),
                    payload == &queue[i as int],
                    out@ == concat_payloads(payload_views(queue@.take(i as int)))
                        + payload@.take(j as int),
                decreases payload.len() - j,
            {
                out.push(payload[j]);
                proof {
                    assert(payload@.take(j + 1 as int) =~= payload@.take(j as int).push(
                        payload@[j as int],
                    ));
                }
                j += 1;
            }
            proof {
                let s1 = payload_views(queue@.take(i + 1 as int));
                assert(s1.drop_last() =~= payload_views(queue@.take(i as int)));
                assert(payload@.take(payload@.len() as int) =~= payload@);
                assert(out@ == concat_payloads(s1));
            }
            i += 1;
        }
        proof {
            assert(queue@.take(queue@.len() as int) =~= queue@);
        }
        out
    }

    /// Ends the call: the inbound stream is over, the queue senders are
    /// gone, and each writer drains what is buffered and exits. Returns the
    /// byte streams the audio and video pipes receive, in that order.
    pub fn finish(self) -> (out: (Vec<u8>, Vec<u8>))
        requires
            self.wf(),
        ensures
            out.0@ == track_bytes(self.consumed(), Track::Audio),
            out.1@ == track_bytes(self.consumed(), Track::Video),
    {
        let Demultiplexer { handle: _, audio_queue, video_queue, history: _ } = self;
        (Self::drain(audio_queue), Self::drain(video_queue))
    }

    /// The handle of the session this call streams into.
    pub fn handle(&self) -> (h: u64)
        ensures
            h == self.session_handle(),
    {
        self.handle
    }
}

/// Whole-call model of one streaming session after its session resolved:
/// dispatches every chunk in arrival order, then drains both queues.
/// Returns the byte streams the audio and video pipes receive.
pub fn run_demux(handle: u64, chunks: Vec<Chunk>) -> (out: (Vec<u8>, Vec<u8>))
    ensures
        out.0@ == track_bytes(chunk_views(chunks@), Track::Audio),
        out.1@ == track_bytes(chunk_views(chunks@), Track::Video),
{
    let ghost all = chunks@;
    let mut d = Demultiplexer::new(handle);
    let mut rest = chunks;
    while rest.len() > 0
        invariant
            d.wf(),
            d.consumed() + chunk_views(rest@) == chunk_views(all),
        decreases rest@.len(),
    {
        let ghost pre_rest = rest@;
        let ghost pre_consumed = d.consumed();
        let c = rest.remove(0);
        d.dispatch(c);
        proof {
            assert(d.consumed() + chunk_views(rest@) =~= pre_consumed + chunk_views(pre_rest));
        }
    }
    proof {
        assert(chunk_views(rest@) =~= Seq::<ChunkView>::empty());
        assert(d.consumed() =~= chunk_views(all));
    }
    d.finish()
}

} // verus!
