use transcoder::demux::{
    classify_track, run_demux, Chunk, Demultiplexer, Track, AUDIO_TAG, VIDEO_TAG,
};

fn chunk(tag: i32, payload: &[u8]) -> Chunk {
    Chunk { session_id: 0, track_type: tag, payload: payload.to_vec() }
}

#[test]
fn classify_recognizes_audio_and_video() {
    assert_eq!(classify_track(AUDIO_TAG), Some(Track::Audio));
    assert_eq!(classify_track(VIDEO_TAG), Some(Track::Video));
    assert_eq!(classify_track(0), None);
    assert_eq!(classify_track(3), None);
    assert_eq!(classify_track(-1), None);
}

#[test]
fn interleaved_chunks_split_by_tag_in_order() {
    let chunks = vec![
        chunk(1, &[1, 2]),
        chunk(2, &[9]),
        chunk(1, &[3]),
        chunk(2, &[8, 7]),
        chunk(1, &[4]),
    ];
    let (audio, video) = run_demux(5, chunks);
    assert_eq!(audio, vec![1, 2, 3, 4]);
    assert_eq!(video, vec![9, 8, 7]);
}

#[test]
fn reordering_the_other_track_leaves_a_track_unchanged() {
    let a = run_demux(0, vec![chunk(1, &[1]), chunk(2, &[5]), chunk(1, &[2])]);
    let b = run_demux(0, vec![chunk(2, &[5]), chunk(1, &[1]), chunk(1, &[2])]);
    let c = run_demux(0, vec![chunk(1, &[1]), chunk(1, &[2]), chunk(2, &[5])]);
    assert_eq!(a.0, vec![1, 2]);
    assert_eq!(b.0, a.0);
    assert_eq!(c.0, a.0);
    assert_eq!(a.1, vec![5]);
    assert_eq!(b.1, a.1);
    assert_eq!(c.1, a.1);
}

#[test]
fn unknown_tag_reaches_neither_pipe_and_does_not_stop_dispatch() {
    let (audio, video) = run_demux(
        0,
        vec![
            chunk(1, &[1]),
            chunk(7, &[0xFF]),
            chunk(2, &[2]),
            chunk(0, &[0xEE]),
            chunk(1, &[3]),
        ],
    );
    assert_eq!(audio, vec![1, 3]);
    assert_eq!(video, vec![2]);
}

#[test]
fn empty_stream_yields_empty_tracks() {
    let (audio, video) = run_demux(0, Vec::new());
    assert!(audio.is_empty());
    assert!(video.is_empty());
}

#[test]
fn dispatch_reports_the_route_and_finish_drains_in_order() {
    let mut d = Demultiplexer::new(9);
    assert_eq!(d.handle(), 9);
    assert_eq!(d.dispatch(chunk(1, &[10])), Some(Track::Audio));
    assert_eq!(d.dispatch(chunk(3, &[11])), None);
    assert_eq!(d.dispatch(chunk(2, &[12])), Some(Track::Video));
    assert_eq!(d.dispatch(chunk(1, &[13])), Some(Track::Audio));
    let (audio, video) = d.finish();
    assert_eq!(audio, vec![10, 13]);
    assert_eq!(video, vec![12]);
}

#[test]
fn empty_payloads_are_preserved_as_no_bytes() {
    let (audio, video) = run_demux(0, vec![chunk(1, &[]), chunk(2, &[1]), chunk(1, &[2])]);
    assert_eq!(audio, vec![2]);
    assert_eq!(video, vec![1]);
}
