use transcoder::demux::Chunk;
use transcoder::errors::ServiceError;
use transcoder::lifecycle::{begin_stream, close_session, register_started_session};
use transcoder::registry::SessionRegistry;
use transcoder::session::{Session, SessionState};

#[test]
fn session_records_its_key_state_and_pid() {
    let mut s = Session::new("alpha".to_string());
    assert_eq!(s.get_publish_url(), "alpha");
    assert_eq!(s.get_state(), SessionState::Initialized);
    assert_eq!(s.get_ffmpeg_pid(), None);
    s.set_ffmpeg_pid(321);
    assert_eq!(s.get_ffmpeg_pid(), Some(321));
    s.begin_streaming();
    assert_eq!(s.get_state(), SessionState::Streaming);
    assert_eq!(s.get_publish_url(), "alpha");
}

#[test]
fn create_close_then_further_operations_fail() {
    let mut reg = SessionRegistry::new();
    let h = register_started_session(&mut reg, "key-a".to_string(), 100);
    assert_eq!(close_session(&mut reg, h), Ok(100));
    assert_eq!(close_session(&mut reg, h), Err(ServiceError::SessionLookup));
    let first = Chunk { session_id: h as u64, track_type: 1, payload: vec![1] };
    match begin_stream(&mut reg, first) {
        Err(e) => assert_eq!(e, ServiceError::SessionLookup),
        Ok(_) => panic!("a stream must not open on a closed session"),
    }
}

#[test]
fn removed_handle_is_reassigned_to_a_new_session() {
    let mut reg = SessionRegistry::new();
    let h1 = register_started_session(&mut reg, "one".to_string(), 11);
    let h2 = register_started_session(&mut reg, "two".to_string(), 12);
    assert_ne!(h1, h2);
    assert_eq!(close_session(&mut reg, h1), Ok(11));
    let h3 = register_started_session(&mut reg, "three".to_string(), 13);
    assert_eq!(h3, h1);
    assert_eq!(reg.lookup(h3).unwrap().get_publish_url(), "three");
    assert_eq!(reg.lookup(h2).unwrap().get_publish_url(), "two");
}

#[test]
fn lookup_of_an_unknown_handle_fails() {
    let reg = SessionRegistry::new();
    match reg.lookup(0) {
        Err(e) => assert_eq!(e, ServiceError::SessionLookup),
        Ok(_) => panic!("an empty registry has no live session"),
    }
    assert!(reg.lookup(5).is_err());
}

#[test]
fn remove_of_an_unknown_handle_fails() {
    let mut reg = SessionRegistry::new();
    match reg.remove(3) {
        Err(e) => assert_eq!(e, ServiceError::SessionLookup),
        Ok(_) => panic!("an empty registry has nothing to remove"),
    }
}

#[test]
fn removed_record_comes_back_closed_with_its_data() {
    let mut reg = SessionRegistry::new();
    let h = reg.create("gone".to_string());
    reg.record_pid(h, 9).unwrap();
    let rec = reg.remove(h).unwrap();
    assert_eq!(rec.get_publish_url(), "gone");
    assert_eq!(rec.get_ffmpeg_pid(), Some(9));
    assert_eq!(rec.get_state(), SessionState::Closed);
}

#[test]
fn close_without_recorded_pid_reports_termination_error() {
    let mut reg = SessionRegistry::new();
    let h = reg.create("bare".to_string());
    assert_eq!(close_session(&mut reg, h), Err(ServiceError::Termination));
    assert!(reg.lookup(h).is_err());
}

#[test]
fn begin_stream_resolves_a_live_session() {
    let mut reg = SessionRegistry::new();
    let h = register_started_session(&mut reg, "live".to_string(), 77);
    assert_eq!(reg.lookup(h).unwrap().get_state(), SessionState::Initialized);
    let first = Chunk { session_id: h as u64, track_type: 2, payload: vec![42] };
    let (demux, paths) = begin_stream(&mut reg, first).unwrap();
    assert_eq!(reg.lookup(h).unwrap().get_state(), SessionState::Streaming);
    assert_eq!(demux.handle(), h as u64);
    assert_eq!(paths.pipe_dir, "./tmp/pipe/live");
    assert_eq!(paths.out_dir, "./tmp/out/live");
    assert_eq!(paths.audio_pipe, "./tmp/pipe/live/raw.aac");
    assert_eq!(paths.video_pipe, "./tmp/pipe/live/raw.h264");
    let (audio, video) = demux.finish();
    assert!(audio.is_empty());
    assert_eq!(video, vec![42]);
}

#[test]
fn begin_stream_with_unknown_handle_fails_before_any_writer() {
    let mut reg = SessionRegistry::new();
    let h = register_started_session(&mut reg, "only".to_string(), 5);
    let first = Chunk { session_id: h as u64 + 1, track_type: 1, payload: vec![1] };
    match begin_stream(&mut reg, first) {
        Err(e) => assert_eq!(e, ServiceError::SessionLookup),
        Ok(_) => panic!("an unknown handle must not open a stream"),
    }
    assert_eq!(reg.lookup(h).unwrap().get_state(), SessionState::Initialized);
}

#[test]
fn first_accepted_chunk_moves_the_session_to_streaming() {
    let mut reg = SessionRegistry::new();
    let h = register_started_session(&mut reg, "going-live".to_string(), 8);
    assert_eq!(reg.lookup(h).unwrap().get_state(), SessionState::Initialized);
    let first = Chunk { session_id: h as u64, track_type: 1, payload: vec![1] };
    begin_stream(&mut reg, first).unwrap();
    let s = reg.lookup(h).unwrap();
    assert_eq!(s.get_state(), SessionState::Streaming);
    assert_eq!(s.get_publish_url(), "going-live");
    assert_eq!(s.get_ffmpeg_pid(), Some(8));
    // a later streaming call finds the session Streaming and leaves it so
    let again = Chunk { session_id: h as u64, track_type: 2, payload: vec![2] };
    begin_stream(&mut reg, again).unwrap();
    assert_eq!(reg.lookup(h).unwrap().get_state(), SessionState::Streaming);
}

#[test]
fn mark_streaming_of_an_unknown_handle_fails() {
    let mut reg = SessionRegistry::new();
    match reg.mark_streaming(2) {
        Err(e) => assert_eq!(e, ServiceError::SessionLookup),
        Ok(_) => panic!("an empty registry has nothing to mark"),
    }
}

#[test]
fn close_yields_the_recorded_pid_exactly_once() {
    let mut reg = SessionRegistry::new();
    let h = register_started_session(&mut reg, "stop-me".to_string(), 4242);
    assert_eq!(close_session(&mut reg, h), Ok(4242));
    assert_eq!(close_session(&mut reg, h), Err(ServiceError::SessionLookup));
}

#[test]
fn distinct_live_sessions_keep_distinct_handles_and_records() {
    let mut reg = SessionRegistry::new();
    let ha = register_started_session(&mut reg, "a".to_string(), 1);
    let hb = register_started_session(&mut reg, "b".to_string(), 2);
    let hc = register_started_session(&mut reg, "c".to_string(), 3);
    assert_ne!(ha, hb);
    assert_ne!(hb, hc);
    assert_ne!(ha, hc);
    assert_eq!(reg.lookup(ha).unwrap().get_ffmpeg_pid(), Some(1));
    assert_eq!(reg.lookup(hb).unwrap().get_ffmpeg_pid(), Some(2));
    assert_eq!(reg.lookup(hc).unwrap().get_ffmpeg_pid(), Some(3));
}
