use transcoder::paths::{decimal_string, derive_paths, transcoder_args};

#[test]
fn layout_is_a_deterministic_function_of_the_stream_key() {
    let p = derive_paths("station7");
    assert_eq!(p.pipe_dir, "./tmp/pipe/station7");
    assert_eq!(p.out_dir, "./tmp/out/station7");
    assert_eq!(p.audio_pipe, "./tmp/pipe/station7/raw.aac");
    assert_eq!(p.video_pipe, "./tmp/pipe/station7/raw.h264");
    let q = derive_paths("station7");
    assert_eq!(q.pipe_dir, p.pipe_dir);
    assert_eq!(q.out_dir, p.out_dir);
    assert_eq!(q.audio_pipe, p.audio_pipe);
    assert_eq!(q.video_pipe, p.video_pipe);
}

#[test]
fn empty_key_still_yields_the_fixed_prefixes() {
    let p = derive_paths("");
    assert_eq!(p.pipe_dir, "./tmp/pipe/");
    assert_eq!(p.out_dir, "./tmp/out/");
    assert_eq!(p.audio_pipe, "./tmp/pipe//raw.aac");
    assert_eq!(p.video_pipe, "./tmp/pipe//raw.h264");
}

#[test]
fn transcoder_command_line_is_fixed() {
    let p = derive_paths("k");
    let args = transcoder_args(&p);
    let expected = vec![
        "-re",
        "-thread_queue_size",
        "1024",
        "-i",
        "./tmp/pipe/k/raw.h264",
        "-thread_queue_size",
        "1024",
        "-i",
        "./tmp/pipe/k/raw.aac",
        "-force_key_frames:v",
        "expr:gte(t,n_forced*5)",
        "-f",
        "hls",
        "-hls_time",
        "5",
        "-hls_list_size",
        "10",
        "-hls_segment_filename",
        "./tmp/out/k/file%05d.ts",
        "-hls_flags",
        "append_list+delete_segments+omit_endlist",
        "-preset",
        "veryfast",
        "./tmp/out/k/out.m3u8",
    ];
    let got: Vec<&str> = args.iter().map(|s| s.as_str()).collect();
    assert_eq!(got, expected);
}

#[test]
fn decimal_rendering_is_exact() {
    assert_eq!(decimal_string(0), "0");
    assert_eq!(decimal_string(7), "7");
    assert_eq!(decimal_string(10), "10");
    assert_eq!(decimal_string(50051), "50051");
    assert_eq!(decimal_string(u32::MAX), "4294967295");
}
