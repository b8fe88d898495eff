use vstd::prelude::*;
use vstd::string::*;

verus! {

/// The pipe directory for a stream key: `./tmp/pipe/{key}`.
pub open spec fn pipe_dir_spec(key: Seq<char>) -> Seq<char> {
    "./tmp/pipe/"@ + key
}

/// The output directory the transcoder populates: `./tmp/out/{key}`.
pub open spec fn out_dir_spec(key: Seq<char>) -> Seq<char> {
    "./tmp/out/"@ + key
}

/// The named pipe carrying the audio track: `./tmp/pipe/{key}/raw.aac`.
pub open spec fn audio_pipe_spec(key: Seq<char>) -> Seq<char> {
    pipe_dir_spec(key) + "/raw.aac"@
}

/// The named pipe carrying the video track: `./tmp/pipe/{key}/raw.h264`.
pub open spec fn video_pipe_spec(key: Seq<char>) -> Seq<char> {
    pipe_dir_spec(key) + "/raw.h264"@
}

/// The filesystem layout of one session: a pipe directory holding the two
/// named pipes, and the output directory for the segmented playback files.
/// Every path is a deterministic function of the stream key.
pub struct SessionPaths {
    pub pipe_dir: String,
    pub out_dir: String,
    pub audio_pipe: String,
    pub video_pipe: String,
}

/// `p` is exactly the layout derived from `key`.
pub open spec fn paths_for(p: SessionPaths, key: Seq<char>) -> bool {
    &&& p.pipe_dir@ == pipe_dir_spec(key)
    &&& p.out_dir@ == out_dir_spec(key)
    &&& p.audio_pipe@ == audio_pipe_spec(key)
    &&& p.video_pipe@ == video_pipe_spec(key)
}

/// Derives the session's filesystem layout from its stream key. The key is
/// used verbatim; no validation beyond that is specified.
pub fn derive_paths(stream_key: &str) -> (p: SessionPaths)
    ensures
        paths_for(p, stream_key@),
{
    let pipe_dir = String::from_str("./tmp/pipe/").concat(stream_key);
    let out_dir = String::from_str("./tmp/out/").concat(stream_key);
    let audio_pipe = pipe_dir.clone().concat("/raw.aac");
    let video_pipe = pipe_dir.clone().concat("/raw.h264");
    SessionPaths { pipe_dir, out_dir, audio_pipe, video_pipe }
}

/// The fixed transcoder command line for one session: the video pipe and
/// the audio pipe as the two inputs, then the segmented-playback
/// configuration targeting the output directory.
pub open spec fn transcoder_args_spec(
    audio_pipe: Seq<char>,
    video_pipe: Seq<char>,
    out_dir: Seq<char>,
) -> Seq<Seq<char>> {
    seq![
        "-re"@,
        "-thread_queue_size"@,
        "1024"@,
        "-i"@,
        video_pipe,
        "-thread_queue_size"@,
        "1024"@,
        "-i"@,
        audio_pipe,
        "-force_key_frames:v"@,
        "expr:gte(t,n_forced*5)"@,
        "-f"@,
        "hls"@,
        "-hls_time"@,
        "5"@,
        "-hls_list_size"@,
        "10"@,
        "-hls_segment_filename"@,
        out_dir + "/file%05d.ts"@,
        "-hls_flags"@,
        "append_list+delete_segments+omit_endlist"@,
        "-preset"@,
        "veryfast"@,
        out_dir + "/out.m3u8"@,
    ]
}

/// Builds the transcoder's argument list for one session's layout. The
/// supervisor passes it, unchanged, to the external process it spawns.
pub fn transcoder_args(paths: &SessionPaths) -> (args: Vec<String>)
    ensures
        args@.map_values(|s: String| s@) == transcoder_args_spec(
            paths.audio_pipe@,
            paths.video_pipe@,
            paths.out_dir@,
        ),
{
    let mut args: Vec<String> = Vec::new();
    args.push(String::from_str("-re"));
    args.push(String::from_str("-thread_queue_size"));
    args.push(String::from_str("1024"));
    args.push(String::from_str("-i"));
    args.push(paths.video_pipe.clone());
    args.push(String::from_str("-thread_queue_size"));
    args.push(String::from_str("1024"));
    args.push(String::from_str("-i"));
    args.push(paths.audio_pipe.clone());
    args.push(String::from_str("-force_key_frames:v"));
    args.push(String::from_str("expr:gte(t,n_forced*5)"));
    args.push(String::from_str("-f"));
    args.push(String::from_str("hls"));
    args.push(String::from_str("-hls_time"));
    args.push(String::from_str("5"));
    args.push(String::from_str("-hls_list_size"));
    args.push(String::from_str("10"));
    args.push(String::from_str("-hls_segment_filename"));
    args.push(paths.out_dir.clone().concat("/file%05d.ts"));
    args.push(String::from_str("-hls_flags"));
    args.push(String::from_str("append_list+delete_segments+omit_endlist"));
    args.push(String::from_str("-preset"));
    args.push(String::from_str("veryfast"));
    args.push(paths.out_dir.clone().concat("/out.m3u8"));
    proof {
        assert(args@.map_values(|s: String| s@) =~= transcoder_args_spec(
            paths.audio_pipe@,
            paths.video_pipe@,
            paths.out_dir@,
        ));
    }
    args
}

/// The decimal rendering of `n`, most significant digit first, no sign and
/// no leading zero (except for zero itself).
pub open spec fn spec_decimal(n: int) -> Seq<char>
    recommends
        0 <= n,
    decreases n,
{
    if n < 10 {
        seq![digit_char(n)]
    } else {
        spec_decimal(n / 10).push(digit_char(n % 10))
    }
}

/// The character for one decimal digit.
pub open spec fn digit_char(d: int) -> char
    recommends
        0 <= d < 10,
{
    if d == 0 {
        '0'
    } else if d == 1 {
        '1'
    } else if d == 2 {
        '2'
    } else if d == 3 {
        '3'
    } else if d == 4 {
        '4'
    } else if d == 5 {
        '5'
    } else if d == 6 {
        '6'
    } else if d == 7 {
        '7'
    } else if d == 8 {
        '8'
    } else {
        '9'
    }
}

fn digit_str(d: u32) -> (s: &'static str)
    requires
        d < 10,
    ensures
        s@ == seq![digit_char(d as int)],
{
    let s: &'static str = if d == 0 {
        "0"
    } else if d == 1 {
        "1"
    } else if d == 2 {
        "2"
    } else if d == 3 {
        "3"
    } else if d == 4 {
        "4"
    } else if d == 5 {
        "5"
    } else if d == 6 {
        "6"
    } else if d == 7 {
        "7"
    } else if d == 8 {
        "8"
    } else {
        "9"
    };
    proof {
        reveal_strlit("0");
        reveal_strlit("1");
        reveal_strlit("2");
        reveal_strlit("3");
        reveal_strlit("4");
        reveal_strlit("5");
        reveal_strlit("6");
        reveal_strlit("7");
        reveal_strlit("8");
        reveal_strlit("9");
        assert(s@ =~= seq![digit_char(d as int)]);
    }
    s
}

/// Renders a process identifier (or any 32-bit count) in decimal, as the
/// argument of the termination command.
pub fn decimal_string(n: u32) -> (s: String)
    ensures
        s@ == spec_decimal(n as int),
    decreases n,
{
    if n < 10 {
        let s = String::from_str(digit_str(n));
        s
    } else {
        let prefix = decimal_string(n / 10);
        let s = prefix.concat(digit_str(n % 10));
        proof {
            assert(s@ =~= spec_decimal(n as int));
        }
        s
    }
}

} // verus!
