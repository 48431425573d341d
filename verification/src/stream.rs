//! The camera stream: an `ffmpeg` process that re-encodes an RTSP source as
//! an MPEG transport stream on its standard output.

use vstd::prelude::*;

use crate::systemd::arg_texts;

verus! {

/// The `ffmpeg` arguments that stream `source`, in order.
pub open spec fn ffmpeg_arg_texts(source: Seq<char>) -> Seq<Seq<char>> {
    seq![
        "-re"@,
        "-i"@,
        source,
        "-g"@,
        "52"@,
        "-f"@,
        "mpegts"@,
        "-codec:v"@,
        "libx264"@,
        "-movflags"@,
        "frag_keyframe+empty_moov"@,
        "-"@,
    ]
}

/// The input that `ffmpeg` opens is the source itself, unchanged: the
/// argument right after `-i` is the source, and no other argument depends on it.
pub proof fn lemma_ffmpeg_input_is_source(source: Seq<char>, other: Seq<char>)
    ensures
        ffmpeg_arg_texts(source).len() == 12,
        ffmpeg_arg_texts(source)[1] == "-i"@,
        ffmpeg_arg_texts(source)[2] == source,
        forall|k: int|
            0 <= k < 12 && k != 2 ==> ffmpeg_arg_texts(source)[k] == ffmpeg_arg_texts(other)[k],
{
}

/// The arguments of the `ffmpeg` process that streams `source`: read it at
/// its native rate, a key frame every 52 frames, H.264 video in MPEG-TS,
/// fragmented, written to standard output.
pub fn ffmpeg_args(source: &str) -> (args: Vec<String>)
    ensures
        arg_texts(args@) == ffmpeg_arg_texts(source@),
{
    let mut args: Vec<String> = Vec::new();
    args.push("-re".to_owned());
    args.push("-i".to_owned());
    args.push(source.to_owned());
    args.push("-g".to_owned());
    args.push("52".to_owned());
    args.push("-f".to_owned());
    args.push("mpegts".to_owned());
    args.push("-codec:v".to_owned());
    args.push("libx264".to_owned());
    args.push("-movflags".to_owned());
    args.push("frag_keyframe+empty_moov".to_owned());
    args.push("-".to_owned());
    proof {
        assert(arg_texts(args@) =~= ffmpeg_arg_texts(source@));
    }
    args
}

} // verus!
