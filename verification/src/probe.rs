//! Interpretation of probe metadata: stream records, the error taxonomy of
//! the conversion pipeline, and the rule that picks the source dimensions
//! out of a list of streams.
//!
//! The host invokes the external inspection tool and parses its structured
//! output into `StreamMetadata` records; this module holds the verified rule
//! that selects the first video stream and extracts usable dimensions.

use vstd::prelude::*;

verus! {

/// The kind of a media stream as the probe reports it.
#[derive(Clone, Copy, PartialEq, Eq, Structural, Debug)]
pub enum CodecType {
    Video,
    Audio,
}

/// One stream of the probed container. A missing width or height is a valid
/// state (audio streams, malformed metadata) and is distinct from zero.
#[derive(Clone, Copy, Debug)]
pub struct StreamMetadata {
    pub codec_type: CodecType,
    pub width: Option<u32>,
    pub height: Option<u32>,
}

/// Everything that can terminate a conversion request. Each variant is
/// terminal for the affected job; nothing is retried.
#[derive(Clone, Copy, PartialEq, Eq, Structural, Debug)]
pub enum ConvertError {
    /// The source path does not reference an existing, readable file.
    FileNotFound,
    /// The external inspection tool was missing, failed, or produced
    /// unusable output.
    ProbeFailed,
    /// The inspection tool's structured output failed to parse.
    MalformedMetadata,
    /// The probed container holds no video stream.
    NoVideoStream,
    /// The selected video stream reports no usable width or height.
    DimensionsUnavailable,
    /// The external encoder could not be located or started.
    LaunchError,
    /// The spawned encoder offered no readable diagnostic stream.
    NoOutputStream,
}

/// The full argument list of the external inspection tool's invocation:
/// quiet verbosity, structured output format, the show-streams flag, and
/// the source path, in exactly this order.
pub open spec fn spec_probe_args(path: Seq<u8>) -> Seq<Seq<u8>> {
    seq![
        seq![45u8, 118u8],
        seq![113u8, 117u8, 105u8, 101u8, 116u8],
        seq![45u8, 112u8, 114u8, 105u8, 110u8, 116u8, 95u8, 102u8, 111u8, 114u8, 109u8, 97u8, 116u8],
        seq![106u8, 115u8, 111u8, 110u8],
        seq![45u8, 115u8, 104u8, 111u8, 119u8, 95u8, 115u8, 116u8, 114u8, 101u8, 97u8, 109u8, 115u8],
        path,
    ]
}

/// Builds the inspection tool's argument list for the given source path.
pub fn probe_args(path: &Vec<u8>) -> (r: Vec<Vec<u8>>)
    ensures
        r@.map_values(|a: Vec<u8>| a@) == spec_probe_args(path@),
{
    let mut args: Vec<Vec<u8>> = Vec::new();
    let mut flag_verbosity: Vec<u8> = Vec::new();
    flag_verbosity.push(45);
    flag_verbosity.push(118);
    args.push(flag_verbosity);
    let mut verbosity: Vec<u8> = Vec::new();
    verbosity.push(113);
    verbosity.push(117);
    verbosity.push(105);
    verbosity.push(101);
    verbosity.push(116);
    args.push(verbosity);
    let mut flag_format: Vec<u8> = Vec::new();
    flag_format.push(45);
    flag_format.push(112);
    flag_format.push(114);
    flag_format.push(105);
    flag_format.push(110);
    flag_format.push(116);
    flag_format.push(95);
    flag_format.push(102);
    flag_format.push(111);
    flag_format.push(114);
    flag_format.push(109);
    flag_format.push(97);
    flag_format.push(116);
    args.push(flag_format);
    let mut format_token: Vec<u8> = Vec::new();
    format_token.push(106);
    format_token.push(115);
    format_token.push(111);
    format_token.push(110);
    args.push(format_token);
    let mut flag_streams: Vec<u8> = Vec::new();
    flag_streams.push(45);
    flag_streams.push(115);
    flag_streams.push(104);
    flag_streams.push(111);
    flag_streams.push(119);
    flag_streams.push(95);
    flag_streams.push(115);
    flag_streams.push(116);
    flag_streams.push(114);
    flag_streams.push(101);
    flag_streams.push(97);
    flag_streams.push(109);
    flag_streams.push(115);
    args.push(flag_streams);
    let path_arg = path.clone();
    proof {
        assert(path_arg@ =~= path@);
    }
    args.push(path_arg);
    proof {
        assert(args@.map_values(|a: Vec<u8>| a@) =~~= spec_probe_args(path@));
    }
    args
}

/// Whether a stream is a video stream.
pub open spec fn is_video(s: StreamMetadata) -> bool {
    s.codec_type is Video
}

/// The dimensions the first video stream of `streams` supplies: the first
/// video stream is authoritative; no video stream at all is
/// `NoVideoStream`; a first video stream with a missing or zero width or
/// height is `DimensionsUnavailable`.
pub open spec fn spec_source_dimensions(streams: Seq<StreamMetadata>) -> Result<
    (u32, u32),
    ConvertError,
>
    decreases streams.len(),
{
    if streams.len() == 0 {
        Err(ConvertError::NoVideoStream)
    } else if is_video(streams[0]) {
        match (streams[0].width, streams[0].height) {
            (Some(w), Some(h)) => if w >= 1 && h >= 1 {
                Ok((w, h))
            } else {
                Err(ConvertError::DimensionsUnavailable)
            },
            _ => Err(ConvertError::DimensionsUnavailable),
        }
    } else {
        spec_source_dimensions(streams.skip(1))
    }
}

/// No video stream anywhere means the selection fails with `NoVideoStream`.
pub proof fn lemma_no_video_stream(streams: Seq<StreamMetadata>)
    requires
        forall|i: int| 0 <= i < streams.len() ==> !is_video(streams[i]),
    ensures
        spec_source_dimensions(streams) == Err::<(u32, u32), ConvertError>(
            ConvertError::NoVideoStream,
        ),
    decreases streams.len(),
{
    if streams.len() > 0 {
        assert(forall|i: int|
            0 <= i < streams.skip(1).len() ==> streams.skip(1)[i] == streams[i + 1]);
        lemma_no_video_stream(streams.skip(1));
    }
}

/// Picks the width and height of the first video stream, as
/// `spec_source_dimensions` states.
pub fn source_dimensions(streams: &Vec<StreamMetadata>) -> (r: Result<(u32, u32), ConvertError>)
    ensures
        r == spec_source_dimensions(streams@),
        r is Ok ==> r->Ok_0.0 >= 1 && r->Ok_0.1 >= 1,
{
    let n = streams.len();
    let mut i: usize = 0;
    proof {
        assert(streams@.skip(0) =~= streams@);
    }
    while i < n
        invariant
            0 <= i <= n,
            n == streams@.len(),
            spec_source_dimensions(streams@) == spec_source_dimensions(streams@.skip(i as int)),
        decreases n - i,
    {
        let s = &streams[i];
        proof {
            assert(streams@.skip(i as int)[0] == streams@[i as int]);
        }
        match s.codec_type {
            CodecType::Video => {
                match (s.width, s.height) {
                    (Some(w), Some(h)) => {
                        if w >= 1 && h >= 1 {
                            return Ok((w, h));
                        } else {
                            return Err(ConvertError::DimensionsUnavailable);
                        }
                    },
                    _ => {
                        return Err(ConvertError::DimensionsUnavailable);
                    },
                }
            },
            CodecType::Audio => {
                proof {
                    assert(streams@.skip(i as int).skip(1) =~= streams@.skip(i as int + 1));
                }
                i = i + 1;
            },
        }
    }
    proof {
        assert(streams@.skip(n as int).len() == 0);
    }
    Err(ConvertError::NoVideoStream)
}

} // verus!
