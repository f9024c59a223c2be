//! Construction of the encoder invocation: the scale directive, the derived
//! output file name, and the full argument list handed to the external
//! encoding tool. Everything here works on bytes; the host turns the byte
//! strings into OS strings and spawns the process.

use vstd::prelude::*;

use crate::probe::{is_video, spec_source_dimensions, ConvertError, StreamMetadata};
use crate::resolve::{
    spec_target_height, spec_target_width, target_for_streams, TargetDimensions,
};
use crate::tier::Resolution;

verus! {

/// The decimal digits of `n`, most significant first, without sign or
/// leading zeros (`0` is the single digit `0`).
pub open spec fn spec_decimal(n: nat) -> Seq<u8>
    decreases n,
{
    if n < 10 {
        seq![(48 + n) as u8]
    } else {
        spec_decimal(n / 10).push((48 + n % 10) as u8)
    }
}

/// Appends the decimal digits of `n` to `out`.
pub fn push_decimal(out: &mut Vec<u8>, n: u64)
    ensures
        final(out)@ == old(out)@ + spec_decimal(n as nat),
    decreases n,
{
    if n < 10 {
        out.push(48 + (n as u8));
    } else {
        push_decimal(out, n / 10);
        out.push(48 + ((n % 10) as u8));
    }
    proof {
        assert(final(out)@ =~= old(out)@ + spec_decimal(n as nat));
    }
}

/// The decimal rendering of `n` as its own byte string.
pub fn decimal_bytes(n: u64) -> (r: Vec<u8>)
    ensures
        r@ == spec_decimal(n as nat),
{
    let mut out: Vec<u8> = Vec::new();
    push_decimal(&mut out, n);
    proof {
        assert(out@ =~= spec_decimal(n as nat));
    }
    out
}

/// The scale directive handed to the encoder: `scale=<width>:<height>`.
pub open spec fn spec_scale_directive(width: nat, height: nat) -> Seq<u8> {
    seq![115u8, 99u8, 97u8, 108u8, 101u8, 61u8] + spec_decimal(width) + seq![58u8] + spec_decimal(
        height,
    )
}

/// Builds the scale directive for the resolved dimensions.
pub fn scale_directive(dims: &TargetDimensions) -> (r: Vec<u8>)
    ensures
        r@ == spec_scale_directive(dims.width as nat, dims.height as nat),
{
    let mut out: Vec<u8> = Vec::new();
    out.push(115);
    out.push(99);
    out.push(97);
    out.push(108);
    out.push(101);
    out.push(61);
    push_decimal(&mut out, dims.width);
    out.push(58);
    push_decimal(&mut out, dims.height as u64);
    proof {
        assert(out@ =~= spec_scale_directive(dims.width as nat, dims.height as nat));
    }
    out
}

/// The derived output file name: `<stem>.<target height>p.mp4`. The suffix
/// and changed extension keep it from colliding with the source file name.
pub open spec fn spec_output_name(stem: Seq<u8>, target_height: nat) -> Seq<u8> {
    stem + seq![46u8] + spec_decimal(target_height) + seq![112u8, 46u8, 109u8, 112u8, 52u8]
}

/// Builds the output file name from the source file's stem and the target
/// height.
pub fn output_file_name(stem: &Vec<u8>, target_height: u32) -> (r: Vec<u8>)
    ensures
        r@ == spec_output_name(stem@, target_height as nat),
{
    let mut out: Vec<u8> = Vec::new();
    out.extend_from_slice(stem.as_slice());
    out.push(46);
    push_decimal(&mut out, target_height as u64);
    out.push(112);
    out.push(46);
    out.push(109);
    out.push(112);
    out.push(52);
    proof {
        assert(out@ =~= spec_output_name(stem@, target_height as nat));
    }
    out
}

/// The full argument list of the external encoder invocation: the input
/// path, the output container format, the fixed quality parameter, the fixed
/// speed/quality preset, the scale directive for the resolved dimensions,
/// and the output path, in exactly this order.
pub open spec fn spec_encode_args(
    input: Seq<u8>,
    width: nat,
    height: nat,
    output: Seq<u8>,
) -> Seq<Seq<u8>> {
    seq![
        seq![45u8, 105u8],
        input,
        seq![45u8, 102u8],
        seq![109u8, 112u8, 52u8],
        seq![45u8, 99u8, 114u8, 102u8],
        seq![50u8, 53u8],
        seq![45u8, 112u8, 114u8, 101u8, 115u8, 101u8, 116u8],
        seq![115u8, 108u8, 111u8, 119u8],
        seq![45u8, 118u8, 102u8],
        spec_scale_directive(width, height),
        output,
    ]
}

/// Builds the encoder's argument list for the given input path, resolved
/// dimensions and output path.
pub fn encode_args(input: &Vec<u8>, dims: &TargetDimensions, output: &Vec<u8>) -> (r: Vec<Vec<u8>>)
    ensures
        r@.map_values(|a: Vec<u8>| a@) == spec_encode_args(
            input@,
            dims.width as nat,
            dims.height as nat,
            output@,
        ),
{
    let mut args: Vec<Vec<u8>> = Vec::new();
    let mut flag_input: Vec<u8> = Vec::new();
    flag_input.push(45);
    flag_input.push(105);
    args.push(flag_input);
    let input_arg = input.clone();
    proof {
        assert(input_arg@ =~= input@);
    }
    args.push(input_arg);
    let mut flag_format: Vec<u8> = Vec::new();
    flag_format.push(45);
    flag_format.push(102);
    args.push(flag_format);
    let mut format_token: Vec<u8> = Vec::new();
    format_token.push(109);
    format_token.push(112);
    format_token.push(52);
    args.push(format_token);
    let mut flag_quality: Vec<u8> = Vec::new();
    flag_quality.push(45);
    flag_quality.push(99);
    flag_quality.push(114);
    flag_quality.push(102);
    args.push(flag_quality);
    let mut quality: Vec<u8> = Vec::new();
    quality.push(50);
    quality.push(53);
    args.push(quality);
    let mut flag_preset: Vec<u8> = Vec::new();
    flag_preset.push(45);
    flag_preset.push(112);
    flag_preset.push(114);
    flag_preset.push(101);
    flag_preset.push(115);
    flag_preset.push(101);
    flag_preset.push(116);
    args.push(flag_preset);
    let mut preset: Vec<u8> = Vec::new();
    preset.push(115);
    preset.push(108);
    preset.push(111);
    preset.push(119);
    args.push(preset);
    let mut flag_filter: Vec<u8> = Vec::new();
    flag_filter.push(45);
    flag_filter.push(118);
    flag_filter.push(102);
    args.push(flag_filter);
    args.push(scale_directive(dims));
    let output_arg = output.clone();
    proof {
        assert(output_arg@ =~= output@);
    }
    args.push(output_arg);
    proof {
        assert(args@.map_values(|a: Vec<u8>| a@) =~~= spec_encode_args(
            input@,
            dims.width as nat,
            dims.height as nat,
            output@,
        ));
    }
    args
}

/// An accepted conversion job: the resolved target dimensions and the
/// output file name derived from the source file's stem.
pub struct ConversionJob {
    pub dims: TargetDimensions,
    pub output_name: Vec<u8>,
}

/// Plans a conversion from a probe result: resolves the target dimensions
/// for the first video stream (or fails exactly as `spec_source_dimensions`
/// states, with `NoVideoStream` before anything is resolved when no video
/// stream exists) and derives the output file name, whose height label is
/// the resolved height.
pub fn plan_conversion(stem: &Vec<u8>, streams: &Vec<StreamMetadata>, tier: Resolution) -> (r:
    Result<ConversionJob, ConvertError>)
    ensures
        match spec_source_dimensions(streams@) {
            Err(e) => r is Err && r->Err_0 == e,
            Ok(dims) => {
                &&& r is Ok
                &&& r->Ok_0.dims.height == spec_target_height(dims.1, tier)
                &&& r->Ok_0.dims.width == spec_target_width(
                    dims.0 as int,
                    dims.1 as int,
                    r->Ok_0.dims.height as int,
                )
                &&& r->Ok_0.dims.well_formed()
                &&& r->Ok_0.output_name@ == spec_output_name(
                    stem@,
                    r->Ok_0.dims.height as nat,
                )
            },
        },
        (forall|i: int| 0 <= i < streams@.len() ==> !is_video(streams@[i])) ==> r is Err
            && r->Err_0 == ConvertError::NoVideoStream,
{
    let dims = match target_for_streams(streams, tier) {
        Ok(dims) => dims,
        Err(e) => {
            return Err(e);
        },
    };
    let output_name = output_file_name(stem, dims.height);
    Ok(ConversionJob { dims, output_name })
}

} // verus!
