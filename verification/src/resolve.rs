//! Aspect-ratio-preserving dimension resolution.
//!
//! The target height comes from the selected tier (or the source when the
//! tier keeps it unchanged); the target width scales the source width by the
//! same ratio, rounded to the nearest integer, and is then forced even, as
//! chroma-subsampled encoding requires.

use vstd::arithmetic::div_mod::{
    lemma_div_is_ordered, lemma_div_is_ordered_by_denominator, lemma_fundamental_div_mod,
    lemma_mod_bound,
};
use vstd::prelude::*;

use crate::probe::{is_video, spec_source_dimensions, ConvertError, StreamMetadata};
use crate::tier::{spec_tier_height, tier_height, Resolution};

verus! {

/// The dimensions handed to the encoder. The width is always even; the
/// height is the tier's fixed height, or the source height for the
/// unchanged tier.
#[derive(Clone, Copy, PartialEq, Eq, Structural, Debug)]
pub struct TargetDimensions {
    pub width: u64,
    pub height: u32,
}

impl TargetDimensions {
    /// The invariant every resolved value satisfies: a positive height and
    /// an even width.
    pub open spec fn well_formed(self) -> bool {
        self.width % 2 == 0 && self.height >= 1
    }
}

/// `num / den` rounded to the nearest integer (halves round up).
pub open spec fn round_div(num: int, den: int) -> int
    recommends
        num >= 0,
        den >= 1,
{
    (2 * num + den) / (2 * den)
}

/// The given width, forced even by adding one when it is odd.
pub open spec fn evened(w: int) -> int {
    if w % 2 == 1 {
        w + 1
    } else {
        w
    }
}

/// The height the resolution targets: the tier's fixed height, or the
/// source height when the tier keeps it unchanged.
pub open spec fn spec_target_height(source_height: u32, tier: Resolution) -> u32 {
    match spec_tier_height(tier) {
        Some(th) => th,
        None => source_height,
    }
}

/// The width the resolution targets: the source width scaled by
/// `target_height / source_height`, rounded to nearest, then forced even.
pub open spec fn spec_target_width(w: int, h: int, target_height: int) -> int
    recommends
        w >= 1,
        h >= 1,
{
    evened(round_div(w * target_height, h))
}

/// Rounding to nearest lands within half a unit: measured at double scale,
/// `2 * round_div(num, den) * den` differs from `2 * num` by at most `den`.
pub proof fn lemma_round_div_bounds(num: int, den: int)
    requires
        num >= 0,
        den >= 1,
    ensures
        -den < 2 * round_div(num, den) * den - 2 * num <= den,
{
    let n = 2 * num + den;
    let d = 2 * den;
    lemma_fundamental_div_mod(n, d);
    lemma_mod_bound(n, d);
    let q = n / d;
    let rem = n % d;
    assert(2 * q * den - 2 * num == den - rem) by (nonlinear_arith)
        requires
            n == d * q + rem,
            n == 2 * num + den,
            d == 2 * den,
    ;
}

/// Aspect-ratio preservation, in full: the resolved width times the source
/// height stays within one-and-a-half width units of the source width times
/// the target height (half a unit of rounding, plus at most one unit from
/// forcing the width even). Measured at double scale to stay in integers.
pub proof fn lemma_aspect_ratio_bound(w: int, h: int, th: int)
    requires
        w >= 1,
        h >= 1,
        th >= 1,
    ensures
        -h < 2 * spec_target_width(w, h, th) * h - 2 * (w * th) <= 3 * h,
{
    assert(w * th >= 1) by (nonlinear_arith)
        requires
            w >= 1,
            th >= 1,
    ;
    let num = w * th;
    lemma_round_div_bounds(num, h);
    let q = round_div(num, h);
    let tw = spec_target_width(w, h, th);
    if q % 2 == 1 {
        assert(tw == q + 1);
        assert(2 * (q + 1) * h == 2 * q * h + 2 * h) by (nonlinear_arith);
    } else {
        assert(tw == q);
    }
}

/// Aspect-ratio preservation within rounding tolerance: when rounding alone
/// already gives an even width (no parity correction is applied), the
/// resolved width is within half a unit — in particular, less than one unit —
/// of the exact scaled width. Measured at double scale to stay in integers.
pub proof fn lemma_aspect_ratio_within_one_unit(w: int, h: int, th: int)
    requires
        w >= 1,
        h >= 1,
        th >= 1,
        round_div(w * th, h) % 2 == 0,
    ensures
        -h < 2 * spec_target_width(w, h, th) * h - 2 * (w * th) <= h,
{
    assert(w * th >= 1) by (nonlinear_arith)
        requires
            w >= 1,
            th >= 1,
    ;
    let num = w * th;
    lemma_round_div_bounds(num, h);
    assert(spec_target_width(w, h, th) == round_div(num, h));
}

/// Resolving is a pure function of its inputs: any two results that meet the
/// resolver's contract for the same source dimensions and tier are equal.
pub proof fn lemma_resolve_deterministic(
    width: u32,
    height: u32,
    tier: Resolution,
    a: TargetDimensions,
    b: TargetDimensions,
)
    requires
        a.height == spec_target_height(height, tier),
        a.width == spec_target_width(width as int, height as int, a.height as int),
        b.height == spec_target_height(height, tier),
        b.width == spec_target_width(width as int, height as int, b.height as int),
    ensures
        a == b,
{
}

/// Computes the target dimensions for the given source dimensions and tier:
/// the height is the tier's (or the source's, for the unchanged tier), the
/// width preserves the aspect ratio rounded to nearest and is forced even.
pub fn resolve(width: u32, height: u32, tier: Resolution) -> (r: TargetDimensions)
    requires
        width >= 1,
        height >= 1,
    ensures
        r.height == spec_target_height(height, tier),
        r.width == spec_target_width(width as int, height as int, r.height as int),
        r.width % 2 == 0,
        r.well_formed(),
        !(tier is Same) ==> spec_tier_height(tier) == Some(r.height),
{
    let th: u32 = match tier_height(tier) {
        Some(t) => t,
        None => height,
    };
    proof {
        assert((width as int) * (th as int) <= 0xffff_ffff * 0xffff_ffff) by (nonlinear_arith)
            requires
                0 <= width <= 0xffff_ffffu32,
                0 <= th <= 0xffff_ffffu32,
        ;
        assert(2 * (width as int) * (th as int) == 2 * ((width as int) * (th as int)))
            by (nonlinear_arith);
    }
    let num: u128 = 2 * (width as u128) * (th as u128) + (height as u128);
    let den: u128 = 2 * (height as u128);
    proof {
        lemma_div_is_ordered_by_denominator(num as int, 2, den as int);
        lemma_div_is_ordered(num as int, (2 * 0xffff_ffff * 0xffff_ffff + 0xffff_ffff) as int, 2);
        assert(num as int / den as int <= 0xffff_ffff * 0xffff_ffff + 0x7fff_ffff);
    }
    let r0: u128 = num / den;
    let r0: u64 = r0 as u64;
    let w_even: u64 = if r0 % 2 == 1 {
        r0 + 1
    } else {
        r0
    };
    TargetDimensions { width: w_even, height: th }
}

/// Resolves the target dimensions straight from a probe result: picks the
/// first video stream's dimensions (or fails exactly as
/// `spec_source_dimensions` states) and scales them for the tier. When the
/// probe result holds no video stream at all, the pipeline stops here with
/// `NoVideoStream`, before anything is resolved or launched.
pub fn target_for_streams(streams: &Vec<StreamMetadata>, tier: Resolution) -> (r: Result<
    TargetDimensions,
    ConvertError,
>)
    ensures
        match spec_source_dimensions(streams@) {
            Err(e) => r == Err::<TargetDimensions, ConvertError>(e),
            Ok(dims) => {
                &&& r is Ok
                &&& r->Ok_0.height == spec_target_height(dims.1, tier)
                &&& r->Ok_0.width == spec_target_width(
                    dims.0 as int,
                    dims.1 as int,
                    r->Ok_0.height as int,
                )
                &&& r->Ok_0.well_formed()
            },
        },
        (forall|i: int| 0 <= i < streams@.len() ==> !is_video(streams@[i])) ==> r == Err::<
            TargetDimensions,
            ConvertError,
        >(ConvertError::NoVideoStream),
{
    proof {
        if forall|i: int| 0 <= i < streams@.len() ==> !is_video(streams@[i]) {
            crate::probe::lemma_no_video_stream(streams@);
        }
    }
    match crate::probe::source_dimensions(streams) {
        Ok((w, h)) => Ok(resolve(w, h, tier)),
        Err(e) => Err(e),
    }
}

} // verus!

