//! Quality tiers and their fixed target heights.

use vstd::prelude::*;

verus! {

/// A user-selected quality tier. Every tier but `Same` maps to a fixed
/// target height; `Same` keeps the source dimensions.
#[derive(Clone, Copy, PartialEq, Eq, Structural, Debug)]
pub enum Resolution {
    Sd,
    Hsd,
    Hd,
    Hdd,
    Same,
}

/// The fixed target height of a tier; `None` means the source height is kept.
pub open spec fn spec_tier_height(tier: Resolution) -> Option<u32> {
    match tier {
        Resolution::Sd => Some(480u32),
        Resolution::Hsd => Some(600u32),
        Resolution::Hd => Some(720u32),
        Resolution::Hdd => Some(900u32),
        Resolution::Same => None,
    }
}

/// The target height a tier asks for, or `None` when the source height is
/// to be kept unchanged.
pub fn tier_height(tier: Resolution) -> (r: Option<u32>)
    ensures
        r == spec_tier_height(tier),
{
    match tier {
        Resolution::Sd => Some(480),
        Resolution::Hsd => Some(600),
        Resolution::Hd => Some(720),
        Resolution::Hdd => Some(900),
        Resolution::Same => None,
    }
}

impl Resolution {
    /// Whether a conversion with this tier is skipped outright: the
    /// `Same` tier asks for no transformation, so no encode is launched.
    pub fn skips_encoding(&self) -> (r: bool)
        ensures
            r == (*self is Same),
    {
        matches!(self, Resolution::Same)
    }
}

} // verus!
