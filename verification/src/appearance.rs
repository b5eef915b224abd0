//! The two enumerations of the `appearance` section that name a choice
//! rather than hold a number: the accent colour and the animation feel.

use vstd::prelude::*;

verus! {

/// The accent colour of the desktop.
#[derive(Debug, Clone, Copy, PartialEq, Eq, Structural)]
pub enum AccentColor {
    Purple,
    Blue,
    Green,
    Orange,
    Pink,
}

impl Default for AccentColor {
    fn default() -> (c: AccentColor)
        ensures
            c == AccentColor::Purple,
    {
        AccentColor::Purple
    }
}

/// How much the desktop animates.
#[derive(Debug, Clone, Copy, PartialEq, Eq, Structural)]
pub enum AnimationProfile {
    /// No animation at all (`None` in the file).
    Off,
    Snappy,
    Standard,
    Smooth,
}

impl Default for AnimationProfile {
    fn default() -> (p: AnimationProfile)
        ensures
            p == AnimationProfile::Standard,
    {
        AnimationProfile::Standard
    }
}

} // verus!
