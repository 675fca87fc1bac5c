//! The animation records the panel renderer plays: what is animated,
//! from when, for how long and along which curve.

use vstd::prelude::*;
use std::time::{Duration, Instant};
use super::Easing;

verus! {

/// What an animation animates.
#[derive(Clone, Copy, Debug, PartialEq, Eq, Structural)]
pub enum AnimationKind {
    /// Fade the workspace pill at `pill` (`0..=8`) between two opacities,
    /// given as `f32` bits.
    FadePill { pill: usize, from_bits: u32, to_bits: u32 },
    /// Cross-fade the focused window's title.
    FadeTitle,
    /// Slide a new pill in from the right.
    SlideInRight,
}

/// One animation: what, from which instant, for how long, along which
/// curve.
#[derive(Clone, Copy, Debug)]
pub struct Animation {
    pub kind: AnimationKind,
    pub started_at: Instant,
    pub duration: Duration,
    pub easing: Easing,
}

/// The duration `Duration::from_millis` builds from a count of
/// milliseconds.
pub uninterp spec fn millis_duration(ms: u64) -> Duration;

/// `std::time::Duration::from_millis`: the span of `ms` milliseconds.
/// Claimed: the value depends on `ms` alone (it is named, not described).
#[verifier::external_body]
pub(crate) fn duration_from_millis(ms: u64) -> (d: Duration)
    ensures
        d == millis_duration(ms),
{
    Duration::from_millis(ms)
}

impl Animation {
    /// An animation along the default smoothstep curve.
    pub fn new(kind: AnimationKind, started_at: Instant, duration: Duration) -> (r: Self)
        ensures
            r == (Animation { kind, started_at, duration, easing: Easing::EaseInOut }),
    {
        Animation { kind, started_at, duration, easing: Easing::EaseInOut }
    }

    /// The same animation along another curve.
    pub fn with_easing(self, easing: Easing) -> (r: Self)
        ensures
            r == (Animation { easing, ..self }),
    {
        Animation { easing, ..self }
    }
}

} // verus!
