//! Adequacy ratings: a contrast ratio maps to one rating per text-size
//! bucket, and a font size in pixels selects the bucket that applies.

use vstd::prelude::*;

verus! {

/// How adequate a contrast ratio is for a given text size.
#[derive(Clone, Copy, PartialEq, Eq, Structural, Debug)]
pub enum Quality {
    Bad,
    Good,
    Perfect,
}

/// One rating for each of the three text-size buckets.
#[derive(Clone, Copy, PartialEq, Eq, Structural, Debug)]
pub struct ContrastQualities {
    pub small: Quality,
    pub medium: Quality,
    pub large: Quality,
}

/// The rating triple of a fixed-point contrast ratio (scaled by one
/// million): above 7 everything is perfect, above 4.5 only large text is,
/// above 3 large text is merely good, at or below 3 nothing is adequate.
pub open spec fn qualities_spec(ratio: int) -> ContrastQualities {
    if ratio > 7_000_000 {
        ContrastQualities { small: Quality::Perfect, medium: Quality::Perfect, large: Quality::Perfect }
    } else if ratio > 4_500_000 {
        ContrastQualities { small: Quality::Good, medium: Quality::Good, large: Quality::Perfect }
    } else if ratio > 3_000_000 {
        ContrastQualities { small: Quality::Bad, medium: Quality::Bad, large: Quality::Good }
    } else {
        ContrastQualities { small: Quality::Bad, medium: Quality::Bad, large: Quality::Bad }
    }
}

/// The rating triple of a fixed-point contrast ratio.
pub fn qualities_for_ratio(ratio: u64) -> (q: ContrastQualities)
    ensures
        q == qualities_spec(ratio as int),
{
    if ratio > 7_000_000 {
        ContrastQualities { small: Quality::Perfect, medium: Quality::Perfect, large: Quality::Perfect }
    } else if ratio > 4_500_000 {
        ContrastQualities { small: Quality::Good, medium: Quality::Good, large: Quality::Perfect }
    } else if ratio > 3_000_000 {
        ContrastQualities { small: Quality::Bad, medium: Quality::Bad, large: Quality::Good }
    } else {
        ContrastQualities { small: Quality::Bad, medium: Quality::Bad, large: Quality::Bad }
    }
}

/// The bucket a font size in pixels falls into: at least 18 px is large,
/// above 13 px is medium, anything else is small.
pub open spec fn quality_for_size_spec(font_size: int, q: ContrastQualities) -> Quality {
    if font_size >= 18 {
        q.large
    } else if font_size > 13 {
        q.medium
    } else {
        q.small
    }
}

/// The rating that applies to a font size in pixels.
pub fn quality_for_size(font_size: i32, q: &ContrastQualities) -> (r: Quality)
    ensures
        r == quality_for_size_spec(font_size as int, *q),
{
    if font_size >= 18 {
        q.large
    } else if font_size > 13 {
        q.medium
    } else {
        q.small
    }
}

} // verus!
