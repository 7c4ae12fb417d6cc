//! A WCAG colour-contrast engine: relative luminance and contrast ratio of
//! RGB colours, adequacy ratings per text size, a guaranteed-legible fallback
//! text colour, and randomised colour pairs above a minimum contrast.
//!
//! All arithmetic is exact fixed-point over integers: colour channels are
//! eight-bit values, luminance and contrast ratios are scaled by one million.

pub mod color;
pub mod luminance;
pub mod quality;
pub mod kontrast;
