//! The contrast-evaluation state: a text colour, a background colour and a
//! font size, with the derived contrast ratio, adequacy ratings, a
//! guaranteed-legible display colour, and a randomised pair generator.

use vstd::prelude::*;
use crate::color::Color;
use crate::color::clamp_channel_spec;
use crate::color::wrap_hue_spec;
use crate::luminance::lemma_extreme_contrast;
use crate::luminance::lum_rgb;
use crate::luminance::lum_rgb_spec;
use crate::luminance::ratio_for_luminances;
use crate::luminance::ratio_spec;
use crate::quality::ContrastQualities;
use crate::quality::Quality;
use crate::quality::qualities_for_ratio;
use crate::quality::qualities_spec;
use crate::quality::quality_for_size;
use crate::quality::quality_for_size_spec;

verus! {

/// The relative luminance a colour denotes, scaled by one million.
pub open spec fn luminosity_spec(c: Color) -> int {
    lum_rgb_spec(c.red_spec(), c.green_spec(), c.blue_spec())
}

/// The WCAG relative luminance of a colour, scaled by one million.
pub fn luminosity(color: &Color) -> (l: u64)
    requires
        color.wf(),
    ensures
        l as int == luminosity_spec(*color),
        l <= 1_000_000,
{
    lum_rgb(color.red(), color.green(), color.blue())
}

/// The contrast ratio two colours denote, scaled by one million.
pub open spec fn contrast_spec(a: Color, b: Color) -> int {
    ratio_spec(luminosity_spec(a), luminosity_spec(b))
}

/// The colour pair under evaluation, with the font size the rating label
/// speaks of and the last colour grabbed by an external picker. Everything
/// derived (contrast, ratings, display colour) is recomputed on each call,
/// so no stored field can drift from the pair.
#[derive(Clone, Copy, PartialEq, Eq, Structural, Debug)]
pub struct Kontrast {
    pub text_color: Color,
    pub font_size: i32,
    pub background_color: Color,
    pub grabbed_color: Color,
}

/// The state with the text and background colours exchanged.
pub open spec fn reversed_spec(k: Kontrast) -> Kontrast {
    Kontrast { text_color: k.background_color, background_color: k.text_color, ..k }
}

/// Exchanging the colour pair twice restores the original state exactly.
pub proof fn lemma_reverse_twice_restores(k: Kontrast)
    ensures
        reversed_spec(reversed_spec(k)) == k,
{
}

/// The guaranteed-legible text colour: the configured foreground while the
/// contrast ratio is above 3, otherwise pure black over a light background
/// and pure white over a dark one.
pub open spec fn display_text_color_spec(k: Kontrast) -> Color {
    if contrast_spec(k.text_color, k.background_color) > 3_000_000 {
        k.text_color
    } else if luminosity_spec(k.background_color) > 500_000 {
        Color::Rgb { red: 0, green: 0, blue: 0 }
    } else {
        Color::Rgb { red: 255, green: 255, blue: 255 }
    }
}

/// The contrast ratio does not depend on which colour is the text and which
/// the background.
pub proof fn lemma_contrast_symmetric(a: Color, b: Color)
    ensures
        contrast_spec(a, b) == contrast_spec(b, a),
{
    crate::luminance::lemma_ratio_symmetric(luminosity_spec(a), luminosity_spec(b));
}

/// A colour has contrast ratio exactly one against itself.
pub proof fn lemma_contrast_self(a: Color)
    requires
        a.wf(),
    ensures
        contrast_spec(a, a) == 1_000_000,
{
    crate::color::lemma_color_channels_in_range(a);
    crate::luminance::lemma_lum_nonneg(a.red_spec(), a.green_spec(), a.blue_spec());
    crate::luminance::lemma_ratio_self(luminosity_spec(a));
}

/// Relative luminance is monotone non-decreasing in each RGB channel,
/// holding the others fixed (stated jointly over all three channels).
pub proof fn lemma_luminosity_monotone(a: Color, b: Color)
    requires
        a.wf(),
        b.wf(),
        a.red_spec() <= b.red_spec(),
        a.green_spec() <= b.green_spec(),
        a.blue_spec() <= b.blue_spec(),
    ensures
        luminosity_spec(a) <= luminosity_spec(b),
{
    crate::color::lemma_color_channels_in_range(a);
    crate::color::lemma_color_channels_in_range(b);
    crate::luminance::lemma_lum_monotone(
        a.red_spec(),
        a.green_spec(),
        a.blue_spec(),
        b.red_spec(),
        b.green_spec(),
        b.blue_spec(),
    );
}

/// Relies on rand::random: one uniformly distributed eight-bit channel from
/// the thread-local generator. Nothing is assumed about the value drawn.
#[verifier::external_body]
fn random_channel() -> u8 {
    rand::random::<u8>()
}

impl Default for Kontrast {
    /// Black text on a black background, font size zero, nothing grabbed.
    fn default() -> (k: Kontrast)
        ensures
            k == (Kontrast {
                text_color: Color::Rgb { red: 0, green: 0, blue: 0 },
                font_size: 0,
                background_color: Color::Rgb { red: 0, green: 0, blue: 0 },
                grabbed_color: Color::Rgb { red: 0, green: 0, blue: 0 },
            }),
            k.wf(),
    {
        Kontrast {
            text_color: Color::Rgb { red: 0, green: 0, blue: 0 },
            font_size: 0,
            background_color: Color::Rgb { red: 0, green: 0, blue: 0 },
            grabbed_color: Color::Rgb { red: 0, green: 0, blue: 0 },
        }
    }
}

impl Kontrast {
    /// Every colour held is well formed.
    pub open spec fn wf(self) -> bool {
        self.text_color.wf() && self.background_color.wf() && self.grabbed_color.wf()
    }

    pub fn text_hue(&self) -> (h: i32)
        requires
            self.wf(),
        ensures
            h as int == self.text_color.hue_spec(),
            0 <= h < 360,
    {
        self.text_color.hue() as i32
    }

    pub fn text_saturation(&self) -> (s: i32)
        requires
            self.wf(),
        ensures
            s as int == self.text_color.saturation_spec(),
            0 <= s <= 255,
    {
        self.text_color.saturation() as i32
    }

    pub fn text_lightness(&self) -> (l: i32)
        requires
            self.wf(),
        ensures
            l as int == self.text_color.lightness_spec(),
            0 <= l <= 255,
    {
        self.text_color.lightness() as i32
    }

    pub fn background_hue(&self) -> (h: i32)
        requires
            self.wf(),
        ensures
            h as int == self.background_color.hue_spec(),
            0 <= h < 360,
    {
        self.background_color.hue() as i32
    }

    pub fn background_saturation(&self) -> (s: i32)
        requires
            self.wf(),
        ensures
            s as int == self.background_color.saturation_spec(),
            0 <= s <= 255,
    {
        self.background_color.saturation() as i32
    }

    pub fn background_lightness(&self) -> (l: i32)
        requires
            self.wf(),
        ensures
            l as int == self.background_color.lightness_spec(),
            0 <= l <= 255,
    {
        self.background_color.lightness() as i32
    }

    /// Replaces the text colour's hue, holding its saturation and lightness
    /// fixed; the hue wraps modulo 360.
    pub fn set_text_hue(&mut self, hue: i32)
        requires
            old(self).wf(),
        ensures
            final(self).wf(),
            final(self).text_color.hue_spec() == wrap_hue_spec(hue as int),
            final(self).text_color.saturation_spec() == old(self).text_color.saturation_spec(),
            final(self).text_color.lightness_spec() == old(self).text_color.lightness_spec(),
            final(self).text_color is Hsl,
            final(self).font_size == old(self).font_size,
            final(self).background_color == old(self).background_color,
            final(self).grabbed_color == old(self).grabbed_color,
    {
        let s = self.text_color.saturation();
        let l = self.text_color.lightness();
        self.text_color = Color::from_hsl(hue, s as i32, l as i32);
    }

    /// Replaces the text colour's saturation, holding its hue and lightness
    /// fixed; the saturation clamps to `0 ..= 255`.
    pub fn set_text_saturation(&mut self, saturation: i32)
        requires
            old(self).wf(),
        ensures
            final(self).wf(),
            final(self).text_color.hue_spec() == old(self).text_color.hue_spec(),
            final(self).text_color.saturation_spec() == clamp_channel_spec(saturation as int),
            final(self).text_color.lightness_spec() == old(self).text_color.lightness_spec(),
            final(self).text_color is Hsl,
            final(self).font_size == old(self).font_size,
            final(self).background_color == old(self).background_color,
            final(self).grabbed_color == old(self).grabbed_color,
    {
        let h = self.text_color.hue();
        let l = self.text_color.lightness();
        proof {
            vstd::arithmetic::div_mod::lemma_small_mod(
                old(self).text_color.hue_spec() as nat,
                360,
            );
        }
        self.text_color = Color::from_hsl(h as i32, saturation, l as i32);
    }

    /// Replaces the text colour's lightness, holding its hue and saturation
    /// fixed; the lightness clamps to `0 ..= 255`.
    pub fn set_text_lightness(&mut self, lightness: i32)
        requires
            old(self).wf(),
        ensures
            final(self).wf(),
            final(self).text_color.hue_spec() == old(self).text_color.hue_spec(),
            final(self).text_color.saturation_spec() == old(self).text_color.saturation_spec(),
            final(self).text_color.lightness_spec() == clamp_channel_spec(lightness as int),
            final(self).text_color is Hsl,
            final(self).font_size == old(self).font_size,
            final(self).background_color == old(self).background_color,
            final(self).grabbed_color == old(self).grabbed_color,
    {
        let h = self.text_color.hue();
        let s = self.text_color.saturation();
        proof {
            vstd::arithmetic::div_mod::lemma_small_mod(
                old(self).text_color.hue_spec() as nat,
                360,
            );
        }
        self.text_color = Color::from_hsl(h as i32, s as i32, lightness);
    }

    /// Replaces the background colour's hue, holding its saturation and
    /// lightness fixed; the hue wraps modulo 360.
    pub fn set_background_hue(&mut self, hue: i32)
        requires
            old(self).wf(),
        ensures
            final(self).wf(),
            final(self).background_color.hue_spec() == wrap_hue_spec(hue as int),
            final(self).background_color.saturation_spec() == old(
                self,
            ).background_color.saturation_spec(),
            final(self).background_color.lightness_spec() == old(
                self,
            ).background_color.lightness_spec(),
            final(self).background_color is Hsl,
            final(self).font_size == old(self).font_size,
            final(self).text_color == old(self).text_color,
            final(self).grabbed_color == old(self).grabbed_color,
    {
        let s = self.background_color.saturation();
        let l = self.background_color.lightness();
        self.background_color = Color::from_hsl(hue, s as i32, l as i32);
    }

    /// Replaces the background colour's saturation, holding its hue and
    /// lightness fixed; the saturation clamps to `0 ..= 255`.
    pub fn set_background_saturation(&mut self, saturation: i32)
        requires
            old(self).wf(),
        ensures
            final(self).wf(),
            final(self).background_color.hue_spec() == old(self).background_color.hue_spec(),
            final(self).background_color.saturation_spec() == clamp_channel_spec(
                saturation as int,
            ),
            final(self).background_color.lightness_spec() == old(
                self,
            ).background_color.lightness_spec(),
            final(self).background_color is Hsl,
            final(self).font_size == old(self).font_size,
            final(self).text_color == old(self).text_color,
            final(self).grabbed_color == old(self).grabbed_color,
    {
        let h = self.background_color.hue();
        let l = self.background_color.lightness();
        proof {
            vstd::arithmetic::div_mod::lemma_small_mod(
                old(self).background_color.hue_spec() as nat,
                360,
            );
        }
        self.background_color = Color::from_hsl(h as i32, saturation, l as i32);
    }

    /// Replaces the background colour's lightness, holding its hue and
    /// saturation fixed; the lightness clamps to `0 ..= 255`.
    pub fn set_background_lightness(&mut self, lightness: i32)
        requires
            old(self).wf(),
        ensures
            final(self).wf(),
            final(self).background_color.hue_spec() == old(self).background_color.hue_spec(),
            final(self).background_color.saturation_spec() == old(
                self,
            ).background_color.saturation_spec(),
            final(self).background_color.lightness_spec() == clamp_channel_spec(lightness as int),
            final(self).background_color is Hsl,
            final(self).font_size == old(self).font_size,
            final(self).text_color == old(self).text_color,
            final(self).grabbed_color == old(self).grabbed_color,
    {
        let h = self.background_color.hue();
        let s = self.background_color.saturation();
        proof {
            vstd::arithmetic::div_mod::lemma_small_mod(
                old(self).background_color.hue_spec() as nat,
                360,
            );
        }
        self.background_color = Color::from_hsl(h as i32, s as i32, lightness);
    }

    /// The contrast ratio of a text/background pair, scaled by one million.
    pub fn contrast_for_colors(color_foreground: &Color, color_background: &Color) -> (r: u64)
        requires
            color_foreground.wf(),
            color_background.wf(),
        ensures
            r as int == contrast_spec(*color_foreground, *color_background),
            1_000_000 <= r <= 21_000_000,
    {
        let lum1 = luminosity(color_foreground);
        let lum2 = luminosity(color_background);
        ratio_for_luminances(lum1, lum2)
    }

    /// The contrast ratio of the current pair, recomputed on every call.
    pub fn contrast(&self) -> (r: u64)
        requires
            self.wf(),
        ensures
            r as int == contrast_spec(self.text_color, self.background_color),
            1_000_000 <= r <= 21_000_000,
    {
        Self::contrast_for_colors(&self.text_color, &self.background_color)
    }

    /// The rating triple of the current pair's contrast ratio.
    pub fn contrast_qualities(&self) -> (q: ContrastQualities)
        requires
            self.wf(),
        ensures
            q == qualities_spec(contrast_spec(self.text_color, self.background_color)),
    {
        qualities_for_ratio(self.contrast())
    }

    /// The rating that applies to the current font size; the hosting layer
    /// renders it as a localised label.
    pub fn font_size_quality(&self) -> (r: Quality)
        requires
            self.wf(),
        ensures
            r == quality_for_size_spec(
                self.font_size as int,
                qualities_spec(contrast_spec(self.text_color, self.background_color)),
            ),
    {
        let q = self.contrast_qualities();
        quality_for_size(self.font_size, &q)
    }

    /// A text colour that is always minimally legible on the current
    /// background.
    pub fn display_text_color(&self) -> (c: Color)
        requires
            self.wf(),
        ensures
            c == display_text_color_spec(*self),
            c.wf(),
    {
        if self.contrast() > 3_000_000 {
            return self.text_color;
        }
        if luminosity(&self.background_color) > 500_000 {
            Color::Rgb { red: 0, green: 0, blue: 0 }
        } else {
            Color::Rgb { red: 255, green: 255, blue: 255 }
        }
    }

    /// Draws uniform random colour pairs and keeps the first whose contrast
    /// ratio exceeds 3.5. Attempts are capped so the search provably ends:
    /// the cap is far beyond what rejection sampling plausibly needs, and in
    /// the vanishingly unlikely event that it runs out the pair falls back
    /// to white text on a black background, whose ratio of 21 is the
    /// largest possible.
    pub fn random(&mut self)
        requires
            old(self).wf(),
        ensures
            final(self).wf(),
            contrast_spec(final(self).text_color, final(self).background_color) > 3_500_000,
            final(self).font_size == old(self).font_size,
            final(self).grabbed_color == old(self).grabbed_color,
    {
        let mut attempts: u32 = 100_000;
        while attempts > 0
            invariant
                *self == *old(self),
                old(self).wf(),
            decreases attempts,
        {
            let text_color = Color::Rgb {
                red: random_channel(),
                green: random_channel(),
                blue: random_channel(),
            };
            let bg_color = Color::Rgb {
                red: random_channel(),
                green: random_channel(),
                blue: random_channel(),
            };
            if Self::contrast_for_colors(&text_color, &bg_color) > 3_500_000 {
                self.text_color = text_color;
                self.background_color = bg_color;
                return ;
            }
            attempts = attempts - 1;
        }
        proof {
            lemma_extreme_contrast();
        }
        self.text_color = Color::Rgb { red: 255, green: 255, blue: 255 };
        self.background_color = Color::Rgb { red: 0, green: 0, blue: 0 };
    }

    /// Exchanges the text and background colours verbatim; the pair is not
    /// revalidated and may fall below any threshold.
    pub fn reverse(&mut self)
        requires
            old(self).wf(),
        ensures
            *final(self) == reversed_spec(*old(self)),
            final(self).wf(),
    {
        let text_color = self.text_color;
        self.text_color = self.background_color;
        self.background_color = text_color;
    }

    /// Stores a colour delivered by an external colour picker. The hosting
    /// layer calls this only with a successfully grabbed triple; a failed
    /// grab changes nothing anywhere.
    pub fn set_grabbed_color(&mut self, color: Color)
        requires
            old(self).wf(),
            color.wf(),
        ensures
            *final(self) == (Kontrast { grabbed_color: color, ..*old(self) }),
            final(self).wf(),
    {
        self.grabbed_color = color;
    }

    /// Replaces the text colour.
    pub fn set_text_color(&mut self, color: Color)
        requires
            old(self).wf(),
            color.wf(),
        ensures
            *final(self) == (Kontrast { text_color: color, ..*old(self) }),
            final(self).wf(),
    {
        self.text_color = color;
    }

    /// Replaces the background colour.
    pub fn set_background_color(&mut self, color: Color)
        requires
            old(self).wf(),
            color.wf(),
        ensures
            *final(self) == (Kontrast { background_color: color, ..*old(self) }),
            final(self).wf(),
    {
        self.background_color = color;
    }

    /// Replaces the font size the rating label speaks of.
    pub fn set_font_size(&mut self, font_size: i32)
        requires
            old(self).wf(),
        ensures
            *final(self) == (Kontrast { font_size: font_size, ..*old(self) }),
            final(self).wf(),
    {
        self.font_size = font_size;
    }
}

} // verus!
