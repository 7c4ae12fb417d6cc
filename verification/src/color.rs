//! The colour value type: an RGB triple (eight-bit channels) or an HSL
//! triple (hue in degrees below 360, saturation and lightness eight-bit),
//! kept the way the last constructor gave it; accessors of the other family
//! convert on read. Out-of-range constructor inputs are never rejected: hue
//! wraps modulo 360, every other component clamps to its scale.

use vstd::prelude::*;
use vstd::arithmetic::div_mod::lemma_div_is_ordered;
use vstd::arithmetic::div_mod::lemma_div_multiples_vanish;
use vstd::arithmetic::div_mod::lemma_fundamental_div_mod;
use vstd::arithmetic::div_mod::lemma_fundamental_div_mod_converse_div;
use vstd::arithmetic::div_mod::lemma_fundamental_div_mod_converse_mod;
use vstd::arithmetic::mul::lemma_mul_inequality;

verus! {

/// A colour in one of its two equivalent parameterisations.
#[derive(Clone, Copy, PartialEq, Eq, Structural, Debug)]
pub enum Color {
    Rgb { red: u8, green: u8, blue: u8 },
    Hsl { hue: u16, saturation: u8, lightness: u8 },
}

/// The absolute value.
pub open spec fn abs_of(x: int) -> int {
    if x < 0 {
        -x
    } else {
        x
    }
}

/// Clamping to the eight-bit channel scale.
pub open spec fn clamp_channel_spec(x: int) -> int {
    if x < 0 {
        0
    } else if x > 255 {
        255
    } else {
        x
    }
}

/// Wrapping a hue to `0 ..= 359` degrees.
pub open spec fn wrap_hue_spec(h: int) -> int {
    h % 360
}

/// The RGB triple of an HSL triple, as `(red, green, blue)`.
pub open spec fn hsl_to_rgb_spec(h: int, s: int, l: int) -> (int, int, int) {
    let c = (255 - abs_of(2 * l - 255)) * s / 255;
    let x = c * (60 - abs_of(h % 120 - 60)) / 60;
    let m = l - c / 2;
    if h < 60 {
        (m + c, m + x, m)
    } else if h < 120 {
        (m + x, m + c, m)
    } else if h < 180 {
        (m, m + c, m + x)
    } else if h < 240 {
        (m, m + x, m + c)
    } else if h < 300 {
        (m + x, m, m + c)
    } else {
        (m + c, m, m + x)
    }
}

/// The HSL triple of an RGB triple, as `(hue, saturation, lightness)`.
/// An achromatic colour gets hue 0 and saturation 0.
pub open spec fn rgb_to_hsl_spec(r: int, g: int, b: int) -> (int, int, int) {
    let mx = vstd::math::max3(r, g, b);
    let mn = -vstd::math::max3(-r, -g, -b);
    let d = mx - mn;
    let l = (mx + mn) / 2;
    let s = if d == 0 {
        0
    } else if l <= 127 {
        d * 255 / (mx + mn)
    } else {
        d * 255 / (510 - mx - mn)
    };
    let h = if d == 0 {
        0
    } else if mx == r {
        ((60 * g + 360 * d - 60 * b) / d) % 360
    } else if mx == g {
        (60 * b + 120 * d - 60 * r) / d
    } else {
        (60 * r + 240 * d - 60 * g) / d
    };
    (h, s, l)
}

impl Color {
    /// A stored HSL hue is always below 360 degrees.
    pub open spec fn wf(self) -> bool {
        match self {
            Color::Rgb { .. } => true,
            Color::Hsl { hue, .. } => hue < 360,
        }
    }

    /// The RGB channels this colour denotes.
    pub open spec fn rgb_spec(self) -> (int, int, int) {
        match self {
            Color::Rgb { red, green, blue } => (red as int, green as int, blue as int),
            Color::Hsl { hue, saturation, lightness } => hsl_to_rgb_spec(
                hue as int,
                saturation as int,
                lightness as int,
            ),
        }
    }

    /// The HSL components this colour denotes.
    pub open spec fn hsl_spec(self) -> (int, int, int) {
        match self {
            Color::Rgb { red, green, blue } => rgb_to_hsl_spec(red as int, green as int, blue as int),
            Color::Hsl { hue, saturation, lightness } => (
                hue as int,
                saturation as int,
                lightness as int,
            ),
        }
    }

    pub open spec fn red_spec(self) -> int {
        self.rgb_spec().0
    }

    pub open spec fn green_spec(self) -> int {
        self.rgb_spec().1
    }

    pub open spec fn blue_spec(self) -> int {
        self.rgb_spec().2
    }

    pub open spec fn hue_spec(self) -> int {
        self.hsl_spec().0
    }

    pub open spec fn saturation_spec(self) -> int {
        self.hsl_spec().1
    }

    pub open spec fn lightness_spec(self) -> int {
        self.hsl_spec().2
    }

    /// An RGB colour; out-of-range channels clamp to `0 ..= 255`.
    pub fn from_rgb(red: i32, green: i32, blue: i32) -> (c: Color)
        ensures
            c == (Color::Rgb {
                red: clamp_channel_spec(red as int) as u8,
                green: clamp_channel_spec(green as int) as u8,
                blue: clamp_channel_spec(blue as int) as u8,
            }),
            c.wf(),
    {
        Color::Rgb {
            red: clamp_channel(red),
            green: clamp_channel(green),
            blue: clamp_channel(blue),
        }
    }

    /// An HSL colour; the hue wraps modulo 360, the rest clamp to `0 ..= 255`.
    pub fn from_hsl(hue: i32, saturation: i32, lightness: i32) -> (c: Color)
        ensures
            c == (Color::Hsl {
                hue: wrap_hue_spec(hue as int) as u16,
                saturation: clamp_channel_spec(saturation as int) as u8,
                lightness: clamp_channel_spec(lightness as int) as u8,
            }),
            c.wf(),
    {
        Color::Hsl {
            hue: wrap_hue(hue),
            saturation: clamp_channel(saturation),
            lightness: clamp_channel(lightness),
        }
    }

    pub fn red(&self) -> (r: u8)
        requires
            self.wf(),
        ensures
            r as int == self.red_spec(),
    {
        match self {
            Color::Rgb { red, .. } => *red,
            Color::Hsl { hue, saturation, lightness } => hsl_to_rgb(*hue, *saturation, *lightness).0,
        }
    }

    pub fn green(&self) -> (g: u8)
        requires
            self.wf(),
        ensures
            g as int == self.green_spec(),
    {
        match self {
            Color::Rgb { green, .. } => *green,
            Color::Hsl { hue, saturation, lightness } => hsl_to_rgb(*hue, *saturation, *lightness).1,
        }
    }

    pub fn blue(&self) -> (b: u8)
        requires
            self.wf(),
        ensures
            b as int == self.blue_spec(),
    {
        match self {
            Color::Rgb { blue, .. } => *blue,
            Color::Hsl { hue, saturation, lightness } => hsl_to_rgb(*hue, *saturation, *lightness).2,
        }
    }

    pub fn hue(&self) -> (h: u16)
        requires
            self.wf(),
        ensures
            h as int == self.hue_spec(),
            h < 360,
    {
        match self {
            Color::Rgb { red, green, blue } => rgb_to_hsl(*red, *green, *blue).0,
            Color::Hsl { hue, .. } => *hue,
        }
    }

    pub fn saturation(&self) -> (s: u8)
        requires
            self.wf(),
        ensures
            s as int == self.saturation_spec(),
    {
        match self {
            Color::Rgb { red, green, blue } => rgb_to_hsl(*red, *green, *blue).1,
            Color::Hsl { saturation, .. } => *saturation,
        }
    }

    pub fn lightness(&self) -> (l: u8)
        requires
            self.wf(),
        ensures
            l as int == self.lightness_spec(),
    {
        match self {
            Color::Rgb { red, green, blue } => rgb_to_hsl(*red, *green, *blue).2,
            Color::Hsl { lightness, .. } => *lightness,
        }
    }
}

/// Every channel of a converted HSL triple is an eight-bit value.
pub proof fn lemma_hsl_to_rgb_in_range(h: int, s: int, l: int)
    requires
        0 <= h < 360,
        0 <= s <= 255,
        0 <= l <= 255,
    ensures
        0 <= hsl_to_rgb_spec(h, s, l).0 <= 255,
        0 <= hsl_to_rgb_spec(h, s, l).1 <= 255,
        0 <= hsl_to_rgb_spec(h, s, l).2 <= 255,
{
    let base = 255 - abs_of(2 * l - 255);
    assert(0 <= base && base <= 2 * l && base <= 510 - 2 * l);
    let c = base * s / 255;
    assert(0 <= c && c <= base) by {
        vstd::arithmetic::div_mod::lemma_div_pos_is_pos(base * s, 255);
        lemma_mul_inequality(s, 255, base);
        assert(s * base == base * s) by (nonlinear_arith);
        assert(255int * base == base * 255) by (nonlinear_arith);
        lemma_div_is_ordered(base * s, base * 255, 255);
        lemma_div_multiples_vanish(base, 255);
        assert(0 <= base * s) by (nonlinear_arith)
            requires
                0 <= base && 0 <= s,
        ;
    }
    vstd::arithmetic::div_mod::lemma_mod_bound(h, 120);
    let dist = abs_of(h % 120 - 60);
    assert(0 <= dist <= 60);
    let x = c * (60 - dist) / 60;
    assert(0 <= x && x <= c) by {
        assert(0 <= c * (60 - dist)) by (nonlinear_arith)
            requires
                0 <= c && dist <= 60,
        ;
        vstd::arithmetic::div_mod::lemma_div_pos_is_pos(c * (60 - dist), 60);
        lemma_mul_inequality(60 - dist, 60, c);
        assert((60 - dist) * c == c * (60 - dist)) by (nonlinear_arith);
        assert(60int * c == c * 60) by (nonlinear_arith);
        lemma_div_is_ordered(c * (60 - dist), c * 60, 60);
        lemma_div_multiples_vanish(c, 60);
    }
    let m = l - c / 2;
    lemma_fundamental_div_mod(c, 2);
    lemma_div_is_ordered(c, 2 * l, 2);
    lemma_div_multiples_vanish(l, 2);
    assert(0 <= m);
    assert(m + c <= 255);
}

/// Clamps to the eight-bit channel scale.
pub fn clamp_channel(x: i32) -> (r: u8)
    ensures
        r as int == clamp_channel_spec(x as int),
{
    if x < 0 {
        0
    } else if x > 255 {
        255
    } else {
        x as u8
    }
}

/// Wraps a hue in degrees, possibly negative, to `0 ..= 359`.
pub fn wrap_hue(h: i32) -> (r: u16)
    ensures
        r as int == wrap_hue_spec(h as int),
        r < 360,
{
    if h >= 0 {
        let r = ((h as u32) % 360) as u16;
        r
    } else {
        let m: u32 = (-(h + 1)) as u32;
        let k: u32 = m % 360;
        proof {
            lemma_fundamental_div_mod(m as int, 360);
            lemma_fundamental_div_mod_converse_mod(
                h as int,
                360,
                -(m as int / 360) - 1,
                359 - (m as int % 360),
            );
        }
        (359 - k) as u16
    }
}

/// Every channel a well-formed colour denotes is an eight-bit value.
pub proof fn lemma_color_channels_in_range(c: Color)
    requires
        c.wf(),
    ensures
        0 <= c.red_spec() <= 255,
        0 <= c.green_spec() <= 255,
        0 <= c.blue_spec() <= 255,
{
    match c {
        Color::Rgb { .. } => {
        },
        Color::Hsl { hue, saturation, lightness } => {
            lemma_hsl_to_rgb_in_range(hue as int, saturation as int, lightness as int);
        },
    }
}

/// The RGB channels of an HSL triple.
pub fn hsl_to_rgb(h: u16, s: u8, l: u8) -> (rgb: (u8, u8, u8))
    requires
        h < 360,
    ensures
        rgb.0 as int == hsl_to_rgb_spec(h as int, s as int, l as int).0,
        rgb.1 as int == hsl_to_rgb_spec(h as int, s as int, l as int).1,
        rgb.2 as int == hsl_to_rgb_spec(h as int, s as int, l as int).2,
{
    let l2: u32 = 2 * (l as u32);
    let base: u32 = if l2 > 255 {
        510 - l2
    } else {
        l2
    };
    proof {
        assert(base as int == 255 - abs_of(2 * (l as int) - 255));
        lemma_mul_inequality(s as int, 255, base as int);
        assert(s as int * base as int == base as int * s as int) by (nonlinear_arith);
        assert(255int * base as int == base as int * 255) by (nonlinear_arith);
        lemma_div_is_ordered(base as int * s as int, base as int * 255, 255);
        lemma_div_multiples_vanish(base as int, 255);
    }
    let c: u32 = base * (s as u32) / 255;
    assert(c <= base);
    let hm: u32 = (h as u32) % 120;
    let dist: u32 = if hm >= 60 {
        hm - 60
    } else {
        60 - hm
    };
    proof {
        assert(dist as int == abs_of((h as int) % 120 - 60));
        lemma_mul_inequality(60 - dist as int, 60, c as int);
        assert((60 - dist as int) * c as int == c as int * (60 - dist as int)) by (nonlinear_arith);
        assert(60int * c as int == c as int * 60) by (nonlinear_arith);
        lemma_div_is_ordered(c as int * (60 - dist as int), c as int * 60, 60);
        lemma_div_multiples_vanish(c as int, 60);
    }
    let x: u32 = c * (60 - dist) / 60;
    assert(x <= c);
    proof {
        lemma_fundamental_div_mod(c as int, 2);
        lemma_div_is_ordered(c as int, l2 as int, 2);
        lemma_div_multiples_vanish(l as int, 2);
    }
    let half: u32 = c / 2;
    assert(half <= l as u32);
    let m: u32 = (l as u32) - half;
    assert(m + c <= 255);
    let mc: u8 = (m + c) as u8;
    let mx: u8 = (m + x) as u8;
    let mm: u8 = m as u8;
    if h < 60 {
        (mc, mx, mm)
    } else if h < 120 {
        (mx, mc, mm)
    } else if h < 180 {
        (mm, mc, mx)
    } else if h < 240 {
        (mm, mx, mc)
    } else if h < 300 {
        (mx, mm, mc)
    } else {
        (mc, mm, mx)
    }
}

/// The HSL components of an RGB triple.
pub fn rgb_to_hsl(r: u8, g: u8, b: u8) -> (hsl: (u16, u8, u8))
    ensures
        hsl.0 as int == rgb_to_hsl_spec(r as int, g as int, b as int).0,
        hsl.1 as int == rgb_to_hsl_spec(r as int, g as int, b as int).1,
        hsl.2 as int == rgb_to_hsl_spec(r as int, g as int, b as int).2,
        hsl.0 < 360,
{
    let rr: u32 = r as u32;
    let gg: u32 = g as u32;
    let bb: u32 = b as u32;
    let mx: u32 = if rr >= gg && rr >= bb {
        rr
    } else if gg >= bb {
        gg
    } else {
        bb
    };
    let mn: u32 = if rr <= gg && rr <= bb {
        rr
    } else if gg <= bb {
        gg
    } else {
        bb
    };
    assert(mx as int == vstd::math::max3(r as int, g as int, b as int));
    assert(mn as int == -vstd::math::max3(-(r as int), -(g as int), -(b as int)));
    let d: u32 = mx - mn;
    proof {
        lemma_div_is_ordered(mx as int + mn as int, 510, 2);
        lemma_fundamental_div_mod_converse_div(510, 2, 255, 0);
    }
    let l: u32 = (mx + mn) / 2;
    let s: u32 = if d == 0 {
        0
    } else if l <= 127 {
        proof {
            lemma_mul_inequality(d as int, mx as int + mn as int, 255);
            lemma_div_is_ordered(d as int * 255, (mx as int + mn as int) * 255, mx as int + mn as int);
            lemma_div_multiples_vanish(255, mx as int + mn as int);
            assert((mx as int + mn as int) * 255 == 255 * (mx as int + mn as int)) by (nonlinear_arith);
        }
        d * 255 / (mx + mn)
    } else {
        proof {
            let den = 510 - mx as int - mn as int;
            assert(1 <= den);
            lemma_mul_inequality(d as int, den, 255);
            lemma_div_is_ordered(d as int * 255, den * 255, den);
            lemma_div_multiples_vanish(255, den);
            assert(den * 255 == 255 * den) by (nonlinear_arith);
        }
        d * 255 / (510 - mx - mn)
    };
    assert(s <= 255);
    let h: u32 = if d == 0 {
        0
    } else if mx == rr {
        proof {
            vstd::arithmetic::div_mod::lemma_mod_bound(
                (60 * gg as int + 360 * d as int - 60 * bb as int) / d as int,
                360,
            );
        }
        ((60 * gg + 360 * d - 60 * bb) / d) % 360
    } else if mx == gg {
        proof {
            lemma_mul_inequality(180, 180, d as int);
            lemma_div_is_ordered(
                60 * bb as int + 120 * d as int - 60 * rr as int,
                180 * d as int,
                d as int,
            );
            lemma_div_multiples_vanish(180, d as int);
            assert(d as int * 180 == 180 * d as int) by (nonlinear_arith);
        }
        (60 * bb + 120 * d - 60 * rr) / d
    } else {
        proof {
            lemma_div_is_ordered(
                60 * rr as int + 240 * d as int - 60 * gg as int,
                300 * d as int,
                d as int,
            );
            lemma_div_multiples_vanish(300, d as int);
            assert(d as int * 300 == 300 * d as int) by (nonlinear_arith);
        }
        (60 * rr + 240 * d - 60 * gg) / d
    };
    assert(h < 360);
    (h as u16, s as u8, l as u8)
}

} // verus!
