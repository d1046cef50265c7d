//! The display palette: one color per board state. Index 0 is a fixed white
//! background for unvisited cells; the remaining colors are evenly spaced
//! samples along a closed path through three anchor hues (blue, green, red),
//! blended by exact integer arithmetic on 16-bit linear RGB channels and
//! then carried through a perceptual (Lch) color space. For large palettes
//! every third sample is lightened and every third-plus-one sample darkened,
//! to keep many states tellable apart.
//!
//! The two color-space conversions are done by the `palette` crate behind
//! named, trusted results; everything around them is verified.

use vstd::arithmetic::div_mod::lemma_multiply_divide_le;
use vstd::arithmetic::div_mod::lemma_multiply_divide_lt;
use vstd::arithmetic::mul::lemma_mul_inequality;
use vstd::arithmetic::mul::lemma_mul_upper_bound;
use vstd::prelude::*;

use palette::FromColor;

verus! {

/// What `palette` computes when a linear RGB color (16-bit channels) is
/// converted to Lch, the components truncated to whole units: lightness in
/// L* units, chroma in C* units, hue in degrees. A pure function of the
/// channels alone.
pub uninterp spec fn lch_of_linear_rgb(r: int, g: int, b: int) -> (int, int, int);

/// What `palette` computes when an Lch color (whole-unit lightness, chroma
/// and hue degrees) is converted to 8-bit sRGB, gamut clamping included. A
/// pure function of the three components alone.
pub uninterp spec fn srgb_of_lch(l: int, c: int, h: int) -> (int, int, int);

/// Relies on palette's `Lch::from_color` for `LinSrgb` (and `into_format`
/// for the 16-bit channels): a deterministic conversion from linear RGB to
/// the Lch color space.
#[verifier::external_body]
fn linear_rgb_to_lch(r: u16, g: u16, b: u16) -> (lch: (u32, u32, i32))
    ensures
        (lch.0 as int, lch.1 as int, lch.2 as int) == lch_of_linear_rgb(
            r as int,
            g as int,
            b as int,
        ),
{
    let lin: palette::LinSrgb = palette::LinSrgb::<u16>::new(r, g, b).into_format();
    let lch: palette::Lch = palette::Lch::from_color(lin);
    (lch.l as u32, lch.chroma as u32, lch.hue.into_degrees() as i32)
}

/// Relies on palette's `Srgb::from_color` for `Lch` (which clamps to the
/// sRGB gamut) and `into_format`: a deterministic conversion from Lch to an
/// 8-bit sRGB triple.
#[verifier::external_body]
fn lch_to_srgb8(l: u64, c: u32, h: i32) -> (rgb: (u8, u8, u8))
    ensures
        (rgb.0 as int, rgb.1 as int, rgb.2 as int) == srgb_of_lch(l as int, c as int, h as int),
{
    let hue: palette::LabHue = palette::LabHue::from_degrees(h as _);
    let lch: palette::Lch = palette::Lch::new(l as _, c as _, hue);
    let srgb: palette::Srgb = palette::Srgb::from_color(lch);
    let out: palette::Srgb<u8> = srgb.into_format();
    out.into_components()
}

/// The three anchor colors of the path, in 16-bit linear RGB channels:
/// blue, green, red, each with one channel full and the others at a tenth.
pub open spec fn anchor_color(i: int) -> (int, int, int) {
    if i == 0 {
        (6554, 6554, 65535)
    } else if i == 1 {
        (6554, 65535, 6554)
    } else {
        (65535, 6554, 6554)
    }
}

/// Which anchor segment the sample at index `i` of `steps` falls in.
pub open spec fn segment_of(i: int, steps: int) -> int {
    (3 * i) / steps
}

/// How far through its segment the sample at index `i` is, in per-mille.
pub open spec fn progress_of(i: int, steps: int) -> int {
    (1000 * ((3 * i) % steps)) / steps
}

/// Linear interpolation between two 16-bit channels at per-mille progress
/// `p`, rounding toward the start.
pub open spec fn lerp_channel(a: int, b: int, p: int) -> int {
    if b >= a {
        a + ((b - a) * p) / 1000
    } else {
        a - ((a - b) * p) / 1000
    }
}

/// The blended 16-bit linear RGB color of the sample at index `i`: a point
/// on the closed path blue -> green -> red -> blue.
pub open spec fn blend_rgb(i: int, steps: int) -> (int, int, int) {
    let s = segment_of(i, steps);
    let t = if s == 0 {
        1int
    } else if s == 1 {
        2int
    } else {
        0int
    };
    let p = progress_of(i, steps);
    let a = anchor_color(s);
    let b = anchor_color(t);
    (lerp_channel(a.0, b.0, p), lerp_channel(a.1, b.1, p), lerp_channel(a.2, b.2, p))
}

/// The readability adjustment for large palettes: when more than nine
/// colors are derived, every third sample is lightened and every
/// third-plus-one sample darkened by a fixed lightness delta, clamped
/// below at zero.
pub open spec fn adjusted_lightness(l: int, i: int, steps: int) -> int {
    if steps > 9 {
        if i % 3 == 0 {
            l + 20
        } else if i % 3 == 1 {
            if l >= 20 {
                l - 20
            } else {
                0
            }
        } else {
            l
        }
    } else {
        l
    }
}

/// The 8-bit sRGB color at palette index `i` (for 1 <= i < n): the blended
/// sample carried through Lch, adjusted, and converted back.
pub open spec fn palette_color(i: int, n: int) -> (int, int, int) {
    let steps = n - 1;
    let rgb = blend_rgb(i - 1, steps);
    let lch = lch_of_linear_rgb(rgb.0, rgb.1, rgb.2);
    let l2 = adjusted_lightness(lch.0, i - 1, steps);
    srgb_of_lch(l2, lch.1, lch.2)
}

/// An 8-bit color triple as a mathematical one.
pub open spec fn rgb_triple(c: (u8, u8, u8)) -> (int, int, int) {
    (c.0 as int, c.1 as int, c.2 as int)
}

/// Interpolates one channel; exact integer arithmetic.
fn lerp_channel_exec(a: u16, b: u16, p: u32) -> (c: u16)
    requires
        p <= 1000,
    ensures
        c as int == lerp_channel(a as int, b as int, p as int),
{
    if b >= a {
        let d: u32 = b as u32 - a as u32;
        proof {
            lemma_mul_upper_bound(d as int, 0xffff, p as int, 1000);
            lemma_mul_inequality(p as int, 1000, d as int);
            lemma_multiply_divide_le(d as int * p as int, 1000, d as int);
        }
        let add = (d * p) / 1000;
        a + (add as u16)
    } else {
        let d: u32 = a as u32 - b as u32;
        proof {
            lemma_mul_upper_bound(d as int, 0xffff, p as int, 1000);
            lemma_mul_inequality(p as int, 1000, d as int);
            lemma_multiply_divide_le(d as int * p as int, 1000, d as int);
        }
        let sub = (d * p) / 1000;
        a - (sub as u16)
    }
}

/// The palette: `colors[i]` is the display color of board state `i`.
pub struct ColorPalette {
    pub colors: Vec<(u8, u8, u8)>,
}

impl ColorPalette {
    /// Derives the palette for `number_of_states` board states: exactly one
    /// color per state, index 0 always white, and every further index the
    /// interpolated color `palette_color` fixes.
    pub fn new(number_of_states: usize) -> (p: ColorPalette)
        requires
            number_of_states >= 1,
        ensures
            p.colors@.len() == number_of_states,
            p.colors@[0] == (255u8, 255u8, 255u8),
            forall|i: int|
                1 <= i < number_of_states ==> rgb_triple(#[trigger] p.colors@[i]) == palette_color(
                    i,
                    number_of_states as int,
                ),
    {
        let mut colors: Vec<(u8, u8, u8)> = Vec::new();
        colors.push((255, 255, 255));
        if number_of_states == 1 {
            return ColorPalette { colors };
        }
        let steps = number_of_states - 1;
        let mut i: usize = 0;
        while i < steps
            invariant
                1 <= steps < usize::MAX,
                steps == number_of_states - 1,
                i <= steps,
                colors@.len() == i + 1,
                colors@[0] == (255u8, 255u8, 255u8),
                forall|j: int|
                    1 <= j < i + 1 ==> rgb_triple(#[trigger] colors@[j]) == palette_color(
                        j,
                        number_of_states as int,
                    ),
            decreases steps - i,
        {
            let i3: u128 = 3 * (i as u128);
            let seg128: u128 = i3 / (steps as u128);
            let rem128: u128 = i3 % (steps as u128);
            let p128: u128 = (1000 * rem128) / (steps as u128);
            proof {
                lemma_multiply_divide_lt(i3 as int, steps as int, 3);
                lemma_multiply_divide_lt(1000 * (rem128 as int), steps as int, 1000);
            }
            let seg: u32 = seg128 as u32;
            let p: u32 = p128 as u32;
            let (ar, ag, ab) = if seg == 0 {
                (6554u16, 6554u16, 65535u16)
            } else if seg == 1 {
                (6554u16, 65535u16, 6554u16)
            } else {
                (65535u16, 6554u16, 6554u16)
            };
            let (br, bg, bb) = if seg == 0 {
                (6554u16, 65535u16, 6554u16)
            } else if seg == 1 {
                (65535u16, 6554u16, 6554u16)
            } else {
                (6554u16, 6554u16, 65535u16)
            };
            let cr = lerp_channel_exec(ar, br, p);
            let cg = lerp_channel_exec(ag, bg, p);
            let cb = lerp_channel_exec(ab, bb, p);
            let lch = linear_rgb_to_lch(cr, cg, cb);
            let l2: u64 = if steps > 9 {
                if i % 3 == 0 {
                    lch.0 as u64 + 20
                } else if i % 3 == 1 {
                    if lch.0 >= 20 {
                        (lch.0 - 20) as u64
                    } else {
                        0
                    }
                } else {
                    lch.0 as u64
                }
            } else {
                lch.0 as u64
            };
            let rgb8 = lch_to_srgb8(l2, lch.1, lch.2);
            colors.push(rgb8);
            proof {
                assert(rgb_triple(rgb8) == palette_color(i + 1, number_of_states as int));
            }
            i += 1;
        }
        ColorPalette { colors }
    }

    /// How many colors the palette holds.
    pub fn len(&self) -> (n: usize)
        ensures
            n == self.colors@.len(),
    {
        self.colors.len()
    }

    /// The color of board state `i`.
    pub fn color(&self, i: usize) -> (c: (u8, u8, u8))
        requires
            i < self.colors@.len(),
        ensures
            c == self.colors@[i as int],
    {
        self.colors[i]
    }
}

} // verus!
