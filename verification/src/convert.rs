//! Conversion of an 8-bit RGB colour into hue, saturation and brightness in
//! the integer units of a colour light: degrees for the hue, percent for the
//! other two.
//!
//! The hue, saturation and value of a colour are rational numbers. They are
//! modelled here as exact fractions and rounded to the nearest integer, a
//! half going up.

use vstd::prelude::*;

verus! {

/// The integer nearest to `num / den`; where two are equally near, the larger.
pub open spec fn round_half_up(num: int, den: int) -> int
    recommends
        num >= 0,
        den > 0,
{
    (2 * num + den) / (2 * den)
}

/// A percentage as the device takes it: values under 1 are raised to 1,
/// values over 100 lowered to 100.
pub open spec fn clamp_percent(x: int) -> int {
    if x < 1 {
        1
    } else if x > 100 {
        100
    } else {
        x
    }
}

/// The largest of the three channels.
pub open spec fn channel_max(r: u8, g: u8, b: u8) -> int {
    if r >= g && r >= b {
        r as int
    } else if g >= b {
        g as int
    } else {
        b as int
    }
}

/// The smallest of the three channels.
pub open spec fn channel_min(r: u8, g: u8, b: u8) -> int {
    if r <= g && r <= b {
        r as int
    } else if g <= b {
        g as int
    } else {
        b as int
    }
}

/// The chroma: the distance between the largest and the smallest channel.
pub open spec fn chroma(r: u8, g: u8, b: u8) -> int {
    channel_max(r, g, b) - channel_min(r, g, b)
}

/// The hue in degrees, multiplied by the chroma, for a colour that is not
/// grey.
///
/// With red the largest channel the hue is `60 * (g - b) / chroma`, taken
/// into `[0, 360)` by adding a full turn when it is negative; with green it is
/// `60 * ((b - r) / chroma + 2)`; with blue `60 * ((r - g) / chroma + 4)`.
/// Red is looked at first and green second, so a tie between channels goes
/// to the earlier one.
pub open spec fn hue_times_chroma(r: u8, g: u8, b: u8) -> int {
    let hi = channel_max(r, g, b);
    let delta = chroma(r, g, b);
    if hi == r {
        if g >= b {
            60 * (g - b)
        } else {
            60 * (g - b) + 360 * delta
        }
    } else if hi == g {
        60 * (b - r) + 120 * delta
    } else {
        60 * (r - g) + 240 * delta
    }
}

/// The hue in whole degrees: 0 for a grey, else the exact hue rounded.
pub open spec fn hue_degrees(r: u8, g: u8, b: u8) -> int {
    if chroma(r, g, b) == 0 {
        0
    } else {
        round_half_up(hue_times_chroma(r, g, b), chroma(r, g, b))
    }
}

/// The saturation in whole percent, before clamping: 0 for black, else
/// `100 * chroma / max` rounded.
pub open spec fn saturation_rounded(r: u8, g: u8, b: u8) -> int {
    if channel_max(r, g, b) == 0 {
        0
    } else {
        round_half_up(100 * chroma(r, g, b), channel_max(r, g, b))
    }
}

/// The brightness in whole percent, before clamping: `100 * max / 255`
/// rounded.
pub open spec fn brightness_rounded(r: u8, g: u8, b: u8) -> int {
    round_half_up(100 * channel_max(r, g, b), 255)
}

/// The saturation that is sent to the device: rounded first, clamped second.
pub open spec fn saturation_percent(r: u8, g: u8, b: u8) -> int {
    clamp_percent(saturation_rounded(r, g, b))
}

/// The brightness that is sent to the device: rounded first, clamped second.
pub open spec fn brightness_percent(r: u8, g: u8, b: u8) -> int {
    clamp_percent(brightness_rounded(r, g, b))
}

/// The colours whose hue lies within half a degree below a full turn, so that
/// rounding takes it to 360: red is the largest channel, blue exceeds green,
/// and `60 * (b - g) / chroma` is at most one half.
pub open spec fn hue_rounds_to_full_turn(r: u8, g: u8, b: u8) -> bool {
    r >= b && b > g && 120 * (b - g) <= r - g
}

/// Divides with rounding to the nearest integer, a half going up.
fn div_round(num: u32, den: u32) -> (q: u32)
    requires
        0 < den <= 255,
        num <= 360 * 255,
    ensures
        q == round_half_up(num as int, den as int),
{
    (2 * num + den) / (2 * den)
}

/// Raises a rounded percentage of 0 to 1 and lowers one over 100 to 100.
fn clamp_to_percent(x: u32) -> (p: u8)
    ensures
        p == clamp_percent(x as int),
{
    if x < 1 {
        1
    } else if x > 100 {
        100
    } else {
        x as u8
    }
}

/// Converts a colour to the hue (degrees), saturation and brightness
/// (percent) that the light is commanded with.
///
/// Each of the three is the exact rational value rounded to the nearest
/// integer. Saturation and brightness are then clamped into `[1, 100]`; the
/// hue is rounded only, so the colours of `hue_rounds_to_full_turn`, and no
/// others, come out as 360.
pub fn rgb_to_hsv(r: u8, g: u8, b: u8) -> (out: (u16, u8, u8))
    ensures
        out.0 == hue_degrees(r, g, b),
        out.1 == saturation_percent(r, g, b),
        out.2 == brightness_percent(r, g, b),
        out.0 <= 360,
        out.0 == 360 <==> hue_rounds_to_full_turn(r, g, b),
        1 <= out.1 <= 100,
        1 <= out.2 <= 100,
{
    let hi: u8 = if r >= g && r >= b {
        r
    } else if g >= b {
        g
    } else {
        b
    };
    let lo: u8 = if r <= g && r <= b {
        r
    } else if g <= b {
        g
    } else {
        b
    };
    let delta: u32 = (hi - lo) as u32;
    let hue: u32 = if delta == 0 {
        0
    } else {
        let scaled: u32 = if hi == r {
            if g >= b {
                60 * ((g - b) as u32)
            } else {
                360 * delta - 60 * ((b - g) as u32)
            }
        } else if hi == g {
            if b >= r {
                120 * delta + 60 * ((b - r) as u32)
            } else {
                120 * delta - 60 * ((r - b) as u32)
            }
        } else {
            if r >= g {
                240 * delta + 60 * ((r - g) as u32)
            } else {
                240 * delta - 60 * ((g - r) as u32)
            }
        };
        div_round(scaled, delta)
    };
    let saturation: u32 = if hi == 0 {
        0
    } else {
        div_round(100 * delta, hi as u32)
    };
    let brightness: u32 = div_round(100 * (hi as u32), 255);
    proof {
        lemma_hue_range(r, g, b);
    }
    (hue as u16, clamp_to_percent(saturation), clamp_to_percent(brightness))
}

/// The rounded quotient is within one half of the exact one, and a quotient
/// that lies exactly between two integers goes to the larger.
pub proof fn lemma_round_half_up_is_nearest(num: int, den: int)
    requires
        num >= 0,
        den > 0,
    ensures
        2 * den * round_half_up(num, den) - den <= 2 * num,
        2 * num < 2 * den * round_half_up(num, den) + den,
        round_half_up(num, den) >= 0,
{
    let q = round_half_up(num, den);
    vstd::arithmetic::div_mod::lemma_fundamental_div_mod(2 * num + den, 2 * den);
    vstd::arithmetic::div_mod::lemma_mod_bound(2 * num + den, 2 * den);
    vstd::arithmetic::div_mod::lemma_div_pos_is_pos(2 * num + den, 2 * den);
    assert(2 * den * q == (2 * den) * q) by (nonlinear_arith);
}

/// The hue is between 0 and 360 degrees, and it is 360 exactly for the
/// colours of `hue_rounds_to_full_turn`.
pub proof fn lemma_hue_range(r: u8, g: u8, b: u8)
    ensures
        0 <= hue_degrees(r, g, b) <= 360,
        hue_degrees(r, g, b) == 360 <==> hue_rounds_to_full_turn(r, g, b),
{
    let delta = chroma(r, g, b);
    if delta > 0 {
        let num = hue_times_chroma(r, g, b);
        let q = round_half_up(num, delta);
        assert(0 <= num < 360 * delta);
        lemma_round_half_up_is_nearest(num, delta);
        assert(q <= 360) by (nonlinear_arith)
            requires
                2 * delta * q - delta <= 2 * num,
                num < 360 * delta,
                delta > 0,
        ;
        if q == 360 {
            assert(2 * delta * q == 720 * delta) by (nonlinear_arith)
                requires
                    q == 360,
            ;
        }
        if hue_rounds_to_full_turn(r, g, b) {
            assert(q >= 360) by (nonlinear_arith)
                requires
                    2 * num < 2 * delta * q + delta,
                    2 * num >= 719 * delta,
                    delta > 0,
            ;
        }
    }
}

/// For every colour other than those whose hue rounds to a full turn, the
/// command is within the device's ranges: hue in `[0, 359]`, saturation and
/// brightness in `[1, 100]`.
pub proof fn lemma_command_in_device_range(r: u8, g: u8, b: u8)
    requires
        !hue_rounds_to_full_turn(r, g, b),
    ensures
        0 <= hue_degrees(r, g, b) <= 359,
        1 <= saturation_percent(r, g, b) <= 100,
        1 <= brightness_percent(r, g, b) <= 100,
{
    lemma_hue_range(r, g, b);
}

} // verus!
