//! From a hash to a hue, and from hue, saturation and lightness to red, green
//! and blue.
//!
//! All quantities are fixed-point integers with three decimal places: a hue is
//! given in thousandths of a degree, a saturation and a lightness in
//! thousandths of a percent. The conversion is exact: each channel is the
//! integer part of the rational number that the HSL formula gives, scaled to
//! 0..=255.
use vstd::prelude::*;

verus! {

/// A colour as red, green and blue.
pub type Rgb = (u8, u8, u8);

/// The full turn of the hue wheel: 360 degrees.
pub const FULL_TURN: u32 = 360_000;

/// A sixth of the hue wheel: 60 degrees.
pub const SEXTANT: u32 = 60_000;

/// The largest saturation and the largest lightness: 100 percent.
pub const FULL_SCALE: u32 = 100_000;

/// The denominator that the numerators of [`chroma_part`], [`ramp_part`] and
/// [`base_part`] share: `2 * FULL_SCALE * FULL_SCALE * SEXTANT`.
pub const WHOLE: u64 = 1_200_000_000_000_000;

/// Saturation of a beacon's foreground: 37 percent.
pub const FOREGROUND_SATURATION: u32 = 37_000;

/// Lightness of a beacon's foreground: 91 percent.
pub const FOREGROUND_LIGHTNESS: u32 = 91_000;

/// Saturation of a background, in tenths of its foreground's saturation.
pub const BACKGROUND_SATURATION_TENTHS: u32 = 8;

/// The distance of `a` from zero.
pub open spec fn magnitude(a: int) -> int {
    if a < 0 {
        -a
    } else {
        a
    }
}

/// The hue that a hash selects: the hash, read as a fraction of 2^64, of the
/// full turn. It is below [`FULL_TURN`].
pub open spec fn hue_of(hash: u64) -> int {
    hash * 360_000 / 0x1_0000_0000_0000_0000
}

/// The chroma `(1 - |2l - 1|) * s`, as a multiple of
/// `1 / (FULL_SCALE * FULL_SCALE)`.
pub open spec fn chroma(s: int, l: int) -> int {
    (100_000 - magnitude(2 * l - 100_000)) * s
}

/// The factor `1 - |(h / 60°) mod 2 - 1|`, as a multiple of `1 / SEXTANT`:
/// it rises from 0 to [`SEXTANT`] over one sextant and falls back over the
/// next.
pub open spec fn ramp(h: int) -> int {
    60_000 - magnitude(h % 120_000 - 60_000)
}

/// The chroma as a multiple of `1 / WHOLE`.
pub open spec fn chroma_part(s: int, l: int) -> int {
    120_000 * chroma(s, l)
}

/// The intermediate value `chroma * ramp`, as a multiple of `1 / WHOLE`.
pub open spec fn ramp_part(h: int, s: int, l: int) -> int {
    2 * (ramp(h) * chroma(s, l))
}

/// The lightness offset `l - chroma / 2`, as a multiple of `1 / WHOLE`.
pub open spec fn base_part(s: int, l: int) -> int {
    60_000 * (200_000 * l - chroma(s, l))
}

/// A channel whose share of the chroma is `part`: the offset is added and the
/// sum is scaled to 0..=255, dropping the fraction.
pub open spec fn level(part: int, s: int, l: int) -> int {
    (part + base_part(s, l)) * 255 / 1_200_000_000_000_000
}

/// Red, green and blue of the colour with hue `h`, saturation `s` and
/// lightness `l`. The sextant of the hue decides which channel gets the
/// chroma, which the intermediate value and which nothing; a hue of exactly
/// [`FULL_TURN`] is read as a hue of zero.
pub open spec fn channels(h: int, s: int, l: int) -> (int, int, int) {
    let c = level(chroma_part(s, l), s, l);
    let x = level(ramp_part(h, s, l), s, l);
    let o = level(0, s, l);
    let sextant = h / 60_000;
    if sextant == 0 || sextant == 6 {
        (c, x, o)
    } else if sextant == 1 {
        (x, c, o)
    } else if sextant == 2 {
        (o, c, x)
    } else if sextant == 3 {
        (o, x, c)
    } else if sextant == 4 {
        (x, o, c)
    } else {
        (c, o, x)
    }
}

/// The colour with hue `h`, saturation `s` and lightness `l`.
pub open spec fn rgb_of(h: int, s: int, l: int) -> Rgb {
    let c = channels(h, s, l);
    (c.0 as u8, c.1 as u8, c.2 as u8)
}

/// `tenths` tenths of `x`, dropping the fraction.
pub open spec fn tenths_of(x: int, tenths: int) -> int {
    x * tenths / 10
}

/// A foreground colour and the background that goes with it: the background
/// has the same hue, eight tenths of the saturation and `dimming` tenths of
/// the lightness.
pub open spec fn pair_of(h: int, s: int, l: int, dimming: int) -> (Rgb, Rgb) {
    (rgb_of(h, s, l), rgb_of(h, tenths_of(s, 8), tenths_of(l, dimming)))
}

/// The largest of the three channels of `c`.
pub open spec fn lightest_channel(c: Rgb) -> int {
    if c.0 >= c.1 && c.0 >= c.2 {
        c.0 as int
    } else if c.1 >= c.2 {
        c.1 as int
    } else {
        c.2 as int
    }
}

/// The smallest of the three channels of `c`.
pub open spec fn darkest_channel(c: Rgb) -> int {
    if c.0 <= c.1 && c.0 <= c.2 {
        c.0 as int
    } else if c.1 <= c.2 {
        c.1 as int
    } else {
        c.2 as int
    }
}

/// Whether hue, saturation and lightness are in the domain of the conversion.
pub open spec fn in_domain(h: int, s: int, l: int) -> bool {
    &&& 0 <= h <= FULL_TURN
    &&& 0 <= s <= FULL_SCALE
    &&& 0 <= l <= FULL_SCALE
}

/// The chroma is never negative and leaves room for the lightness on both
/// sides: `chroma / 2 <= l` and `l + chroma / 2 <= 1`.
pub proof fn lemma_chroma_bounds(s: int, l: int)
    requires
        0 <= s <= FULL_SCALE,
        0 <= l <= FULL_SCALE,
    ensures
        0 <= chroma(s, l),
        chroma(s, l) <= 2 * FULL_SCALE * l,
        chroma(s, l) <= 2 * FULL_SCALE * (FULL_SCALE - l),
{
    let w = 100_000 - magnitude(2 * l - 100_000);
    assert(0 <= w <= 2 * l && w <= 2 * (100_000 - l));
    assert(0 <= w * s <= w * 100_000) by (nonlinear_arith)
        requires
            0 <= w,
            0 <= s <= 100_000,
    ;
}

/// The intermediate value lies between nothing and the chroma.
pub proof fn lemma_ramp_part_bounds(h: int, s: int, l: int)
    requires
        in_domain(h, s, l),
    ensures
        0 <= ramp_part(h, s, l) <= chroma_part(s, l),
{
    lemma_chroma_bounds(s, l);
    let r = ramp(h);
    let c = chroma(s, l);
    assert(0 <= r <= SEXTANT);
    assert(0 <= r * c <= 60_000 * c) by (nonlinear_arith)
        requires
            0 <= r <= 60_000,
            0 <= c,
    ;
}

/// A channel grows with its share of the chroma, and with any share between
/// nothing and the whole chroma it lies in 0..=255.
pub proof fn lemma_level_bounds(part: int, s: int, l: int)
    requires
        0 <= s <= FULL_SCALE,
        0 <= l <= FULL_SCALE,
        0 <= part <= chroma_part(s, l),
    ensures
        0 <= level(0, s, l) <= level(part, s, l) <= level(chroma_part(s, l), s, l) <= 255,
{
    lemma_chroma_bounds(s, l);
}

/// Every channel of every colour in the domain lies in 0..=255.
pub proof fn lemma_channels_in_range(h: int, s: int, l: int)
    requires
        in_domain(h, s, l),
    ensures
        0 <= channels(h, s, l).0 <= 255,
        0 <= channels(h, s, l).1 <= 255,
        0 <= channels(h, s, l).2 <= 255,
{
    lemma_ramp_part_bounds(h, s, l);
    lemma_level_bounds(0, s, l);
    lemma_level_bounds(ramp_part(h, s, l), s, l);
    lemma_level_bounds(chroma_part(s, l), s, l);
}

/// Whatever the hue, the channels of a colour lie between the lightness
/// offset and the offset with the whole chroma on top.
pub proof fn lemma_channels_between(h: int, s: int, l: int)
    requires
        in_domain(h, s, l),
    ensures
        darkest_channel(rgb_of(h, s, l)) == level(0, s, l),
        lightest_channel(rgb_of(h, s, l)) == level(chroma_part(s, l), s, l),
{
    lemma_ramp_part_bounds(h, s, l);
    lemma_level_bounds(ramp_part(h, s, l), s, l);
}

/// The hue of every hash is on the wheel, short of the full turn.
pub proof fn lemma_hue_of_bounds(hash: u64)
    ensures
        0 <= hue_of(hash) < FULL_TURN,
{
}

/// The full turn is the same colour as a hue of zero.
pub proof fn lemma_full_turn_wraps(s: int, l: int)
    ensures
        channels(FULL_TURN as int, s, l) == channels(0, s, l),
{
    assert(ramp(FULL_TURN as int) == 0 && ramp(0) == 0);
    assert(0 * chroma(s, l) == 0);
}

/// Without saturation the colour is a grey: the three channels are equal.
pub proof fn lemma_unsaturated_is_grey(h: int, l: int)
    requires
        in_domain(h, 0, l),
    ensures
        channels(h, 0, l).0 == channels(h, 0, l).1,
        channels(h, 0, l).1 == channels(h, 0, l).2,
        channels(h, 0, l).0 == l * 255 / 100_000,
{
    let w = 100_000 - magnitude(2 * l - 100_000);
    assert(w * 0 == 0);
    assert(chroma(0, l) == 0);
    assert(ramp(h) * 0 == 0);
}

/// A part of a quantity is no more than the quantity, and less where the
/// quantity is not zero and the part is not the whole: a background that is
/// dimmed at all is darker than its foreground.
pub proof fn lemma_tenths_of(x: int, tenths: int)
    requires
        0 <= x,
        0 <= tenths <= 10,
    ensures
        0 <= tenths_of(x, tenths) <= x,
        0 < x && tenths < 10 ==> tenths_of(x, tenths) < x,
{
    assert(0 <= x * tenths <= x * 10 && (0 < x && tenths < 10 ==> x * tenths < x * 10))
        by (nonlinear_arith)
        requires
            0 <= x,
            0 <= tenths <= 10,
    ;
}

/// Computes the hue that a hash selects.
pub fn hue(hash: u64) -> (h: u32)
    ensures
        h == hue_of(hash),
        h < FULL_TURN,
{
    let wide: u128 = (hash as u128) * 360_000;
    let turn: u128 = wide / 0x1_0000_0000_0000_0000;
    assert(turn == hue_of(hash));
    assert(turn < 360_000);
    turn as u32
}

/// Converts hue `h`, saturation `s` and lightness `l` to red, green and blue.
///
/// The hue is in thousandths of a degree, from 0 to [`FULL_TURN`]; saturation
/// and lightness are in thousandths of a percent, from 0 to [`FULL_SCALE`].
pub fn hsl_to_rgb(h: u32, s: u32, l: u32) -> (rgb: Rgb)
    requires
        in_domain(h as int, s as int, l as int),
    ensures
        rgb.0 == channels(h as int, s as int, l as int).0,
        rgb.1 == channels(h as int, s as int, l as int).1,
        rgb.2 == channels(h as int, s as int, l as int).2,
        rgb == rgb_of(h as int, s as int, l as int),
{
    proof {
        lemma_chroma_bounds(s as int, l as int);
        lemma_ramp_part_bounds(h as int, s as int, l as int);
        lemma_channels_in_range(h as int, s as int, l as int);
    }
    let scale: u64 = FULL_SCALE as u64;
    let sextant: u64 = SEXTANT as u64;
    let twice: u64 = 2 * (l as u64);
    let width: u64 = if twice >= scale {
        2 * scale - twice
    } else {
        twice
    };
    assert(width * s <= 100_000 * 100_000) by (nonlinear_arith)
        requires
            width <= 100_000,
            s <= 100_000,
    ;
    let c: u64 = width * (s as u64);
    assert(c == chroma(s as int, l as int));
    let phase: u64 = (h as u64) % (2 * sextant);
    let r: u64 = if phase >= sextant {
        2 * sextant - phase
    } else {
        phase
    };
    assert(r == ramp(h as int));
    assert(r * c <= 60_000 * c) by (nonlinear_arith)
        requires
            r <= 60_000,
            0 <= c,
    ;
    let base: u64 = sextant * (2 * scale * (l as u64) - c);
    let top: u64 = (2 * sextant * c + base) * 255 / WHOLE;
    let mid: u64 = (2 * (r * c) + base) * 255 / WHOLE;
    let low: u64 = base * 255 / WHOLE;
    let c: u8 = top as u8;
    let x: u8 = mid as u8;
    let o: u8 = low as u8;
    match h / SEXTANT {
        0 | 6 => (c, x, o),
        1 => (x, c, o),
        2 => (o, c, x),
        3 => (o, x, c),
        4 => (x, o, c),
        _ => (c, o, x),
    }
}

/// Computes a foreground colour and the background that goes with it.
pub fn colour_pair(h: u32, s: u32, l: u32, dimming: u32) -> (pair: (Rgb, Rgb))
    requires
        in_domain(h as int, s as int, l as int),
        dimming <= 10,
    ensures
        pair == pair_of(h as int, s as int, l as int, dimming as int),
{
    proof {
        lemma_tenths_of(s as int, 8);
        lemma_tenths_of(l as int, dimming as int);
        lemma_channels_in_range(h as int, s as int, l as int);
        lemma_channels_in_range(h as int, tenths_of(s as int, 8), tenths_of(l as int, dimming as int));
    }
    let foreground = hsl_to_rgb(h, s, l);
    let muted: u32 = ((s as u64) * (BACKGROUND_SATURATION_TENTHS as u64) / 10) as u32;
    let dimmed: u32 = ((l as u64) * (dimming as u64) / 10) as u32;
    let background = hsl_to_rgb(h, muted, dimmed);
    (foreground, background)
}

} // verus!
