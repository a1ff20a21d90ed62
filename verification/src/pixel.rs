//! Colours and their conversion to the bytes that the strip driver takes.
//!
//! All quantities are fixed-point integers. A hue is a number of thousandths
//! of a degree; a saturation, a value or a colour channel is a number of
//! units of 1/255000, so that a byte `b`, read as `b/255`, is exactly
//! `1000 * b`, and three decimal places are exact too.

use vstd::prelude::*;

verus! {

/// The fixed-point number that stands for 1.0 in a saturation, a value or a channel.
pub const ONE: i64 = 255_000;

/// A full turn of the hue circle, 360 degrees, in thousandths of a degree.
pub const FULL_TURN: i64 = 360_000;

/// One sixth of the hue circle, 60 degrees, in thousandths of a degree.
pub const SECTOR: i64 = 60_000;

/// The denominator over which `level_high`, `level_mid` and `level_low` are
/// fractions: `SECTOR * ONE * ONE`.
pub const LEVEL_DEN: i64 = 3_901_500_000_000_000;

/// The value `x` limited to the closed interval from `lo` to `hi`.
pub open spec fn clamp_between(x: int, lo: int, hi: int) -> int {
    if x < lo {
        lo
    } else if x > hi {
        hi
    } else {
        x
    }
}

/// A fraction limited to the interval from 0 to 1.0.
pub open spec fn unit(x: int) -> int {
    clamp_between(x, 0, ONE as int)
}

/// The hue in `[0, FULL_TURN)` that lies at the same place of the circle as `h`.
pub open spec fn canonical_hue(h: int) -> int {
    h % (FULL_TURN as int)
}

/// The fraction `num/den` of 255, rounded to the nearest integer, a half upwards.
pub open spec fn byte_of(num: int, den: int) -> int {
    (510 * num + den) / (2 * den)
}

/// For a canonical hue `h`, the number `SECTOR * (1 - |(h / SECTOR) mod 2 - 1|)`:
/// it rises from 0 to `SECTOR` over one sector and falls back over the next.
pub open spec fn ramp(h: int) -> int {
    let t = h % (2 * SECTOR);
    if t <= SECTOR {
        t
    } else {
        2 * SECTOR - t
    }
}

/// The chroma `clamp(v) * clamp(s)`, as a fraction over `ONE * ONE`.
pub open spec fn chroma(s: int, v: int) -> int {
    unit(v) * unit(s)
}

/// What every channel has at least, `clamp(v) - chroma`, as a fraction over `ONE * ONE`.
pub open spec fn base(s: int, v: int) -> int {
    unit(v) * ONE - chroma(s, v)
}

/// The strongest channel, base plus chroma, over `LEVEL_DEN`.
pub open spec fn level_high(s: int, v: int) -> int {
    SECTOR * (base(s, v) + chroma(s, v))
}

/// The middle channel at the canonical hue `h`, base plus `chroma * ramp / SECTOR`, over `LEVEL_DEN`.
pub open spec fn level_mid(h: int, s: int, v: int) -> int {
    SECTOR * base(s, v) + chroma(s, v) * ramp(h)
}

/// The weakest channel, the base alone, over `LEVEL_DEN`.
pub open spec fn level_low(s: int, v: int) -> int {
    SECTOR * base(s, v)
}

/// Red, green and blue of the colour with hue `h`, saturation `s` and value `v`,
/// each as a fraction over `LEVEL_DEN`. The hue is taken round the circle,
/// saturation and value are clamped, and the six sectors of the hue hexagon
/// decide which channel is strongest, which in the middle and which weakest.
pub open spec fn hsv_levels(h: int, s: int, v: int) -> (int, int, int) {
    let hue = canonical_hue(h);
    let hi = level_high(s, v);
    let mid = level_mid(hue, s, v);
    let lo = level_low(s, v);
    if hue < SECTOR {
        (hi, mid, lo)
    } else if hue < 2 * SECTOR {
        (mid, hi, lo)
    } else if hue < 3 * SECTOR {
        (lo, hi, mid)
    } else if hue < 4 * SECTOR {
        (lo, mid, hi)
    } else if hue < 5 * SECTOR {
        (mid, lo, hi)
    } else {
        (hi, lo, mid)
    }
}

/// Red, green and blue of an HSV colour as bytes.
pub open spec fn hsv_rgb(h: int, s: int, v: int) -> (int, int, int) {
    let (r, g, b) = hsv_levels(h, s, v);
    (byte_of(r, LEVEL_DEN as int), byte_of(g, LEVEL_DEN as int), byte_of(b, LEVEL_DEN as int))
}

/// The byte of one channel given directly: clamped, then rounded.
pub open spec fn channel_byte(x: int) -> int {
    byte_of(unit(x), ONE as int)
}

/// The four bytes that the driver takes for red `r`, green `g` and blue `b`:
/// blue first, then green, then red, then one byte that is not used.
pub open spec fn packed(r: int, g: int, b: int) -> Seq<u8> {
    seq![b as u8, g as u8, r as u8, 0u8]
}

/// A colour, given by its channels, by hue, saturation and value, or by name.
#[derive(Clone, Copy, Debug)]
pub enum Pixel {
    RGB { r: i64, g: i64, b: i64 },
    HSV { h: i64, s: i64, v: i64 },
    WHITE,
    GREEN,
    BLUE,
    RED,
    OFF,
}

impl Pixel {
    /// Red, green and blue of this colour as bytes.
    pub open spec fn rgb(self) -> (int, int, int) {
        match self {
            Pixel::RGB { r, g, b } => (
                channel_byte(r as int),
                channel_byte(g as int),
                channel_byte(b as int),
            ),
            Pixel::HSV { h, s, v } => hsv_rgb(h as int, s as int, v as int),
            Pixel::WHITE => (255, 255, 255),
            Pixel::GREEN => (0, 255, 0),
            Pixel::BLUE => (0, 0, 255),
            Pixel::RED => (255, 0, 0),
            Pixel::OFF => (0, 0, 0),
        }
    }

    /// The four bytes that the driver takes for this colour.
    pub open spec fn raw(self) -> Seq<u8> {
        let (r, g, b) = self.rgb();
        packed(r, g, b)
    }
}

/// Limits a fraction to the interval from 0 to 1.0.
pub fn clamp_unit(x: i64) -> (r: i64)
    ensures
        r == unit(x as int),
{
    if x < 0 {
        0
    } else if x > ONE {
        ONE
    } else {
        x
    }
}

/// Takes a hue round the circle into `[0, FULL_TURN)`; a negative hue wraps upwards.
pub fn canonical(h: i64) -> (r: i64)
    ensures
        r == canonical_hue(h as int),
        0 <= r < FULL_TURN,
{
    let r: i64 = h % FULL_TURN;
    if r < 0 {
        r + FULL_TURN
    } else {
        r
    }
}

/// The byte of a channel level given over `LEVEL_DEN`.
fn level_byte(level: i64) -> (r: u8)
    requires
        0 <= level <= LEVEL_DEN,
    ensures
        r == byte_of(level as int, LEVEL_DEN as int),
{
    ((510 * level + LEVEL_DEN) / (2 * LEVEL_DEN)) as u8
}

/// The byte of a channel given directly.
fn direct_byte(x: i64) -> (r: u8)
    ensures
        r == channel_byte(x as int),
{
    let c: i64 = clamp_unit(x);
    ((510 * c + ONE) / (2 * ONE)) as u8
}

/// Chroma and base of clamped `s` and `v` stay within `ONE * ONE`.
proof fn lemma_chroma_bounds(s: int, v: int)
    ensures
        0 <= chroma(s, v) <= unit(v) * ONE,
        0 <= base(s, v) <= unit(v) * ONE,
        unit(v) * ONE <= ONE * ONE,
        base(s, v) + chroma(s, v) == unit(v) * ONE,
{
    let s1 = unit(s);
    let v1 = unit(v);
    assert(0 <= v1 * s1 <= v1 * ONE) by (nonlinear_arith)
        requires
            0 <= s1 <= ONE,
            0 <= v1,
    ;
    assert(v1 * ONE <= ONE * ONE) by (nonlinear_arith)
        requires
            0 <= v1 <= ONE,
    ;
}

/// The middle level lies between the weakest and the strongest.
proof fn lemma_mid_bounds(h: int, s: int, v: int)
    requires
        0 <= h < FULL_TURN,
    ensures
        0 <= level_low(s, v) <= level_mid(h, s, v) <= level_high(s, v) <= LEVEL_DEN,
        0 <= ramp(h) <= SECTOR,
{
    lemma_chroma_bounds(s, v);
    let c = chroma(s, v);
    let k = ramp(h);
    assert(0 <= c * k <= SECTOR * c) by (nonlinear_arith)
        requires
            0 <= c,
            0 <= k <= SECTOR,
    ;
}

impl Pixel {
    /// The four bytes that the driver takes for this colour: blue, green, red
    /// and one unused byte, each channel rounded to the nearest byte.
    pub fn to_u8(&self) -> (raw: [u8; 4])
        ensures
            raw@ == self.raw(),
    {
        let (r, g, b): (u8, u8, u8) = match self {
            Pixel::RGB { r, g, b } => (direct_byte(*r), direct_byte(*g), direct_byte(*b)),
            Pixel::HSV { h, s, v } => {
                let hue: i64 = canonical(*h);
                let s1: i64 = clamp_unit(*s);
                let v1: i64 = clamp_unit(*v);
                proof {
                    lemma_mid_bounds(hue as int, *s as int, *v as int);
                    lemma_chroma_bounds(*s as int, *v as int);
                }
                let c: i64 = v1 * s1;
                let m: i64 = v1 * ONE - c;
                let t: i64 = hue % (2 * SECTOR);
                let k: i64 = if t <= SECTOR {
                    t
                } else {
                    2 * SECTOR - t
                };
                assert(c * k == chroma(*s as int, *v as int) * ramp(hue as int));
                let hi: u8 = level_byte(SECTOR * (m + c));
                let mid: u8 = level_byte(SECTOR * m + c * k);
                let lo: u8 = level_byte(SECTOR * m);
                if hue < SECTOR {
                    (hi, mid, lo)
                } else if hue < 2 * SECTOR {
                    (mid, hi, lo)
                } else if hue < 3 * SECTOR {
                    (lo, hi, mid)
                } else if hue < 4 * SECTOR {
                    (lo, mid, hi)
                } else if hue < 5 * SECTOR {
                    (mid, lo, hi)
                } else {
                    (hi, lo, mid)
                }
            },
            Pixel::WHITE => (255, 255, 255),
            Pixel::GREEN => (0, 255, 0),
            Pixel::BLUE => (0, 0, 255),
            Pixel::RED => (255, 0, 0),
            Pixel::OFF => (0, 0, 0),
        };
        let raw: [u8; 4] = [b, g, r, 0];
        assert(raw@ =~= self.raw());
        raw
    }
}

/// Two hues that differ by whole turns lie at the same place of the circle.
pub proof fn lemma_canonical_hue_periodic(h: int, k: int)
    ensures
        canonical_hue(h + k * FULL_TURN) == canonical_hue(h),
        0 <= canonical_hue(h) < FULL_TURN,
{
    vstd::arithmetic::div_mod::lemma_mod_multiples_vanish(k, h, FULL_TURN as int);
}

/// A colour does not change when its hue goes round the circle any number of
/// times, in either direction.
pub proof fn lemma_hsv_hue_periodic(h: int, s: int, v: int, k: int)
    ensures
        hsv_rgb(h + k * FULL_TURN, s, v) == hsv_rgb(h, s, v),
{
    lemma_canonical_hue_periodic(h, k);
}

/// Every channel of a colour is a byte.
pub proof fn lemma_rgb_is_bytes(p: Pixel)
    ensures
        0 <= p.rgb().0 <= 255,
        0 <= p.rgb().1 <= 255,
        0 <= p.rgb().2 <= 255,
{
    if let Pixel::HSV { h, s, v } = p {
        lemma_mid_bounds(canonical_hue(h as int), s as int, v as int);
    }
}

/// Without saturation a colour is grey, whatever its hue: all three channels
/// are the byte of its value.
pub proof fn lemma_unsaturated_is_grey(h: int, s: int, v: int)
    requires
        s <= 0,
    ensures
        hsv_rgb(h, s, v) == (channel_byte(v), channel_byte(v), channel_byte(v)),
{
    let v1 = unit(v);
    assert(chroma(s, v) == 0) by (nonlinear_arith)
        requires
            chroma(s, v) == v1 * 0,
    ;
    assert(chroma(s, v) * ramp(canonical_hue(h)) == 0) by (nonlinear_arith)
        requires
            chroma(s, v) == 0,
    ;
    let level = SECTOR * (v1 * ONE);
    assert(level_high(s, v) == level);
    assert(level_low(s, v) == level);
    assert(level_mid(canonical_hue(h), s, v) == level);
    assert(byte_of(level, LEVEL_DEN as int) == byte_of(v1, ONE as int)) by {
        let k: int = 15_300_000_000;
        vstd::arithmetic::div_mod::lemma_div_multiples_vanish_quotient(
            k,
            510 * v1 + ONE,
            2 * ONE,
        );
        assert(k * (510 * v1 + ONE) == 510 * level + LEVEL_DEN);
        assert(k * (2 * ONE) == 2 * LEVEL_DEN);
    }
}

/// Without value a colour is black, whatever its hue and saturation.
pub proof fn lemma_zero_value_is_black(h: int, s: int, v: int)
    requires
        v <= 0,
    ensures
        hsv_rgb(h, s, v) == (0int, 0int, 0int),
{
    let s1 = unit(s);
    assert(chroma(s, v) == 0) by (nonlinear_arith)
        requires
            chroma(s, v) == 0 * s1,
    ;
    assert(chroma(s, v) * ramp(canonical_hue(h)) == 0) by (nonlinear_arith)
        requires
            chroma(s, v) == 0,
    ;
    assert(level_high(s, v) == 0);
    assert(level_low(s, v) == 0);
    assert(level_mid(canonical_hue(h), s, v) == 0);
    assert(byte_of(0, LEVEL_DEN as int) == 0) by {
        vstd::arithmetic::div_mod::lemma_basic_div(LEVEL_DEN as int, 2 * LEVEL_DEN);
    }
}

/// At full saturation and full value the hues 0, 120 and 240 degrees are pure
/// red, green and blue, the colours that bear those names.
pub proof fn lemma_primary_hues()
    ensures
        (Pixel::HSV { h: 0, s: ONE, v: ONE }).raw() == Pixel::RED.raw(),
        (Pixel::HSV { h: 120_000, s: ONE, v: ONE }).raw() == Pixel::GREEN.raw(),
        (Pixel::HSV { h: 240_000, s: ONE, v: ONE }).raw() == Pixel::BLUE.raw(),
        (Pixel::HSV { h: 0, s: 0, v: ONE }).raw() == Pixel::WHITE.raw(),
        (Pixel::HSV { h: 0, s: ONE, v: 0 }).raw() == Pixel::OFF.raw(),
{
    assert(chroma(ONE as int, ONE as int) == 65_025_000_000) by (nonlinear_arith)
        requires
            chroma(ONE as int, ONE as int) == 255_000 * 255_000,
    ;
    lemma_unsaturated_is_grey(0, 0, ONE as int);
    lemma_zero_value_is_black(0, ONE as int, 0);
}

} // verus!
