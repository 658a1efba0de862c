//! Colour names, the two ramps that turn a terrain sample into a colour band,
//! and the table from colour names to colour codes.
//!
//! Samples and ramp bounds are fixed-point magnitudes: one unit is a
//! millionth, so a noise value of `0.5` is the sample `500_000`.

use vstd::prelude::*;

verus! {

/// A semantic colour tag: what a tile or an entity is coloured as, not an RGB
/// value. `ColorScheme` gives each name its code.
#[derive(Clone, Copy, Debug, PartialEq, Eq, Structural)]
pub enum ColorName {
    Bg,
    Fg,
    Fg0,
    Fg1,
    Fg2,
    Fg3,
    Fg4,
    Gray,
    LightGray,
    Red,
    LightRed,
    Green,
    LightGreen,
    Yellow,
    LightYellow,
    Blue,
    LightBlue,
    Purple,
    LightPurple,
    Aqua,
    LightAqua,
    Orange,
    LightOrange,
    Void,
    Stone0,
    Stone1,
    Stone2,
    Stone3,
    Stone4,
    Stone5,
    Stone6,
}

/// `val` lies in band `k` when `[min, max]` is cut into `bands` equal bands:
/// `min + k * step <= val < min + (k + 1) * step` with
/// `step = (max - min) / bands`, multiplied through by `bands`.
pub open spec fn in_band(val: int, min: int, max: int, bands: int, k: int) -> bool {
    &&& k * (max - min) <= bands * (val - min)
    &&& bands * (val - min) < k * (max - min) + (max - min)
}

/// The stone ramp: seven bands over `[min, max]`; band 0 is the void, bands
/// 1 to 5 the shades `Stone1` to `Stone5`, and everything else `Stone6`.
pub open spec fn stone_color(val: int, min: int, max: int) -> ColorName {
    if in_band(val, min, max, 7, 0) {
        ColorName::Void
    } else if in_band(val, min, max, 7, 1) {
        ColorName::Stone1
    } else if in_band(val, min, max, 7, 2) {
        ColorName::Stone2
    } else if in_band(val, min, max, 7, 3) {
        ColorName::Stone3
    } else if in_band(val, min, max, 7, 4) {
        ColorName::Stone4
    } else if in_band(val, min, max, 7, 5) {
        ColorName::Stone5
    } else {
        ColorName::Stone6
    }
}

/// The floor ramp: eight bands over `[min, max]`, of which band 0 is
/// `Stone6` and bands 2 to 5 are `Stone5` down to `Stone2`; band 1, the bands
/// from 6 up and everything outside the range are the void.
pub open spec fn floor_color(val: int, min: int, max: int) -> ColorName {
    if in_band(val, min, max, 8, 0) {
        ColorName::Stone6
    } else if in_band(val, min, max, 8, 2) {
        ColorName::Stone5
    } else if in_band(val, min, max, 8, 3) {
        ColorName::Stone4
    } else if in_band(val, min, max, 8, 4) {
        ColorName::Stone3
    } else if in_band(val, min, max, 8, 5) {
        ColorName::Stone2
    } else {
        ColorName::Void
    }
}

/// The names that the stone and floor ramps can give.
pub open spec fn is_rock_shade(c: ColorName) -> bool {
    c == ColorName::Void || c == ColorName::Stone1 || c == ColorName::Stone2 || c
        == ColorName::Stone3 || c == ColorName::Stone4 || c == ColorName::Stone5 || c
        == ColorName::Stone6
}

/// A value lies in at most one band of a ramp.
proof fn lemma_band_unique(val: int, min: int, max: int, bands: int, j: int, k: int)
    requires
        in_band(val, min, max, bands, j),
        in_band(val, min, max, bands, k),
    ensures
        j == k,
{
    let d = max - min;
    let t = bands * (val - min);
    assert(d > 0);
    if j < k {
        assert(j * d + d <= k * d) by (nonlinear_arith)
            requires
                j < k,
                d > 0,
        ;
    } else if k < j {
        assert(k * d + d <= j * d) by (nonlinear_arith)
            requires
                k < j,
                d > 0,
        ;
    }
}

/// The index of the band that `val` falls in when `[min, max]` is cut into
/// `bands` equal bands, or `None` where it lies below `min` or the range is
/// empty. Values at or above `max` give an index of `bands` or more.
fn ramp_band(val: u32, min: u32, max: u32, bands: u32) -> (r: Option<u64>)
    requires
        bands > 0,
    ensures
        match r {
            Some(k) => in_band(val as int, min as int, max as int, bands as int, k as int),
            None => forall|k: int|
                0 <= k ==> !#[trigger] in_band(val as int, min as int, max as int, bands as int, k),
        },
{
    if max <= min || val < min {
        proof {
            assert forall|k: int| 0 <= k implies !#[trigger] in_band(
                val as int,
                min as int,
                max as int,
                bands as int,
                k,
            ) by {
                if max > min {
                    let d = max - min;
                    assert(bands * (val - min) < 0) by (nonlinear_arith)
                        requires
                            bands > 0,
                            val < min,
                    ;
                    assert(k * d >= 0) by (nonlinear_arith)
                        requires
                            k >= 0,
                            d > 0,
                    ;
                }
            }
        }
        return None;
    }
    let d: u64 = (max - min) as u64;
    assert(bands as u64 * (val - min) as u64 <= 0xffff_ffff * 0xffff_ffff) by (nonlinear_arith)
        requires
            bands <= 0xffff_ffff,
            (val - min) as u64 <= 0xffff_ffff,
    ;
    let t: u64 = bands as u64 * (val - min) as u64;
    let k: u64 = t / d;
    proof {
        vstd::arithmetic::div_mod::lemma_fundamental_div_mod(t as int, d as int);
        vstd::arithmetic::div_mod::lemma_mod_pos_bound(t as int, d as int);
        assert(k * d == d * k) by (nonlinear_arith);
    }
    Some(k)
}

/// Classifies `val` on the stone ramp over `[min, max]` (seven equal bands).
pub fn get_stone_color(val: &u32, min: &u32, max: &u32) -> (r: ColorName)
    ensures
        r == stone_color(*val as int, *min as int, *max as int),
        is_rock_shade(r),
        *val < *min ==> r == ColorName::Stone6,
        *max <= *min ==> r == ColorName::Stone6,
        7 * (*val - *min) >= 6 * (*max - *min) ==> r == ColorName::Stone6,
{
    let band = ramp_band(*val, *min, *max, 7);
    let ghost (v, lo, hi) = (*val as int, *min as int, *max as int);
    proof {
        if let Some(k) = band {
            assert forall|j: int| 0 <= j && j != k implies !#[trigger] in_band(v, lo, hi, 7, j) by {
                if in_band(v, lo, hi, 7, j) {
                    lemma_band_unique(v, lo, hi, 7, j, k as int);
                }
            }
            if *max > *min && 7 * (*val - *min) >= 6 * (*max - *min) {
                assert(k >= 6) by (nonlinear_arith)
                    requires
                        in_band(v, lo, hi, 7, k as int),
                        hi > lo,
                        7 * (v - lo) >= 6 * (hi - lo),
                ;
            }
        }
    }
    match band {
        Some(0) => ColorName::Void,
        Some(1) => ColorName::Stone1,
        Some(2) => ColorName::Stone2,
        Some(3) => ColorName::Stone3,
        Some(4) => ColorName::Stone4,
        Some(5) => ColorName::Stone5,
        _ => ColorName::Stone6,
    }
}

/// Classifies `val` on the floor ramp over `[min, max]` (eight equal bands,
/// mapped by the fixed table of `floor_color`).
pub fn get_floor_color(val: &u32, min: &u32, max: &u32) -> (r: ColorName)
    ensures
        r == floor_color(*val as int, *min as int, *max as int),
        is_rock_shade(r),
        *val < *min ==> r == ColorName::Void,
        *max <= *min ==> r == ColorName::Void,
        in_band(*val as int, *min as int, *max as int, 8, 1) ==> r == ColorName::Void,
        8 * (*val - *min) >= 6 * (*max - *min) ==> r == ColorName::Void,
{
    let band = ramp_band(*val, *min, *max, 8);
    let ghost (v, lo, hi) = (*val as int, *min as int, *max as int);
    proof {
        if let Some(k) = band {
            assert forall|j: int| 0 <= j && j != k implies !#[trigger] in_band(v, lo, hi, 8, j) by {
                if in_band(v, lo, hi, 8, j) {
                    lemma_band_unique(v, lo, hi, 8, j, k as int);
                }
            }
            if *max > *min && 8 * (*val - *min) >= 6 * (*max - *min) {
                assert(k >= 6) by (nonlinear_arith)
                    requires
                        in_band(v, lo, hi, 8, k as int),
                        hi > lo,
                        8 * (v - lo) >= 6 * (hi - lo),
                ;
            }
        }
    }
    match band {
        Some(0) => ColorName::Stone6,
        Some(2) => ColorName::Stone5,
        Some(3) => ColorName::Stone4,
        Some(4) => ColorName::Stone3,
        Some(5) => ColorName::Stone2,
        _ => ColorName::Void,
    }
}

/// The colour code (a hex string such as `#282828`) of each colour name.
pub struct ColorScheme {
    pub bg: String,
    pub fg: String,
    pub fg0: String,
    pub fg1: String,
    pub fg2: String,
    pub fg3: String,
    pub fg4: String,
    pub gray: String,
    pub light_gray: String,
    pub red: String,
    pub light_red: String,
    pub green: String,
    pub light_green: String,
    pub yellow: String,
    pub light_yellow: String,
    pub blue: String,
    pub light_blue: String,
    pub purple: String,
    pub light_purple: String,
    pub aqua: String,
    pub light_aqua: String,
    pub orange: String,
    pub light_orange: String,
    pub void: String,
    pub stone0: String,
    pub stone1: String,
    pub stone2: String,
    pub stone3: String,
    pub stone4: String,
    pub stone5: String,
    pub stone6: String,
}

impl ColorScheme {
    /// The field of the scheme that holds the code of `c`.
    pub open spec fn code_of(&self, c: ColorName) -> String {
        match c {
            ColorName::Bg => self.bg,
            ColorName::Fg => self.fg,
            ColorName::Fg0 => self.fg0,
            ColorName::Fg1 => self.fg1,
            ColorName::Fg2 => self.fg2,
            ColorName::Fg3 => self.fg3,
            ColorName::Fg4 => self.fg4,
            ColorName::Gray => self.gray,
            ColorName::LightGray => self.light_gray,
            ColorName::Red => self.red,
            ColorName::LightRed => self.light_red,
            ColorName::Green => self.green,
            ColorName::LightGreen => self.light_green,
            ColorName::Yellow => self.yellow,
            ColorName::LightYellow => self.light_yellow,
            ColorName::Blue => self.blue,
            ColorName::LightBlue => self.light_blue,
            ColorName::Purple => self.purple,
            ColorName::LightPurple => self.light_purple,
            ColorName::Aqua => self.aqua,
            ColorName::LightAqua => self.light_aqua,
            ColorName::Orange => self.orange,
            ColorName::LightOrange => self.light_orange,
            ColorName::Void => self.void,
            ColorName::Stone0 => self.stone0,
            ColorName::Stone1 => self.stone1,
            ColorName::Stone2 => self.stone2,
            ColorName::Stone3 => self.stone3,
            ColorName::Stone4 => self.stone4,
            ColorName::Stone5 => self.stone5,
            ColorName::Stone6 => self.stone6,
        }
    }

    /// The colour code that the scheme gives `color_name`.
    pub fn get_color_code(&self, color_name: &ColorName) -> (r: &String)
        ensures
            *r == self.code_of(*color_name),
    {
        match color_name {
            ColorName::Bg => &self.bg,
            ColorName::Fg => &self.fg,
            ColorName::Fg0 => &self.fg0,
            ColorName::Fg1 => &self.fg1,
            ColorName::Fg2 => &self.fg2,
            ColorName::Fg3 => &self.fg3,
            ColorName::Fg4 => &self.fg4,
            ColorName::Gray => &self.gray,
            ColorName::LightGray => &self.light_gray,
            ColorName::Red => &self.red,
            ColorName::LightRed => &self.light_red,
            ColorName::Green => &self.green,
            ColorName::LightGreen => &self.light_green,
            ColorName::Yellow => &self.yellow,
            ColorName::LightYellow => &self.light_yellow,
            ColorName::Blue => &self.blue,
            ColorName::LightBlue => &self.light_blue,
            ColorName::Purple => &self.purple,
            ColorName::LightPurple => &self.light_purple,
            ColorName::Aqua => &self.aqua,
            ColorName::LightAqua => &self.light_aqua,
            ColorName::Orange => &self.orange,
            ColorName::LightOrange => &self.light_orange,
            ColorName::Void => &self.void,
            ColorName::Stone0 => &self.stone0,
            ColorName::Stone1 => &self.stone1,
            ColorName::Stone2 => &self.stone2,
            ColorName::Stone3 => &self.stone3,
            ColorName::Stone4 => &self.stone4,
            ColorName::Stone5 => &self.stone5,
            ColorName::Stone6 => &self.stone6,
        }
    }
}

} // verus!
