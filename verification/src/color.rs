//! Color model of the library: HSV values held as plain integers, so that
//! the effect pipeline and the codec can be reasoned about exactly.
//!
//! Hue is kept in millidegrees (`0 ..= 359_999`); saturation, value and
//! alpha in `0 ..= 255`, where `255` stands for full scale. The conversion
//! to the RGB bytes that the wire protocol carries is the standard HSV
//! sextant formula, computed in fixed point with each channel truncated
//! (not rounded) to `0 ..= 255`.

use vstd::prelude::*;

verus! {

/// One full turn of hue, in millidegrees.
pub const HUE_TURN_MDEG: u32 = 360000;

/// Width of one hue sextant, in millidegrees.
pub const SEXTANT_MDEG: u32 = 60000;

/// Full scale of a channel (`255`) times the width of a sextant: the
/// denominator of the fixed-point middle channel.
pub const CHAN_SCALE: u32 = 15300000;

/// An HSV color with an alpha channel, as the LED state holds it.
#[derive(Clone, Copy, PartialEq, Eq, Structural, Debug)]
pub struct Hsva {
    /// Hue in millidegrees, well-formed when below `HUE_TURN_MDEG`.
    pub hue_mdeg: u32,
    /// Saturation, `255` = fully saturated.
    pub sat: u8,
    /// Value (brightness), `255` = full.
    pub val: u8,
    /// Alpha, `255` = opaque.
    pub alpha: u8,
}

/// An HSV color without alpha, as outbound LED reports carry it.
#[derive(Clone, Copy, PartialEq, Eq, Structural, Debug)]
pub struct Hsv {
    /// Hue in millidegrees, well-formed when below `HUE_TURN_MDEG`.
    pub hue_mdeg: u32,
    /// Saturation, `255` = fully saturated.
    pub sat: u8,
    /// Value (brightness), `255` = full.
    pub val: u8,
}

impl Hsva {
    /// A well-formed color keeps its hue below one full turn.
    pub open spec fn wf(self) -> bool {
        self.hue_mdeg < HUE_TURN_MDEG
    }
}

impl Hsv {
    /// A well-formed color keeps its hue below one full turn.
    pub open spec fn wf(self) -> bool {
        self.hue_mdeg < HUE_TURN_MDEG
    }
}

/// Drops the alpha channel of a color by scaling its value down:
/// the brightness that is actually sent to the device.
pub open spec fn spec_premultiply(c: Hsva) -> Hsv {
    Hsv {
        hue_mdeg: c.hue_mdeg,
        sat: c.sat,
        val: ((c.val * c.alpha) / 255) as u8,
    }
}

/// Folds the alpha channel of a color into its value channel.
pub fn premultiply(c: Hsva) -> (r: Hsv)
    ensures
        r == spec_premultiply(c),
{
    assert((c.val as int) * (c.alpha as int) <= 255 * 255) by (nonlinear_arith)
        requires
            c.val <= 255,
            c.alpha <= 255,
    ;
    let p: u16 = (c.val as u16) * (c.alpha as u16);
    let w: u16 = p / 255;
    assert(w <= 255) by (nonlinear_arith)
        requires
            p <= 255 * 255,
            w == p / 255,
    ;
    Hsv {
        hue_mdeg: c.hue_mdeg,
        sat: c.sat,
        val: w as u8,
    }
}

/// Distance of the hue from the middle of its pair of sextants, in
/// millidegrees: the `|h mod 2 - 1|` term of the standard conversion,
/// scaled by `SEXTANT_MDEG`. Always at most `SEXTANT_MDEG`.
pub open spec fn spec_sextant_dist(hue_mdeg: u32) -> int {
    let t = (hue_mdeg as int) % (2 * (SEXTANT_MDEG as int));
    if t >= SEXTANT_MDEG {
        t - SEXTANT_MDEG
    } else {
        SEXTANT_MDEG - t
    }
}

/// The channel that carries `value * (1 - saturation)`, truncated.
pub open spec fn spec_chan_low(c: Hsv) -> u8 {
    ((c.val * (255 - c.sat)) / 255) as u8
}

/// The channel that ramps between the other two:
/// `value * (1 - saturation * |h mod 2 - 1|)`, truncated.
pub open spec fn spec_chan_mid(c: Hsv) -> u8 {
    ((c.val * (CHAN_SCALE - c.sat * spec_sextant_dist(c.hue_mdeg))) / (CHAN_SCALE as int)) as u8
}

/// The RGB bytes of an HSV color under the standard conversion: the hue
/// picks one of six sextants, which orders the full channel (`value`),
/// the ramp channel and the low channel; each channel is truncated to a
/// byte.
pub open spec fn spec_rgb_of(c: Hsv) -> (u8, u8, u8) {
    let q = c.hue_mdeg / SEXTANT_MDEG;
    let full = c.val;
    let mid = spec_chan_mid(c);
    let low = spec_chan_low(c);
    if q == 0 {
        (full, mid, low)
    } else if q == 1 {
        (mid, full, low)
    } else if q == 2 {
        (low, full, mid)
    } else if q == 3 {
        (low, mid, full)
    } else if q == 4 {
        (mid, low, full)
    } else {
        (full, low, mid)
    }
}

/// Converts an HSV color to the RGB bytes the wire protocol carries.
pub fn hsv_to_rgb(c: &Hsv) -> (r: (u8, u8, u8))
    requires
        c.wf(),
    ensures
        r == spec_rgb_of(*c),
        c.val == 0 ==> r == (0u8, 0u8, 0u8),
{
    let t: u32 = c.hue_mdeg % (2 * SEXTANT_MDEG);
    let d: u32 = if t >= SEXTANT_MDEG {
        t - SEXTANT_MDEG
    } else {
        SEXTANT_MDEG - t
    };
    assert(d == spec_sextant_dist(c.hue_mdeg));
    assert(d <= SEXTANT_MDEG);

    let v: u64 = c.val as u64;
    let s: u64 = c.sat as u64;
    let d64: u64 = d as u64;

    assert(s * d64 <= 255 * (SEXTANT_MDEG as int)) by (nonlinear_arith)
        requires
            s <= 255,
            d64 <= SEXTANT_MDEG as int,
    ;
    let ramp: u64 = (CHAN_SCALE as u64) - s * d64;
    assert(v * ramp <= 255 * (CHAN_SCALE as int)) by (nonlinear_arith)
        requires
            v <= 255,
            ramp <= CHAN_SCALE as int,
    ;
    let mid_w: u64 = (v * ramp) / (CHAN_SCALE as u64);
    assert(mid_w <= 255) by (nonlinear_arith)
        requires
            v * ramp <= 255 * (CHAN_SCALE as int),
            mid_w == (v * ramp) / (CHAN_SCALE as int),
    ;
    let mid: u8 = mid_w as u8;

    let lv: u32 = c.val as u32;
    let ls: u32 = 255 - (c.sat as u32);
    assert(lv * ls <= 255 * 255) by (nonlinear_arith)
        requires
            lv <= 255,
            ls <= 255,
    ;
    let lw: u32 = (lv * ls) / 255;
    assert(lw <= 255) by (nonlinear_arith)
        requires
            lv * ls <= 255 * 255,
            lw == (lv * ls) / 255,
    ;
    let low: u8 = lw as u8;
    let full: u8 = c.val;

    proof {
        if c.val == 0 {
            assert(v * ramp == 0) by (nonlinear_arith)
                requires
                    v == 0,
            ;
            assert(lv * ls == 0) by (nonlinear_arith)
                requires
                    lv == 0,
            ;
        }
    }

    assert(mid == spec_chan_mid(*c));
    assert(low == spec_chan_low(*c));

    let q: u32 = c.hue_mdeg / SEXTANT_MDEG;
    if q == 0 {
        (full, mid, low)
    } else if q == 1 {
        (mid, full, low)
    } else if q == 2 {
        (low, full, mid)
    } else if q == 3 {
        (low, mid, full)
    } else if q == 4 {
        (mid, low, full)
    } else {
        (full, low, mid)
    }
}

} // verus!
