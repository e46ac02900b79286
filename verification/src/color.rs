//! BT.601 colour conversion in exact fixed-point arithmetic.
//!
//! The conversion formulas have coefficients with up to six decimal places,
//! so every intermediate value is kept as an integer count of millionths.
//! Nothing is lost before the one rounding step.

use vstd::prelude::*;

verus! {

/// Millionths in one unit.
pub const SCALE: i64 = 1_000_000;

/// `millionths / 1_000_000` rounded to the nearest integer, halves away from
/// zero.
pub open spec fn round_millionths(millionths: int) -> int {
    if millionths >= 0 {
        (millionths + 500_000) / 1_000_000
    } else {
        -((500_000 - millionths) / 1_000_000)
    }
}

/// `value` limited to the range of a colour channel, `0..=255`.
pub open spec fn clamp_channel(value: int) -> int {
    if value < 0 {
        0
    } else if value > 255 {
        255
    } else {
        value
    }
}

/// The channel value for an exact result of `millionths / 1_000_000`: rounded,
/// then clamped.
pub open spec fn channel(millionths: int) -> int {
    clamp_channel(round_millionths(millionths))
}

/// Red, in millionths: `Y + 1.402 (V - 128)`.
pub open spec fn red_millionths(y: int, v: int) -> int {
    1_000_000 * y + 1_402_000 * (v - 128)
}

/// Green, in millionths: `Y - 0.344136 (U - 128) - 0.714136 (V - 128)`.
pub open spec fn green_millionths(y: int, u: int, v: int) -> int {
    1_000_000 * y - 344_136 * (u - 128) - 714_136 * (v - 128)
}

/// Blue, in millionths: `Y + 1.772 (U - 128)`.
pub open spec fn blue_millionths(y: int, u: int) -> int {
    1_000_000 * y + 1_772_000 * (u - 128)
}

/// The RGB triple of one luma sample and the chroma pair it shares.
pub open spec fn rgb_of(y: u8, u: u8, v: u8) -> Seq<u8> {
    seq![
        channel(red_millionths(y as int, v as int)) as u8,
        channel(green_millionths(y as int, u as int, v as int)) as u8,
        channel(blue_millionths(y as int, u as int)) as u8,
    ]
}

/// Rounds a value given in millionths to the nearest integer, halves away
/// from zero, and limits it to `0..=255`.
pub fn clamp(millionths: i64) -> (c: u8)
    ensures
        c == channel(millionths as int),
{
    if millionths <= 0 {
        0
    } else if millionths >= 254_500_000 {
        255
    } else {
        ((millionths + 500_000) / SCALE) as u8
    }
}

/// Converts one luma sample with its chroma pair to RGB by the full-range
/// BT.601 formulas, each channel rounded and clamped on its own.
pub fn yuv_to_rgb(y: u8, u: u8, v: u8) -> (rgb: [u8; 3])
    ensures
        rgb@ == rgb_of(y, u, v),
{
    let luma: i64 = y as i64 * SCALE;
    let cb: i64 = u as i64 - 128;
    let cr: i64 = v as i64 - 128;
    let r = clamp(luma + 1_402_000 * cr);
    let g = clamp(luma - 344_136 * cb - 714_136 * cr);
    let b = clamp(luma + 1_772_000 * cb);
    let rgb = [r, g, b];
    assert(rgb@ =~= rgb_of(y, u, v));
    rgb
}

/// A sample with neutral chroma converts to the gray of the same level.
pub proof fn lemma_neutral_chroma_is_gray(y: u8)
    ensures
        rgb_of(y, 128, 128) == seq![y, y, y],
{
    assert(rgb_of(y, 128, 128) =~= seq![y, y, y]);
}

} // verus!
