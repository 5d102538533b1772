//! How alike two mosaics are.
//!
//! Two mosaics of one size are compared pixel by pixel. The distance of two
//! pixels is the Euclidean distance of their colours, between 0 and the
//! distance of black and white. The similarity of the mosaics is 1 minus the
//! mean distance of their pixels as a fraction of that largest distance.
//!
//! All of it is computed in integers. Distances count millionths of one
//! channel step and are rounded down; the score counts millionths and is the
//! mean's fraction rounded down, taken from one million.

use vstd::prelude::*;
use crate::limits::SCORE_ONE;
use crate::mosaic::{Mosaic, MosaicView};
use crate::root::{
    floor_sqrt, integer_sqrt, is_floor_sqrt, lemma_floor_sqrt_exists, lemma_floor_sqrt_is,
    lemma_square_monotonic,
};

verus! {

/// The square of the largest distance of two pixels: three channels that
/// differ by 255 each.
pub const MAX_DISTANCE_SQUARED: u64 = 195_075;

/// Distances count millionths, so squared distances are scaled by the
/// square of one million before the root is taken.
pub const DISTANCE_SCALE_SQUARED: u64 = 1_000_000_000_000;

/// The largest distance of two pixels, in millionths of a channel step.
pub const MAX_DISTANCE: u64 = 441_672_955;

/// Two mosaics of different size were compared.
#[derive(Clone, Copy, Debug, PartialEq, Eq, Structural)]
pub struct DimensionMismatch {
    /// The side of the first mosaic.
    pub left: u32,
    /// The side of the second mosaic.
    pub right: u32,
}

/// The squared difference of two channel values.
pub open spec fn channel_gap(a: u8, b: u8) -> int {
    (a - b) * (a - b)
}

/// The squared distance of the pixels at position `pixel` of `a` and `b`.
pub open spec fn distance_squared(a: Seq<u8>, b: Seq<u8>, pixel: int) -> int {
    channel_gap(a[3 * pixel], b[3 * pixel]) + channel_gap(a[3 * pixel + 1], b[3 * pixel + 1])
        + channel_gap(a[3 * pixel + 2], b[3 * pixel + 2])
}

/// The distance of the pixels at position `pixel` of `a` and `b`, in
/// millionths of a channel step, rounded down.
pub open spec fn distance(a: Seq<u8>, b: Seq<u8>, pixel: int) -> int {
    floor_sqrt(distance_squared(a, b, pixel) * DISTANCE_SCALE_SQUARED)
}

/// The sum of the distances of the first `pixels` pixels of `a` and `b`.
pub open spec fn total_distance(a: Seq<u8>, b: Seq<u8>, pixels: int) -> int
    decreases pixels,
{
    if pixels <= 0 {
        0
    } else {
        total_distance(a, b, pixels - 1) + distance(a, b, pixels - 1)
    }
}

/// The similarity of two mosaics of one size, in millionths: one million
/// less the mean distance of their pixels as a fraction of the largest
/// distance.
pub open spec fn similarity(a: MosaicView, b: MosaicView) -> int {
    SCORE_ONE - (total_distance(a.data, b.data, a.pixels()) * SCORE_ONE) / (a.pixels()
        * MAX_DISTANCE)
}

/// The gap of two channel values is the same from either side.
pub proof fn lemma_channel_gap(a: u8, b: u8)
    ensures
        channel_gap(a, b) == channel_gap(b, a),
        0 <= channel_gap(a, b) <= 255 * 255,
        channel_gap(a, a) == 0,
{
    assert((a - b) * (a - b) == (b - a) * (b - a)) by (nonlinear_arith);
    if a >= b {
        lemma_square_monotonic(0, a - b);
        lemma_square_monotonic(a - b, 255);
    } else {
        lemma_square_monotonic(0, b - a);
        lemma_square_monotonic(b - a, 255);
    }
}

/// The squared distance of two pixels is the same from either side and at
/// most that of black and white.
pub proof fn lemma_distance_squared(a: Seq<u8>, b: Seq<u8>, pixel: int)
    ensures
        distance_squared(a, b, pixel) == distance_squared(b, a, pixel),
        0 <= distance_squared(a, b, pixel) <= MAX_DISTANCE_SQUARED,
        distance_squared(a, a, pixel) == 0,
{
    lemma_channel_gap(a[3 * pixel], b[3 * pixel]);
    lemma_channel_gap(a[3 * pixel + 1], b[3 * pixel + 1]);
    lemma_channel_gap(a[3 * pixel + 2], b[3 * pixel + 2]);
    lemma_channel_gap(a[3 * pixel], a[3 * pixel]);
    lemma_channel_gap(a[3 * pixel + 1], a[3 * pixel + 1]);
    lemma_channel_gap(a[3 * pixel + 2], a[3 * pixel + 2]);
}

/// The scaled root of a squared distance lies between 0 and `MAX_DISTANCE`.
pub proof fn lemma_scaled_root_bounded(squared: int, root: int)
    requires
        0 <= squared <= MAX_DISTANCE_SQUARED,
        is_floor_sqrt(squared * DISTANCE_SCALE_SQUARED, root),
    ensures
        0 <= root <= MAX_DISTANCE,
{
    if root > MAX_DISTANCE {
        lemma_square_monotonic(MAX_DISTANCE + 1, root);
    }
}

/// The distance of two pixels is the same from either side, lies between 0
/// and `MAX_DISTANCE`, and is 0 for a pixel and itself.
pub proof fn lemma_distance(a: Seq<u8>, b: Seq<u8>, pixel: int)
    ensures
        distance(a, b, pixel) == distance(b, a, pixel),
        0 <= distance(a, b, pixel) <= MAX_DISTANCE,
        is_floor_sqrt(distance_squared(a, b, pixel) * DISTANCE_SCALE_SQUARED, distance(a, b, pixel)),
        distance(a, a, pixel) == 0,
{
    lemma_distance_squared(a, b, pixel);
    let squared = distance_squared(a, b, pixel);
    let scaled = squared * DISTANCE_SCALE_SQUARED;
    lemma_floor_sqrt_exists(scaled);
    lemma_scaled_root_bounded(squared, floor_sqrt(scaled));
    lemma_floor_sqrt_is(0, 0);
}

/// The total distance is the same from either side and at most
/// `MAX_DISTANCE` for each pixel.
pub proof fn lemma_total_distance(a: Seq<u8>, b: Seq<u8>, pixels: int)
    requires
        0 <= pixels,
    ensures
        total_distance(a, b, pixels) == total_distance(b, a, pixels),
        0 <= total_distance(a, b, pixels) <= pixels * MAX_DISTANCE,
        total_distance(a, a, pixels) == 0,
    decreases pixels,
{
    if pixels > 0 {
        lemma_total_distance(a, b, pixels - 1);
        lemma_distance(a, b, pixels - 1);
    }
}

/// A mosaic is as similar to itself as can be.
pub proof fn lemma_similarity_reflexive(a: MosaicView)
    requires
        a.wf(),
    ensures
        similarity(a, a) == SCORE_ONE,
{
    lemma_total_distance(a.data, a.data, a.pixels());
    lemma_pixels(a);
}

/// The similarity of two mosaics does not depend on their order.
pub proof fn lemma_similarity_symmetric(a: MosaicView, b: MosaicView)
    requires
        a.wf(),
        b.wf(),
        a.side == b.side,
    ensures
        similarity(a, b) == similarity(b, a),
{
    lemma_pixels(a);
    lemma_total_distance(a.data, b.data, a.pixels());
}

/// The similarity of two mosaics lies between nothing and one.
pub proof fn lemma_similarity_bounded(a: MosaicView, b: MosaicView)
    requires
        a.wf(),
        b.wf(),
        a.side == b.side,
    ensures
        0 <= similarity(a, b) <= SCORE_ONE,
{
    lemma_pixels(a);
    lemma_total_distance(a.data, b.data, a.pixels());
    lemma_fraction_bounded(
        total_distance(a.data, b.data, a.pixels()),
        a.pixels() * MAX_DISTANCE,
        SCORE_ONE as int,
    );
}

/// A mosaic has between 4 and 144 pixels.
pub proof fn lemma_pixels(a: MosaicView)
    requires
        a.wf(),
    ensures
        4 <= a.pixels() <= 144,
        a.data.len() == 3 * a.pixels(),
{
    let side = a.side as int;
    assert(4 <= side * side <= 144) by (nonlinear_arith)
        requires
            2 <= side <= 12,
    ;
    assert(3 * side * side == 3 * (side * side)) by (nonlinear_arith);
}

/// A part of a whole, scaled to `scale`, lies between 0 and `scale`.
pub proof fn lemma_fraction_bounded(part: int, whole: int, scale: int)
    requires
        0 <= part <= whole,
        0 < whole,
        0 <= scale,
    ensures
        0 <= (part * scale) / whole <= scale,
{
    assert(0 <= part * scale <= whole * scale) by (nonlinear_arith)
        requires
            0 <= part <= whole,
            0 <= scale,
    ;
    assert((part * scale) / whole <= scale) by (nonlinear_arith)
        requires
            0 <= part * scale <= whole * scale,
            0 < whole,
    ;
    assert(0 <= (part * scale) / whole) by (nonlinear_arith)
        requires
            0 <= part * scale,
            0 < whole,
    ;
}

/// The squared difference of two channel values.
fn squared_gap(a: u8, b: u8) -> (gap: u64)
    ensures
        gap == channel_gap(a, b),
        gap <= 255 * 255,
{
    proof {
        lemma_channel_gap(a, b);
    }
    let gap: u64 = if a >= b {
        (a - b) as u64
    } else {
        (b - a) as u64
    };
    assert(gap * gap == channel_gap(a, b)) by (nonlinear_arith)
        requires
            gap == a - b || gap == b - a,
    ;
    gap * gap
}

/// Scores how alike two mosaics are, in millionths: `SCORE_ONE` for
/// identical mosaics, less the further their pixels lie apart. Mosaics of
/// different size cannot be compared, which is reported.
pub fn compare_mosaics(mos1: &Mosaic, mos2: &Mosaic) -> (result: Result<u32, DimensionMismatch>)
    ensures
        match result {
            Ok(score) => {
                &&& mos1@.side == mos2@.side
                &&& score == similarity(mos1@, mos2@)
                &&& score <= SCORE_ONE
                &&& mos1@ == mos2@ ==> score == SCORE_ONE
            },
            Err(mismatch) => {
                &&& mos1@.side != mos2@.side
                &&& mismatch.left == mos1@.side
                &&& mismatch.right == mos2@.side
            },
        },
{
    let side: u32 = mos1.side();
    if side != mos2.side() {
        return Err(DimensionMismatch { left: side, right: mos2.side() });
    }
    let a = mos1.data();
    let b = mos2.data();
    proof {
        lemma_pixels(mos1@);
        lemma_pixels(mos2@);
    }
    let pixel_count: usize = (side * side) as usize;
    let mut total: u64 = 0;
    let mut pixel: usize = 0;
    while pixel < pixel_count
        invariant
            pixel <= pixel_count <= 144,
            a@.len() == 3 * pixel_count,
            b@.len() == 3 * pixel_count,
            total == total_distance(a@, b@, pixel as int),
            total <= pixel * MAX_DISTANCE,
        decreases pixel_count - pixel,
    {
        let at: usize = 3 * pixel;
        let squared: u64 = squared_gap(a[at], b[at]) + squared_gap(a[at + 1], b[at + 1]) + squared_gap(
            a[at + 2],
            b[at + 2],
        );
        let root: u64 = integer_sqrt(squared * DISTANCE_SCALE_SQUARED);
        proof {
            lemma_scaled_root_bounded(squared as int, root as int);
        }
        total = total + root;
        pixel += 1;
    }
    proof {
        lemma_similarity_bounded(mos1@, mos2@);
        lemma_similarity_reflexive(mos1@);
    }
    let whole: u64 = pixel_count as u64 * MAX_DISTANCE;
    let off: u64 = (total * SCORE_ONE as u64) / whole;
    Ok((SCORE_ONE as u64 - off) as u32)
}

} // verus!
