//! The chart polyline: each channel's sample ring normalized by its own
//! running maximum and mapped into output coordinates.
//!
//! Coordinates are in tenths of an output unit, the resolution the display
//! path is written with.  The vertical axis is inverted: larger samples draw
//! higher, and the display's origin sits at the top.  The first vertex of
//! the polyline is the move-to point; every later vertex is a line-to point.

use vstd::arithmetic::div_mod::{
    lemma_div_is_ordered, lemma_div_is_ordered_by_denominator, lemma_div_multiples_vanish,
};
use vstd::arithmetic::mul::lemma_mul_inequality;
use vstd::prelude::*;
use vstd::slice::slice_index_get;

verus! {

/// One polyline vertex, in tenths of an output unit.
#[derive(Clone, Copy, PartialEq, Eq, Structural, Debug)]
pub struct ChartPoint {
    pub x_tenths: u64,
    pub y_tenths: i64,
}

/// The largest sample, floored at zero.
pub open spec fn seq_max(s: Seq<i64>) -> int
    decreases s.len(),
{
    if s.len() == 0 {
        0
    } else {
        let m = seq_max(s.drop_last());
        if s.last() > m {
            s.last() as int
        } else {
            m
        }
    }
}

/// The normalization divisor: the running maximum, floored at one whole
/// unit so an all-zero ring still divides cleanly, then widened by a tenth
/// to leave headroom at the top of the chart.
pub open spec fn chart_scale(s: Seq<i64>) -> int {
    let m = if seq_max(s) < 1_000_000 {
        1_000_000
    } else {
        seq_max(s)
    };
    m * 11 / 10
}

/// The horizontal position of sample `i` among `n`, spread over the chart
/// width; a single sample sits at the left edge.
pub open spec fn chart_x(i: int, n: int, width_tenths: int) -> int {
    if n <= 1 {
        0
    } else {
        i * width_tenths / (n - 1)
    }
}

/// The vertical position of a sample: its height fraction of the chart,
/// inverted because the display's origin is at the top.
pub open spec fn chart_y(val: int, scale: int, height_tenths: int) -> int {
    let scaled = if val >= 0 {
        val * height_tenths / scale
    } else {
        -((-val) * height_tenths / scale)
    };
    height_tenths - scaled
}

/// The height fraction of a sample magnitude, bounded well inside the
/// machine word because the scale always exceeds the height.
fn scale_magnitude(mag: i128, height_tenths: u64, scale: i128) -> (r: i128)
    requires
        0 <= mag <= 9_223_372_036_854_775_808i128,
        height_tenths <= 1_000_000,
        scale >= 1_100_000,
    ensures
        r == mag * (height_tenths as int) / (scale as int),
        0 <= r < 8_400_000_000_000_000_000,
{
    proof {
        lemma_mul_inequality(0, mag as int, height_tenths as int);
        lemma_mul_inequality(mag as int, 9_223_372_036_854_775_808, height_tenths as int);
        assert(9_223_372_036_854_775_808 * (height_tenths as int) <= 9_223_372_036_854_775_808
            * 1_000_000);
    }
    let p: i128 = mag * (height_tenths as i128);
    proof {
        lemma_div_is_ordered(0, p as int, scale as int);
        lemma_div_is_ordered_by_denominator(p as int, 1_100_000, scale as int);
        lemma_div_is_ordered(p as int, 9_223_372_036_854_775_808_000_000, 1_100_000);
        assert(9_223_372_036_854_775_808_000_000int / 1_100_000 < 8_400_000_000_000_000_000);
    }
    p / scale
}

/// Map one channel's samples, oldest first, to its polyline vertices.
///
/// Width and height are display coordinates in tenths of a unit; they are
/// bounded so every vertex fits its machine word.
pub fn chart_points(samples: &[i64], width_tenths: u64, height_tenths: u64) -> (pts: Vec<
    ChartPoint,
>)
    requires
        width_tenths <= 1_000_000,
        height_tenths <= 1_000_000,
    ensures
        pts@.len() == samples@.len(),
        forall|i: int|
            0 <= i < samples@.len() ==> (#[trigger] pts@[i]).x_tenths as int == chart_x(
                i,
                samples@.len() as int,
                width_tenths as int,
            ),
        forall|i: int|
            0 <= i < samples@.len() ==> (#[trigger] pts@[i]).y_tenths as int == chart_y(
                samples@[i] as int,
                chart_scale(samples@),
                height_tenths as int,
            ),
{
    let n = samples.len();
    let mut m: i64 = 0;
    let mut k: usize = 0;
    while k < n
        invariant
            k <= n,
            n == samples@.len(),
            m as int == seq_max(samples@.take(k as int)),
        decreases n - k,
    {
        let s = *slice_index_get(samples, k);
        proof {
            assert(samples@.take(k + 1).drop_last() =~= samples@.take(k as int));
            assert(samples@.take(k + 1).last() == samples@[k as int]);
        }
        if s > m {
            m = s;
        }
        k = k + 1;
    }
    proof {
        assert(samples@.take(n as int) =~= samples@);
    }
    let floored: i64 = if m < 1_000_000 {
        1_000_000
    } else {
        m
    };
    let scale: i128 = (floored as i128) * 11 / 10;
    proof {
        assert(scale as int == chart_scale(samples@));
        assert(scale >= 1_100_000);
    }
    let mut pts: Vec<ChartPoint> = Vec::new();
    let mut i: usize = 0;
    while i < n
        invariant
            i <= n,
            n == samples@.len(),
            width_tenths <= 1_000_000,
            height_tenths <= 1_000_000,
            scale as int == chart_scale(samples@),
            scale >= 1_100_000,
            pts@.len() == i,
            forall|j: int|
                0 <= j < i ==> (#[trigger] pts@[j]).x_tenths as int == chart_x(
                    j,
                    n as int,
                    width_tenths as int,
                ),
            forall|j: int|
                0 <= j < i ==> (#[trigger] pts@[j]).y_tenths as int == chart_y(
                    samples@[j] as int,
                    chart_scale(samples@),
                    height_tenths as int,
                ),
        decreases n - i,
    {
        let x: u64 = if n <= 1 {
            0
        } else {
            proof {
                lemma_mul_inequality(i as int, n - 1, width_tenths as int);
                lemma_mul_inequality(width_tenths as int, 1_000_000, n - 1);
                assert((i as int) * (width_tenths as int) <= (n - 1) * (width_tenths as int));
                assert((n - 1) * (width_tenths as int) == (width_tenths as int) * (n - 1))
                    by (nonlinear_arith);
            }
            let xi: u128 = (i as u128) * (width_tenths as u128) / ((n - 1) as u128);
            proof {
                lemma_div_is_ordered(
                    (i as int) * (width_tenths as int),
                    (width_tenths as int) * (n - 1),
                    n - 1,
                );
                lemma_div_multiples_vanish(width_tenths as int, n - 1);
                assert((n - 1) * (width_tenths as int) / (n - 1) == width_tenths as int);
                assert(xi as int <= width_tenths as int);
            }
            xi as u64
        };
        let val = *slice_index_get(samples, i);
        let y: i64 = if val >= 0 {
            let scaled = scale_magnitude(val as i128, height_tenths, scale);
            (height_tenths as i64) - (scaled as i64)
        } else {
            let scaled = scale_magnitude(-(val as i128), height_tenths, scale);
            (height_tenths as i64) + (scaled as i64)
        };
        pts.push(ChartPoint { x_tenths: x, y_tenths: y });
        i = i + 1;
    }
    pts
}

} // verus!
