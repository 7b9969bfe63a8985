//! Scaling of sample points onto a rectangular plot area.
//!
//! The samples' own extent (smallest and largest value in each direction) is
//! stretched over the area. Quotients are rounded toward zero. Rows grow
//! downward on the display, so larger `y` values map to smaller rows.

use vstd::prelude::*;

verus! {

/// The smallest of `values`, or `i32::MAX` when there are none.
pub open spec fn lowest(values: Seq<int>) -> int
    decreases values.len(),
{
    if values.len() == 0 {
        i32::MAX as int
    } else if values.last() < lowest(values.drop_last()) {
        values.last()
    } else {
        lowest(values.drop_last())
    }
}

/// The largest of `values`, or `i32::MIN` when there are none.
pub open spec fn highest(values: Seq<int>) -> int
    decreases values.len(),
{
    if values.len() == 0 {
        i32::MIN as int
    } else if values.last() > highest(values.drop_last()) {
        values.last()
    } else {
        highest(values.drop_last())
    }
}

/// The horizontal coordinates of `points`.
pub open spec fn xs(points: Seq<(i32, i32)>) -> Seq<int> {
    Seq::new(points.len(), |i: int| points[i].0 as int)
}

/// The vertical coordinates of `points`.
pub open spec fn ys(points: Seq<(i32, i32)>) -> Seq<int> {
    Seq::new(points.len(), |i: int| points[i].1 as int)
}

/// `a / b` rounded toward zero, for a positive `b`.
pub open spec fn toward_zero(a: int, b: int) -> int
    recommends
        b > 0,
{
    if a >= 0 {
        a / b
    } else {
        -((-a) / b)
    }
}

/// How far into a span of signed length `extent` the value `v` of the range
/// `low ..= high` falls; the middle of the span when the range is a single
/// value.
pub open spec fn span_offset(v: int, low: int, high: int, extent: int) -> int {
    if high != low {
        toward_zero((v - low) * extent, high - low)
    } else {
        toward_zero(extent, 2)
    }
}

/// Where `p`, one of `points`, lands in the plot area
/// `(x_min, y_min, x_max, y_max)`.
pub open spec fn scaled_point(p: (i32, i32), points: Seq<(i32, i32)>, area: (i32, i32, i32, i32)) -> (
    int,
    int,
) {
    let x = area.0 + span_offset(
        p.0 as int,
        lowest(xs(points)),
        highest(xs(points)),
        area.2 - area.0,
    );
    let dy = span_offset(p.1 as int, lowest(ys(points)), highest(ys(points)), area.3 - area.1);
    let y = if highest(ys(points)) != lowest(ys(points)) {
        area.3 - dy
    } else {
        area.1 + dy
    };
    (x, y)
}

/// All of `points` scaled onto `area`, in order.
pub open spec fn scaled_points(points: Seq<(i32, i32)>, area: (i32, i32, i32, i32)) -> Seq<
    (int, int),
> {
    Seq::new(points.len(), |i: int| scaled_point(points[i], points, area))
}

/// Whether `v` lies between `a` and `b`, whichever of the two is larger.
pub open spec fn between(v: int, a: int, b: int) -> bool {
    (a <= v <= b) || (b <= v <= a)
}

/// Every value lies between the lowest and the highest.
pub proof fn lemma_extent_bounds(values: Seq<int>, i: int)
    requires
        0 <= i < values.len(),
    ensures
        lowest(values) <= values[i] <= highest(values),
    decreases values.len(),
{
    if i < values.len() - 1 {
        lemma_extent_bounds(values.drop_last(), i);
    }
}

/// Every scaled point lies inside the plot area, whichever way round its
/// corners are given.
pub proof fn lemma_scaled_within(points: Seq<(i32, i32)>, area: (i32, i32, i32, i32), i: int)
    requires
        0 <= i < points.len(),
    ensures
        between(scaled_points(points, area)[i].0, area.0 as int, area.2 as int),
        between(scaled_points(points, area)[i].1, area.1 as int, area.3 as int),
{
    lemma_extent_bounds(xs(points), i);
    lemma_extent_bounds(ys(points), i);
    lemma_span_offset_bounds(
        points[i].0 as int,
        lowest(xs(points)),
        highest(xs(points)),
        area.2 - area.0,
    );
    lemma_span_offset_bounds(
        points[i].1 as int,
        lowest(ys(points)),
        highest(ys(points)),
        area.3 - area.1,
    );
}

/// An offset never leaves its span.
pub proof fn lemma_span_offset_bounds(v: int, low: int, high: int, extent: int)
    requires
        low <= v <= high,
    ensures
        between(span_offset(v, low, high, extent), 0, extent),
{
    let magnitude = if extent >= 0 {
        extent
    } else {
        -extent
    };
    if high != low {
        let dv = v - low;
        let range = high - low;
        assert(0 <= (dv * magnitude) / range <= magnitude) by (nonlinear_arith)
            requires
                0 <= dv <= range,
                range > 0,
                magnitude >= 0,
        ;
        if extent >= 0 {
            assert(dv * extent >= 0) by (nonlinear_arith)
                requires
                    dv >= 0,
                    extent >= 0,
            ;
        } else {
            assert(dv * extent == -(dv * magnitude) && dv * magnitude >= 0) by (nonlinear_arith)
                requires
                    dv >= 0,
                    magnitude == -extent,
                    magnitude >= 0,
            ;
        }
    }
}

/// The ends of a range land on the ends of the span.
pub proof fn lemma_span_offset_ends(low: int, high: int, extent: int)
    requires
        low < high,
    ensures
        span_offset(low, low, high, extent) == 0,
        span_offset(high, low, high, extent) == extent,
{
    let range = high - low;
    assert((low - low) * extent == 0) by (nonlinear_arith);
    assert(0int / range == 0) by (nonlinear_arith)
        requires
            range > 0,
    ;
    if extent >= 0 {
        assert(range * extent >= 0 && (range * extent) / range == extent) by (nonlinear_arith)
            requires
                range > 0,
                extent >= 0,
        ;
    } else {
        assert(range * extent < 0 && (-(range * extent)) / range == -extent) by (nonlinear_arith)
            requires
                range > 0,
                extent < 0,
        ;
    }
}

/// Computes `span_offset` without leaving 64 bits.
pub fn offset_in_span(v: i32, low: i32, high: i32, extent: i64) -> (offset: i64)
    requires
        low <= v <= high,
        -(u32::MAX as int) <= extent <= u32::MAX,
    ensures
        offset == span_offset(v as int, low as int, high as int, extent as int),
        between(offset as int, 0, extent as int),
{
    let magnitude: u64 = if extent >= 0 {
        extent as u64
    } else {
        (-extent) as u64
    };
    proof {
        lemma_span_offset_bounds(v as int, low as int, high as int, extent as int);
    }
    let quotient: u64 = if high != low {
        let dv: u64 = (v as i64 - low as i64) as u64;
        let range: u64 = (high as i64 - low as i64) as u64;
        assert(dv * magnitude <= u64::MAX && 0 <= (dv * magnitude) / (range as int) <= magnitude)
            by (nonlinear_arith)
            requires
                0 <= dv <= range,
                range > 0,
                range <= u32::MAX,
                0 <= magnitude <= u32::MAX,
        ;
        proof {
            if extent < 0 {
                assert(dv * extent == -(dv * magnitude) && dv * magnitude >= 0)
                    by (nonlinear_arith)
                    requires
                        dv >= 0,
                        magnitude == -extent,
                        magnitude >= 0,
                ;
            } else {
                assert(dv * extent >= 0) by (nonlinear_arith)
                    requires
                        dv >= 0,
                        extent >= 0,
                ;
            }
        }
        (dv * magnitude) / range
    } else {
        magnitude / 2
    };
    if extent >= 0 {
        quotient as i64
    } else {
        -(quotient as i64)
    }
}

} // verus!
