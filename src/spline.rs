//! The sampling schedule of a spline through any number of points.
//!
//! A spline through `n` points is a chain of `n - 3` overlapping windows of
//! four consecutive points. Each window is a Catmull-Rom curve whose middle
//! segment runs between its two inner points; the chain also samples the
//! first window's first segment and the last window's last segment, so that
//! the curve reaches the first and last points.
use vstd::arithmetic::div_mod::lemma_fundamental_div_mod_converse;
use vstd::prelude::*;

verus! {

/// Which segment of the spline to look at.
/// Whenever possible, use the middle segment.
#[derive(Clone, Copy, PartialEq, Eq, Structural, Debug)]
pub enum Segment {
    First,
    Middle,
    Last,
}

pub open spec fn segment_index(s: Segment) -> nat {
    match s {
        Segment::First => 0,
        Segment::Middle => 1,
        Segment::Last => 2,
    }
}

impl Segment {
    /// The index of the segment's starting knot within its window.
    pub fn index(&self) -> (r: usize)
        ensures
            r == segment_index(*self),
    {
        match *self {
            Segment::First => 0,
            Segment::Middle => 1,
            Segment::Last => 2,
        }
    }
}

/// One sample of a spline: in window `window` (which starts at point `window`),
/// along `segment`, at the fraction `step / resolution` of that segment.
/// `step == resolution` is the end of the segment.
#[derive(Clone, Copy, PartialEq, Eq, Structural, Debug)]
pub struct SamplePoint {
    pub window: usize,
    pub segment: Segment,
    pub step: usize,
}

/// The number of samples of a spline through `n` points: `resolution` for
/// each of the `n - 1` segments between consecutive points, plus the last point.
pub open spec fn plan_len(n: int, resolution: int) -> int {
    resolution * (n - 1) + 1
}

/// The `idx`th sample of a spline through `n` points: first the first window's
/// first segment, then each window's middle segment in order, then the last
/// window's last segment including its end.
pub open spec fn plan_at(n: int, resolution: int, idx: int) -> SamplePoint {
    if idx < resolution {
        SamplePoint { window: 0, segment: Segment::First, step: idx as usize }
    } else if idx < resolution + resolution * (n - 3) {
        let m = idx - resolution;
        SamplePoint {
            window: (m / resolution) as usize,
            segment: Segment::Middle,
            step: (m % resolution) as usize,
        }
    } else {
        SamplePoint {
            window: (n - 4) as usize,
            segment: Segment::Last,
            step: (idx - resolution - resolution * (n - 3)) as usize,
        }
    }
}

/// The input point that a sample lies on, where it lies on a knot: the start
/// of its segment at step 0, the end at the last step.
pub open spec fn knot_point(s: SamplePoint, resolution: int) -> Option<int> {
    if s.step == resolution {
        Some(s.window + segment_index(s.segment) + 1)
    } else if s.step == 0 {
        Some(s.window + segment_index(s.segment))
    } else {
        None
    }
}

/// The samples to take, in order, for a spline through `n` points.
pub fn sample_plan(n: usize, resolution: usize) -> (r: Vec<SamplePoint>)
    requires
        n >= 4,
        plan_len(n as int, resolution as int) <= usize::MAX,
    ensures
        r@.len() == plan_len(n as int, resolution as int),
        forall|idx: int|
            0 <= idx < r@.len() ==> #[trigger] r@[idx] == plan_at(n as int, resolution as int, idx),
{
    let ghost res = resolution as int;
    let mut out: Vec<SamplePoint> = Vec::new();
    let mut k: usize = 0;
    while k < resolution
        invariant
            res == resolution,
            k <= resolution,
            out@.len() == k,
            forall|idx: int|
                0 <= idx < out@.len() ==> #[trigger] out@[idx] == plan_at(n as int, res, idx),
        decreases resolution - k,
    {
        out.push(SamplePoint { window: 0, segment: Segment::First, step: k });
        k = k + 1;
    }
    let mut w: usize = 0;
    while w < n - 3
        invariant
            res == resolution,
            n >= 4,
            w <= n - 3,
            out@.len() == res + res * w,
            forall|idx: int|
                0 <= idx < out@.len() ==> #[trigger] out@[idx] == plan_at(n as int, res, idx),
        decreases n - 3 - w,
    {
        let mut k: usize = 0;
        while k < resolution
            invariant
                res == resolution,
                n >= 4,
                w < n - 3,
                k <= resolution,
                out@.len() == res + res * w + k,
                forall|idx: int|
                    0 <= idx < out@.len() ==> #[trigger] out@[idx] == plan_at(n as int, res, idx),
            decreases resolution - k,
        {
            proof {
                let m = res * w + k;
                assert(m == w * res + k) by (nonlinear_arith)
                    requires
                        m == res * w + k,
                ;
                lemma_fundamental_div_mod_converse(m, res, w as int, k as int);
                assert(res * w + k < res * (n - 3)) by (nonlinear_arith)
                    requires
                        k < res,
                        w + 1 <= n - 3,
                ;
                assert(res * w >= 0) by (nonlinear_arith)
                    requires
                        res >= 0,
                        w >= 0,
                ;
            }
            out.push(SamplePoint { window: w, segment: Segment::Middle, step: k });
            k = k + 1;
        }
        assert(res + res * w + res == res + res * (w + 1)) by (nonlinear_arith);
        w = w + 1;
    }
    let mut k: usize = 0;
    while k <= resolution
        invariant
            res == resolution,
            plan_len(n as int, res) <= usize::MAX,
            n >= 4,
            k <= resolution + 1,
            out@.len() == res + res * (n - 3) + k,
            forall|idx: int|
                0 <= idx < out@.len() ==> #[trigger] out@[idx] == plan_at(n as int, res, idx),
        decreases resolution + 1 - k,
    {
        assert(res * (n - 3) >= 0 && res * (n - 1) >= res * 3) by (nonlinear_arith)
            requires
                n >= 4,
                res >= 0,
        ;
        out.push(SamplePoint { window: n - 4, segment: Segment::Last, step: k });
        k = k + 1;
    }
    assert(res + res * (n - 3) + res + 1 == plan_len(n as int, res)) by (nonlinear_arith);
    out
}

/// A spline through `n` distinct points at resolution `resolution` has
/// `resolution * (n - 1) + 1` samples; the first lies on the first point
/// and the last on the last point.
pub proof fn lemma_sample_count(n: int, resolution: int)
    requires
        n >= 4,
        resolution >= 1,
        plan_len(n, resolution) <= usize::MAX,
    ensures
        plan_len(n, resolution) == resolution * (n - 1) + 1,
        knot_point(plan_at(n, resolution, 0), resolution) == Some(0int),
        knot_point(plan_at(n, resolution, plan_len(n, resolution) - 1), resolution) == Some(
            n - 1,
        ),
{
    assert(resolution * (n - 1) == resolution + resolution * (n - 3) + resolution)
        by (nonlinear_arith);
    assert(resolution * (n - 1) >= n - 1) by (nonlinear_arith)
        requires
            n >= 4,
            resolution >= 1,
    ;
    assert(resolution * (n - 3) >= 0) by (nonlinear_arith)
        requires
            n >= 4,
            resolution >= 1,
    ;
}

} // verus!
