//! Assembling each station's reference points from the measurement tables.
//!
//! Measurements are exact multiples of an eighth of an inch, so the points of
//! a station are gathered, ordered by height and cleared of near-duplicates
//! here without rounding.
use vstd::prelude::*;

use crate::error::LapstrakeError;
use crate::spec::{has_column, measurement, BreadthLine, DataRow, HeightLine, Spec};
use crate::unit::Feet;

verus! {

/// A measured point on a station: fore-aft position, half-breadth from the
/// centerline, and height above the base.
#[derive(Clone, Copy, PartialEq, Eq, Structural, Debug)]
pub struct RefPoint {
    pub position: Feet,
    pub breadth: Feet,
    pub height: Feet,
}

/// The points given by the height table at station `i`, from row `k` on:
/// one for each buttock line with a measured height.
pub open spec fn height_points(rows: Seq<DataRow<BreadthLine>>, i: int, posn: Feet, k: int) -> Seq<
    RefPoint,
>
    decreases rows.len() - k,
{
    if k < 0 || k >= rows.len() {
        seq![]
    } else {
        let rest = height_points(rows, i, posn, k + 1);
        match (rows[k].0, rows[k].1@[i]) {
            (BreadthLine::ButOut(b), Some(h)) => seq![
                RefPoint { position: posn, breadth: b, height: h },
            ] + rest,
            _ => rest,
        }
    }
}

/// The points given by the breadth table at station `i`, from row `k` on:
/// one for each waterline with a measured breadth, placed at that line's
/// position. None if a line with a measured breadth has no position.
pub open spec fn breadth_points(
    positions: Seq<DataRow<HeightLine>>,
    rows: Seq<DataRow<HeightLine>>,
    i: int,
    k: int,
) -> Option<Seq<RefPoint>>
    decreases rows.len() - k,
{
    if k < 0 || k >= rows.len() {
        Some(seq![])
    } else {
        let rest = breadth_points(positions, rows, i, k + 1);
        match rows[k].1@[i] {
            None => rest,
            Some(b) => match measurement(positions, i, rows[k].0) {
                None => None,
                Some(posn) => match rows[k].0 {
                    HeightLine::Sheer => rest,
                    HeightLine::WLUp(h) => match rest {
                        Some(s) => Some(
                            seq![RefPoint { position: posn, breadth: b, height: h }] + s,
                        ),
                        None => None,
                    },
                },
            },
        }
    }
}

/// All measured points of station `i`, in table order: the sheer point, then
/// the height table's points, then the breadth table's.
pub open spec fn raw_points<F>(spec: Spec<F>, i: int) -> Option<Seq<RefPoint>> {
    let d = spec.data;
    match (
        measurement(d.breadths@, i, HeightLine::Sheer),
        measurement(d.heights@, i, BreadthLine::Sheer),
        measurement(d.positions@, i, HeightLine::Sheer),
    ) {
        (Some(b), Some(h), Some(p)) => match breadth_points(d.positions@, d.breadths@, i, 0) {
            Some(bs) => Some(
                seq![RefPoint { position: p, breadth: b, height: h }] + height_points(
                    d.heights@,
                    i,
                    p,
                    0,
                ) + bs,
            ),
            None => None,
        },
        _ => None,
    }
}

pub open spec fn height_key(p: RefPoint) -> int {
    p.height.eighths_total()
}

/// Insert `p` after every point of `s` that is no higher.
pub open spec fn insert_by_height(s: Seq<RefPoint>, p: RefPoint) -> Seq<RefPoint>
    decreases s.len(),
{
    if s.len() == 0 {
        seq![p]
    } else if height_key(s.last()) <= height_key(p) {
        s.push(p)
    } else {
        insert_by_height(s.drop_last(), p).push(s.last())
    }
}

/// The points ordered by ascending height; points of equal height keep their order.
pub open spec fn sort_by_height(s: Seq<RefPoint>) -> Seq<RefPoint>
    decreases s.len(),
{
    if s.len() == 0 {
        s
    } else {
        insert_by_height(sort_by_height(s.drop_last()), s.last())
    }
}

/// Whether the points are in ascending order of height.
pub open spec fn sorted_by_height(s: Seq<RefPoint>) -> bool {
    forall|i: int, j: int| 0 <= i < j < s.len() ==> height_key(s[i]) <= height_key(s[j])
}

proof fn lemma_insert_by_height(s: Seq<RefPoint>, p: RefPoint, bound: int)
    requires
        sorted_by_height(s),
    ensures
        sorted_by_height(insert_by_height(s, p)),
        insert_by_height(s, p).to_multiset() == s.to_multiset().insert(p),
        (forall|i: int| 0 <= i < s.len() ==> height_key(#[trigger] s[i]) <= bound) && height_key(p)
            <= bound ==> (forall|i: int|
            0 <= i < insert_by_height(s, p).len() ==> height_key(
                #[trigger] insert_by_height(s, p)[i],
            ) <= bound),
    decreases s.len(),
{
    broadcast use vstd::seq_lib::to_multiset_build;
    broadcast use vstd::multiset::group_multiset_axioms;

    if s.len() == 0 {
        assert(seq![p] =~= s.push(p));
    } else if height_key(s.last()) <= height_key(p) {
    } else {
        let d = s.drop_last();
        let l = s.last();
        assert(sorted_by_height(d));
        lemma_insert_by_height(d, p, height_key(l));
        lemma_insert_by_height(d, p, bound);
        assert(d.push(l) =~= s);
        let r = insert_by_height(d, p);
        assert forall|i: int| 0 <= i < d.len() implies height_key(#[trigger] d[i]) <= height_key(
            l,
        ) by {
            assert(s[i] == d[i]);
        }
        assert(r.push(l) == insert_by_height(s, p));
        assert(r.push(l).to_multiset() == r.to_multiset().insert(l));
        assert(s.to_multiset() == d.to_multiset().insert(l));
        assert(insert_by_height(s, p).to_multiset() =~= s.to_multiset().insert(p));
        if (forall|i: int| 0 <= i < s.len() ==> height_key(#[trigger] s[i]) <= bound) && height_key(
            p,
        ) <= bound {
            assert forall|i: int| 0 <= i < d.len() implies height_key(#[trigger] d[i]) <= bound by {
                assert(s[i] == d[i]);
            }
            assert(height_key(s[s.len() - 1]) <= bound);
        }
    }
}

/// Sorting by height puts the points in ascending order of height and keeps
/// every point, each as often as it occurs.
pub proof fn lemma_sort_by_height(s: Seq<RefPoint>)
    ensures
        sorted_by_height(sort_by_height(s)),
        sort_by_height(s).to_multiset() == s.to_multiset(),
    decreases s.len(),
{
    broadcast use vstd::seq_lib::to_multiset_build;

    if s.len() > 0 {
        lemma_sort_by_height(s.drop_last());
        lemma_insert_by_height(sort_by_height(s.drop_last()), s.last(), 0);
        assert(s.drop_last().push(s.last()) =~= s);
    }
}

/// Squared distance between two points, in square eighths of an inch.
pub open spec fn distance_squared(p: RefPoint, q: RefPoint) -> int {
    let dx = p.position.eighths_total() - q.position.eighths_total();
    let dy = p.breadth.eighths_total() - q.breadth.eighths_total();
    let dz = p.height.eighths_total() - q.height.eighths_total();
    dx * dx + dy * dy + dz * dz
}

/// Whether two points are at least 0.05 feet (4.8 eighths of an inch) apart,
/// the distance below which two measured points count as the same.
pub open spec fn far_apart(p: RefPoint, q: RefPoint) -> bool {
    25 * distance_squared(p, q) >= 576
}

/// Keep the first point, and each later point that is far from the point
/// just before it in the input.
pub open spec fn remove_near_duplicates(s: Seq<RefPoint>) -> Seq<RefPoint>
    decreases s.len(),
{
    if s.len() <= 1 {
        s
    } else {
        let kept = remove_near_duplicates(s.drop_last());
        if far_apart(s.last(), s[s.len() - 2]) {
            kept.push(s.last())
        } else {
            kept
        }
    }
}

/// The wale's (fore-aft position, height) points at station `i`, from row `k`
/// on of the height table.
pub open spec fn wale_points(rows: Seq<DataRow<BreadthLine>>, i: int, posn: Feet, k: int) -> Seq<
    (Feet, Feet),
>
    decreases rows.len() - k,
{
    if k < 0 || k >= rows.len() {
        seq![]
    } else {
        let rest = wale_points(rows, i, posn, k + 1);
        match (rows[k].0, rows[k].1@[i]) {
            (BreadthLine::Wale, Some(h)) => seq![(posn, h)] + rest,
            _ => rest,
        }
    }
}

/// The breadths of the buttock lines named by the height table, from row `k` on.
pub open spec fn buttock_breadths(rows: Seq<DataRow<BreadthLine>>, k: int) -> Seq<Feet>
    decreases rows.len() - k,
{
    if k < 0 || k >= rows.len() {
        seq![]
    } else {
        match rows[k].0 {
            BreadthLine::ButOut(b) => seq![b] + buttock_breadths(rows, k + 1),
            _ => buttock_breadths(rows, k + 1),
        }
    }
}

/// The heights of the waterlines named by the breadth table, from row `k` on.
pub open spec fn waterline_heights(rows: Seq<DataRow<HeightLine>>, k: int) -> Seq<Feet>
    decreases rows.len() - k,
{
    if k < 0 || k >= rows.len() {
        seq![]
    } else {
        match rows[k].0 {
            HeightLine::WLUp(h) => seq![h] + waterline_heights(rows, k + 1),
            _ => waterline_heights(rows, k + 1),
        }
    }
}

/// A station point list that starts with the same point twice clears to the
/// same points as the list with that point once.
pub proof fn lemma_coincident_first_point(p: RefPoint, rest: Seq<RefPoint>)
    ensures
        remove_near_duplicates(seq![p, p] + rest) == remove_near_duplicates(seq![p] + rest),
    decreases rest.len(),
{
    let a = seq![p, p] + rest;
    let b = seq![p] + rest;
    assert(distance_squared(p, p) == 0);
    if rest.len() == 0 {
        assert(a.drop_last() =~= seq![p]);
        assert(b =~= seq![p]);
    } else {
        lemma_coincident_first_point(p, rest.drop_last());
        assert(a.drop_last() =~= seq![p, p] + rest.drop_last());
        assert(b.drop_last() =~= seq![p] + rest.drop_last());
        assert(a.last() == b.last());
        assert(a[a.len() - 2] == b[b.len() - 2]);
    }
}

fn eighths_diff(a: &Feet, b: &Feet) -> (r: u128)
    ensures
        r as int == if a.eighths_total() >= b.eighths_total() {
            a.eighths_total() - b.eighths_total()
        } else {
            b.eighths_total() - a.eighths_total()
        },
        r <= 0x10000000000,
{
    let x = a.total_eighths();
    let y = b.total_eighths();
    if x >= y {
        (x - y) as u128
    } else {
        (y - x) as u128
    }
}

/// Whether two points are at least 0.05 feet apart.
pub fn is_far_apart(p: &RefPoint, q: &RefPoint) -> (r: bool)
    ensures
        r == far_apart(*p, *q),
{
    let dx = eighths_diff(&p.position, &q.position);
    let dy = eighths_diff(&p.breadth, &q.breadth);
    let dz = eighths_diff(&p.height, &q.height);
    assert(dx * dx <= 0x100000000000000000000) by (nonlinear_arith)
        requires
            dx <= 0x10000000000,
    ;
    assert(dy * dy <= 0x100000000000000000000) by (nonlinear_arith)
        requires
            dy <= 0x10000000000,
    ;
    assert(dz * dz <= 0x100000000000000000000) by (nonlinear_arith)
        requires
            dz <= 0x10000000000,
    ;
    let d2 = dx * dx + dy * dy + dz * dz;
    proof {
        let ix = p.position.eighths_total() - q.position.eighths_total();
        let iy = p.breadth.eighths_total() - q.breadth.eighths_total();
        let iz = p.height.eighths_total() - q.height.eighths_total();
        assert(dx * dx == ix * ix) by (nonlinear_arith)
            requires
                dx == ix || dx == -ix,
        ;
        assert(dy * dy == iy * iy) by (nonlinear_arith)
            requires
                dy == iy || dy == -iy,
        ;
        assert(dz * dz == iz * iz) by (nonlinear_arith)
            requires
                dz == iz || dz == -iz,
        ;
    }
    25 * d2 >= 576
}

/// Drop each point that is nearer than 0.05 feet to the point before it.
pub fn remove_duplicates(points: &Vec<RefPoint>) -> (r: Vec<RefPoint>)
    ensures
        r@ == remove_near_duplicates(points@),
{
    let mut kept: Vec<RefPoint> = Vec::new();
    if points.len() == 0 {
        return kept;
    }
    kept.push(points[0]);
    assert(kept@ =~= points@.take(1));
    let mut k: usize = 1;
    while k < points.len()
        invariant
            1 <= k <= points@.len(),
            kept@ == remove_near_duplicates(points@.take(k as int)),
        decreases points.len() - k,
    {
        let ghost s = points@.take(k + 1);
        assert(s.drop_last() =~= points@.take(k as int));
        assert(s[s.len() - 2] == points@[k - 1]);
        if is_far_apart(&points[k], &points[k - 1]) {
            kept.push(points[k]);
        }
        k = k + 1;
    }
    assert(points@.take(points@.len() as int) =~= points@);
    kept
}

/// Order points by ascending height, keeping the order of points of equal height.
pub fn sort_points_by_height(points: &Vec<RefPoint>) -> (r: Vec<RefPoint>)
    ensures
        r@ == sort_by_height(points@),
        sorted_by_height(r@),
        r@.to_multiset() == points@.to_multiset(),
{
    proof {
        lemma_sort_by_height(points@);
    }
    let mut sorted: Vec<RefPoint> = Vec::new();
    let mut k: usize = 0;
    while k < points.len()
        invariant
            k <= points@.len(),
            sorted@ == sort_by_height(points@.take(k as int)),
        decreases points.len() - k,
    {
        let p = points[k];
        let key = p.height.total_eighths();
        let mut j = sorted.len();
        assert(sorted@.take(j as int) =~= sorted@);
        assert(insert_by_height(sorted@, p) + sorted@.skip(j as int) =~= insert_by_height(sorted@, p));
        while j > 0 && sorted[j - 1].height.total_eighths() > key
            invariant
                j <= sorted@.len(),
                key == height_key(p),
                insert_by_height(sorted@, p) == insert_by_height(sorted@.take(j as int), p)
                    + sorted@.skip(j as int),
            decreases j,
        {
            let ghost t = sorted@.take(j as int);
            assert(t.drop_last() =~= sorted@.take(j - 1));
            assert(sorted@.skip(j - 1) =~= seq![t.last()] + sorted@.skip(j as int));
            assert(insert_by_height(t.drop_last(), p) + sorted@.skip(j - 1) =~= insert_by_height(
                t.drop_last(),
                p,
            ).push(t.last()) + sorted@.skip(j as int));
            j = j - 1;
        }
        proof {
            let t = sorted@.take(j as int);
            if j > 0 {
                assert(t.last() == sorted@[j - 1]);
            }
            assert(insert_by_height(t, p) == t.push(p));
            assert(sorted@.insert(j as int, p) =~= t.push(p) + sorted@.skip(j as int));
            assert(points@.take(k + 1).drop_last() =~= points@.take(k as int));
        }
        sorted.insert(j, p);
        k = k + 1;
    }
    assert(points@.take(points@.len() as int) =~= points@);
    sorted
}

impl<F> Spec<F> {
    /// The reference points of station `i`: the sheer point, then each measured
    /// buttock-line and waterline point, ordered by ascending height, with
    /// near-duplicates removed.
    pub fn station_points(&self, i: usize) -> (r: Result<Vec<RefPoint>, LapstrakeError>)
        requires
            self.data.well_formed(),
            i < self.data.stations@.len(),
        ensures
            raw_points(*self, i as int) matches Some(s) ==> (r matches Ok(v) && v@
                == remove_near_duplicates(sort_by_height(s))),
            raw_points(*self, i as int) is None ==> (r matches Err(e) && e.is_load()),
    {
        let d = &self.data;
        let sheer_breadth = match self.get_sheer_breadth(i) {
            Ok(f) => f,
            Err(e) => return Err(e),
        };
        let sheer_height = match self.get_sheer_height(i) {
            Ok(f) => f,
            Err(e) => return Err(e),
        };
        let posn = match self.get_station_position(i, HeightLine::Sheer) {
            Ok(f) => f,
            Err(e) => return Err(e),
        };
        let mut points: Vec<RefPoint> = Vec::new();
        points.push(RefPoint { position: posn, breadth: sheer_breadth, height: sheer_height });
        let ghost first = points@;
        // Heights measured along the buttock lines, at the station's sheer position.
        let mut k: usize = 0;
        while k < d.heights.len()
            invariant
                d == &self.data,
                self.data.well_formed(),
                i < self.data.stations@.len(),
                k <= d.heights@.len(),
                points@ + height_points(d.heights@, i as int, posn, k as int) == first
                    + height_points(d.heights@, i as int, posn, 0),
            decreases d.heights.len() - k,
        {
            let row = &d.heights[k];
            assert(has_column(d.heights@, i as int));
            assert(i < d.heights@[k as int].1@.len());
            match (row.0, row.1[i]) {
                (BreadthLine::ButOut(b), Some(h)) => {
                    let ghost before = points@;
                    points.push(RefPoint { position: posn, breadth: b, height: h });
                    assert(points@ + height_points(d.heights@, i as int, posn, k + 1) =~= before
                        + height_points(d.heights@, i as int, posn, k as int));
                },
                _ => {},
            }
            k = k + 1;
        }
        assert(height_points(d.heights@, i as int, posn, k as int) =~= seq![]);
        let ghost middle = points@;
        // Breadths measured along the waterlines, at each waterline's position.
        let mut k: usize = 0;
        while k < d.breadths.len()
            invariant
                d == &self.data,
                self.data.well_formed(),
                i < self.data.stations@.len(),
                k <= d.breadths@.len(),
                breadth_points(d.positions@, d.breadths@, i as int, 0) == match breadth_points(
                    d.positions@,
                    d.breadths@,
                    i as int,
                    k as int,
                ) {
                    Some(s) => Some(points@.subrange(middle.len() as int, points@.len() as int) + s),
                    None => None::<Seq<RefPoint>>,
                },
                points@.subrange(0, middle.len() as int) == middle,
                middle.len() <= points@.len(),
            decreases d.breadths.len() - k,
        {
            let row = &d.breadths[k];
            assert(has_column(d.breadths@, i as int));
            assert(i < d.breadths@[k as int].1@.len());
            if let Some(b) = row.1[i] {
                let line = row.0;
                let wl_posn = match self.get_station_position(i, line) {
                    Ok(f) => f,
                    Err(e) => {
                        return Err(e);
                    },
                };
                if let HeightLine::WLUp(h) = line {
                    let ghost before = points@;
                    points.push(RefPoint { position: wl_posn, breadth: b, height: h });
                    assert(points@.subrange(0, middle.len() as int) =~= before.subrange(
                        0,
                        middle.len() as int,
                    ));
                    assert(points@.subrange(middle.len() as int, points@.len() as int) =~= before.subrange(
                        middle.len() as int,
                        before.len() as int,
                    ).push(RefPoint { position: wl_posn, breadth: b, height: h }));
                    proof {
                        let pt = RefPoint { position: wl_posn, breadth: b, height: h };
                        let tail = breadth_points(d.positions@, d.breadths@, i as int, k + 1);
                        if tail is Some {
                            assert(before.subrange(middle.len() as int, before.len() as int) + (
                            seq![pt] + tail->Some_0) =~= before.subrange(
                                middle.len() as int,
                                before.len() as int,
                            ).push(pt) + tail->Some_0);
                        }
                    }
                }
            }
            k = k + 1;
        }
        proof {
            assert(points@.subrange(middle.len() as int, points@.len() as int) + seq![]
                =~= points@.subrange(middle.len() as int, points@.len() as int));
            assert(points@ =~= middle + points@.subrange(middle.len() as int, points@.len() as int));
        }
        let sorted = sort_points_by_height(&points);
        Ok(remove_duplicates(&sorted))
    }

    /// The wale's points at station `i`: (fore-aft position, height) pairs.
    pub fn wale_points(&self, i: usize) -> (r: Result<Vec<(Feet, Feet)>, LapstrakeError>)
        requires
            self.data.well_formed(),
            i < self.data.stations@.len(),
        ensures
            measurement(self.data.positions@, i as int, HeightLine::Sheer) matches Some(p) ==> (r matches Ok(
                v,
            ) && v@ == wale_points(self.data.heights@, i as int, p, 0)),
            measurement(self.data.positions@, i as int, HeightLine::Sheer) is None ==> (r matches Err(
                e,
            ) && e.is_load()),
    {
        let d = &self.data;
        let posn = match self.get_station_position(i, HeightLine::Sheer) {
            Ok(f) => f,
            Err(e) => return Err(e),
        };
        let mut points: Vec<(Feet, Feet)> = Vec::new();
        let mut k: usize = 0;
        while k < d.heights.len()
            invariant
                d == &self.data,
                self.data.well_formed(),
                i < self.data.stations@.len(),
                k <= d.heights@.len(),
                points@ + wale_points(d.heights@, i as int, posn, k as int) == wale_points(
                    d.heights@,
                    i as int,
                    posn,
                    0,
                ),
            decreases d.heights.len() - k,
        {
            let row = &d.heights[k];
            assert(has_column(d.heights@, i as int));
            assert(i < d.heights@[k as int].1@.len());
            match (row.0, row.1[i]) {
                (BreadthLine::Wale, Some(h)) => {
                    let ghost before = points@;
                    points.push((posn, h));
                    assert(points@ + wale_points(d.heights@, i as int, posn, k + 1) =~= before
                        + wale_points(d.heights@, i as int, posn, k as int));
                },
                _ => {},
            }
            k = k + 1;
        }
        assert(points@ + seq![] =~= points@);
        Ok(points)
    }

    /// The breadths of the buttock lines, in table order.
    pub fn get_breadths(&self) -> (r: Vec<Feet>)
        ensures
            r@ == buttock_breadths(self.data.heights@, 0),
    {
        let rows = &self.data.heights;
        let mut out: Vec<Feet> = Vec::new();
        let mut k: usize = 0;
        while k < rows.len()
            invariant
                rows == &self.data.heights,
                k <= rows@.len(),
                out@ + buttock_breadths(rows@, k as int) == buttock_breadths(rows@, 0),
            decreases rows.len() - k,
        {
            if let BreadthLine::ButOut(b) = rows[k].0 {
                let ghost before = out@;
                out.push(b);
                assert(out@ + buttock_breadths(rows@, k + 1) =~= before + buttock_breadths(
                    rows@,
                    k as int,
                ));
            }
            k = k + 1;
        }
        assert(out@ + seq![] =~= out@);
        out
    }

    /// The heights of the waterlines, in table order.
    pub fn get_heights(&self) -> (r: Vec<Feet>)
        ensures
            r@ == waterline_heights(self.data.breadths@, 0),
    {
        let rows = &self.data.breadths;
        let mut out: Vec<Feet> = Vec::new();
        let mut k: usize = 0;
        while k < rows.len()
            invariant
                rows == &self.data.breadths,
                k <= rows@.len(),
                out@ + waterline_heights(rows@, k as int) == waterline_heights(rows@, 0),
            decreases rows.len() - k,
        {
            if let HeightLine::WLUp(h) = rows[k].0 {
                let ghost before = out@;
                out.push(h);
                assert(out@ + waterline_heights(rows@, k + 1) =~= before + waterline_heights(
                    rows@,
                    k as int,
                ));
            }
            k = k + 1;
        }
        assert(out@ + seq![] =~= out@);
        out
    }
}

} // verus!
