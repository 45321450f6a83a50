//! Which table rows bound each plank, and the outline of a flattened plank.
use vstd::prelude::*;

use crate::error::LapstrakeError;
use crate::spec::{Data, Planks};

verus! {

/// The pairs of plank-boundary rows that bound the planks of a table with
/// `rows` rows: rows `2i` (bottom) and `2i + 1` (top) for each plank `i`.
pub open spec fn plank_row_pairs(rows: int) -> Seq<(usize, usize)> {
    Seq::new((rows / 2) as nat, |i: int| ((2 * i) as usize, (2 * i + 1) as usize))
}

/// The stations, from index `k` on, at which a plank-boundary row gives a fraction.
pub open spec fn stations_in_row<F>(row: Seq<Option<F>>, count: int, k: int) -> Seq<usize>
    decreases count - k,
{
    if k < 0 || k >= count {
        seq![]
    } else if row[k] is Some {
        seq![k as usize] + stations_in_row(row, count, k + 1)
    } else {
        stations_in_row(row, count, k + 1)
    }
}

/// The closed outline of a flattened plank: along the top, back along the
/// bottom, and back to the first top point.
pub open spec fn outline_of<T>(top: Seq<T>, bottom: Seq<T>) -> Seq<T> {
    top + bottom.reverse() + seq![top[0]]
}

impl<F> Planks<F> {
    /// The (bottom, top) row pairs of each plank, from the bottom of the ship up.
    /// An odd last row bounds no plank.
    pub fn plank_pairs(&self) -> (r: Vec<(usize, usize)>)
        ensures
            r@ == plank_row_pairs(self.plank_locations@.len() as int),
    {
        let n = self.plank_locations.len();
        let mut pairs: Vec<(usize, usize)> = Vec::new();
        let mut i: usize = 0;
        while i < n / 2
            invariant
                n == self.plank_locations@.len(),
                i <= n / 2,
                pairs@ =~= plank_row_pairs(n as int).take(i as int),
            decreases n / 2 - i,
        {
            pairs.push((2 * i, 2 * i + 1));
            i = i + 1;
        }
        assert(plank_row_pairs(n as int).take(i as int) =~= plank_row_pairs(n as int));
        pairs
    }

    /// The station columns at which row `row` places its plank boundary.
    pub fn row_stations(&self, row: usize) -> (r: Vec<usize>)
        requires
            row < self.plank_locations@.len(),
            self.stations@.len() <= self.plank_locations@[row as int]@.len(),
        ensures
            r@ == stations_in_row(
                self.plank_locations@[row as int]@,
                self.stations@.len() as int,
                0,
            ),
    {
        let locs = &self.plank_locations[row];
        let count = self.stations.len();
        let mut found: Vec<usize> = Vec::new();
        let mut k: usize = 0;
        while k < count
            invariant
                locs == &self.plank_locations@[row as int],
                count == self.stations@.len(),
                count <= locs@.len(),
                k <= count,
                found@ + stations_in_row(locs@, count as int, k as int) == stations_in_row(
                    locs@,
                    count as int,
                    0,
                ),
            decreases count - k,
        {
            if locs[k].is_some() {
                let ghost before = found@;
                found.push(k);
                assert(found@ + stations_in_row(locs@, count as int, k + 1) =~= before
                    + stations_in_row(locs@, count as int, k as int));
            }
            k = k + 1;
        }
        assert(found@ + seq![] =~= found@);
        found
    }
}

/// A plank-boundary table with `2k` rows bounds exactly `k` planks, the `i`th
/// between rows `2i` and `2i + 1`.
pub proof fn lemma_plank_count(rows: int, k: int)
    requires
        k >= 0,
        rows == 2 * k,
    ensures
        plank_row_pairs(rows).len() == k,
        forall|i: int| 0 <= i < k ==> #[trigger] plank_row_pairs(rows)[i] == ((2 * i) as usize, (2 * i
            + 1) as usize),
{
}

/// The closed outline of a flattened plank: the top line, the bottom line
/// reversed, and the first top point again.
pub fn outline<T: Copy>(top: &Vec<T>, bottom: &Vec<T>) -> (r: Vec<T>)
    requires
        top@.len() > 0,
    ensures
        r@ == outline_of(top@, bottom@),
{
    let mut points: Vec<T> = Vec::new();
    let mut k: usize = 0;
    while k < top.len()
        invariant
            k <= top@.len(),
            points@ == top@.take(k as int),
        decreases top.len() - k,
    {
        points.push(top[k]);
        assert(points@ =~= top@.take(k + 1));
        k = k + 1;
    }
    let mut j: usize = bottom.len();
    while j > 0
        invariant
            j <= bottom@.len(),
            points@ == top@ + bottom@.reverse().take(bottom@.len() - j),
        decreases j,
    {
        j = j - 1;
        points.push(bottom[j]);
        assert(points@ =~= top@ + bottom@.reverse().take(bottom@.len() - j));
    }
    points.push(top[0]);
    assert(bottom@.reverse().take(bottom@.len() as int) =~= bottom@.reverse());
    points
}

pub open spec fn find_name(names: Seq<String>, name: Seq<char>, k: int) -> Option<int>
    decreases names.len() - k,
{
    if k < 0 || k >= names.len() {
        None
    } else if names[k]@ == name {
        Some(k)
    } else {
        find_name(names, name, k + 1)
    }
}

/// The index of the first station with the given name.
pub fn find_station(names: &Vec<String>, name: &str) -> (r: Result<usize, LapstrakeError>)
    ensures
        find_name(names@, name@, 0) matches Some(k) ==> r == Ok::<usize, LapstrakeError>(
            k as usize,
        ),
        find_name(names@, name@, 0) is None ==> (r matches Err(e) && e.root() is General),
{
    let mut k: usize = 0;
    while k < names.len()
        invariant
            k <= names@.len(),
            find_name(names@, name@, k as int) == find_name(names@, name@, 0),
        decreases names.len() - k,
    {
        if crate::spec::same_text(names[k].as_str(), name) {
            return Ok(k);
        }
        k = k + 1;
    }
    let mut message = String::from_str("Station ");
    message.append(name);
    message.append(" not found.");
    Err(LapstrakeError::General(message))
}

impl Data {
    /// The index of the first station with the given name.
    pub fn station_index(&self, name: &str) -> (r: Result<usize, LapstrakeError>)
        ensures
            find_name(self.stations@, name@, 0) matches Some(k) ==> r == Ok::<
                usize,
                LapstrakeError,
            >(k as usize),
            find_name(self.stations@, name@, 0) is None ==> (r matches Err(e)
                && e.root() is General),
    {
        find_station(&self.stations, name)
    }
}

} // verus!
