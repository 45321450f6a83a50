//! Specifications for the ship hull: the measurement tables and where the
//! planks go.
use vstd::prelude::*;
use vstd::string::*;

use crate::error::LapstrakeError;
use crate::unit::{parsed_cell, Feet};

verus! {

/// The spec for the hull of a ship, plus configuration options.
/// `F` is the type of a plank's fractional position on a station.
pub struct Spec<F> {
    pub data: Data,
    pub planks: Planks<F>,
    pub config: Config,
}

/// A standard set of reference points for the hull shape.
pub struct Data {
    /// The names of the stations (cross sections of the hull).
    pub stations: Vec<String>,
    /// The locations of each of the stations.
    pub positions: Vec<DataRow<HeightLine>>,
    /// For each station,
    /// the height above base
    /// at each half-breadth from center.
    pub heights: Vec<DataRow<BreadthLine>>,
    /// For each station,
    /// the half-breadth from centerline
    /// at each height above base.
    pub breadths: Vec<DataRow<HeightLine>>,
}

/// One row of Data: the line it measures, and one cell per station.
pub type DataRow<T> = (T, Vec<Option<Feet>>);

/// Where planks should lie on the hull.
pub struct Planks<F> {
    pub stations: Vec<PlankStation>,
    pub plank_locations: Vec<PlankRow<F>>,
}

/// For a given plank, specifies where that plank should lie (as a
/// fraction between 0 for the bottom to 1 at the top) at each station
/// or fore-aft position.
pub type PlankRow<F> = Vec<Option<F>>;

/// A plank's location can be specified either along an existing
/// station, or along a cross-section of constant fore-aft position.
#[derive(Debug)]
pub enum PlankStation {
    Station(String),
    Position(Feet),
}

/// Configuration options.
#[derive(Debug, Clone, Copy)]
pub struct Config {
    pub resolution: usize,
}

/// A line along the hull of constant breadth.
#[derive(Debug, Clone, Copy, PartialEq, Eq, Structural)]
pub enum BreadthLine {
    Sheer,
    Wale,
    ButOut(Feet),
}

/// A line along the hull of constant height.
#[derive(Debug, Clone, Copy, PartialEq, Eq, Structural)]
pub enum HeightLine {
    Sheer,
    WLUp(Feet),
}

/// The kinds of line that name the rows of the measurement tables.
pub trait LineName: Sized + Copy {
    fn same_line(&self, other: &Self) -> (r: bool)
        ensures
            r == (*self == *other),
    ;
}

impl LineName for BreadthLine {
    fn same_line(&self, other: &Self) -> (r: bool) {
        *self == *other
    }
}

impl LineName for HeightLine {
    fn same_line(&self, other: &Self) -> (r: bool) {
        *self == *other
    }
}

/// Every row holds a cell for station `i`.
pub open spec fn has_column<M>(rows: Seq<DataRow<M>>, i: int) -> bool {
    forall|k: int| 0 <= k < rows.len() ==> i < (#[trigger] rows[k]).1@.len()
}

/// The first measurement of line `m` at station `i`, looking at rows from `k` on.
pub open spec fn find_measurement<M>(rows: Seq<DataRow<M>>, i: int, m: M, k: int) -> Option<Feet>
    decreases rows.len() - k,
{
    if k < 0 || k >= rows.len() {
        None
    } else if rows[k].0 == m && rows[k].1@[i] is Some {
        rows[k].1@[i]
    } else {
        find_measurement(rows, i, m, k + 1)
    }
}

/// The first measurement of line `m` at station `i`.
pub open spec fn measurement<M>(rows: Seq<DataRow<M>>, i: int, m: M) -> Option<Feet> {
    find_measurement(rows, i, m, 0)
}

impl Data {
    /// Every table has a cell for each station.
    pub open spec fn well_formed(&self) -> bool {
        &&& forall|i: int|
            0 <= i < self.stations@.len() ==> has_column(self.positions@, i) && has_column(
                self.heights@,
                i,
            ) && has_column(self.breadths@, i)
    }
}

/// The first measurement of `measurement` at the given station, in row order.
pub fn lookup<M: LineName>(rows: &Vec<DataRow<M>>, station_index: usize, m: M) -> (r: Result<
    Feet,
    LapstrakeError,
>)
    requires
        has_column(rows@, station_index as int),
    ensures
        measurement(rows@, station_index as int, m) matches Some(f) ==> r == Ok::<
            Feet,
            LapstrakeError,
        >(f),
        measurement(rows@, station_index as int, m) is None ==> (r matches Err(e) && e.is_load()),
{
    let mut k: usize = 0;
    while k < rows.len()
        invariant
            k <= rows@.len(),
            has_column(rows@, station_index as int),
            find_measurement(rows@, station_index as int, m, k as int) == measurement(
                rows@,
                station_index as int,
                m,
            ),
        decreases rows.len() - k,
    {
        let row = &rows[k];
        assert(station_index < rows@[k as int].1@.len());
        if row.0.same_line(&m) {
            match row.1[station_index] {
                Some(f) => return Ok(f),
                None => {},
            }
        }
        k = k + 1;
    }
    Err(
        LapstrakeError::Load.context(
            "Could not find a measurement for this line at this station index",
        ),
    )
}

impl<F> Spec<F> {
    /// Get the position of the nth station.
    /// (This is by index, not by name.)
    pub fn get_station_position(&self, station: usize, line: HeightLine) -> (r: Result<
        Feet,
        LapstrakeError,
    >)
        requires
            has_column(self.data.positions@, station as int),
        ensures
            measurement(self.data.positions@, station as int, line) matches Some(f) ==> r == Ok::<
                Feet,
                LapstrakeError,
            >(f),
            measurement(self.data.positions@, station as int, line) is None ==> (r matches Err(e)
                && e.is_load()),
    {
        lookup(&self.data.positions, station, line)
    }

    /// Get the breadth of the sheer at the nth station.
    pub fn get_sheer_breadth(&self, station: usize) -> (r: Result<Feet, LapstrakeError>)
        requires
            has_column(self.data.breadths@, station as int),
        ensures
            measurement(self.data.breadths@, station as int, HeightLine::Sheer) matches Some(f)
                ==> r == Ok::<Feet, LapstrakeError>(f),
            measurement(self.data.breadths@, station as int, HeightLine::Sheer) is None ==> (r matches Err(
                e,
            ) && e.is_load()),
    {
        lookup(&self.data.breadths, station, HeightLine::Sheer)
    }

    /// Get the height of the sheer at the nth station.
    pub fn get_sheer_height(&self, station: usize) -> (r: Result<Feet, LapstrakeError>)
        requires
            has_column(self.data.heights@, station as int),
        ensures
            measurement(self.data.heights@, station as int, BreadthLine::Sheer) matches Some(f)
                ==> r == Ok::<Feet, LapstrakeError>(f),
            measurement(self.data.heights@, station as int, BreadthLine::Sheer) is None ==> (r matches Err(
                e,
            ) && e.is_load()),
    {
        lookup(&self.data.heights, station, BreadthLine::Sheer)
    }
}

pub uninterp spec fn lower_of(s: Seq<char>) -> Seq<char>;

/// Relies on str::to_lowercase: the result depends on the characters alone.
#[verifier::external_body]
pub(crate) fn lowercase(s: &str) -> (r: String)
    ensures
        r@ == lower_of(s@),
{
    s.to_lowercase()
}

/// Whether two texts hold the same characters.
pub fn same_text(a: &str, b: &str) -> (r: bool)
    ensures
        r == (a@ == b@),
{
    let n = a.unicode_len();
    if n != b.unicode_len() {
        return false;
    }
    let mut k: usize = 0;
    while k < n
        invariant
            k <= n,
            n == a@.len(),
            n == b@.len(),
            forall|m: int| 0 <= m < k ==> a@[m] == b@[m],
        decreases n - k,
    {
        if a.get_char(k) != b.get_char(k) {
            return false;
        }
        k = k + 1;
    }
    assert(a@ =~= b@);
    true
}

pub open spec fn sheer_text() -> Seq<char> {
    seq!['s', 'h', 'e', 'e', 'r']
}

pub open spec fn wale_text() -> Seq<char> {
    seq!['w', 'a', 'l', 'e']
}

/// The breadth line that already lowercased text names.
pub open spec fn breadth_line_named(s: Seq<char>) -> Option<BreadthLine> {
    if s == sheer_text() {
        Some(BreadthLine::Sheer)
    } else if s == wale_text() {
        Some(BreadthLine::Wale)
    } else {
        match parsed_cell(s) {
            Some(Some(f)) => Some(BreadthLine::ButOut(f)),
            _ => None,
        }
    }
}

/// The height line that already lowercased text names.
pub open spec fn height_line_named(s: Seq<char>) -> Option<HeightLine> {
    if s == sheer_text() {
        Some(HeightLine::Sheer)
    } else {
        match parsed_cell(s) {
            Some(Some(f)) => Some(HeightLine::WLUp(f)),
            _ => None,
        }
    }
}

impl BreadthLine {
    /// Read a breadth line name: "sheer", "wale", or the measurement of a buttock line.
    /// Letter case is ignored.
    pub fn from_text(text: &str) -> (r: Result<BreadthLine, LapstrakeError>)
        ensures
            breadth_line_named(lower_of(text@)) matches Some(l) ==> r == Ok::<
                BreadthLine,
                LapstrakeError,
            >(l),
            breadth_line_named(lower_of(text@)) is None ==> (r matches Err(e) && e.is_load()),
    {
        let lower = lowercase(text);
        BreadthLine::from_lowercase(lower.as_str())
    }

    /// Read a breadth line name that is already in lower case.
    pub fn from_lowercase(text: &str) -> (r: Result<BreadthLine, LapstrakeError>)
        ensures
            breadth_line_named(text@) matches Some(l) ==> r == Ok::<BreadthLine, LapstrakeError>(
                l,
            ),
            breadth_line_named(text@) is None ==> (r matches Err(e) && e.is_load()),
    {
        proof {
            reveal_strlit("sheer");
            reveal_strlit("wale");
            assert("sheer"@ =~= sheer_text());
            assert("wale"@ =~= wale_text());
        }
        if same_text(text, "sheer") {
            Ok(BreadthLine::Sheer)
        } else if same_text(text, "wale") {
            Ok(BreadthLine::Wale)
        } else {
            match Feet::parse(text) {
                Ok(f) => Ok(BreadthLine::ButOut(f)),
                Err(e) => Err(e.context("Was unable to read height.")),
            }
        }
    }
}

impl HeightLine {
    /// Read a height line name: "sheer", or the measurement of a waterline.
    /// Letter case is ignored.
    pub fn from_text(text: &str) -> (r: Result<HeightLine, LapstrakeError>)
        ensures
            height_line_named(lower_of(text@)) matches Some(l) ==> r == Ok::<
                HeightLine,
                LapstrakeError,
            >(l),
            height_line_named(lower_of(text@)) is None ==> (r matches Err(e) && e.is_load()),
    {
        let lower = lowercase(text);
        HeightLine::from_lowercase(lower.as_str())
    }

    /// Read a height line name that is already in lower case.
    pub fn from_lowercase(text: &str) -> (r: Result<HeightLine, LapstrakeError>)
        ensures
            height_line_named(text@) matches Some(l) ==> r == Ok::<HeightLine, LapstrakeError>(
                l,
            ),
            height_line_named(text@) is None ==> (r matches Err(e) && e.is_load()),
    {
        proof {
            reveal_strlit("sheer");
            assert("sheer"@ =~= sheer_text());
        }
        if same_text(text, "sheer") {
            Ok(HeightLine::Sheer)
        } else {
            match Feet::parse(text) {
                Ok(f) => Ok(HeightLine::WLUp(f)),
                Err(e) => Err(e.context("Was unable to read breadth.")),
            }
        }
    }
}

impl std::str::FromStr for BreadthLine {
    type Err = LapstrakeError;

    fn from_str(text: &str) -> Result<BreadthLine, LapstrakeError> {
        BreadthLine::from_text(text)
    }
}

impl std::str::FromStr for HeightLine {
    type Err = LapstrakeError;

    fn from_str(text: &str) -> Result<HeightLine, LapstrakeError> {
        HeightLine::from_text(text)
    }
}

impl PlankStation {
    /// A plank column header: a fore-aft position if it reads as a
    /// measurement, otherwise the name of a station.
    pub fn from_text(text: &str) -> (r: PlankStation)
        ensures
            parsed_cell(text@) matches Some(Some(f)) ==> r == PlankStation::Position(f),
            !(parsed_cell(text@) matches Some(Some(_))) ==> (r matches PlankStation::Station(name)
                && name@ == text@),
    {
        match Feet::parse(text) {
            Ok(feet) => PlankStation::Position(feet),
            Err(_) => PlankStation::Station(text.to_owned()),
        }
    }
}

} // verus!
