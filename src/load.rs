//! Reading the data sheet's records into measurement tables.
//!
//! The sheet is a table of text cells. Its header row names the stations.
//! Then come sections, each a row holding the section's name followed by data
//! rows: a line name and one measurement cell per station.
use vstd::prelude::*;

use crate::error::LapstrakeError;
use crate::spec::{
    breadth_line_named, height_line_named, lower_of, lowercase, same_text, BreadthLine, Data,
    DataRow, HeightLine,
};
use crate::unit::{parsed_cell, Feet};

verus! {

/// The sections of the data sheet.
#[derive(Clone, Copy, PartialEq, Eq, Structural, Debug)]
pub enum Section {
    Positions,
    Heights,
    Breadths,
}

/// The section that a lowercased name names.
pub open spec fn section_named(s: Seq<char>) -> Option<Section> {
    if s == seq!['f', 'o', 'r', 'e', '-', 'a', 'f', 't', ' ', 'p', 'o', 's', 'i', 't', 'i', 'o', 'n'] {
        Some(Section::Positions)
    } else if s == seq!['h', 'e', 'i', 'g', 'h', 't'] {
        Some(Section::Heights)
    } else if s == seq!['b', 'r', 'e', 'a', 'd', 't', 'h'] {
        Some(Section::Breadths)
    } else {
        None
    }
}

/// A data row has a line name and at least one cell, the second of which,
/// if present, is not blank.
pub open spec fn is_data_row(r: Seq<String>) -> bool {
    r.len() >= 2 && (r.len() < 3 || r[2]@.len() != 0)
}

/// The measurement cells of a row, from column `k` on; None if one is unreadable.
pub open spec fn row_cells(r: Seq<String>, k: int) -> Option<Seq<Option<Feet>>>
    decreases r.len() - k,
{
    if k < 0 || k >= r.len() {
        Some(seq![])
    } else {
        match (parsed_cell(r[k]@), row_cells(r, k + 1)) {
            (Some(c), Some(rest)) => Some(seq![c] + rest),
            _ => None,
        }
    }
}

/// A row as plain values: its line and its cells.
pub type RowView<M> = (M, Seq<Option<Feet>>);

/// The three tables as plain values: positions, heights, breadths.
pub type TablesView = (Seq<RowView<HeightLine>>, Seq<RowView<BreadthLine>>, Seq<RowView<HeightLine>>);

pub open spec fn rows_view<M>(rows: Seq<DataRow<M>>) -> Seq<RowView<M>> {
    rows.map_values(|r: DataRow<M>| (r.0, r.1@))
}

/// Reading one record, in the current section (if any), into the tables.
/// A data row inside a section goes to that section's table; any other row
/// names the next section.
pub open spec fn read_record(state: (Option<Section>, TablesView), r: Seq<String>) -> Option<
    (Option<Section>, TablesView),
> {
    let (section, t) = state;
    if section is Some && is_data_row(r) {
        match row_cells(r, 1) {
            None => None,
            Some(cells) => match section->Some_0 {
                Section::Heights => match breadth_line_named(lower_of(r[0]@)) {
                    Some(l) => Some((section, (t.0, t.1.push((l, cells)), t.2))),
                    None => None,
                },
                Section::Positions => match height_line_named(lower_of(r[0]@)) {
                    Some(l) => Some((section, (t.0.push((l, cells)), t.1, t.2))),
                    None => None,
                },
                Section::Breadths => match height_line_named(lower_of(r[0]@)) {
                    Some(l) => Some((section, (t.0, t.1, t.2.push((l, cells))))),
                    None => None,
                },
            },
        }
    } else if r.len() == 0 {
        None
    } else {
        match section_named(lower_of(r[0]@)) {
            Some(s) => Some((Some(s), t)),
            None => None,
        }
    }
}

/// The state after reading the first `k` records; None once one is unreadable.
pub open spec fn read_records(records: Seq<Seq<String>>, k: int) -> Option<
    (Option<Section>, TablesView),
>
    decreases k,
{
    if k <= 0 {
        Some((None, (seq![], seq![], seq![])))
    } else {
        match read_records(records, k - 1) {
            Some(state) => read_record(state, records[k - 1]),
            None => None,
        }
    }
}

proof fn lemma_unreadable_stays(records: Seq<Seq<String>>, k: int, m: int)
    requires
        0 <= k <= m,
        read_records(records, k) is None,
    ensures
        read_records(records, m) is None,
    decreases m - k,
{
    if k < m {
        lemma_unreadable_stays(records, k, m - 1);
    }
}

/// The section that a lowercased name names.
pub fn section_from_lowercase(name: &str) -> (r: Result<Section, LapstrakeError>)
    ensures
        section_named(name@) matches Some(s) ==> r == Ok::<Section, LapstrakeError>(s),
        section_named(name@) is None ==> (r matches Err(e) && e.is_load()),
{
    proof {
        reveal_strlit("fore-aft position");
        reveal_strlit("height");
        reveal_strlit("breadth");
        assert("fore-aft position"@ =~= seq![
            'f',
            'o',
            'r',
            'e',
            '-',
            'a',
            'f',
            't',
            ' ',
            'p',
            'o',
            's',
            'i',
            't',
            'i',
            'o',
            'n',
        ]);
        assert("height"@ =~= seq!['h', 'e', 'i', 'g', 'h', 't']);
        assert("breadth"@ =~= seq!['b', 'r', 'e', 'a', 'd', 't', 'h']);
    }
    if same_text(name, "fore-aft position") {
        Ok(Section::Positions)
    } else if same_text(name, "height") {
        Ok(Section::Heights)
    } else if same_text(name, "breadth") {
        Ok(Section::Breadths)
    } else {
        let mut message = String::from_str("Did not recognize the name ");
        message.append(name);
        message.append(
            ". Expected one of these section names: Height, Breadth, Fore-Aft Position.",
        );
        Err(LapstrakeError::Load.context(message.as_str()))
    }
}

/// Whether a record is a data row.
pub fn data_row(record: &Vec<String>) -> (r: bool)
    ensures
        r == is_data_row(record@),
{
    record.len() >= 2 && (record.len() < 3 || record[2].as_str().unicode_len() != 0)
}

/// The measurement cells of a record, after its first column.
fn read_cells(record: &Vec<String>) -> (r: Result<Vec<Option<Feet>>, LapstrakeError>)
    ensures
        row_cells(record@, 1) matches Some(c) ==> (r matches Ok(v) && v@ == c),
        row_cells(record@, 1) is None ==> (r matches Err(e) && e.is_load()),
{
    let mut cells: Vec<Option<Feet>> = Vec::new();
    let mut k: usize = 1;
    if record.len() == 0 {
        return Ok(cells);
    }
    while k < record.len()
        invariant
            1 <= k <= record@.len(),
            row_cells(record@, 1) == match row_cells(record@, k as int) {
                Some(rest) => Some(cells@ + rest),
                None => None::<Seq<Option<Feet>>>,
            },
        decreases record.len() - k,
    {
        let cell = match Feet::parse_opt(record[k].as_str()) {
            Ok(c) => c,
            Err(e) => return Err(e),
        };
        let ghost before = cells@;
        cells.push(cell);
        proof {
            if let Some(rest) = row_cells(record@, k + 1) {
                assert(before + (seq![cell] + rest) =~= cells@ + rest);
            }
        }
        k = k + 1;
    }
    assert(cells@ + seq![] =~= cells@);
    Ok(cells)
}

/// Push a row onto a table, keeping the table's view in step.
fn push_row<M>(table: &mut Vec<DataRow<M>>, line: M, cells: Vec<Option<Feet>>)
    ensures
        rows_view(final(table)@) == rows_view(old(table)@).push((line, cells@)),
{
    let ghost c = cells@;
    table.push((line, cells));
    assert(rows_view(final(table)@) =~= rows_view(old(table)@).push((line, c)));
}

impl Data {
    /// Read the data sheet from its header row and its other records.
    pub fn from_records(headers: &Vec<String>, records: &Vec<Vec<String>>) -> (r: Result<
        Data,
        LapstrakeError,
    >)
        ensures
            read_records(records@.map_values(|v: Vec<String>| v@), records@.len() as int) matches Some(
                (_, t),
            ) ==> (r matches Ok(d) && rows_view(d.positions@) == t.0 && rows_view(d.heights@)
                == t.1 && rows_view(d.breadths@) == t.2 && (if headers@.len() == 0 {
                d.stations@.len() == 0
            } else {
                d.stations@ == headers@.skip(1)
            })),
            read_records(records@.map_values(|v: Vec<String>| v@), records@.len() as int) is None
                ==> (r matches Err(e) && e.is_load()),
    {
        let ghost recs = records@.map_values(|v: Vec<String>| v@);
        let mut stations: Vec<String> = Vec::new();
        let mut h: usize = 1;
        while h < headers.len()
            invariant
                1 <= h,
                h <= headers@.len() || headers@.len() == 0,
                headers@.len() > 0 ==> stations@ == headers@.subrange(1, h as int),
                headers@.len() == 0 ==> stations@.len() == 0,
            decreases headers.len() - h,
        {
            stations.push(headers[h].clone());
            assert(stations@ =~= headers@.subrange(1, h + 1));
            h = h + 1;
        }
        if headers.len() > 0 {
            assert(stations@ =~= headers@.skip(1));
        }
        let mut positions: Vec<DataRow<HeightLine>> = Vec::new();
        let mut heights: Vec<DataRow<BreadthLine>> = Vec::new();
        let mut breadths: Vec<DataRow<HeightLine>> = Vec::new();
        let mut section: Option<Section> = None;
        let mut k: usize = 0;
        assert(rows_view(positions@) =~= seq![]);
        assert(rows_view(heights@) =~= seq![]);
        assert(rows_view(breadths@) =~= seq![]);
        while k < records.len()
            invariant
                k <= records@.len(),
                recs == records@.map_values(|v: Vec<String>| v@),
                read_records(recs, k as int) == Some(
                    (section, (rows_view(positions@), rows_view(heights@), rows_view(breadths@))),
                ),
            decreases records.len() - k,
        {
            let record = &records[k];
            assert(recs[k as int] == record@);
            let is_data = match section {
                Some(_) => data_row(record),
                None => false,
            };
            if is_data {
                let cells = match read_cells(record) {
                    Ok(c) => c,
                    Err(e) => {
                        proof {
                            lemma_unreadable_stays(recs, k + 1, records@.len() as int);
                        }
                        return Err(e.context("Could not parse the rows of a section."));
                    },
                };
                let head = lowercase(record[0].as_str());
                match section {
                    Some(Section::Heights) => match BreadthLine::from_lowercase(head.as_str()) {
                        Ok(line) => push_row(&mut heights, line, cells),
                        Err(e) => {
                            proof {
                                lemma_unreadable_stays(recs, k + 1, records@.len() as int);
                            }
                            return Err(e.context("Could not parse the rows of a section."));
                        },
                    },
                    Some(Section::Positions) => match HeightLine::from_lowercase(head.as_str()) {
                        Ok(line) => push_row(&mut positions, line, cells),
                        Err(e) => {
                            proof {
                                lemma_unreadable_stays(recs, k + 1, records@.len() as int);
                            }
                            return Err(e.context("Could not parse the rows of a section."));
                        },
                    },
                    _ => match HeightLine::from_lowercase(head.as_str()) {
                        Ok(line) => push_row(&mut breadths, line, cells),
                        Err(e) => {
                            proof {
                                lemma_unreadable_stays(recs, k + 1, records@.len() as int);
                            }
                            return Err(e.context("Could not parse the rows of a section."));
                        },
                    },
                }
            } else {
                if record.len() == 0 {
                    proof {
                        lemma_unreadable_stays(recs, k + 1, records@.len() as int);
                    }
                    return Err(
                        LapstrakeError::Load.context("Expected section name, found blank line."),
                    );
                }
                let name = lowercase(record[0].as_str());
                match section_from_lowercase(name.as_str()) {
                    Ok(s) => {
                        section = Some(s);
                    },
                    Err(e) => {
                        proof {
                            lemma_unreadable_stays(recs, k + 1, records@.len() as int);
                        }
                        return Err(e);
                    },
                }
            }
            k = k + 1;
        }
        Ok(Data { stations, positions, heights, breadths })
    }

    /// Whether every table has a cell for each station.
    pub fn has_all_columns(&self) -> (r: bool)
        ensures
            r == self.well_formed(),
    {
        let n = self.stations.len();
        let a = columns_at_least(&self.positions, n);
        let b = columns_at_least(&self.heights, n);
        let c = columns_at_least(&self.breadths, n);
        proof {
            if a && b && c {
                assert forall|i: int| 0 <= i < n implies crate::spec::has_column(
                    self.positions@,
                    i,
                ) && crate::spec::has_column(self.heights@, i) && crate::spec::has_column(
                    self.breadths@,
                    i,
                ) by {}
            } else if n > 0 {
                assert(!(crate::spec::has_column(self.positions@, n - 1) && crate::spec::has_column(
                    self.heights@,
                    n - 1,
                ) && crate::spec::has_column(self.breadths@, n - 1)));
            }
        }
        a && b && c
    }
}

/// Whether every row has at least `n` cells.
fn columns_at_least<M>(rows: &Vec<DataRow<M>>, n: usize) -> (r: bool)
    ensures
        r == (forall|k: int| 0 <= k < rows@.len() ==> n <= (#[trigger] rows@[k]).1@.len()),
{
    let mut k: usize = 0;
    while k < rows.len()
        invariant
            k <= rows@.len(),
            forall|m: int| 0 <= m < k ==> n <= (#[trigger] rows@[m]).1@.len(),
        decreases rows.len() - k,
    {
        if rows[k].1.len() < n {
            return false;
        }
        k = k + 1;
    }
    true
}

} // verus!
