use lapstrake::load::{data_row, section_from_lowercase, Section};
use lapstrake::spec::{BreadthLine, Data, HeightLine, PlankStation};
use lapstrake::unit::Feet;

fn rec(cells: &[&str]) -> Vec<String> {
    cells.iter().map(|c| c.to_string()).collect()
}

fn ft(text: &str) -> Feet {
    Feet::parse(text).unwrap()
}

#[test]
fn data_sheet_sections() {
    let headers = rec(&["", "Stem", "Post"]);
    let records = vec![
        rec(&["Fore-Aft Position", "", ""]),
        rec(&["Sheer", "0-0-0", "5-0-0"]),
        rec(&["1-0-0", "0-0-1", "x"]),
        rec(&["Height", "", ""]),
        rec(&["SHEER", "3-0-0", "3-1-0"]),
        rec(&["wale", "2-6-0", "x"]),
        rec(&["1-0-0", "0-6-0", "0-7-0"]),
        rec(&["Breadth", "", ""]),
        rec(&["Sheer", "2-0-0", "2-2-0"]),
    ];
    let data = Data::from_records(&headers, &records).unwrap();
    assert_eq!(data.stations, vec!["Stem".to_string(), "Post".to_string()]);
    assert_eq!(data.positions.len(), 2);
    assert_eq!(data.positions[0].0, HeightLine::Sheer);
    assert_eq!(data.positions[1], (HeightLine::WLUp(ft("1-0-0")), vec![Some(ft("0-0-1")), None]));
    assert_eq!(data.heights.len(), 3);
    assert_eq!(data.heights[0].0, BreadthLine::Sheer);
    assert_eq!(data.heights[1], (BreadthLine::Wale, vec![Some(ft("2-6-0")), None]));
    assert_eq!(data.heights[2].0, BreadthLine::ButOut(ft("1-0-0")));
    assert_eq!(data.breadths, vec![(HeightLine::Sheer, vec![Some(ft("2-0-0")), Some(ft("2-2-0"))])]);
    assert!(data.has_all_columns());
}

#[test]
fn data_sheet_errors() {
    let headers = rec(&["", "Stem"]);
    // Unknown section name.
    assert!(Data::from_records(&headers, &vec![rec(&["Widths", ""])]).is_err());
    // A data row before any section.
    assert!(Data::from_records(&headers, &vec![rec(&["Sheer", "1-0-0"])]).is_err());
    // An unreadable cell.
    assert!(Data::from_records(
        &headers,
        &vec![rec(&["Height", ""]), rec(&["Sheer", "1-0"])]
    )
    .is_err());
    // A breadth line name in the breadth table, which is keyed by height lines.
    assert!(Data::from_records(
        &headers,
        &vec![rec(&["Breadth", ""]), rec(&["Wale", "1-0-0"])]
    )
    .is_err());
    // No records at all is an empty sheet.
    let empty = Data::from_records(&headers, &vec![]).unwrap();
    assert!(empty.positions.is_empty() && empty.heights.is_empty() && empty.breadths.is_empty());
}

#[test]
fn short_rows_fail_the_column_check() {
    let headers = rec(&["", "Stem", "Post"]);
    let records = vec![rec(&["Height", "", ""]), rec(&["Sheer", "1-0-0"])];
    let data = Data::from_records(&headers, &records).unwrap();
    assert!(!data.has_all_columns());
}

#[test]
fn section_names_and_rows() {
    assert_eq!(section_from_lowercase("height").unwrap(), Section::Heights);
    assert_eq!(section_from_lowercase("breadth").unwrap(), Section::Breadths);
    assert_eq!(section_from_lowercase("fore-aft position").unwrap(), Section::Positions);
    assert!(section_from_lowercase("Height").is_err());
    assert!(data_row(&rec(&["a", "b"])));
    assert!(data_row(&rec(&["a", "", "c"])));
    assert!(!data_row(&rec(&["a", "b", ""])));
    assert!(!data_row(&rec(&["a"])));
}

#[test]
fn line_names() {
    assert_eq!(BreadthLine::from_text("Sheer").unwrap(), BreadthLine::Sheer);
    assert_eq!(BreadthLine::from_text("WALE").unwrap(), BreadthLine::Wale);
    assert_eq!(BreadthLine::from_text("1-2-3").unwrap(), BreadthLine::ButOut(ft("1-2-3")));
    assert!(BreadthLine::from_text("keel").is_err());
    assert_eq!(HeightLine::from_text("sheer").unwrap(), HeightLine::Sheer);
    assert_eq!(HeightLine::from_text("0-6-0").unwrap(), HeightLine::WLUp(ft("0-6-0")));
    assert!(HeightLine::from_text("wale").is_err());
    assert!(BreadthLine::from_lowercase("Sheer").is_err());
}

#[test]
fn plank_station_headers() {
    match PlankStation::from_text("3-4-0") {
        PlankStation::Position(f) => assert_eq!(f, ft("3-4-0")),
        other => panic!("unexpected {:?}", other),
    }
    match PlankStation::from_text("Stem") {
        PlankStation::Station(name) => assert_eq!(name, "Stem"),
        other => panic!("unexpected {:?}", other),
    }
}

#[test]
fn line_names_from_str() {
    let b: BreadthLine = "Wale".parse().unwrap();
    assert_eq!(b, BreadthLine::Wale);
    let h: HeightLine = "2-0-0".parse().unwrap();
    assert_eq!(h, HeightLine::WLUp(ft("2-0-0")));
    assert!("2-0".parse::<HeightLine>().is_err());
}
