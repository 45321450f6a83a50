use lapstrake::error::LapstrakeError;
use lapstrake::plank::{find_station, outline};
use lapstrake::spec::{Data, PlankStation, Planks};
use lapstrake::style::{PathStyle2, SvgColor};

fn planks(rows: usize) -> Planks<f32> {
    Planks {
        stations: vec![
            PlankStation::Station("Stem".to_string()),
            PlankStation::Station("Mid".to_string()),
            PlankStation::Station("Post".to_string()),
        ],
        plank_locations: (0..rows)
            .map(|i| vec![Some(i as f32 / 10.0), None, Some(0.5)])
            .collect(),
    }
}

#[test]
fn plank_count_from_rows() {
    assert_eq!(planks(6).plank_pairs(), vec![(0, 1), (2, 3), (4, 5)]);
    assert_eq!(planks(5).plank_pairs(), vec![(0, 1), (2, 3)]);
    assert_eq!(planks(0).plank_pairs(), vec![]);
    for k in 0..8 {
        assert_eq!(planks(2 * k).plank_pairs().len(), k);
    }
}

#[test]
fn stations_in_a_plank_row() {
    let p = planks(2);
    assert_eq!(p.row_stations(0), vec![0, 2]);
    let mut q = planks(2);
    q.plank_locations[1] = vec![None, None, None, Some(1.0)];
    assert_eq!(q.row_stations(1), Vec::<usize>::new());
}

#[test]
fn outline_closes_the_plank() {
    let top = vec![1, 2, 3];
    let bottom = vec![4, 5, 6];
    assert_eq!(outline(&top, &bottom), vec![1, 2, 3, 6, 5, 4, 1]);
    assert_eq!(outline(&vec![7], &vec![]), vec![7, 7]);
}

#[test]
fn stations_by_name() {
    let names = vec!["Stem".to_string(), "Mid".to_string(), "Mid".to_string()];
    assert_eq!(find_station(&names, "Mid").unwrap(), 1);
    match find_station(&names, "Keel") {
        Err(LapstrakeError::General(message)) => assert_eq!(message, "Station Keel not found."),
        other => panic!("unexpected {:?}", other),
    }
    let data = Data {
        stations: names,
        positions: vec![],
        heights: vec![],
        breadths: vec![],
    };
    assert_eq!(data.station_index("Stem").unwrap(), 0);
}

#[test]
fn path_styles_and_colors() {
    assert!(!PathStyle2::Dots.has_line());
    assert!(PathStyle2::Line.has_line());
    assert!(PathStyle2::LineWithDots.has_line());
    assert!(PathStyle2::Dots.has_dots());
    assert!(!PathStyle2::Line.has_dots());
    assert!(PathStyle2::LineWithDots.has_dots());
    assert_eq!(SvgColor::Red.value(), "red");
    assert_eq!(SvgColor::Black.value(), "#000000");
    assert_eq!(SvgColor::DarkGrey.value(), "#b6b6b6");
}

#[test]
fn error_context_chain() {
    let e = LapstrakeError::Load.context("outer");
    match e {
        LapstrakeError::Context { message, cause } => {
            assert_eq!(message, "outer");
            assert!(matches!(*cause, LapstrakeError::Load));
        }
        other => panic!("unexpected {:?}", other),
    }
    let e = LapstrakeError::Spline.with_context(|| "built".to_string());
    assert!(matches!(e, LapstrakeError::Context { .. }));
}

#[test]
fn error_descriptions() {
    let e = LapstrakeError::Load
        .context("Invalid feet.")
        .context("failed to load data sheet");
    assert_eq!(
        e.describe(),
        "failed to load data sheet\n  caused by: Invalid feet.\n  caused by: Failed to load ship specification"
    );
    assert_eq!(LapstrakeError::General("boom".to_string()).describe(), "boom");
    assert_eq!(LapstrakeError::Spline.describe(), "Spline error");
    assert_eq!(LapstrakeError::Draw.describe(), "Failed to make 2d drawing");
}
