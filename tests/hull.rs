use lapstrake::hull::{remove_duplicates, sort_points_by_height, RefPoint};
use lapstrake::spec::{BreadthLine, Config, Data, HeightLine, Planks, Spec};
use lapstrake::unit::Feet;

fn ft(text: &str) -> Feet {
    Feet::parse(text).unwrap()
}

fn cells(texts: &[&str]) -> Vec<Option<Feet>> {
    texts.iter().map(|t| Feet::parse_opt(t).unwrap()).collect()
}

fn pt(position: &str, breadth: &str, height: &str) -> RefPoint {
    RefPoint {
        position: ft(position),
        breadth: ft(breadth),
        height: ft(height),
    }
}

fn sample_spec() -> Spec<f32> {
    let data = Data {
        stations: vec!["A".to_string(), "B".to_string()],
        positions: vec![
            (HeightLine::Sheer, cells(&["0-0-0", "5-0-0"])),
            (HeightLine::WLUp(ft("1-0-0")), cells(&["0-0-1", "5-0-1"])),
            (HeightLine::WLUp(ft("2-0-0")), cells(&["0-0-2", "5-0-2"])),
        ],
        heights: vec![
            (BreadthLine::Sheer, cells(&["3-0-0", "3-1-0"])),
            (BreadthLine::Wale, cells(&["2-6-0", "x"])),
            (BreadthLine::ButOut(ft("1-0-0")), cells(&["0-6-0", "0-7-0"])),
            (BreadthLine::ButOut(ft("1-10-0")), cells(&["x", "2-0-1"])),
        ],
        breadths: vec![
            (HeightLine::Sheer, cells(&["2-0-0", "2-2-0"])),
            (HeightLine::WLUp(ft("1-0-0")), cells(&["1-6-0", "1-7-0"])),
            (HeightLine::WLUp(ft("2-0-0")), cells(&["1-10-0", "1-10-0"])),
        ],
    };
    Spec {
        data,
        planks: Planks {
            stations: vec![],
            plank_locations: vec![],
        },
        config: Config { resolution: 4 },
    }
}

#[test]
fn station_points_sorted_by_height() {
    let spec = sample_spec();
    assert!(spec.data.has_all_columns());
    let points = spec.station_points(0).unwrap();
    assert_eq!(
        points,
        vec![
            pt("0-0-0", "1-0-0", "0-6-0"),
            pt("0-0-1", "1-6-0", "1-0-0"),
            pt("0-0-2", "1-10-0", "2-0-0"),
            pt("0-0-0", "2-0-0", "3-0-0"),
        ]
    );
}

#[test]
fn station_points_drop_near_duplicates() {
    let spec = sample_spec();
    // The buttock point at 2-0-1 high is an eighth of an inch from the
    // waterline point at 2-0-0 (and differs by 2/8" fore-aft), so it goes.
    let points = spec.station_points(1).unwrap();
    assert_eq!(
        points,
        vec![
            pt("5-0-0", "1-0-0", "0-7-0"),
            pt("5-0-1", "1-7-0", "1-0-0"),
            pt("5-0-2", "1-10-0", "2-0-0"),
            pt("5-0-0", "2-2-0", "3-1-0"),
        ]
    );
}

#[test]
fn missing_waterline_position_is_an_error() {
    let mut spec = sample_spec();
    spec.data.positions.pop();
    assert!(spec.station_points(0).is_err());
}

#[test]
fn missing_sheer_is_an_error() {
    let mut spec = sample_spec();
    spec.data.heights[0].1[1] = None;
    assert!(spec.station_points(1).is_err());
    assert!(spec.station_points(0).is_ok());
}

#[test]
fn wale_and_line_lists() {
    let spec = sample_spec();
    assert_eq!(spec.wale_points(0).unwrap(), vec![(ft("0-0-0"), ft("2-6-0"))]);
    assert_eq!(spec.wale_points(1).unwrap(), vec![]);
    assert_eq!(spec.get_breadths(), vec![ft("1-0-0"), ft("1-10-0")]);
    assert_eq!(spec.get_heights(), vec![ft("1-0-0"), ft("2-0-0")]);
}

#[test]
fn lookups_take_first_measured_row() {
    let mut spec = sample_spec();
    assert_eq!(spec.get_sheer_breadth(1).unwrap(), ft("2-2-0"));
    assert_eq!(spec.get_sheer_height(0).unwrap(), ft("3-0-0"));
    assert_eq!(spec.get_station_position(1, HeightLine::WLUp(ft("2-0-0"))).unwrap(), ft("5-0-2"));
    spec.data.breadths.insert(0, (HeightLine::Sheer, cells(&["x", "9-0-0"])));
    assert_eq!(spec.get_sheer_breadth(0).unwrap(), ft("2-0-0"));
    assert_eq!(spec.get_sheer_breadth(1).unwrap(), ft("9-0-0"));
    assert!(spec.get_station_position(0, HeightLine::WLUp(ft("7-0-0"))).is_err());
}

#[test]
fn coincident_points_collapse() {
    let p = pt("0-0-0", "0-0-0", "0-0-0");
    let q = pt("0-0-0", "1-0-0", "1-0-0");
    let r = pt("0-0-0", "2-0-0", "2-0-0");
    assert_eq!(remove_duplicates(&vec![p, p, q, r]), remove_duplicates(&vec![p, q, r]));
    assert_eq!(remove_duplicates(&vec![p, p, q, r]), vec![p, q, r]);
    assert_eq!(remove_duplicates(&vec![]), vec![]);
}

#[test]
fn near_duplicate_threshold() {
    let p = pt("0-0-0", "0-0-0", "0-0-0");
    // 4.8 eighths is the threshold: 4 eighths is near, 5 eighths is far.
    let near = pt("0-0-0", "0-0-0", "0-0-4");
    let far = pt("0-0-0", "0-0-0", "0-0-5");
    assert_eq!(remove_duplicates(&vec![p, near]), vec![p]);
    assert_eq!(remove_duplicates(&vec![p, far]), vec![p, far]);
    // Each point is compared with the one just before it in the input.
    let a = pt("0-0-0", "0-0-0", "0-0-3");
    let b = pt("0-0-0", "0-0-0", "0-0-6");
    assert_eq!(remove_duplicates(&vec![p, a, b]), vec![p]);
}

#[test]
fn sort_keeps_order_of_equal_heights() {
    let a = pt("0-0-0", "1-0-0", "1-0-0");
    let b = pt("0-0-0", "2-0-0", "0-6-0");
    let c = pt("0-0-0", "3-0-0", "1-0-0");
    assert_eq!(sort_points_by_height(&vec![a, b, c]), vec![b, a, c]);
    assert_eq!(sort_points_by_height(&vec![c, b, a]), vec![b, c, a]);
}
