use lapstrake::unit::Feet;

#[test]
fn test_units() {
    let x = Feet {
        feet: 2,
        inches: 3,
        eighths: 4,
    };

    // Parsing
    assert_eq!(Feet::parse("2-3-4").unwrap(), x);

    // Table form
    assert_eq!(&x.debug_text(), "2-3-4");

    // Fancy printing
    assert_eq!(
        &Feet {
            feet: 0,
            inches: 0,
            eighths: 0,
        }
        .to_text(),
        "0'"
    );
    assert_eq!(
        &Feet {
            feet: 0,
            inches: 30,
            eighths: 0,
        }
        .to_text(),
        "30\""
    );
    assert_eq!(
        &Feet {
            feet: 0,
            inches: 3,
            eighths: 4,
        }
        .to_text(),
        "3 4/8\""
    );
    assert_eq!(
        &Feet {
            feet: 2,
            inches: 0,
            eighths: 5,
        }
        .to_text(),
        "2' 0 5/8\""
    );
    assert_eq!(
        &Feet {
            feet: 0,
            inches: 0,
            eighths: 6,
        }
        .to_text(),
        "0 6/8\""
    );
}

#[test]
fn feet_with_all_parts_prints_all() {
    let f = Feet { feet: 12, inches: 7, eighths: 3 };
    assert_eq!(&f.to_text(), "12' 7 3/8\"");
    assert_eq!(&Feet { feet: 5, inches: 11, eighths: 0 }.to_text(), "5' 11\"");
    assert_eq!(&Feet { feet: 105, inches: 0, eighths: 0 }.debug_text(), "105-0-0");
}

#[test]
fn omitted_measurement() {
    assert_eq!(Feet::parse_opt("x").unwrap(), None);
    assert!(Feet::parse("x").is_err());
    assert_eq!(
        Feet::parse_opt("0-10-2").unwrap(),
        Some(Feet { feet: 0, inches: 10, eighths: 2 })
    );
}

#[test]
fn malformed_measurements_are_rejected() {
    assert!(Feet::parse("1-2").is_err());
    assert!(Feet::parse("1-2-3-4").is_err());
    assert!(Feet::parse("").is_err());
    assert!(Feet::parse("1--3").is_err());
    assert!(Feet::parse("a-2-3").is_err());
    assert!(Feet::parse("1-2-3 ").is_err());
    assert!(Feet::parse("X").is_err());
    assert!(Feet::from_text("x").is_err());
}

#[test]
fn numbers_in_measurements() {
    assert_eq!(Feet::parse_usize("0").unwrap(), 0);
    assert_eq!(Feet::parse_usize("+17").unwrap(), 17);
    assert_eq!(Feet::parse_usize("4294967295").unwrap(), u32::MAX);
    assert!(Feet::parse_usize("4294967296").is_err());
    assert!(Feet::parse_usize("+").is_err());
    assert!(Feet::parse_usize("-1").is_err());
    assert!(Feet::parse_usize("").is_err());
    assert_eq!(
        Feet::parse("+1-02-3").unwrap(),
        Feet { feet: 1, inches: 2, eighths: 3 }
    );
}

#[test]
fn zero_and_total() {
    assert_eq!(Feet::zero(), Feet { feet: 0, inches: 0, eighths: 0 });
    assert_eq!(Feet { feet: 1, inches: 2, eighths: 3 }.total_eighths(), 96 + 16 + 3);
}
