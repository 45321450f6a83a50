use lapstrake::spline::{sample_plan, SamplePoint, Segment};

#[test]
fn segment_indices() {
    assert_eq!(Segment::First.index(), 0);
    assert_eq!(Segment::Middle.index(), 1);
    assert_eq!(Segment::Last.index(), 2);
}

#[test]
fn plan_for_four_points() {
    // One window: its first, middle and last segments, and the end point.
    let plan = sample_plan(4, 2);
    assert_eq!(plan.len(), 7);
    let expected = vec![
        SamplePoint { window: 0, segment: Segment::First, step: 0 },
        SamplePoint { window: 0, segment: Segment::First, step: 1 },
        SamplePoint { window: 0, segment: Segment::Middle, step: 0 },
        SamplePoint { window: 0, segment: Segment::Middle, step: 1 },
        SamplePoint { window: 0, segment: Segment::Last, step: 0 },
        SamplePoint { window: 0, segment: Segment::Last, step: 1 },
        SamplePoint { window: 0, segment: Segment::Last, step: 2 },
    ];
    assert_eq!(plan, expected);
}

#[test]
fn plan_sample_count() {
    for n in 4..10 {
        for r in 1..6 {
            let plan = sample_plan(n, r);
            assert_eq!(plan.len(), r * (n - 1) + 1);
            assert_eq!(plan[0], SamplePoint { window: 0, segment: Segment::First, step: 0 });
            assert_eq!(
                plan[plan.len() - 1],
                SamplePoint { window: n - 4, segment: Segment::Last, step: r }
            );
        }
    }
}

#[test]
fn plan_middle_windows_in_order() {
    let plan = sample_plan(6, 3);
    // First segment (3), middles of windows 0, 1, 2 (9), last segment and end (4).
    assert_eq!(plan.len(), 16);
    assert_eq!(plan[3], SamplePoint { window: 0, segment: Segment::Middle, step: 0 });
    assert_eq!(plan[7], SamplePoint { window: 1, segment: Segment::Middle, step: 1 });
    assert_eq!(plan[11], SamplePoint { window: 2, segment: Segment::Middle, step: 2 });
    assert_eq!(plan[12], SamplePoint { window: 2, segment: Segment::Last, step: 0 });
}
