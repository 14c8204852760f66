use seance::bed::{bed_gcc_spirit, PrintBed};
use seance::default_passes::default_passes;
use seance::paths::{
    convert_points_to_plotter_units, filter_paths_to_tool_passes, mm_to_hpgl_units, offset_point,
    place_points, points_in_mm_to_printer_units, resolve_paths, DesignOffset, PathColour,
    PathInMM, PathsByColour, PointInMillimeters, ResolvedPoint, SampledPath,
};

/// Millimetres as the library's micrometres.
fn micrometres(mm: f32) -> i64 {
    (mm as f64 * 1000.0).round() as i64
}

fn at(x: f32, y: f32) -> PointInMillimeters {
    PointInMillimeters { x: micrometres(x), y: micrometres(y) }
}

#[test]
fn paths_test_mm_to_hpgl_units() {
    assert_eq!(mm_to_hpgl_units(micrometres(10.0), false), 18128, "10mm");
    assert_eq!(mm_to_hpgl_units(micrometres(0.0), true), 0, "0mm");
    assert_eq!(mm_to_hpgl_units(micrometres(-0.0), true), 0, "-0mm");

    // extreme values
    assert_eq!(mm_to_hpgl_units(micrometres(f32::MAX), true), 32767, "f32::MAX mm");
    assert_eq!(
        mm_to_hpgl_units(micrometres(819.175), true),
        32767,
        "approx maximum computable value"
    );
    assert_eq!(mm_to_hpgl_units(micrometres(f32::MIN), true), -32768, "f32::MIN mm");
    assert_eq!(
        mm_to_hpgl_units(micrometres(-820.0), true),
        -32768,
        "approx minimum computable value"
    );
}

#[test]
fn test_points_in_mm_to_printer_units() {
    let points = &[at(10.0, 10.0), at(11.0, 10.0)];
    let expected = &[ResolvedPoint { x: 400, y: 18128 }, ResolvedPoint { x: 440, y: 18128 }];

    assert_eq!(&points_in_mm_to_printer_units(points), expected);
}

#[test]
fn test_filter_paths_to_tool_passes() {
    let mut passes = default_passes();
    // enable black
    passes[0].set_enabled(true);

    let mut paths: PathsByColour<PathInMM> = PathsByColour::new();
    // black, is enabled
    paths.push_path(PathColour([0, 0, 0]), vec![at(15.0, 100.5)]);
    // dark grey, not used as a tool pass
    paths.push_path(PathColour([10, 10, 10]), vec![at(500.0, -10.0)]);
    // white - present but not enabled
    paths.push_path(PathColour([255, 255, 255]), vec![at(-1010.5, -f32::MAX)]);

    let mut expected: PathsByColour<PathInMM> = PathsByColour::new();
    expected.push_path(PathColour([0, 0, 0]), vec![at(15.0, 100.5)]);

    filter_paths_to_tool_passes(&mut paths, &passes);
    assert_eq!(paths, expected);
}

#[test]
fn filter_keeps_the_order_of_colours_and_paths() {
    let mut passes = default_passes();
    passes[1].set_enabled(true);
    passes[3].set_enabled(true);

    let mut paths: PathsByColour<PathInMM> = PathsByColour::new();
    paths.push_path(PathColour([0, 0, 255]), vec![at(1.0, 1.0)]);
    paths.push_path(PathColour([0, 0, 0]), vec![at(2.0, 2.0)]);
    paths.push_path(PathColour([255, 0, 0]), vec![at(3.0, 3.0)]);
    paths.push_path(PathColour([0, 0, 255]), vec![at(4.0, 4.0)]);
    paths.push_path(PathColour([0, 255, 0]), vec![at(5.0, 5.0)]);

    filter_paths_to_tool_passes(&mut paths, &passes);
    assert_eq!(paths.len(), 2);
    assert_eq!(paths.colour_at(0), PathColour([0, 0, 255]));
    assert_eq!(paths.colour_at(1), PathColour([255, 0, 0]));
    assert_eq!(paths.paths_at(0), &vec![vec![at(1.0, 1.0)], vec![at(4.0, 4.0)]]);
    assert_eq!(paths.get(&PathColour([255, 0, 0])), Some(&vec![vec![at(3.0, 3.0)]]));
    assert_eq!(paths.get(&PathColour([0, 0, 0])), None);
    assert_eq!(paths.get(&PathColour([0, 255, 0])), None);
}

#[test]
fn buckets_keep_insertion_order() {
    let mut paths: PathsByColour<u32> = PathsByColour::new();
    assert_eq!(paths.len(), 0);
    assert_eq!(paths.get(&PathColour([1, 2, 3])), None);
    paths.push_path(PathColour([1, 2, 3]), 10);
    paths.push_path(PathColour([3, 2, 1]), 20);
    paths.push_path(PathColour([1, 2, 3]), 30);
    assert_eq!(paths.len(), 2);
    assert_eq!(paths.get(&PathColour([1, 2, 3])), Some(&vec![10, 30]));
    assert_eq!(paths.get(&PathColour([3, 2, 1])), Some(&vec![20]));
    assert!(PathColour([1, 2, 3]).matches(&[1, 2, 3]));
    assert!(!PathColour([1, 2, 3]).matches(&[1, 2, 4]));
}

#[test]
fn offset_moves_right_and_down() {
    let mut point = at(1.5, -2.0);
    offset_point(&mut point, &DesignOffset { x: 100_000, y: 50_000 });
    assert_eq!(point, PointInMillimeters { x: 101_500, y: 48_000 });
}

#[test]
fn offset_there_and_back_is_the_identity() {
    let offset = DesignOffset { x: 123_456, y: -654_321 };
    let back = DesignOffset { x: -123_456, y: 654_321 };
    let start = at(17.25, 900.0);
    let mut point = start;
    offset_point(&mut point, &offset);
    assert_ne!(point, start);
    offset_point(&mut point, &back);
    assert_eq!(point, start);
}

#[test]
fn offset_stays_at_the_end_of_the_range() {
    let mut point = PointInMillimeters { x: i64::MAX, y: i64::MIN };
    offset_point(&mut point, &DesignOffset { x: 1, y: -1 });
    assert_eq!(point, PointInMillimeters { x: i64::MAX, y: i64::MIN });
    // ... so that the way back does not end where it began.
    offset_point(&mut point, &DesignOffset { x: -1, y: 1 });
    assert_eq!(point, PointInMillimeters { x: i64::MAX - 1, y: i64::MIN + 1 });
}

#[test]
fn default_offset_is_zero() {
    assert_eq!(DesignOffset::default(), DesignOffset { x: 0, y: 0 });
}

#[test]
fn resolve_closes_closed_paths_and_offsets_all() {
    let mut sampled: PathsByColour<SampledPath> = PathsByColour::new();
    sampled.push_path(
        PathColour([0, 0, 0]),
        SampledPath { points: vec![at(0.0, 0.0), at(10.0, 0.0), at(5.0, 5.0)], closed: true },
    );
    sampled.push_path(
        PathColour([255, 0, 0]),
        SampledPath { points: vec![at(1.0, 1.0), at(2.0, 2.0)], closed: false },
    );
    sampled.push_path(PathColour([0, 0, 0]), SampledPath { points: vec![], closed: true });

    let resolved = resolve_paths(&sampled, &DesignOffset { x: 1000, y: 2000 });
    assert_eq!(resolved.len(), 2);
    assert_eq!(
        resolved.get(&PathColour([0, 0, 0])),
        Some(&vec![vec![at(1.0, 2.0), at(11.0, 2.0), at(6.0, 7.0), at(1.0, 2.0)], vec![]])
    );
    assert_eq!(
        resolved.get(&PathColour([255, 0, 0])),
        Some(&vec![vec![at(2.0, 3.0), at(3.0, 4.0)]])
    );
}

#[test]
fn points_off_the_bed_split_the_polyline() {
    let bed = PrintBed::new((0, 100_000), false, (0, 100_000), false);
    let points = vec![
        at(-1.0, 0.0),
        at(1.0, 1.0),
        at(2.0, 2.0),
        at(200.0, 2.0),
        at(300.0, 2.0),
        at(3.0, 3.0),
        at(0.0, 101.0),
    ];
    assert_eq!(
        place_points(&points, &bed),
        vec![
            vec![ResolvedPoint { x: 40, y: 40 }, ResolvedPoint { x: 80, y: 80 }],
            vec![ResolvedPoint { x: 120, y: 120 }],
        ]
    );
    assert_eq!(place_points(&[], &bed), Vec::<Vec<ResolvedPoint>>::new());
    assert_eq!(place_points(&[at(-1.0, -1.0)], &bed), Vec::<Vec<ResolvedPoint>>::new());
}

#[test]
fn conversion_keeps_colours_and_order() {
    let bed = bed_gcc_spirit();
    let mut paths: PathsByColour<PathInMM> = PathsByColour::new();
    paths.push_path(PathColour([0, 0, 0]), vec![at(10.0, 10.0), at(11.0, 10.0)]);
    paths.push_path(PathColour([9, 9, 9]), vec![at(-5.0, 0.0)]);
    paths.push_path(PathColour([0, 0, 0]), vec![at(0.0, 0.0), at(-1.0, 0.0), at(1.0, 0.0)]);

    let resolved = convert_points_to_plotter_units(&paths, &bed);
    assert_eq!(resolved.len(), 2);
    assert_eq!(
        resolved.get(&PathColour([0, 0, 0])),
        Some(&vec![
            vec![ResolvedPoint { x: 400, y: 18128 }, ResolvedPoint { x: 440, y: 18128 }],
            vec![ResolvedPoint { x: 0, y: 18528 }],
            vec![ResolvedPoint { x: 40, y: 18528 }],
        ])
    );
    assert_eq!(resolved.get(&PathColour([9, 9, 9])), Some(&vec![]));
}
