use seance::bed::{bed_gcc_spirit, PrintBed};
use seance::paths::{PointInMillimeters, ResolvedPoint};

/// Millimetres as the library's micrometres.
fn um(mm: f32) -> i64 {
    (mm as f64 * 1000.0).round() as i64
}

fn point(x: f32, y: f32) -> PointInMillimeters {
    PointInMillimeters { x: um(x), y: um(y) }
}

#[test]
fn bed_test_mm_to_hpgl_units() {
    let bed = bed_gcc_spirit();

    assert_eq!(bed.place_point(point(10.0, 10.0)).unwrap(), ResolvedPoint { x: 400, y: 18128 }, "10mm");
    assert_eq!(bed.place_point(point(0.0, 0.0)).unwrap(), ResolvedPoint { x: 0, y: 18528 }, "0mm");
    assert_eq!(bed.place_point(point(-0.0, -0.0)).unwrap(), ResolvedPoint { x: 0, y: 18528 }, "-0mm");

    // extreme values
    assert!(bed.place_point(point(f32::MAX, f32::MAX)).is_none(), "f32::MAX mm");
    assert_eq!(
        bed.place_point(point(819.175, 462.0)).unwrap(),
        ResolvedPoint { x: 32767, y: 48 },
        "bed maximum"
    );
    assert!(bed.place_point(point(f32::MIN, f32::MIN)).is_none(), "f32::MIN mm");
    assert!(bed.place_point(point(-818.0, -818.0)).is_none(), "negative values");
}

#[test]
fn default_bed_is_clamped_to_what_hpgl_can_hold() {
    let bed = bed_gcc_spirit();
    assert_eq!(bed.x_axis(), (0, 819_175));
    assert_eq!(bed.y_axis(), (0, 463_200));
    assert!(!bed.mirror_x());
    assert!(bed.mirror_y());
    assert_eq!(bed.width(), 819_175);
    assert_eq!(bed.height(), 463_200);
}

#[test]
fn axis_limits_are_clamped() {
    let bed = PrintBed::new((-900_000, 900_000), false, (-819_200, 819_175), false);
    assert_eq!(bed.x_axis(), (-819_200, 819_175));
    assert_eq!(bed.y_axis(), (-819_200, 819_175));
    assert_eq!(bed.width(), 1_638_375);
}

#[test]
fn mirrored_far_corner_is_the_origin() {
    let bed = PrintBed::new((0, 300_000), true, (0, 200_000), true);
    assert_eq!(
        bed.place_point(PointInMillimeters { x: 300_000, y: 200_000 }),
        Some(ResolvedPoint { x: 0, y: 0 })
    );
    assert_eq!(
        bed.place_point(PointInMillimeters { x: 0, y: 0 }),
        Some(ResolvedPoint { x: 12000, y: 8000 })
    );
}

#[test]
fn points_off_the_bed_are_not_placed() {
    let bed = PrintBed::new((0, 100_000), false, (0, 100_000), false);
    assert_eq!(bed.place_point(PointInMillimeters { x: 100_001, y: 0 }), None);
    assert_eq!(bed.place_point(PointInMillimeters { x: 0, y: -1 }), None);
    assert_eq!(
        bed.place_point(PointInMillimeters { x: 100_000, y: 100_000 }),
        Some(ResolvedPoint { x: 4000, y: 4000 })
    );
}

#[test]
fn lengths_round_to_the_nearest_plotter_unit() {
    let bed = PrintBed::new((-100_000, 100_000), false, (-100_000, 100_000), false);
    assert_eq!(
        bed.place_point(PointInMillimeters { x: 12, y: 13 }),
        Some(ResolvedPoint { x: 0, y: 1 })
    );
    assert_eq!(
        bed.place_point(PointInMillimeters { x: -12, y: -13 }),
        Some(ResolvedPoint { x: 0, y: -1 })
    );
    assert_eq!(
        bed.place_point(PointInMillimeters { x: 37, y: 38 }),
        Some(ResolvedPoint { x: 1, y: 2 })
    );
}

#[test]
fn mirrored_bed_below_zero_overflows_plotter_units() {
    // A mirrored axis from the lowest limit to the highest counts up to
    // 65535 plotter units at its start, which sixteen bits cannot hold.
    let bed = PrintBed::new((-819_200, 819_175), true, (0, 10_000), false);
    assert_eq!(bed.place_point(PointInMillimeters { x: -819_200, y: 0 }), None);
    assert_eq!(
        bed.place_point(PointInMillimeters { x: 0, y: 0 }),
        Some(ResolvedPoint { x: 32767, y: 0 })
    );
}
