use seance::design_move::DesignMoveDirection;
use seance::paths::DesignOffset;

const START: DesignOffset = DesignOffset { x: 100_000, y: 50_000 };

#[test]
fn straight_moves_go_the_whole_step() {
    assert_eq!(DesignMoveDirection::Up.apply(&START, 10_000), DesignOffset { x: 100_000, y: 40_000 });
    assert_eq!(DesignMoveDirection::Down.apply(&START, 10_000), DesignOffset { x: 100_000, y: 60_000 });
    assert_eq!(DesignMoveDirection::Left.apply(&START, 10_000), DesignOffset { x: 90_000, y: 50_000 });
    assert_eq!(DesignMoveDirection::Right.apply(&START, 10_000), DesignOffset { x: 110_000, y: 50_000 });
}

#[test]
fn diagonal_moves_are_as_long_as_straight_ones() {
    // Ten millimetres over the square root of two are 7.071 mm.
    assert_eq!(
        DesignMoveDirection::UpAndLeft.apply(&START, 10_000),
        DesignOffset { x: 92_929, y: 42_929 }
    );
    assert_eq!(
        DesignMoveDirection::UpAndRight.apply(&START, 10_000),
        DesignOffset { x: 107_071, y: 42_929 }
    );
    assert_eq!(
        DesignMoveDirection::DownAndLeft.apply(&START, 10_000),
        DesignOffset { x: 92_929, y: 57_071 }
    );
    assert_eq!(
        DesignMoveDirection::DownAndRight.apply(&START, 10_000),
        DesignOffset { x: 107_071, y: 57_071 }
    );
}

#[test]
fn diagonal_sides_are_rounded_to_the_nearest() {
    let origin = DesignOffset { x: 0, y: 0 };
    let side = |step: i64| DesignMoveDirection::DownAndRight.apply(&origin, step).x;
    for step in 0..2000i64 {
        let expected = (step as f64 / 2f64.sqrt()).round() as i64;
        assert_eq!(side(step), expected, "step {step}");
        assert_eq!(side(-step), -expected, "step -{step}");
    }
    assert_eq!(side(i64::MAX), 6_521_908_912_666_391_105);
    assert_eq!(side(i64::MIN), -6_521_908_912_666_391_106);
}

#[test]
fn moves_stay_in_range() {
    let far = DesignOffset { x: i64::MAX, y: i64::MIN };
    assert_eq!(DesignMoveDirection::Right.apply(&far, 1), DesignOffset { x: i64::MAX, y: i64::MIN });
    assert_eq!(DesignMoveDirection::Up.apply(&far, 1), DesignOffset { x: i64::MAX, y: i64::MIN });
    assert_eq!(
        DesignMoveDirection::Up.apply(&DesignOffset { x: 0, y: 0 }, i64::MIN),
        DesignOffset { x: 0, y: i64::MAX }
    );
}
