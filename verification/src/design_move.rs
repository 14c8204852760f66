//! Moving the design about the bed, one step at a time.

use vstd::prelude::*;
use crate::paths::{saturated, DesignOffset};

verus! {

/// The directions in which the design can be moved.
#[derive(Debug, Clone, Copy, PartialEq, Eq, Structural)]
pub enum DesignMoveDirection {
    /// Up and then left.
    UpAndLeft,
    /// Up.
    Up,
    /// Up and then right.
    UpAndRight,
    /// Left.
    Left,
    /// Right.
    Right,
    /// Down and then left.
    DownAndLeft,
    /// Down.
    Down,
    /// Down and then right.
    DownAndRight,
}

/// Whether `side` is the whole number nearest to `step` divided by the
/// square root of two, for a step that is not negative: the square root of
/// twice the square of the step lies between `2 * side - 1` and `2 * side + 1`.
pub open spec fn is_diagonal_side(side: int, step: int) -> bool {
    &&& side >= 0
    &&& 2 * step * step < (2 * side + 1) * (2 * side + 1)
    &&& side == 0 || (2 * side - 1) * (2 * side - 1) <= 2 * step * step
}

/// How far a diagonal step goes along each axis: the step divided by the
/// square root of two, to the nearest whole number, with the sign of the step.
pub open spec fn diagonal_side(step: int) -> int {
    if step >= 0 {
        diagonal_length(step)
    } else {
        -diagonal_length(-step)
    }
}

/// The side of the diagonal of a step that is not negative.
pub open spec fn diagonal_length(step: int) -> int {
    choose|side: int| is_diagonal_side(side, step)
}

/// How far a step in a direction goes to the right and down.
pub open spec fn movement(direction: DesignMoveDirection, step: int) -> (int, int) {
    let side = diagonal_side(step);
    match direction {
        DesignMoveDirection::UpAndLeft => (-side, -side),
        DesignMoveDirection::Up => (0, -step),
        DesignMoveDirection::UpAndRight => (side, -side),
        DesignMoveDirection::Left => (-step, 0),
        DesignMoveDirection::Right => (step, 0),
        DesignMoveDirection::DownAndLeft => (-side, side),
        DesignMoveDirection::Down => (0, step),
        DesignMoveDirection::DownAndRight => (side, side),
    }
}

/// At most one number is the side of the diagonal of a step.
pub proof fn lemma_diagonal_side_is_unique(first: int, second: int, step: int)
    requires
        is_diagonal_side(first, step),
        is_diagonal_side(second, step),
    ensures
        first == second,
{
    if first < second {
        lemma_squares_grow(2 * first + 1, 2 * second - 1);
    } else if second < first {
        lemma_squares_grow(2 * second + 1, 2 * first - 1);
    }
}

proof fn lemma_squares_grow(low: int, high: int)
    requires
        0 <= low <= high,
    ensures
        low * low <= high * high,
{
    assert(low * low <= high * high) by (nonlinear_arith)
        requires
            0 <= low <= high,
    ;
}

/// The side of the diagonal of a step that is not negative.
fn diagonal_of(step: u64) -> (side: u64)
    requires
        step <= 0x8000_0000_0000_0000,
    ensures
        is_diagonal_side(side as int, step as int),
        side <= step,
{
    proof {
        lemma_squares_grow(step as int, 0x8000_0000_0000_0000);
    }
    let wide: u128 = step as u128;
    let target: u128 = 2 * (wide * wide);
    let mut low: u128 = 0;
    let mut high: u128 = wide;
    assert(target < (2 * high + 1) * (2 * high + 1)) by (nonlinear_arith)
        requires
            target == 2 * (high * high),
            0 <= high,
    ;
    while low < high
        invariant
            low <= high <= wide <= 0x8000_0000_0000_0000,
            target == 2 * (wide * wide),
            low == 0 || (2 * low - 1) * (2 * low - 1) <= target,
            target < (2 * high + 1) * (2 * high + 1),
        decreases high - low,
    {
        let middle: u128 = low + (high - low + 1) / 2;
        let odd: u128 = 2 * middle - 1;
        proof {
            lemma_squares_grow(odd as int, 0xffff_ffff_ffff_ffff);
        }
        if odd * odd <= target {
            low = middle;
        } else {
            high = middle - 1;
            assert((2 * high + 1) == odd);
        }
    }
    proof {
        assert(2 * step * step == 2 * (step * step)) by (nonlinear_arith);
    }
    low as u64
}

impl DesignMoveDirection {
    /// Applies this move to an offset, returning the new offset.
    ///
    /// Offsets are defined such that +x is more right and +y is more down.
    /// A diagonal move is as long as a straight one: it goes the step
    /// divided by the square root of two along each axis. An offset that
    /// would leave the 64-bit range stays at its end.
    pub fn apply(&self, current_offset: &DesignOffset, step_mm: i64) -> (offset: DesignOffset)
        ensures
            offset == (DesignOffset {
                x: saturated(current_offset.x + movement(*self, step_mm as int).0),
                y: saturated(current_offset.y + movement(*self, step_mm as int).1),
            }),
    {
        let step: i128 = step_mm as i128;
        let side: i128 = if step_mm >= 0 {
            let found = diagonal_of(step_mm as u64);
            proof {
                lemma_diagonal_side_is_unique(
                    found as int,
                    diagonal_length(step_mm as int),
                    step_mm as int,
                );
            }
            found as i128
        } else {
            let found = diagonal_of((-step) as u64);
            proof {
                lemma_diagonal_side_is_unique(
                    found as int,
                    diagonal_length(-(step_mm as int)),
                    -(step_mm as int),
                );
            }
            -(found as i128)
        };
        let (right, down): (i128, i128) = match self {
            DesignMoveDirection::UpAndLeft => (-side, -side),
            DesignMoveDirection::Up => (0, -step),
            DesignMoveDirection::UpAndRight => (side, -side),
            DesignMoveDirection::Left => (-step, 0),
            DesignMoveDirection::Right => (step, 0),
            DesignMoveDirection::DownAndLeft => (-side, side),
            DesignMoveDirection::Down => (0, step),
            DesignMoveDirection::DownAndRight => (side, side),
        };
        DesignOffset {
            x: saturate(current_offset.x as i128 + right),
            y: saturate(current_offset.y as i128 + down),
        }
    }
}

fn saturate(value: i128) -> (limited: i64)
    ensures
        limited == saturated(value as int),
{
    if value > i64::MAX as i128 {
        i64::MAX
    } else if value < i64::MIN as i128 {
        i64::MIN
    } else {
        value as i64
    }
}

} // verus!
