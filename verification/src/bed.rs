//! Dimensions and orientation of a device's print bed, and the mapping from
//! bed-local micrometres to plotter units.

use vstd::prelude::*;
use crate::paths::{PointInMillimeters, ResolvedPoint, MICROMETRES_PER_PLOTTER_UNIT};

verus! {

/// Smallest axis endpoint that HPGL can represent, in micrometres (`i16::MIN` plotter units).
pub const MIN_AXIS_MICROMETRES: i64 = -819_200;

/// Largest axis endpoint that HPGL can represent, in micrometres (`i16::MAX` plotter units).
pub const MAX_AXIS_MICROMETRES: i64 = 819_175;

/// The integer nearest to `value / 25`: a length in micrometres as plotter units.
///
/// No length in whole micrometres lies half way between two plotter units, so
/// "nearest" is unambiguous.
pub open spec fn nearest_plotter_unit(value: int) -> int {
    if value >= 0 {
        (value + 12) / 25
    } else {
        -((12 - value) / 25)
    }
}

/// `value` limited to the closed interval from `low` to `high`.
pub open spec fn clamp_to(value: int, low: int, high: int) -> int {
    if value < low {
        low
    } else if value > high {
        high
    } else {
        value
    }
}

/// The plotter coordinate of one axis value, or `None` where it does not fit in 16 bits.
///
/// A mirrored axis counts from its far end (`axis_end`) back towards its start.
pub open spec fn axis_to_plotter_units(value: int, mirror: bool, axis_end: int) -> Option<i16> {
    let position = if mirror {
        axis_end - value
    } else {
        value
    };
    let units = nearest_plotter_unit(position);
    if i16::MIN <= units <= i16::MAX {
        Some(units as i16)
    } else {
        None
    }
}

/// Dimensions and orientation of a print bed. All lengths are in micrometres.
#[derive(Debug, Clone, Copy, PartialEq, Eq)]
pub struct PrintBed {
    /// Lower and upper limit of the X axis.
    x_axis: (i64, i64),
    /// Lower and upper limit of the Y axis.
    y_axis: (i64, i64),
    /// Whether the X axis counts from its far end.
    mirror_x: bool,
    /// Whether the Y axis counts from its far end.
    ///
    /// The GCC Spirit has y=0 at the bottom, while designs have it at the top.
    mirror_y: bool,
}

impl PrintBed {
    #[verifier::type_invariant]
    spec fn limits_are_valid(&self) -> bool {
        self.well_formed()
    }

    /// Lower and upper limit of the X axis.
    pub closed spec fn x_limits(&self) -> (int, int) {
        (self.x_axis.0 as int, self.x_axis.1 as int)
    }

    /// Lower and upper limit of the Y axis.
    pub closed spec fn y_limits(&self) -> (int, int) {
        (self.y_axis.0 as int, self.y_axis.1 as int)
    }

    /// Whether the X axis is mirrored.
    pub closed spec fn x_mirrored(&self) -> bool {
        self.mirror_x
    }

    /// Whether the Y axis is mirrored.
    pub closed spec fn y_mirrored(&self) -> bool {
        self.mirror_y
    }

    /// Both axes are ordered and lie within what HPGL can represent.
    pub open spec fn well_formed(&self) -> bool {
        &&& MIN_AXIS_MICROMETRES <= self.x_limits().0 <= self.x_limits().1 <= MAX_AXIS_MICROMETRES
        &&& MIN_AXIS_MICROMETRES <= self.y_limits().0 <= self.y_limits().1 <= MAX_AXIS_MICROMETRES
    }

    /// Whether a point lies on the bed, limits included.
    pub open spec fn contains(&self, point: PointInMillimeters) -> bool {
        &&& self.x_limits().0 <= point.x <= self.x_limits().1
        &&& self.y_limits().0 <= point.y <= self.y_limits().1
    }

    /// Where a point lands in plotter units, or `None` where it is off the bed
    /// or beyond 16-bit plotter coordinates.
    pub open spec fn placed(&self, point: PointInMillimeters) -> Option<ResolvedPoint> {
        if !self.contains(point) {
            None
        } else {
            match (
                axis_to_plotter_units(point.x as int, self.x_mirrored(), self.x_limits().1),
                axis_to_plotter_units(point.y as int, self.y_mirrored(), self.y_limits().1),
            ) {
                (Some(x), Some(y)) => Some(ResolvedPoint { x, y }),
                _ => None,
            }
        }
    }

    /// Creates a bed specification from the limits of each axis.
    ///
    /// Limits beyond what HPGL can represent are clamped to that range.
    pub fn new(x_axis: (i64, i64), mirror_x: bool, y_axis: (i64, i64), mirror_y: bool) -> (bed: Self)
        requires
            x_axis.0 <= x_axis.1,
            y_axis.0 <= y_axis.1,
        ensures
            bed.well_formed(),
            bed.x_limits() == (
                clamp_to(x_axis.0 as int, MIN_AXIS_MICROMETRES as int, MAX_AXIS_MICROMETRES as int),
                clamp_to(x_axis.1 as int, MIN_AXIS_MICROMETRES as int, MAX_AXIS_MICROMETRES as int),
            ),
            bed.y_limits() == (
                clamp_to(y_axis.0 as int, MIN_AXIS_MICROMETRES as int, MAX_AXIS_MICROMETRES as int),
                clamp_to(y_axis.1 as int, MIN_AXIS_MICROMETRES as int, MAX_AXIS_MICROMETRES as int),
            ),
            bed.x_mirrored() == mirror_x,
            bed.y_mirrored() == mirror_y,
    {
        PrintBed {
            x_axis: (clamp_axis_limit(x_axis.0), clamp_axis_limit(x_axis.1)),
            y_axis: (clamp_axis_limit(y_axis.0), clamp_axis_limit(y_axis.1)),
            mirror_x,
            mirror_y,
        }
    }

    /// Converts a point in micrometres into the same point in HPGL/2 units for this bed.
    ///
    /// Returns `None` if the point is off the bed, or if a bed that does not
    /// start at zero would put it beyond 16-bit plotter coordinates.
    pub fn place_point(&self, point: PointInMillimeters) -> (placed: Option<ResolvedPoint>)
        ensures
            placed == self.placed(point),
    {
        if point.x < self.x_axis.0 || point.x > self.x_axis.1 {
            return None;
        }
        if point.y < self.y_axis.0 || point.y > self.y_axis.1 {
            return None;
        }
        let x = match mm_to_hpgl(point.x, self.mirror_x, self.x_axis.1) {
            Some(x) => x,
            None => {
                return None;
            },
        };
        let y = match mm_to_hpgl(point.y, self.mirror_y, self.y_axis.1) {
            Some(y) => y,
            None => {
                return None;
            },
        };
        Some(ResolvedPoint { x, y })
    }

    /// The limits of the X axis of this bed.
    pub fn x_axis(&self) -> (limits: (i64, i64))
        ensures
            (limits.0 as int, limits.1 as int) == self.x_limits(),
            self.well_formed(),
    {
        proof {
            use_type_invariant(self);
        }
        self.x_axis
    }

    /// The limits of the Y axis of this bed.
    pub fn y_axis(&self) -> (limits: (i64, i64))
        ensures
            (limits.0 as int, limits.1 as int) == self.y_limits(),
            self.well_formed(),
    {
        proof {
            use_type_invariant(self);
        }
        self.y_axis
    }

    /// Whether the X axis counts from its far end.
    pub fn mirror_x(&self) -> (mirrored: bool)
        ensures
            mirrored == self.x_mirrored(),
    {
        self.mirror_x
    }

    /// Whether the Y axis counts from its far end.
    pub fn mirror_y(&self) -> (mirrored: bool)
        ensures
            mirrored == self.y_mirrored(),
    {
        self.mirror_y
    }

    /// The width of this bed.
    pub fn width(&self) -> (width: u64)
        ensures
            width == self.x_limits().1 - self.x_limits().0,
            width <= MAX_AXIS_MICROMETRES - MIN_AXIS_MICROMETRES,
    {
        proof {
            use_type_invariant(self);
        }
        span(self.x_axis.0, self.x_axis.1)
    }

    /// The height of this bed.
    pub fn height(&self) -> (height: u64)
        ensures
            height == self.y_limits().1 - self.y_limits().0,
            height <= MAX_AXIS_MICROMETRES - MIN_AXIS_MICROMETRES,
    {
        proof {
            use_type_invariant(self);
        }
        span(self.y_axis.0, self.y_axis.1)
    }
}

/// The bed of the GCC Spirit laser engraver: 901.52 mm by 463.20 mm with the Y
/// axis mirrored. The machine could go a little below zero on both axes but
/// refuses to move that far, so both start at zero.
pub fn bed_gcc_spirit() -> (bed: PrintBed)
    ensures
        bed.well_formed(),
        bed.x_limits() == (0int, MAX_AXIS_MICROMETRES as int),
        bed.y_limits() == (0int, 463_200int),
        !bed.x_mirrored(),
        bed.y_mirrored(),
{
    PrintBed::new((0, 901_520), false, (0, 463_200), true)
}

fn clamp_axis_limit(value: i64) -> (clamped: i64)
    ensures
        clamped == clamp_to(value as int, MIN_AXIS_MICROMETRES as int, MAX_AXIS_MICROMETRES as int),
{
    if value < MIN_AXIS_MICROMETRES {
        MIN_AXIS_MICROMETRES
    } else if value > MAX_AXIS_MICROMETRES {
        MAX_AXIS_MICROMETRES
    } else {
        value
    }
}

fn span(start: i64, end: i64) -> (length: u64)
    requires
        start <= end,
    ensures
        length == end - start,
{
    let wide: i128 = end as i128 - start as i128;
    wide as u64
}

/// Rounds a length in micrometres to the nearest plotter unit.
fn round_to_plotter_units(value: i128) -> (units: i128)
    requires
        -0x4000_0000_0000_0000_0000 <= value <= 0x4000_0000_0000_0000_0000,
    ensures
        units == nearest_plotter_unit(value as int),
{
    if value >= 0 {
        (value + 12) / (MICROMETRES_PER_PLOTTER_UNIT as i128)
    } else {
        -((12 - value) / (MICROMETRES_PER_PLOTTER_UNIT as i128))
    }
}

fn mm_to_hpgl(value: i64, mirror: bool, axis_end: i64) -> (units: Option<i16>)
    ensures
        units == axis_to_plotter_units(value as int, mirror, axis_end as int),
{
    let position: i128 = if mirror {
        axis_end as i128 - value as i128
    } else {
        value as i128
    };
    let adjusted = round_to_plotter_units(position);
    if adjusted < i16::MIN as i128 || adjusted > i16::MAX as i128 {
        None
    } else {
        Some(adjusted as i16)
    }
}

/// The far end of a mirrored axis is the plotter's zero.
pub proof fn lemma_mirrored_axis_end_is_zero(axis_end: int)
    ensures
        axis_to_plotter_units(axis_end, true, axis_end) == Some(0i16),
{
}

/// On a bed with both axes mirrored, the point at the far end of both axes
/// is the plotter's origin.
pub proof fn lemma_mirrored_far_corner_is_origin(bed: PrintBed)
    requires
        bed.well_formed(),
        bed.x_mirrored(),
        bed.y_mirrored(),
    ensures
        bed.placed(PointInMillimeters { x: bed.x_limits().1 as i64, y: bed.y_limits().1 as i64 })
            == Some(ResolvedPoint { x: 0, y: 0 }),
{
}

/// Rounding goes to the nearest plotter unit: a length and its plotter units,
/// taken as 25 micrometres each, are less than half a plotter unit apart.
pub proof fn lemma_nearest_plotter_unit_is_nearest(value: int)
    ensures
        -12 <= value - 25 * nearest_plotter_unit(value) <= 12,
{
}

/// Every point on a well-formed bed whose axes are not mirrored is placed.
pub proof fn lemma_unmirrored_bed_places_its_points(bed: PrintBed, point: PointInMillimeters)
    requires
        bed.well_formed(),
        !bed.x_mirrored(),
        !bed.y_mirrored(),
        bed.contains(point),
    ensures
        bed.placed(point) is Some,
{
}

} // verus!
