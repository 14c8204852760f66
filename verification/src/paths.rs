//! Points, polylines, colour buckets, and the steps that take sampled
//! polylines to plotter units: offsetting, pruning by tool pass, placing.

use vstd::prelude::*;
use crate::bed::PrintBed;
use crate::bed::nearest_plotter_unit;
use crate::bed::clamp_to;
use crate::laser_passes::ToolPass;

verus! {

/// Micrometres moved per plotter unit: the HPGL/2 default of 0.025 mm.
pub const MICROMETRES_PER_PLOTTER_UNIT: i64 = 25;

/// The height of the cutting area that [`mm_to_hpgl_units`] mirrors about, in micrometres.
pub const BED_HEIGHT_MICROMETRES: i64 = 463_200;

/// A point along a path that the tool traces, in HPGL/2 plotter units.
#[derive(Debug, Clone, Copy, PartialEq, Eq, Structural)]
pub struct ResolvedPoint {
    /// Horizontal axis position.
    pub x: i16,
    /// Vertical axis position.
    pub y: i16,
}

/// A path that the toolhead moves through: a series of points in order.
pub type ResolvedPath = Vec<ResolvedPoint>;

/// A point in bed-local coordinates, in micrometres (thousandths of a millimetre).
#[derive(Debug, Clone, Copy, PartialEq, Eq, Structural)]
pub struct PointInMillimeters {
    /// Horizontal axis, increasing to the right.
    pub x: i64,
    /// Vertical axis, increasing downwards.
    pub y: i64,
}

/// A toolpath expressed as a series of points in micrometres.
pub type PathInMM = Vec<PointInMillimeters>;

/// Offset of a design from the origin (top-left), in micrometres.
#[derive(Debug, Clone, Copy, PartialEq, Eq, Structural)]
pub struct DesignOffset {
    /// Horizontal axis offset, where more positive is more to the right.
    pub x: i64,
    /// Vertical axis offset, where more positive is more to the bottom.
    pub y: i64,
}

impl Default for DesignOffset {
    fn default() -> (offset: Self)
        ensures
            offset == (DesignOffset { x: 0, y: 0 }),
    {
        DesignOffset { x: 0, y: 0 }
    }
}

/// One path of a design after flattening: the points sampled along it, in
/// order, and whether the path returns to its start.
#[derive(Debug, Clone, PartialEq, Eq)]
pub struct SampledPath {
    /// The samples, at regular distances along the path.
    pub points: Vec<PointInMillimeters>,
    /// Whether the path is closed.
    pub closed: bool,
}

/// The colour associated with a path: red, green and blue. Alpha plays no part.
#[derive(Debug, Clone, Copy, PartialEq, Eq, Hash)]
pub struct PathColour(pub [u8; 3]);

impl View for PathColour {
    type V = (u8, u8, u8);

    open spec fn view(&self) -> (u8, u8, u8) {
        (self.0[0], self.0[1], self.0[2])
    }
}

impl PathColour {
    /// Whether this colour has the given red, green and blue channels.
    pub fn matches(&self, channels: &[u8; 3]) -> (same: bool)
        ensures
            same == (self@ == (channels[0], channels[1], channels[2])),
    {
        self.0[0] == channels[0] && self.0[1] == channels[1] && self.0[2] == channels[2]
    }
}

/// The paths of one colour, in document order.
#[derive(Debug, PartialEq, Eq)]
struct ColourBucket<P> {
    colour: PathColour,
    paths: Vec<P>,
}

/// Whether some bucket in `buckets` is of the given colour.
spec fn has_colour<P>(buckets: Seq<ColourBucket<P>>, colour: (u8, u8, u8)) -> bool {
    exists|i: int| 0 <= i < buckets.len() && (#[trigger] buckets[i]).colour@ == colour
}

/// The position of a bucket of the given colour.
spec fn index_of_colour<P>(buckets: Seq<ColourBucket<P>>, colour: (u8, u8, u8)) -> int {
    choose|i: int| 0 <= i < buckets.len() && (#[trigger] buckets[i]).colour@ == colour
}

/// The paths of the given colour in `buckets`, none if no bucket has that colour.
spec fn paths_of<P>(buckets: Seq<ColourBucket<P>>, colour: (u8, u8, u8)) -> Seq<P> {
    if has_colour(buckets, colour) {
        buckets[index_of_colour(buckets, colour)].paths@
    } else {
        Seq::empty()
    }
}

/// No colour has two buckets.
spec fn colours_are_distinct<P>(buckets: Seq<ColourBucket<P>>) -> bool {
    forall|i: int, j: int|
        0 <= i < j < buckets.len() ==> (#[trigger] buckets[i]).colour@ != (
        #[trigger] buckets[j]).colour@
}

proof fn lemma_index_of_colour<P>(buckets: Seq<ColourBucket<P>>, i: int)
    requires
        colours_are_distinct(buckets),
        0 <= i < buckets.len(),
    ensures
        has_colour(buckets, buckets[i].colour@),
        index_of_colour(buckets, buckets[i].colour@) == i,
        paths_of(buckets, buckets[i].colour@) == buckets[i].paths@,
{
    let colour = buckets[i].colour@;
    assert(has_colour(buckets, colour));
    let k = index_of_colour(buckets, colour);
    if k < i {
        assert(buckets[k].colour@ != buckets[i].colour@);
    } else if i < k {
        assert(buckets[i].colour@ != buckets[k].colour@);
    }
}

/// Two bucket lists with the same colours at the same places find a colour at the same place.
proof fn lemma_aligned_buckets<P, Q>(
    left: Seq<ColourBucket<P>>,
    right: Seq<ColourBucket<Q>>,
    colour: (u8, u8, u8),
)
    requires
        colours_are_distinct(left),
        left.len() == right.len(),
        forall|k: int| 0 <= k < left.len() ==> (#[trigger] right[k]).colour@ == left[k].colour@,
    ensures
        colours_are_distinct(right),
        has_colour(right, colour) == has_colour(left, colour),
        has_colour(left, colour) ==> {
            let i = index_of_colour(left, colour);
            &&& 0 <= i < left.len()
            &&& left[i].colour@ == colour
            &&& index_of_colour(right, colour) == i
            &&& paths_of(left, colour) == left[i].paths@
            &&& paths_of(right, colour) == right[i].paths@
        },
{
    assert(colours_are_distinct(right)) by {
        assert forall|i: int, j: int| 0 <= i < j < right.len() implies (#[trigger] right[i]).colour@
            != (#[trigger] right[j]).colour@ by {
            assert(left[i].colour@ != left[j].colour@);
        }
    }
    if has_colour(left, colour) {
        let i = index_of_colour(left, colour);
        assert(right[i].colour@ == colour);
        lemma_index_of_colour(left, i);
        lemma_index_of_colour(right, i);
    } else if has_colour(right, colour) {
        let i = index_of_colour(right, colour);
        assert(left[i].colour@ == colour);
    }
}

/// Polylines grouped by stroke colour.
///
/// Every colour maps to a sequence of paths, empty for all but finitely many
/// colours. Within a colour the paths keep the order in which they were added.
#[derive(Debug, PartialEq, Eq)]
pub struct PathsByColour<P> {
    buckets: Vec<ColourBucket<P>>,
}

impl<P> PathsByColour<P> {
    #[verifier::type_invariant]
    spec fn valid(&self) -> bool {
        colours_are_distinct(self.buckets@)
    }

    /// The paths of the given colour, in the order in which they were added.
    pub closed spec fn bucket(&self, colour: (u8, u8, u8)) -> Seq<P> {
        paths_of(self.buckets@, colour)
    }

    /// The colours that were given a bucket, in the order in which each got it.
    pub closed spec fn colours(&self) -> Seq<(u8, u8, u8)> {
        colours_of(self.buckets@)
    }

    /// The listed colours are distinct and every colour with a path is listed.
    pub open spec fn colours_are_listed(&self) -> bool {
        &&& forall|i: int, j: int|
            0 <= i < j < self.colours().len() ==> self.colours()[i] != self.colours()[j]
        &&& forall|colour: (u8, u8, u8)| #[trigger]
            self.bucket(colour).len() > 0 ==> self.colours().contains(colour)
    }

    /// No paths of any colour.
    pub fn new() -> (paths: Self)
        ensures
            paths.colours() == Seq::<(u8, u8, u8)>::empty(),
            forall|colour: (u8, u8, u8)| paths.bucket(colour) == Seq::<P>::empty(),
    {
        let paths = PathsByColour { buckets: Vec::new() };
        assert(paths.colours() =~= Seq::<(u8, u8, u8)>::empty());
        paths
    }

    /// How many colours are listed.
    pub fn len(&self) -> (count: usize)
        ensures
            count == self.colours().len(),
            self.colours_are_listed(),
    {
        proof {
            use_type_invariant(self);
            let buckets = self.buckets@;
            assert forall|colour: (u8, u8, u8)| #[trigger]
                self.bucket(colour).len() > 0 implies self.colours().contains(colour) by {
                let i = index_of_colour(buckets, colour);
                assert(self.colours()[i] == colour);
            }
        }
        self.buckets.len()
    }

    /// The colour listed at `index`.
    pub fn colour_at(&self, index: usize) -> (colour: PathColour)
        requires
            index < self.colours().len(),
        ensures
            colour@ == self.colours()[index as int],
    {
        self.buckets[index].colour
    }

    /// The paths of the colour listed at `index`.
    pub fn paths_at(&self, index: usize) -> (paths: &Vec<P>)
        requires
            index < self.colours().len(),
        ensures
            paths@ == self.bucket(self.colours()[index as int]),
    {
        proof {
            use_type_invariant(self);
            lemma_index_of_colour(self.buckets@, index as int);
        }
        &self.buckets[index].paths
    }

    fn position(&self, colour: &PathColour) -> (found: Option<usize>)
        ensures
            match found {
                Some(i) => i < self.buckets@.len() && self.buckets@[i as int].colour@ == colour@,
                None => !has_colour(self.buckets@, colour@),
            },
    {
        let mut i: usize = 0;
        while i < self.buckets.len()
            invariant
                i <= self.buckets@.len(),
                forall|k: int| 0 <= k < i ==> (#[trigger] self.buckets@[k]).colour@ != colour@,
            decreases self.buckets@.len() - i,
        {
            if self.buckets[i].colour.matches(&colour.0) {
                return Some(i);
            }
            i += 1;
        }
        None
    }

    /// The paths of the given colour, or `None` where it has no bucket.
    pub fn get(&self, colour: &PathColour) -> (paths: Option<&Vec<P>>)
        ensures
            match paths {
                Some(found) => found@ == self.bucket(colour@),
                None => self.bucket(colour@).len() == 0,
            },
    {
        proof {
            use_type_invariant(self);
        }
        match self.position(colour) {
            Some(i) => {
                proof {
                    lemma_index_of_colour(self.buckets@, i as int);
                }
                Some(&self.buckets[i].paths)
            },
            None => None,
        }
    }

    /// Adds a path at the end of those of the given colour.
    pub fn push_path(&mut self, colour: PathColour, path: P)
        ensures
            final(self).bucket(colour@) == old(self).bucket(colour@).push(path),
            forall|other: (u8, u8, u8)|
                other != colour@ ==> final(self).bucket(other) == old(self).bucket(other),
            final(self).colours() == if old(self).colours().contains(colour@) {
                old(self).colours()
            } else {
                old(self).colours().push(colour@)
            },
    {
        proof {
            use_type_invariant(&*self);
        }
        let found = self.position(&colour);
        let ghost listed = self.colours();
        let mut taken = PathsByColour { buckets: Vec::new() };
        core::mem::swap(self, &mut taken);
        let mut buckets = taken.buckets;
        let ghost before = buckets@;
        match found {
            Some(i) => {
                proof {
                    lemma_index_of_colour(before, i as int);
                    assert(listed[i as int] == colour@);
                }
                buckets[i].paths.push(path);
                proof {
                    let after = buckets@;
                    assert(after.len() == before.len());
                    assert(forall|k: int|
                        0 <= k < after.len() ==> (#[trigger] after[k]).colour == before[k].colour);
                    lemma_aligned_buckets(before, after, colour@);
                    assert forall|other: (u8, u8, u8)| other != colour@ implies paths_of(
                        after,
                        other,
                    ) == paths_of(before, other) by {
                        lemma_aligned_buckets(before, after, other);
                    }
                    assert(Seq::new(after.len(), |k: int| after[k].colour@) =~= listed);
                }
            },
            None => {
                let mut paths = Vec::new();
                paths.push(path);
                buckets.push(ColourBucket { colour, paths });
                proof {
                    let after = buckets@;
                    let last = before.len() as int;
                    assert(forall|k: int| 0 <= k < last ==> after[k] == before[k]);
                    assert(colours_are_distinct(after));
                    lemma_index_of_colour(after, last);
                    assert(paths@ =~= Seq::<P>::empty().push(path));
                    assert forall|other: (u8, u8, u8)| other != colour@ implies paths_of(
                        after,
                        other,
                    ) == paths_of(before, other) by {
                        if has_colour(before, other) {
                            let i = index_of_colour(before, other);
                            lemma_index_of_colour(before, i);
                            lemma_index_of_colour(after, i);
                        } else if has_colour(after, other) {
                            let i = index_of_colour(after, other);
                            assert(before[i] == after[i]);
                        }
                    }
                    assert(!listed.contains(colour@)) by {
                        if listed.contains(colour@) {
                            let k = choose|k: int| 0 <= k < listed.len() && listed[k] == colour@;
                            assert(before[k].colour@ == colour@);
                        }
                    }
                    assert(Seq::new(after.len(), |k: int| after[k].colour@) =~= listed.push(
                        colour@,
                    ));
                }
            },
        }
        *self = PathsByColour { buckets };
    }
}

/// `value` as the nearest 64-bit integer.
pub open spec fn saturated(value: int) -> i64 {
    clamp_to(value, i64::MIN as int, i64::MAX as int) as i64
}

/// A point moved by an offset. A coordinate that would leave the 64-bit range stays at its end.
pub open spec fn offset_of(point: PointInMillimeters, offset: DesignOffset) -> PointInMillimeters {
    PointInMillimeters {
        x: saturated(point.x + offset.x),
        y: saturated(point.y + offset.y),
    }
}

/// The samples of a path, with the first sample repeated at the end where the path is closed.
pub open spec fn closed_points(points: Seq<PointInMillimeters>, closed: bool) -> Seq<
    PointInMillimeters,
> {
    if closed && points.len() > 0 {
        points.push(points[0])
    } else {
        points
    }
}

/// The polyline that a sampled path becomes: closed where the path is, then moved by the offset.
pub open spec fn resolved_points(path: SampledPath, offset: DesignOffset) -> Seq<
    PointInMillimeters,
> {
    closed_points(path.points@, path.closed).map_values(
        |point: PointInMillimeters| offset_of(point, offset),
    )
}

/// Each polyline of `resolved` is what the sampled path at the same place becomes.
pub open spec fn is_resolved(
    resolved: Seq<PathInMM>,
    sampled: Seq<SampledPath>,
    offset: DesignOffset,
) -> bool {
    &&& resolved.len() == sampled.len()
    &&& forall|i: int|
        0 <= i < sampled.len() ==> (#[trigger] resolved[i])@ == resolved_points(sampled[i], offset)
}

/// Whether some enabled tool pass has the given colour.
pub open spec fn colour_is_enabled(tool_passes: Seq<ToolPass>, colour: (u8, u8, u8)) -> bool {
    exists|i: int|
        0 <= i < tool_passes.len() && (#[trigger] tool_passes[i])@.enabled && tool_passes[i]@.colour
            == colour
}

/// The polylines that the points from `next` on are placed into, given the
/// polyline `current` that the points before `next` have begun.
///
/// A point that the bed places extends the current polyline. One that it
/// does not place ends it; the next placed point begins another.
pub open spec fn segments_from(
    bed: PrintBed,
    points: Seq<PointInMillimeters>,
    next: int,
    current: Seq<ResolvedPoint>,
) -> Seq<Seq<ResolvedPoint>>
    decreases points.len() - next,
{
    let finished = if current.len() > 0 {
        seq![current]
    } else {
        Seq::empty()
    };
    if next < 0 || next >= points.len() {
        finished
    } else {
        match bed.placed(points[next]) {
            Some(placed) => segments_from(bed, points, next + 1, current.push(placed)),
            None => finished + segments_from(bed, points, next + 1, Seq::empty()),
        }
    }
}

/// The polylines in plotter units that one polyline in micrometres becomes:
/// its maximal runs of points that the bed places, each run placed.
pub open spec fn placed_segments(bed: PrintBed, points: Seq<PointInMillimeters>) -> Seq<
    Seq<ResolvedPoint>,
> {
    segments_from(bed, points, 0, Seq::empty())
}

/// The polylines in plotter units that the polylines of a bucket become:
/// those of its first polyline, then those of its second, and so on.
pub open spec fn placed_bucket(bed: PrintBed, lines: Seq<Seq<PointInMillimeters>>) -> Seq<
    Seq<ResolvedPoint>,
>
    decreases lines.len(),
{
    if lines.len() == 0 {
        Seq::empty()
    } else {
        placed_bucket(bed, lines.drop_last()) + placed_segments(bed, lines.last())
    }
}

/// The polylines of a bucket as sequences of points.
pub open spec fn polylines<T>(paths: Seq<Vec<T>>) -> Seq<Seq<T>> {
    Seq::new(paths.len(), |i: int| paths[i]@)
}

/// The plotter coordinate of a length along one axis of the default bed,
/// whose Y axis is mirrored. What does not fit in 16 bits stays at the nearest end.
pub open spec fn hpgl_units(mm: int, is_x_axis: bool) -> i16 {
    let position = if is_x_axis {
        mm
    } else {
        BED_HEIGHT_MICROMETRES - mm
    };
    clamp_to(nearest_plotter_unit(position), i16::MIN as int, i16::MAX as int) as i16
}

fn saturating_sum(value: i64, delta: i64) -> (sum: i64)
    ensures
        sum == saturated(value + delta),
{
    let wide: i128 = value as i128 + delta as i128;
    if wide > i64::MAX as i128 {
        i64::MAX
    } else if wide < i64::MIN as i128 {
        i64::MIN
    } else {
        wide as i64
    }
}

/// Offsets a point in place: +x moves it right, +y moves it down.
pub fn offset_point(point: &mut PointInMillimeters, offset: &DesignOffset)
    ensures
        *final(point) == offset_of(*old(point), *offset),
{
    point.x = saturating_sum(point.x, offset.x);
    point.y = saturating_sum(point.y, offset.y);
}

/// Closes one sampled path where it is closed, and moves it by the offset.
fn resolve_path(path: &SampledPath, offset: &DesignOffset) -> (resolved: PathInMM)
    ensures
        resolved@ == resolved_points(*path, *offset),
{
    let ghost target = closed_points(path.points@, path.closed);
    let mut resolved: Vec<PointInMillimeters> = Vec::new();
    let mut i: usize = 0;
    while i < path.points.len()
        invariant
            i <= path.points@.len(),
            resolved@.len() == i,
            forall|k: int| 0 <= k < i ==> resolved@[k] == offset_of(path.points@[k], *offset),
        decreases path.points@.len() - i,
    {
        let mut point = path.points[i];
        offset_point(&mut point, offset);
        resolved.push(point);
        i += 1;
    }
    if path.closed && path.points.len() > 0 {
        let mut point = path.points[0];
        offset_point(&mut point, offset);
        resolved.push(point);
    }
    assert(resolved@ =~= resolved_points(*path, *offset));
    resolved
}

/// Turns sampled paths, grouped by colour, into polylines moved by the design offset.
///
/// Every path keeps its colour and its place among the paths of that colour.
/// A closed path gets its first sample once more at its end.
pub fn resolve_paths(
    paths_grouped_by_colour: &PathsByColour<SampledPath>,
    offset: &DesignOffset,
) -> (resolved_paths: PathsByColour<PathInMM>)
    ensures
        resolved_paths.colours() == paths_grouped_by_colour.colours(),
        forall|colour: (u8, u8, u8)|
            is_resolved(
                #[trigger] resolved_paths.bucket(colour),
                paths_grouped_by_colour.bucket(colour),
                *offset,
            ),
{
    proof {
        use_type_invariant(paths_grouped_by_colour);
    }
    let ghost sampled = paths_grouped_by_colour.buckets@;
    let mut buckets: Vec<ColourBucket<PathInMM>> = Vec::new();
    let mut b: usize = 0;
    while b < paths_grouped_by_colour.buckets.len()
        invariant
            sampled == paths_grouped_by_colour.buckets@,
            b <= sampled.len(),
            buckets@.len() == b,
            forall|k: int| 0 <= k < b ==> (#[trigger] buckets@[k]).colour@ == sampled[k].colour@,
            forall|k: int|
                0 <= k < b ==> is_resolved((#[trigger] buckets@[k]).paths@, sampled[k].paths@, *offset),
        decreases sampled.len() - b,
    {
        let bucket = &paths_grouped_by_colour.buckets[b];
        let mut paths: Vec<PathInMM> = Vec::new();
        let mut j: usize = 0;
        while j < bucket.paths.len()
            invariant
                j <= bucket.paths@.len(),
                is_resolved(paths@, bucket.paths@.take(j as int), *offset),
            decreases bucket.paths@.len() - j,
        {
            let resolved = resolve_path(&bucket.paths[j], offset);
            paths.push(resolved);
            j += 1;
        }
        assert(bucket.paths@.take(j as int) =~= bucket.paths@);
        buckets.push(ColourBucket { colour: bucket.colour, paths });
        b += 1;
    }
    proof {
        let after = buckets@;
        assert forall|colour: (u8, u8, u8)|
            is_resolved(#[trigger] paths_of(after, colour), paths_of(sampled, colour), *offset) by {
            lemma_aligned_buckets(sampled, after, colour);
        }
        lemma_aligned_buckets(sampled, after, (0u8, 0u8, 0u8));
        assert(Seq::new(after.len(), |i: int| after[i].colour@) =~= Seq::new(
            sampled.len(),
            |i: int| sampled[i].colour@,
        ));
    }
    PathsByColour { buckets }
}

/// The buckets whose colour some enabled tool pass has, in their order.
spec fn kept_buckets<P>(buckets: Seq<ColourBucket<P>>, tool_passes: Seq<ToolPass>) -> Seq<
    ColourBucket<P>,
>
    decreases buckets.len(),
{
    if buckets.len() == 0 {
        Seq::empty()
    } else {
        let earlier = kept_buckets(buckets.drop_last(), tool_passes);
        if colour_is_enabled(tool_passes, buckets.last().colour@) {
            earlier.push(buckets.last())
        } else {
            earlier
        }
    }
}

/// The colours in `colours` that some enabled tool pass has, in their order.
pub open spec fn enabled_colours(colours: Seq<(u8, u8, u8)>, tool_passes: Seq<ToolPass>) -> Seq<
    (u8, u8, u8),
>
    decreases colours.len(),
{
    if colours.len() == 0 {
        Seq::empty()
    } else {
        let earlier = enabled_colours(colours.drop_last(), tool_passes);
        if colour_is_enabled(tool_passes, colours.last()) {
            earlier.push(colours.last())
        } else {
            earlier
        }
    }
}

spec fn colours_of<P>(buckets: Seq<ColourBucket<P>>) -> Seq<(u8, u8, u8)> {
    Seq::new(buckets.len(), |i: int| buckets[i].colour@)
}

proof fn lemma_kept_buckets<P>(buckets: Seq<ColourBucket<P>>, tool_passes: Seq<ToolPass>)
    requires
        colours_are_distinct(buckets),
    ensures
        colours_are_distinct(kept_buckets(buckets, tool_passes)),
        colours_of(kept_buckets(buckets, tool_passes)) == enabled_colours(
            colours_of(buckets),
            tool_passes,
        ),
        forall|colour: (u8, u8, u8)| #[trigger]
            has_colour(kept_buckets(buckets, tool_passes), colour) ==> has_colour(buckets, colour),
        forall|colour: (u8, u8, u8)| #[trigger]
            paths_of(kept_buckets(buckets, tool_passes), colour) == if colour_is_enabled(
                tool_passes,
                colour,
            ) {
                paths_of(buckets, colour)
            } else {
                Seq::empty()
            },
    decreases buckets.len(),
{
    let kept = kept_buckets(buckets, tool_passes);
    if buckets.len() == 0 {
        assert(colours_of(kept) =~= enabled_colours(colours_of(buckets), tool_passes));
    } else {
        let front = buckets.drop_last();
        let last = buckets.last();
        let earlier = kept_buckets(front, tool_passes);
        lemma_kept_buckets(front, tool_passes);
        assert(colours_of(buckets).drop_last() =~= colours_of(front));
        assert(colours_of(buckets).last() == last.colour@);
        assert(!has_colour(front, last.colour@)) by {
            if has_colour(front, last.colour@) {
                let i = index_of_colour(front, last.colour@);
                assert(buckets[i].colour@ != buckets[buckets.len() - 1].colour@);
            }
        }
        assert(!has_colour(earlier, last.colour@));
        assert(colours_are_distinct(kept)) by {
            if colour_is_enabled(tool_passes, last.colour@) {
                assert forall|i: int, j: int| 0 <= i < j < kept.len() implies (
                #[trigger] kept[i]).colour@ != (#[trigger] kept[j]).colour@ by {
                    if j == kept.len() - 1 {
                        assert(earlier[i] == kept[i]);
                    } else {
                        assert(earlier[i] == kept[i]);
                        assert(earlier[j] == kept[j]);
                    }
                }
            }
        }
        assert(colours_of(kept) =~= enabled_colours(colours_of(buckets), tool_passes)) by {
            if colour_is_enabled(tool_passes, last.colour@) {
                assert(colours_of(kept) =~= colours_of(earlier).push(last.colour@));
            }
        }
        assert forall|colour: (u8, u8, u8)| #[trigger] has_colour(kept, colour) implies has_colour(
            buckets,
            colour,
        ) by {
            let i = index_of_colour(kept, colour);
            if i < earlier.len() {
                assert(earlier[i] == kept[i]);
                assert(has_colour(earlier, colour));
                assert(has_colour(front, colour));
                let k = index_of_colour(front, colour);
                assert(buckets[k] == front[k]);
            } else {
                assert(buckets[buckets.len() - 1].colour@ == colour);
            }
        }
        assert forall|colour: (u8, u8, u8)| #[trigger]
            paths_of(kept, colour) == if colour_is_enabled(tool_passes, colour) {
                paths_of(buckets, colour)
            } else {
                Seq::empty()
            } by {
            if colour == last.colour@ {
                lemma_index_of_colour(buckets, buckets.len() - 1);
                if colour_is_enabled(tool_passes, colour) {
                    lemma_index_of_colour(kept, kept.len() - 1);
                } else {
                    assert(!has_colour(kept, colour));
                }
            } else {
                assert(paths_of(buckets, colour) == paths_of(front, colour)) by {
                    if has_colour(front, colour) {
                        let k = index_of_colour(front, colour);
                        assert(buckets[k] == front[k]);
                        lemma_index_of_colour(front, k);
                        lemma_index_of_colour(buckets, k);
                    } else if has_colour(buckets, colour) {
                        let k = index_of_colour(buckets, colour);
                        assert(front[k] == buckets[k]);
                    }
                }
                assert(paths_of(kept, colour) == paths_of(earlier, colour)) by {
                    if has_colour(earlier, colour) {
                        let k = index_of_colour(earlier, colour);
                        assert(kept[k] == earlier[k]);
                        lemma_index_of_colour(earlier, k);
                        lemma_index_of_colour(kept, k);
                    } else if has_colour(kept, colour) {
                        let k = index_of_colour(kept, colour);
                        assert(earlier[k] == kept[k]);
                    }
                }
            }
        }
    }
}

/// Whether some enabled tool pass has this colour.
fn is_enabled_colour(colour: &PathColour, tool_passes: &[ToolPass]) -> (enabled: bool)
    ensures
        enabled == colour_is_enabled(tool_passes@, colour@),
{
    let mut i: usize = 0;
    while i < tool_passes.len()
        invariant
            i <= tool_passes@.len(),
            forall|k: int|
                0 <= k < i ==> !((#[trigger] tool_passes@[k])@.enabled && tool_passes@[k]@.colour
                    == colour@),
        decreases tool_passes@.len() - i,
    {
        let pass = &tool_passes[i];
        if colour.matches(pass.colour()) && *pass.enabled() {
            return true;
        }
        i += 1;
    }
    false
}

/// Filters a set of paths down to those that (enabled) tool passes cover.
///
/// A colour keeps its paths where some enabled tool pass has that colour, and
/// loses them all where none has. The colours that stay keep their order.
pub fn filter_paths_to_tool_passes<P>(paths: &mut PathsByColour<P>, tool_passes: &[ToolPass])
    ensures
        forall|colour: (u8, u8, u8)| #[trigger]
            final(paths).bucket(colour) == if colour_is_enabled(tool_passes@, colour) {
                old(paths).bucket(colour)
            } else {
                Seq::empty()
            },
        final(paths).colours() == enabled_colours(old(paths).colours(), tool_passes@),
{
    proof {
        use_type_invariant(&*paths);
    }
    let mut taken = PathsByColour { buckets: Vec::new() };
    core::mem::swap(paths, &mut taken);
    let mut buckets = taken.buckets;
    let ghost before = buckets@;
    let mut kept: Vec<ColourBucket<P>> = Vec::new();
    let mut i: usize = 0;
    while i < buckets.len()
        invariant
            i <= before.len(),
            buckets@.len() == before.len(),
            forall|k: int| i <= k < before.len() ==> buckets@[k] == before[k],
            kept@ == kept_buckets(before.take(i as int), tool_passes@),
        decreases before.len() - i,
    {
        let colour = buckets[i].colour;
        proof {
            assert(before.take(i as int + 1).drop_last() =~= before.take(i as int));
            assert(before.take(i as int + 1).last() == before[i as int]);
        }
        if is_enabled_colour(&colour, tool_passes) {
            let mut moved: Vec<P> = Vec::new();
            core::mem::swap(&mut buckets[i].paths, &mut moved);
            let bucket = ColourBucket { colour, paths: moved };
            assert(bucket == before[i as int]);
            kept.push(bucket);
        }
        i += 1;
    }
    proof {
        assert(before.take(i as int) =~= before);
        lemma_kept_buckets(before, tool_passes@);
    }
    *paths = PathsByColour { buckets: kept };
}

/// Places the points of one polyline on the bed.
///
/// A point that the bed does not place is dropped, and the polyline is split
/// there: the points before it and the points after it become polylines of
/// their own.
pub fn place_points(points: &[PointInMillimeters], bed: &PrintBed) -> (placed: Vec<ResolvedPath>)
    ensures
        polylines(placed@) == placed_segments(*bed, points@),
{
    let mut placed: Vec<ResolvedPath> = Vec::new();
    let mut current: ResolvedPath = Vec::new();
    let mut i: usize = 0;
    while i < points.len()
        invariant
            i <= points@.len(),
            polylines(placed@) + segments_from(*bed, points@, i as int, current@)
                == placed_segments(*bed, points@),
        decreases points@.len() - i,
    {
        let ghost begun = current@;
        match bed.place_point(points[i]) {
            Some(point) => {
                current.push(point);
                assert(segments_from(*bed, points@, i as int, begun) == segments_from(
                    *bed,
                    points@,
                    i as int + 1,
                    begun.push(point),
                ));
            },
            None => {
                let ghost earlier = polylines(placed@);
                let ghost rest = segments_from(*bed, points@, i as int + 1, Seq::empty());
                assert(segments_from(*bed, points@, i as int, begun) == (if begun.len() > 0 {
                    seq![begun]
                } else {
                    Seq::empty()
                }) + rest);
                if current.len() > 0 {
                    let mut finished: ResolvedPath = Vec::new();
                    core::mem::swap(&mut current, &mut finished);
                    placed.push(finished);
                    assert(polylines(placed@) =~= earlier + seq![finished@]);
                    assert((earlier + seq![finished@]) + rest =~= earlier + (seq![finished@]
                        + rest));
                } else {
                    assert(current@ =~= Seq::<ResolvedPoint>::empty());
                    assert(Seq::<Seq<ResolvedPoint>>::empty() + rest =~= rest);
                }
            },
        }
        i += 1;
    }
    let ghost earlier = polylines(placed@);
    if current.len() > 0 {
        placed.push(current);
        assert(polylines(placed@) =~= earlier + seq![current@]);
    } else {
        assert(earlier + Seq::<Seq<ResolvedPoint>>::empty() =~= earlier);
    }
    placed
}

/// Converts paths in micrometres into paths in plotter units for the given bed.
///
/// Every colour keeps the polylines of its paths, in order. Points off the
/// bed are dropped and split the polyline that they were on.
pub fn convert_points_to_plotter_units(
    paths_in_mm: &PathsByColour<PathInMM>,
    bed: &PrintBed,
) -> (resolved_paths: PathsByColour<ResolvedPath>)
    ensures
        resolved_paths.colours() == paths_in_mm.colours(),
        forall|colour: (u8, u8, u8)|
            polylines(#[trigger] resolved_paths.bucket(colour)) == placed_bucket(
                *bed,
                polylines(paths_in_mm.bucket(colour)),
            ),
{
    proof {
        use_type_invariant(paths_in_mm);
    }
    let ghost source = paths_in_mm.buckets@;
    let mut buckets: Vec<ColourBucket<ResolvedPath>> = Vec::new();
    let mut b: usize = 0;
    while b < paths_in_mm.buckets.len()
        invariant
            source == paths_in_mm.buckets@,
            b <= source.len(),
            buckets@.len() == b,
            forall|k: int| 0 <= k < b ==> (#[trigger] buckets@[k]).colour@ == source[k].colour@,
            forall|k: int|
                0 <= k < b ==> polylines((#[trigger] buckets@[k]).paths@) == placed_bucket(
                    *bed,
                    polylines(source[k].paths@),
                ),
        decreases source.len() - b,
    {
        let bucket = &paths_in_mm.buckets[b];
        let mut paths: Vec<ResolvedPath> = Vec::new();
        let mut j: usize = 0;
        let ghost lines = polylines(bucket.paths@);
        assert(polylines(paths@) =~= placed_bucket(*bed, lines.take(0)));
        while j < bucket.paths.len()
            invariant
                j <= bucket.paths@.len(),
                lines == polylines(bucket.paths@),
                polylines(paths@) == placed_bucket(*bed, lines.take(j as int)),
            decreases bucket.paths@.len() - j,
        {
            let ghost earlier = paths@;
            let mut placed = place_points(bucket.paths[j].as_slice(), bed);
            let ghost added = placed@;
            paths.append(&mut placed);
            proof {
                assert(lines.take(j as int + 1).drop_last() =~= lines.take(j as int));
                assert(lines.take(j as int + 1).last() == bucket.paths@[j as int]@);
                assert(polylines(paths@) =~= polylines(earlier) + polylines(added));
            }
            j += 1;
        }
        assert(lines.take(j as int) =~= lines);
        buckets.push(ColourBucket { colour: bucket.colour, paths });
        b += 1;
    }
    proof {
        let after = buckets@;
        assert forall|colour: (u8, u8, u8)|
            polylines(#[trigger] paths_of(after, colour)) == placed_bucket(
                *bed,
                polylines(paths_of(source, colour)),
            ) by {
            lemma_aligned_buckets(source, after, colour);
            if !has_colour(source, colour) {
                assert(polylines(paths_of(after, colour)) =~= Seq::<Seq<ResolvedPoint>>::empty());
                assert(polylines(paths_of(source, colour)) =~= Seq::<
                    Seq<PointInMillimeters>,
                >::empty());
            }
        }
        lemma_aligned_buckets(source, after, (0u8, 0u8, 0u8));
        assert(colours_of(after) =~= colours_of(source));
    }
    PathsByColour { buckets }
}

/// Converts a length in micrometres into HPGL/2 units on the default bed.
///
/// The GCC Spirit has y=0 at the bottom, while designs have it at the top, so
/// the Y axis is mirrored about the bed's height.
pub fn mm_to_hpgl_units(mm: i64, is_x_axis: bool) -> (units: i16)
    ensures
        units == hpgl_units(mm as int, is_x_axis),
{
    let position: i128 = if is_x_axis {
        mm as i128
    } else {
        BED_HEIGHT_MICROMETRES as i128 - mm as i128
    };
    let rounded: i128 = if position >= 0 {
        (position + 12) / 25
    } else {
        -((12 - position) / 25)
    };
    if rounded > i16::MAX as i128 {
        i16::MAX
    } else if rounded < i16::MIN as i128 {
        i16::MIN
    } else {
        rounded as i16
    }
}

/// Converts points in micrometres into plotter units on the default bed, one for one.
pub fn points_in_mm_to_printer_units(points: &[PointInMillimeters]) -> (resolved_points: Vec<
    ResolvedPoint,
>)
    ensures
        resolved_points@.len() == points@.len(),
        forall|i: int|
            0 <= i < points@.len() ==> resolved_points@[i] == (ResolvedPoint {
                x: hpgl_units(points@[i].x as int, true),
                y: hpgl_units(points@[i].y as int, false),
            }),
{
    let mut resolved_points: Vec<ResolvedPoint> = Vec::new();
    let mut i: usize = 0;
    while i < points.len()
        invariant
            i <= points@.len(),
            resolved_points@.len() == i,
            forall|k: int|
                0 <= k < i ==> resolved_points@[k] == (ResolvedPoint {
                    x: hpgl_units(points@[k].x as int, true),
                    y: hpgl_units(points@[k].y as int, false),
                }),
        decreases points@.len() - i,
    {
        let point = points[i];
        resolved_points.push(
            ResolvedPoint {
                x: mm_to_hpgl_units(point.x, true),
                y: mm_to_hpgl_units(point.y, false),
            },
        );
        i += 1;
    }
    resolved_points
}

/// The offset that undoes `offset`.
pub open spec fn opposite(offset: DesignOffset) -> DesignOffset
    recommends
        offset.x > i64::MIN,
        offset.y > i64::MIN,
{
    DesignOffset { x: (-offset.x) as i64, y: (-offset.y) as i64 }
}

/// Whether a point can be moved by an offset and back within the 64-bit range.
pub open spec fn offset_stays_in_range(point: PointInMillimeters, offset: DesignOffset) -> bool {
    &&& offset.x > i64::MIN
    &&& offset.y > i64::MIN
    &&& i64::MIN <= point.x + offset.x <= i64::MAX
    &&& i64::MIN <= point.y + offset.y <= i64::MAX
}

/// Moving a point by an offset and then by the opposite offset gives the
/// point back, wherever the moved point stays within the 64-bit range.
pub proof fn lemma_offset_round_trip(point: PointInMillimeters, offset: DesignOffset)
    requires
        offset_stays_in_range(point, offset),
    ensures
        offset_of(offset_of(point, offset), opposite(offset)) == point,
{
}

/// Moving every point of a polyline by an offset and then by the opposite
/// offset gives the polyline back, wherever the moved points stay within the
/// 64-bit range.
pub proof fn lemma_path_offset_round_trip(points: Seq<PointInMillimeters>, offset: DesignOffset)
    requires
        forall|i: int| 0 <= i < points.len() ==> offset_stays_in_range(#[trigger] points[i], offset),
    ensures
        points.map_values(|point: PointInMillimeters| offset_of(point, offset)).map_values(
            |point: PointInMillimeters| offset_of(point, opposite(offset)),
        ) == points,
{
    let moved = points.map_values(|point: PointInMillimeters| offset_of(point, offset));
    let back = moved.map_values(|point: PointInMillimeters| offset_of(point, opposite(offset)));
    assert forall|i: int| 0 <= i < points.len() implies back[i] == points[i] by {
        lemma_offset_round_trip(points[i], offset);
    }
    assert(back =~= points);
}

/// No polyline that the bed gives back is empty.
pub proof fn lemma_placed_segments_are_not_empty(bed: PrintBed, points: Seq<PointInMillimeters>)
    ensures
        forall|i: int|
            0 <= i < placed_segments(bed, points).len() ==> (#[trigger] placed_segments(
                bed,
                points,
            )[i]).len() > 0,
{
    lemma_segments_are_not_empty(bed, points, 0, Seq::empty());
}

proof fn lemma_segments_are_not_empty(
    bed: PrintBed,
    points: Seq<PointInMillimeters>,
    next: int,
    current: Seq<ResolvedPoint>,
)
    requires
        0 <= next,
    ensures
        forall|i: int|
            0 <= i < segments_from(bed, points, next, current).len() ==> (
            #[trigger] segments_from(bed, points, next, current)[i]).len() > 0,
    decreases points.len() - next,
{
    let all = segments_from(bed, points, next, current);
    if next >= points.len() {
        assert forall|i: int| 0 <= i < all.len() implies (#[trigger] all[i]).len() > 0 by {
            assert(all[i] == current);
        }
    } else {
        match bed.placed(points[next]) {
            Some(placed) => {
                lemma_segments_are_not_empty(bed, points, next + 1, current.push(placed));
                assert(all == segments_from(bed, points, next + 1, current.push(placed)));
            },
            None => {
                lemma_segments_are_not_empty(bed, points, next + 1, Seq::empty());
                let finished = if current.len() > 0 {
                    seq![current]
                } else {
                    Seq::<Seq<ResolvedPoint>>::empty()
                };
                let later = segments_from(bed, points, next + 1, Seq::empty());
                assert(all == finished + later);
                assert forall|i: int| 0 <= i < all.len() implies (#[trigger] all[i]).len() > 0 by {
                    if i < finished.len() {
                        assert(all[i] == current);
                    } else {
                        assert(all[i] == later[i - finished.len()]);
                    }
                }
            },
        }
    }
}

/// The points of a polyline that the bed places, each placed, in their order.
pub open spec fn placed_points(bed: PrintBed, points: Seq<PointInMillimeters>) -> Seq<
    ResolvedPoint,
>
    decreases points.len(),
{
    if points.len() == 0 {
        Seq::empty()
    } else {
        let earlier = placed_points(bed, points.drop_last());
        match bed.placed(points.last()) {
            Some(placed) => earlier.push(placed),
            None => earlier,
        }
    }
}

/// Splitting loses and adds nothing: the polylines that the bed gives back,
/// one after the other, are the points that it places, in their order.
pub proof fn lemma_segments_hold_the_placed_points(bed: PrintBed, points: Seq<PointInMillimeters>)
    ensures
        placed_segments(bed, points).flatten() == placed_points(bed, points),
{
    lemma_segments_from_flatten(bed, points, 0, Seq::empty());
    assert(points.take(0) =~= Seq::<PointInMillimeters>::empty());
    assert(points.skip(0) =~= points);
    assert(Seq::<ResolvedPoint>::empty() + placed_points(bed, points) =~= placed_points(
        bed,
        points,
    ));
}

proof fn lemma_placed_points_first(bed: PrintBed, points: Seq<PointInMillimeters>)
    requires
        points.len() > 0,
    ensures
        placed_points(bed, points) == (match bed.placed(points[0]) {
            Some(placed) => seq![placed],
            None => Seq::empty(),
        }) + placed_points(bed, points.skip(1)),
    decreases points.len(),
{
    let head = match bed.placed(points[0]) {
        Some(placed) => seq![placed],
        None => Seq::<ResolvedPoint>::empty(),
    };
    if points.len() == 1 {
        assert(points.drop_last() =~= Seq::<PointInMillimeters>::empty());
        assert(points.skip(1) =~= Seq::<PointInMillimeters>::empty());
        assert(placed_points(bed, points.drop_last()) =~= Seq::<ResolvedPoint>::empty());
        assert(placed_points(bed, points) =~= head + placed_points(bed, points.skip(1)));
    } else {
        let front = points.drop_last();
        lemma_placed_points_first(bed, front);
        assert(front.skip(1) =~= points.skip(1).drop_last());
        assert(points.skip(1).last() == points.last());
        assert(front[0] == points[0]);
        assert(placed_points(bed, points) =~= head + placed_points(bed, points.skip(1)));
    }
}

proof fn lemma_segments_from_flatten(
    bed: PrintBed,
    points: Seq<PointInMillimeters>,
    next: int,
    current: Seq<ResolvedPoint>,
)
    requires
        0 <= next <= points.len(),
    ensures
        segments_from(bed, points, next, current).flatten() == current + placed_points(
            bed,
            points.skip(next),
        ),
    decreases points.len() - next,
{
    let finished = if current.len() > 0 {
        seq![current]
    } else {
        Seq::<Seq<ResolvedPoint>>::empty()
    };
    assert(finished.flatten() =~= current) by {
        if current.len() > 0 {
            finished.lemma_flatten_one_element();
        }
    }
    let rest = points.skip(next);
    if next >= points.len() {
        assert(rest =~= Seq::<PointInMillimeters>::empty());
        assert(current + placed_points(bed, rest) =~= current);
    } else {
        lemma_placed_points_first(bed, rest);
        assert(rest[0] == points[next]);
        assert(rest.skip(1) =~= points.skip(next + 1));
        match bed.placed(points[next]) {
            Some(placed) => {
                lemma_segments_from_flatten(bed, points, next + 1, current.push(placed));
                assert(current.push(placed) + placed_points(bed, points.skip(next + 1))
                    =~= current + (seq![placed] + placed_points(bed, points.skip(next + 1))));
            },
            None => {
                let later = segments_from(bed, points, next + 1, Seq::empty());
                lemma_segments_from_flatten(bed, points, next + 1, Seq::empty());
                vstd::seq_lib::lemma_flatten_concat(finished, later);
                assert(Seq::<ResolvedPoint>::empty() + placed_points(bed, points.skip(next + 1))
                    =~= placed_points(bed, points.skip(next + 1)));
            },
        }
    }
}

} // verus!
