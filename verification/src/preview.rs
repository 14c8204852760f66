//! The preview of a design on the bed: the canvas that shows what the cutter
//! will trace.

use vstd::prelude::*;
use vstd::arithmetic::div_mod::{lemma_fundamental_div_mod, lemma_fundamental_div_mod_converse};
use crate::bed::PrintBed;
use crate::paths::{
    is_resolved, polylines, resolve_paths, resolved_points, DesignOffset, PathColour, PathInMM,
    PathsByColour, PointInMillimeters, SampledPath,
};

verus! {

/// The most that the preview can be zoomed in, in thousandths: five times.
pub const MAX_ZOOM_LEVEL: u32 = 5000;

/// The least zoom of the preview, in thousandths: life size.
pub const MIN_ZOOM_LEVEL: u32 = 1000;

/// The background colour of the preview: red, green, blue and alpha.
pub const PREVIEW_BACKGROUND_COLOUR: [u8; 4] = [230, 230, 230, 255];

/// The colour of the grid marks of the preview: red, green, blue and alpha.
pub const PREVIEW_GRID_COLOUR: [u8; 4] = [100, 100, 100, 255];

/// How thick lines are drawn in the preview, in pixels.
pub const PREVIEW_LINE_THICKNESS_PIXELS: usize = 4;

/// The size of the preview on screen, in pixels.
#[derive(Debug, Clone, Copy, PartialEq, Eq, Structural)]
pub struct PreviewSize {
    /// Width in pixels.
    pub width: u32,
    /// Height in pixels.
    pub height: u32,
}

/// A rendered preview: rows of pixels from the top, four bytes to the pixel
/// (red, green, blue, alpha).
#[derive(Debug, Clone, PartialEq, Eq)]
pub struct RenderedImage {
    /// Width in pixels.
    pub width: usize,
    /// Height in pixels.
    pub height: usize,
    /// The pixels, `width * height * 4` bytes.
    pub pixels: Vec<u8>,
}

/// One sampled point as it appears on the canvas: the pixel that it falls on
/// and the colour of its path.
pub struct Mark {
    /// Pixel column.
    pub x: int,
    /// Pixel row.
    pub y: int,
    /// Red, green and blue of the path.
    pub colour: (u8, u8, u8),
}

/// How long one side of the canvas is: the size on screen times the zoom and
/// a margin of a twentieth, rounded up.
pub open spec fn canvas_dimension(size: int, zoom: int) -> int {
    (size * zoom * 21 + 19999) / 20000
}

/// Whether a pixel lies within a tenth of a grid step of a grid line along
/// one axis. Grid lines are 10 mm apart, and `size * 5` pixels span the bed.
pub open spec fn near_grid_line(position: int, size: int, bed_dimension: int) -> bool {
    let step = 50000 * size;
    if step <= 0 {
        true
    } else {
        let remainder = (position * bed_dimension) % step;
        10 * remainder <= step || 10 * remainder >= 9 * step
    }
}

/// The pixel that a length along one axis falls on: the length times the
/// pixels per millimetre, rounded up. None on a bed without extent.
pub open spec fn pixel_of(coordinate: int, size: int, bed_dimension: int) -> Option<int> {
    if bed_dimension <= 0 {
        None
    } else {
        Some(-((-(coordinate * size * 5)) / bed_dimension))
    }
}

/// Whether the plus of a mark covers a pixel: two pixels before the mark's
/// and one after it, along its row and along its column.
pub open spec fn mark_covers(mark: Mark, x: int, y: int) -> bool {
    ||| y == mark.y && mark.x - 2 <= x < mark.x + 2
    ||| x == mark.x && mark.y - 2 <= y < mark.y + 2
}

/// The colour of the last mark that covers a pixel, if any does.
pub open spec fn painted(marks: Seq<Mark>, x: int, y: int) -> Option<(u8, u8, u8)>
    decreases marks.len(),
{
    if marks.len() == 0 {
        None
    } else if mark_covers(marks.last(), x, y) {
        Some(marks.last().colour)
    } else {
        painted(marks.drop_last(), x, y)
    }
}

/// The grid or the background at a pixel.
pub open spec fn ground_at(size: PreviewSize, bed_width: int, bed_height: int, x: int, y: int) -> Seq<
    u8,
> {
    if near_grid_line(x, size.width as int, bed_width) && near_grid_line(
        y,
        size.height as int,
        bed_height,
    ) {
        PREVIEW_GRID_COLOUR@
    } else {
        PREVIEW_BACKGROUND_COLOUR@
    }
}

/// The four bytes of a pixel: the colour of the last mark that covers it,
/// opaque, or else the grid or the background.
pub open spec fn pixel_at(
    marks: Seq<Mark>,
    size: PreviewSize,
    bed_width: int,
    bed_height: int,
    x: int,
    y: int,
) -> Seq<u8> {
    match painted(marks, x, y) {
        Some(colour) => seq![colour.0, colour.1, colour.2, 255u8],
        None => ground_at(size, bed_width, bed_height, x, y),
    }
}

/// The marks of one polyline: one for each point that has a pixel, in order.
pub open spec fn marks_of_path(
    colour: (u8, u8, u8),
    points: Seq<PointInMillimeters>,
    size: PreviewSize,
    bed_width: int,
    bed_height: int,
) -> Seq<Mark>
    decreases points.len(),
{
    if points.len() == 0 {
        Seq::empty()
    } else {
        let earlier = marks_of_path(colour, points.drop_last(), size, bed_width, bed_height);
        match (
            pixel_of(points.last().x as int, size.width as int, bed_width),
            pixel_of(points.last().y as int, size.height as int, bed_height),
        ) {
            (Some(x), Some(y)) => earlier.push(Mark { x, y, colour }),
            _ => earlier,
        }
    }
}

/// The marks of the polylines of one colour, polyline after polyline.
pub open spec fn marks_of_polylines(
    colour: (u8, u8, u8),
    lines: Seq<Seq<PointInMillimeters>>,
    size: PreviewSize,
    bed_width: int,
    bed_height: int,
) -> Seq<Mark>
    decreases lines.len(),
{
    if lines.len() == 0 {
        Seq::empty()
    } else {
        marks_of_polylines(colour, lines.drop_last(), size, bed_width, bed_height) + marks_of_path(
            colour,
            lines.last(),
            size,
            bed_width,
            bed_height,
        )
    }
}

/// The colours of a design in the order in which it lists them, each with its polylines.
pub type Listing = Seq<((u8, u8, u8), Seq<Seq<PointInMillimeters>>)>;

/// The marks of the first `count` colours of a listing, colour after colour.
pub open spec fn marks_of_listing(
    listing: Listing,
    count: int,
    size: PreviewSize,
    bed_width: int,
    bed_height: int,
) -> Seq<Mark>
    decreases count,
{
    if count <= 0 {
        Seq::empty()
    } else {
        marks_of_listing(listing, count - 1, size, bed_width, bed_height) + marks_of_polylines(
            listing[count - 1].0,
            listing[count - 1].1,
            size,
            bed_width,
            bed_height,
        )
    }
}

/// The listing of polylines grouped by colour.
pub open spec fn listing_of(paths: PathsByColour<PathInMM>) -> Listing {
    Seq::new(
        paths.colours().len(),
        |i: int| (paths.colours()[i], polylines(paths.bucket(paths.colours()[i]))),
    )
}

/// The listing of sampled paths, each closed where it is closed and moved by the offset.
pub open spec fn listing_of_sampled(
    sampled: PathsByColour<SampledPath>,
    offset: DesignOffset,
) -> Listing {
    Seq::new(
        sampled.colours().len(),
        |i: int|
            (
                sampled.colours()[i],
                sampled.bucket(sampled.colours()[i]).map_values(
                    |path: SampledPath| resolved_points(path, offset),
                ),
            ),
    )
}

/// The four bytes of the pixel at a column and row of a canvas.
pub open spec fn canvas_pixel(pixels: Seq<u8>, width: int, x: int, y: int) -> Seq<u8> {
    pixels.subrange(4 * (y * width + x), 4 * (y * width + x) + 4)
}

/// Whether a canvas of the given width and height shows the given marks on
/// the grid of the bed.
pub open spec fn canvas_shows(
    pixels: Seq<u8>,
    width: int,
    height: int,
    marks: Seq<Mark>,
    size: PreviewSize,
    bed_width: int,
    bed_height: int,
) -> bool {
    &&& pixels.len() >= 4 * width * height
    &&& forall|x: int, y: int|
        0 <= x < width && 0 <= y < height ==> #[trigger] canvas_pixel(pixels, width, x, y)
            == pixel_at(marks, size, bed_width, bed_height, x, y)
}

/// A pixel of a canvas lies within it, and apart from every other pixel.
proof fn lemma_pixel_index(width: int, height: int, x: int, y: int)
    requires
        0 <= x < width,
        0 <= y < height,
    ensures
        0 <= y * width <= y * width + x < width * height <= 4 * width * height,
        4 * (y * width + x) + 4 <= 4 * width * height,
        4 * width * height == 4 * (width * height),
{
    assert(y * width + x < width * height) by (nonlinear_arith)
        requires
            0 <= x < width,
            0 <= y < height,
    ;
    assert(0 <= y * width) by (nonlinear_arith)
        requires
            0 <= y,
            0 <= width,
    ;
    assert(4 * width * height == 4 * (width * height)) by (nonlinear_arith);
}

/// Two pixels at the same place in a canvas are the same pixel.
proof fn lemma_pixel_index_is_injective(width: int, x: int, y: int, other_x: int, other_y: int)
    requires
        0 <= x < width,
        0 <= other_x < width,
        0 <= y,
        0 <= other_y,
        y * width + x == other_y * width + other_x,
    ensures
        x == other_x,
        y == other_y,
{
    if y < other_y {
        assert(other_y * width >= (y + 1) * width) by (nonlinear_arith)
            requires
                y < other_y,
                0 <= width,
        ;
        assert((y + 1) * width == y * width + width) by (nonlinear_arith);
    } else if other_y < y {
        assert(y * width >= (other_y + 1) * width) by (nonlinear_arith)
            requires
                other_y < y,
                0 <= width,
        ;
        assert((other_y + 1) * width == other_y * width + width) by (nonlinear_arith);
    }
}

/// Writes the four bytes of one pixel; every other pixel stays as it was.
fn put_pixel(pixels: &mut Vec<u8>, width: usize, height: usize, x: usize, y: usize, colour: &[u8; 4])
    requires
        x < width,
        y < height,
        4 * width * height <= old(pixels)@.len(),
    ensures
        final(pixels)@.len() == old(pixels)@.len(),
        canvas_pixel(final(pixels)@, width as int, x as int, y as int) == colour@,
        forall|other_x: int, other_y: int|
            0 <= other_x < width && 0 <= other_y < height && (other_x != x || other_y != y)
                ==> #[trigger] canvas_pixel(final(pixels)@, width as int, other_x, other_y)
                == canvas_pixel(old(pixels)@, width as int, other_x, other_y),
        forall|i: int|
            4 * width * height <= i < old(pixels)@.len() ==> final(pixels)@[i] == old(pixels)@[i],
{
    proof {
        lemma_pixel_index(width as int, height as int, x as int, y as int);
    }
    let total = pixels.len();
    assert(4 * (y * width + x) + 4 <= total);
    let start: usize = 4 * (y * width + x);
    pixels[start] = colour[0];
    pixels[start + 1] = colour[1];
    pixels[start + 2] = colour[2];
    pixels[start + 3] = colour[3];
    proof {
        assert(canvas_pixel(pixels@, width as int, x as int, y as int) =~= colour@);
        assert forall|other_x: int, other_y: int|
            0 <= other_x < width && 0 <= other_y < height && (other_x != x || other_y != y)
            implies #[trigger] canvas_pixel(pixels@, width as int, other_x, other_y)
            == canvas_pixel(old(pixels)@, width as int, other_x, other_y) by {
            lemma_pixel_index(width as int, height as int, other_x, other_y);
            if other_y * width + other_x == y * width + x {
                lemma_pixel_index_is_injective(width as int, x as int, y as int, other_x, other_y);
            }
            assert(canvas_pixel(pixels@, width as int, other_x, other_y) =~= canvas_pixel(
                old(pixels)@,
                width as int,
                other_x,
                other_y,
            ));
        }
    }
}

/// Paints one pixel where it lies on the canvas, and nothing where it does not.
fn paint_pixel(
    pixels: &mut Vec<u8>,
    width: usize,
    height: usize,
    x: i128,
    y: i128,
    colour: &[u8; 4],
)
    requires
        4 * width * height <= old(pixels)@.len(),
    ensures
        final(pixels)@.len() == old(pixels)@.len(),
        forall|other_x: int, other_y: int|
            0 <= other_x < width && 0 <= other_y < height ==> #[trigger] canvas_pixel(
                final(pixels)@,
                width as int,
                other_x,
                other_y,
            ) == if other_x == x && other_y == y {
                colour@
            } else {
                canvas_pixel(old(pixels)@, width as int, other_x, other_y)
            },
{
    if 0 <= x && x < width as i128 && 0 <= y && y < height as i128 {
        put_pixel(pixels, width, height, x as usize, y as usize, colour);
    }
}

/// Paints the plus of one mark: four pixels along its row and four along its
/// column, where they lie on the canvas.
fn paint_mark(
    pixels: &mut Vec<u8>,
    width: usize,
    height: usize,
    x: i128,
    y: i128,
    colour: &[u8; 4],
)
    requires
        4 * width * height <= old(pixels)@.len(),
        i128::MIN + 2 <= x <= i128::MAX - 2,
        i128::MIN + 2 <= y <= i128::MAX - 2,
    ensures
        final(pixels)@.len() == old(pixels)@.len(),
        forall|other_x: int, other_y: int|
            0 <= other_x < width && 0 <= other_y < height ==> #[trigger] canvas_pixel(
                final(pixels)@,
                width as int,
                other_x,
                other_y,
            ) == if mark_covers(Mark { x: x as int, y: y as int, colour: (0, 0, 0) }, other_x, other_y) {
                colour@
            } else {
                canvas_pixel(old(pixels)@, width as int, other_x, other_y)
            },
{
    paint_pixel(pixels, width, height, x - 2, y, colour);
    paint_pixel(pixels, width, height, x - 1, y, colour);
    paint_pixel(pixels, width, height, x, y, colour);
    paint_pixel(pixels, width, height, x + 1, y, colour);
    paint_pixel(pixels, width, height, x, y - 2, colour);
    paint_pixel(pixels, width, height, x, y - 1, colour);
    paint_pixel(pixels, width, height, x, y + 1, colour);
}

/// Whether a pixel lies near a grid line along one axis.
fn is_near_grid_line(position: usize, size: u32, bed_dimension: u64) -> (near: bool)
    ensures
        near == near_grid_line(position as int, size as int, bed_dimension as int),
{
    let step: u128 = 50000 * (size as u128);
    if step == 0 {
        return true;
    }
    assert(position * bed_dimension <= 0xffff_ffff_ffff_ffff * 0xffff_ffff_ffff_ffff)
        by (nonlinear_arith)
        requires
            0 <= position <= 0xffff_ffff_ffff_ffff,
            0 <= bed_dimension <= 0xffff_ffff_ffff_ffff,
    ;
    let remainder: u128 = ((position as u128) * (bed_dimension as u128)) % step;
    10 * remainder <= step || 10 * remainder >= 9 * step
}

/// The pixel that a length along one axis falls on.
fn pixel_along(coordinate: i64, size: u32, bed_dimension: u64) -> (pixel: Option<i128>)
    ensures
        match pixel {
            Some(at) => pixel_of(coordinate as int, size as int, bed_dimension as int) == Some(
                at as int,
            ) && i128::MIN + 2 <= at <= i128::MAX - 2,
            None => pixel_of(coordinate as int, size as int, bed_dimension as int) is None,
        },
{
    if bed_dimension == 0 {
        return None;
    }
    let divisor: i128 = bed_dimension as i128;
    assert(-0x8000_0000_0000_0000 * 0xffff_ffff <= coordinate * size <= 0x8000_0000_0000_0000
        * 0xffff_ffff) by (nonlinear_arith)
        requires
            -0x8000_0000_0000_0000 <= coordinate <= 0x8000_0000_0000_0000,
            0 <= size <= 0xffff_ffff,
    ;
    let scaled: i128 = (coordinate as i128) * (size as i128) * 5;
    if scaled >= 0 {
        let quotient = scaled / divisor;
        let remainder = scaled % divisor;
        proof {
            lemma_fundamental_div_mod(scaled as int, divisor as int);
            assert(0 <= quotient <= scaled) by (nonlinear_arith)
                requires
                    scaled == divisor * quotient + remainder,
                    0 <= remainder < divisor,
                    0 <= scaled,
            ;
            if remainder == 0 {
                assert(-scaled == (-quotient) * divisor + 0) by (nonlinear_arith)
                    requires
                        scaled == divisor * quotient + remainder,
                        remainder == 0,
                ;
                lemma_fundamental_div_mod_converse(-scaled, divisor as int, -quotient, 0);
            } else {
                assert(-scaled == (-quotient - 1) * divisor + (divisor - remainder))
                    by (nonlinear_arith)
                    requires
                        scaled == divisor * quotient + remainder,
                ;
                lemma_fundamental_div_mod_converse(
                    -scaled,
                    divisor as int,
                    -quotient - 1,
                    divisor - remainder,
                );
            }
        }
        if remainder == 0 {
            Some(quotient)
        } else {
            Some(quotient + 1)
        }
    } else {
        let magnitude: i128 = -scaled;
        let quotient = magnitude / divisor;
        proof {
            lemma_fundamental_div_mod(magnitude as int, divisor as int);
            assert(0 <= quotient <= magnitude) by (nonlinear_arith)
                requires
                    magnitude == divisor * quotient + magnitude % divisor,
                    0 <= magnitude % divisor < divisor,
                    0 <= magnitude,
            ;
        }
        Some(-quotient)
    }
}

/// Painting one more mark shows one more mark.
proof fn lemma_painted_push(marks: Seq<Mark>, mark: Mark, x: int, y: int)
    ensures
        painted(marks.push(mark), x, y) == if mark_covers(mark, x, y) {
            Some(mark.colour)
        } else {
            painted(marks, x, y)
        },
{
    assert(marks.push(mark).drop_last() =~= marks);
}

/// Fills the canvas with the background and the grid on it.
fn fill_ground(
    pixels: &mut Vec<u8>,
    width: usize,
    height: usize,
    size: PreviewSize,
    bed_width: u64,
    bed_height: u64,
)
    requires
        4 * width * height <= old(pixels)@.len(),
    ensures
        final(pixels)@.len() == old(pixels)@.len(),
        canvas_shows(
            final(pixels)@,
            width as int,
            height as int,
            Seq::empty(),
            size,
            bed_width as int,
            bed_height as int,
        ),
{
    let mut y: usize = 0;
    while y < height
        invariant
            y <= height,
            pixels@.len() == old(pixels)@.len(),
            4 * width * height <= pixels@.len(),
            forall|at_x: int, at_y: int|
                0 <= at_x < width && 0 <= at_y < y ==> #[trigger] canvas_pixel(
                    pixels@,
                    width as int,
                    at_x,
                    at_y,
                ) == ground_at(size, bed_width as int, bed_height as int, at_x, at_y),
        decreases height - y,
    {
        let near_row = is_near_grid_line(y, size.height, bed_height);
        let mut x: usize = 0;
        while x < width
            invariant
                x <= width,
                y < height,
                pixels@.len() == old(pixels)@.len(),
                4 * width * height <= pixels@.len(),
                near_row == near_grid_line(y as int, size.height as int, bed_height as int),
                forall|at_x: int, at_y: int|
                    0 <= at_x < width && 0 <= at_y < y ==> #[trigger] canvas_pixel(
                        pixels@,
                        width as int,
                        at_x,
                        at_y,
                    ) == ground_at(size, bed_width as int, bed_height as int, at_x, at_y),
                forall|at_x: int|
                    0 <= at_x < x ==> #[trigger] canvas_pixel(pixels@, width as int, at_x, y as int)
                        == ground_at(size, bed_width as int, bed_height as int, at_x, y as int),
            decreases width - x,
        {
            if near_row && is_near_grid_line(x, size.width, bed_width) {
                put_pixel(pixels, width, height, x, y, &PREVIEW_GRID_COLOUR);
            } else {
                put_pixel(pixels, width, height, x, y, &PREVIEW_BACKGROUND_COLOUR);
            }
            x += 1;
        }
        y += 1;
    }
}

/// Draws the marks of one polyline over what the canvas shows.
fn draw_path(
    pixels: &mut Vec<u8>,
    width: usize,
    height: usize,
    colour: &PathColour,
    points: &PathInMM,
    size: PreviewSize,
    bed_width: u64,
    bed_height: u64,
    Ghost(shown): Ghost<Seq<Mark>>,
)
    requires
        canvas_shows(
            old(pixels)@,
            width as int,
            height as int,
            shown,
            size,
            bed_width as int,
            bed_height as int,
        ),
    ensures
        final(pixels)@.len() == old(pixels)@.len(),
        canvas_shows(
            final(pixels)@,
            width as int,
            height as int,
            shown + marks_of_path(colour@, points@, size, bed_width as int, bed_height as int),
            size,
            bed_width as int,
            bed_height as int,
        ),
{
    let rgba: [u8; 4] = [colour.0[0], colour.0[1], colour.0[2], 255];
    let mut k: usize = 0;
    proof {
        assert(points@.take(0) =~= Seq::<PointInMillimeters>::empty());
        assert(shown + Seq::<Mark>::empty() =~= shown);
    }
    while k < points.len()
        invariant
            k <= points@.len(),
            pixels@.len() == old(pixels)@.len(),
            rgba@ == seq![colour@.0, colour@.1, colour@.2, 255u8],
            canvas_shows(
                pixels@,
                width as int,
                height as int,
                shown + marks_of_path(
                    colour@,
                    points@.take(k as int),
                    size,
                    bed_width as int,
                    bed_height as int,
                ),
                size,
                bed_width as int,
                bed_height as int,
            ),
        decreases points@.len() - k,
    {
        let point = points[k];
        let ghost earlier = marks_of_path(
            colour@,
            points@.take(k as int),
            size,
            bed_width as int,
            bed_height as int,
        );
        let ghost before = pixels@;
        proof {
            assert(points@.take(k as int + 1).drop_last() =~= points@.take(k as int));
            assert(points@.take(k as int + 1).last() == point);
        }
        let at_x = pixel_along(point.x, size.width, bed_width);
        let at_y = pixel_along(point.y, size.height, bed_height);
        match (at_x, at_y) {
            (Some(x), Some(y)) => {
                paint_mark(pixels, width, height, x, y, &rgba);
                proof {
                    let mark = Mark { x: x as int, y: y as int, colour: colour@ };
                    let now = shown + earlier.push(mark);
                    assert(now =~= (shown + earlier).push(mark));
                    assert forall|px: int, py: int|
                        0 <= px < width && 0 <= py < height implies #[trigger] canvas_pixel(
                        pixels@,
                        width as int,
                        px,
                        py,
                    ) == pixel_at(now, size, bed_width as int, bed_height as int, px, py) by {
                        lemma_painted_push(shown + earlier, mark, px, py);
                        assert(canvas_pixel(before, width as int, px, py) == pixel_at(
                            shown + earlier,
                            size,
                            bed_width as int,
                            bed_height as int,
                            px,
                            py,
                        ));
                    }
                }
            },
            _ => {},
        }
        k += 1;
    }
    assert(points@.take(k as int) =~= points@);
}

/// Draws the marks of the polylines of one colour over what the canvas shows.
fn draw_bucket(
    pixels: &mut Vec<u8>,
    width: usize,
    height: usize,
    colour: &PathColour,
    paths: &Vec<PathInMM>,
    size: PreviewSize,
    bed_width: u64,
    bed_height: u64,
    Ghost(shown): Ghost<Seq<Mark>>,
)
    requires
        canvas_shows(
            old(pixels)@,
            width as int,
            height as int,
            shown,
            size,
            bed_width as int,
            bed_height as int,
        ),
    ensures
        final(pixels)@.len() == old(pixels)@.len(),
        canvas_shows(
            final(pixels)@,
            width as int,
            height as int,
            shown + marks_of_polylines(
                colour@,
                polylines(paths@),
                size,
                bed_width as int,
                bed_height as int,
            ),
            size,
            bed_width as int,
            bed_height as int,
        ),
{
    let mut j: usize = 0;
    let ghost lines = polylines(paths@);
    proof {
        assert(lines.take(0) =~= Seq::<Seq<PointInMillimeters>>::empty());
        assert(shown + Seq::<Mark>::empty() =~= shown);
    }
    while j < paths.len()
        invariant
            j <= paths@.len(),
            pixels@.len() == old(pixels)@.len(),
            lines == polylines(paths@),
            canvas_shows(
                pixels@,
                width as int,
                height as int,
                shown + marks_of_polylines(
                    colour@,
                    lines.take(j as int),
                    size,
                    bed_width as int,
                    bed_height as int,
                ),
                size,
                bed_width as int,
                bed_height as int,
            ),
        decreases paths@.len() - j,
    {
        let ghost earlier = marks_of_polylines(
            colour@,
            lines.take(j as int),
            size,
            bed_width as int,
            bed_height as int,
        );
        let ghost added = marks_of_path(
            colour@,
            paths@[j as int]@,
            size,
            bed_width as int,
            bed_height as int,
        );
        draw_path(
            pixels,
            width,
            height,
            colour,
            &paths[j],
            size,
            bed_width,
            bed_height,
            Ghost(shown + earlier),
        );
        proof {
            assert(lines.take(j as int + 1).drop_last() =~= lines.take(j as int));
            assert(lines.take(j as int + 1).last() == paths@[j as int]@);
            assert((shown + earlier) + added =~= shown + (earlier + added));
        }
        j += 1;
    }
    assert(lines.take(j as int) =~= lines);
}

/// The width or height of a bed as the canvas takes it.
pub open spec fn bed_extent(limits: (int, int)) -> int {
    limits.1 - limits.0
}

/// Everything that the canvas of a listing shows: the marks of all its colours.
pub open spec fn design_marks(listing: Listing, size: PreviewSize, bed: PrintBed) -> Seq<Mark> {
    marks_of_listing(
        listing,
        listing.len() as int,
        size,
        bed_extent(bed.x_limits()),
        bed_extent(bed.y_limits()),
    )
}

/// How many bytes the canvas takes.
pub open spec fn canvas_bytes(size: PreviewSize, zoom: int) -> int {
    4 * canvas_dimension(size.width as int, zoom) * canvas_dimension(size.height as int, zoom)
}

/// Whether the machine can address the canvas: its sides and its bytes.
pub open spec fn canvas_fits(size: PreviewSize, zoom: int) -> bool {
    &&& canvas_dimension(size.width as int, zoom) <= usize::MAX
    &&& canvas_dimension(size.height as int, zoom) <= usize::MAX
    &&& canvas_bytes(size, zoom) <= usize::MAX
}

/// Whether the machine can address the canvas of a preview of the given
/// size at the given zoom.
pub fn can_render(size: PreviewSize, zoom: u32) -> (fits: bool)
    ensures
        fits == canvas_fits(size, zoom as int),
{
    assert(size.width * zoom <= 0xffff_ffff * 0xffff_ffff) by (nonlinear_arith)
        requires
            0 <= size.width <= 0xffff_ffff,
            0 <= zoom <= 0xffff_ffff,
    ;
    assert(size.height * zoom <= 0xffff_ffff * 0xffff_ffff) by (nonlinear_arith)
        requires
            0 <= size.height <= 0xffff_ffff,
            0 <= zoom <= 0xffff_ffff,
    ;
    let wide: u128 = (size.width as u128 * zoom as u128 * 21 + 19999) / 20000;
    let high: u128 = (size.height as u128 * zoom as u128 * 21 + 19999) / 20000;
    assert(wide * high <= 0x100_0000_0000_0000 * 0x100_0000_0000_0000) by (nonlinear_arith)
        requires
            0 <= wide <= 0x100_0000_0000_0000,
            0 <= high <= 0x100_0000_0000_0000,
    ;
    assert(4 * wide * high == 4 * (wide * high)) by (nonlinear_arith);
    wide <= usize::MAX as u128 && high <= usize::MAX as u128 && 4 * (wide * high)
        <= usize::MAX as u128
}

/// One side of the canvas.
fn canvas_side(size: u32, zoom: u32) -> (side: u64)
    requires
        zoom <= MAX_ZOOM_LEVEL,
    ensures
        side == canvas_dimension(size as int, zoom as int),
{
    assert(size * zoom <= 0xffff_ffff * 5000) by (nonlinear_arith)
        requires
            0 <= size <= 0xffff_ffff,
            0 <= zoom <= 5000,
    ;
    ((size as u64) * (zoom as u64) * 21 + 19999) / 20000
}

/// Resizes the texture buffer to hold a canvas of the given width and height.
///
/// The buffer only ever grows, so that the largest size the user has used
/// stays available. What it held stays; what is added is zero.
pub fn resize_texture_buffer(buffer: &mut Vec<u8>, width: usize, height: usize)
    requires
        4 * width * height <= usize::MAX,
    ensures
        final(buffer)@.len() == if old(buffer)@.len() < 4 * width * height {
            4 * width * height
        } else {
            old(buffer)@.len() as int
        },
        forall|i: int| 0 <= i < old(buffer)@.len() ==> final(buffer)@[i] == old(buffer)@[i],
        forall|i: int| old(buffer)@.len() <= i < final(buffer)@.len() ==> final(buffer)@[i] == 0,
{
    assert(width * height <= 4 * width * height) by (nonlinear_arith)
        requires
            0 <= width,
            0 <= height,
    ;
    assert(4 * width * height == width * height * 4) by (nonlinear_arith);
    let total_size = width * height * 4;  // rgba
    let ghost before = buffer@;
    if buffer.len() < total_size {
        buffer.resize(total_size, 0);
    }
}

/// Draws the preview of a design into the texture buffer.
///
/// The canvas is filled with the background. Pixels within a tenth of a grid
/// step of a 10 mm grid line on both axes get the grid colour. Then every
/// point of every polyline is marked with a plus in the colour of its path,
/// colour by colour in the order in which the design lists them; a later
/// plus covers an earlier one.
///
/// The grid counts from the bed's origin, so the bed must start at zero on
/// both axes.
pub fn render_canvas(
    size: PreviewSize,
    zoom: u32,
    paths: &PathsByColour<PathInMM>,
    bed: &PrintBed,
    texture_buffer: &mut Vec<u8>,
) -> (canvas: (usize, usize))
    requires
        MIN_ZOOM_LEVEL <= zoom <= MAX_ZOOM_LEVEL,
        bed.x_limits().0 == 0,
        bed.y_limits().0 == 0,
        canvas_fits(size, zoom as int),
    ensures
        canvas.0 == canvas_dimension(size.width as int, zoom as int),
        canvas.1 == canvas_dimension(size.height as int, zoom as int),
        final(texture_buffer)@.len() == if old(texture_buffer)@.len() < canvas_bytes(
            size,
            zoom as int,
        ) {
            canvas_bytes(size, zoom as int)
        } else {
            old(texture_buffer)@.len() as int
        },
        canvas_shows(
            final(texture_buffer)@,
            canvas.0 as int,
            canvas.1 as int,
            design_marks(listing_of(*paths), size, *bed),
            size,
            bed_extent(bed.x_limits()),
            bed_extent(bed.y_limits()),
        ),
{
    let wide = canvas_side(size.width, zoom);
    let high = canvas_side(size.height, zoom);
    let width = wide as usize;
    let height = high as usize;
    let bed_width = bed.width();
    let bed_height = bed.height();
    resize_texture_buffer(texture_buffer, width, height);
    fill_ground(texture_buffer, width, height, size, bed_width, bed_height);
    let ghost length = texture_buffer@.len();
    let count = paths.len();
    let mut b: usize = 0;
    while b < count
        invariant
            b <= count,
            count == paths.colours().len(),
            texture_buffer@.len() == length,
            canvas_shows(
                texture_buffer@,
                width as int,
                height as int,
                marks_of_listing(
                    listing_of(*paths),
                    b as int,
                    size,
                    bed_width as int,
                    bed_height as int,
                ),
                size,
                bed_width as int,
                bed_height as int,
            ),
        decreases count - b,
    {
        let colour = paths.colour_at(b);
        let bucket = paths.paths_at(b);
        draw_bucket(
            texture_buffer,
            width,
            height,
            &colour,
            bucket,
            size,
            bed_width,
            bed_height,
            Ghost(
                marks_of_listing(
                    listing_of(*paths),
                    b as int,
                    size,
                    bed_width as int,
                    bed_height as int,
                ),
            ),
        );
        b += 1;
    }
    (width, height)
}

/// Yeets the remembered hash of the design, so that the next design counts as new.
pub fn invalidate_design_texture(design_hash: &mut Option<u64>)
    ensures
        *final(design_hash) == None::<u64>,
{
    *design_hash = None;
}

/// Renders the preview of a design at the full zoom.
///
/// The sampled paths are closed where they are closed and moved by the
/// design offset, then drawn on the grid of the bed as [`render_canvas`]
/// draws them. Without a design the image shows the grid alone.
///
/// The hash of the design that was drawn is remembered in
/// `previous_design_hash`; without a design nothing is remembered.
pub fn render_inner(
    size: PreviewSize,
    offset_mm: &DesignOffset,
    design: Option<(&PathsByColour<SampledPath>, u64)>,
    bed: &PrintBed,
    texture_buffer: &mut Vec<u8>,
    previous_design_hash: &mut Option<u64>,
) -> (image: RenderedImage)
    requires
        bed.x_limits().0 == 0,
        bed.y_limits().0 == 0,
        canvas_fits(size, MAX_ZOOM_LEVEL as int),
    ensures
        image.width == canvas_dimension(size.width as int, MAX_ZOOM_LEVEL as int),
        image.height == canvas_dimension(size.height as int, MAX_ZOOM_LEVEL as int),
        image.pixels@.len() == canvas_bytes(size, MAX_ZOOM_LEVEL as int),
        canvas_shows(
            image.pixels@,
            image.width as int,
            image.height as int,
            design_marks(
                match design {
                    Some((sampled, _)) => listing_of_sampled(*sampled, *offset_mm),
                    None => Seq::empty(),
                },
                size,
                *bed,
            ),
            size,
            bed_extent(bed.x_limits()),
            bed_extent(bed.y_limits()),
        ),
        *final(previous_design_hash) == match design {
            Some((_, hash)) => Some(hash),
            None => None,
        },
        final(texture_buffer)@.len() >= old(texture_buffer)@.len(),
{
    let resolved = match design {
        Some((sampled, hash)) => {
            *previous_design_hash = Some(hash);
            let resolved = resolve_paths(sampled, offset_mm);
            proof {
                let drawn = listing_of(resolved);
                let wanted = listing_of_sampled(*sampled, *offset_mm);
                assert(drawn.len() == wanted.len());
                assert forall|i: int| 0 <= i < drawn.len() implies drawn[i] == wanted[i] by {
                    let colour = sampled.colours()[i];
                    assert(is_resolved(resolved.bucket(colour), sampled.bucket(colour), *offset_mm));
                    assert(polylines(resolved.bucket(colour)) =~= sampled.bucket(colour).map_values(
                        |path: SampledPath| resolved_points(path, *offset_mm),
                    ));
                }
                assert(drawn =~= wanted);
            }
            resolved
        },
        None => {
            invalidate_design_texture(previous_design_hash);
            let nothing = PathsByColour::new();
            proof {
                assert(listing_of(nothing) =~= Seq::empty());
            }
            nothing
        },
    };
    let (width, height) = render_canvas(size, MAX_ZOOM_LEVEL, &resolved, bed, texture_buffer);
    assert(width * height <= 4 * width * height && 4 * width * height == width * height * 4)
        by (nonlinear_arith)
        requires
            0 <= width,
            0 <= height,
    ;
    let total = width * height * 4;
    let mut pixels: Vec<u8> = Vec::new();
    let mut i: usize = 0;
    while i < total
        invariant
            i <= total,
            total <= texture_buffer@.len(),
            pixels@ == texture_buffer@.take(i as int),
        decreases total - i,
    {
        pixels.push(texture_buffer[i]);
        assert(pixels@ =~= texture_buffer@.take(i as int + 1));
        i += 1;
    }
    proof {
        assert forall|x: int, y: int| 0 <= x < width && 0 <= y < height implies #[trigger] canvas_pixel(
            pixels@,
            width as int,
            x,
            y,
        ) == canvas_pixel(texture_buffer@, width as int, x, y) by {
            lemma_pixel_index(width as int, height as int, x, y);
            assert(canvas_pixel(pixels@, width as int, x, y) =~= canvas_pixel(
                texture_buffer@,
                width as int,
                x,
                y,
            ));
        }
    }
    RenderedImage { width, height, pixels }
}

} // verus!
