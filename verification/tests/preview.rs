use seance::bed::{bed_gcc_spirit, PrintBed};
use seance::paths::{DesignOffset, PathColour, PathInMM, PathsByColour, PointInMillimeters, SampledPath};
use seance::preview::{
    invalidate_design_texture, render_canvas, render_inner, resize_texture_buffer, PreviewSize,
    RenderedImage, MAX_ZOOM_LEVEL, MIN_ZOOM_LEVEL, PREVIEW_BACKGROUND_COLOUR, PREVIEW_GRID_COLOUR,
};

fn pixel(image: &RenderedImage, x: usize, y: usize) -> [u8; 4] {
    let start = 4 * (y * image.width + x);
    [image.pixels[start], image.pixels[start + 1], image.pixels[start + 2], image.pixels[start + 3]]
}

/// Whether a pixel lies within a tenth of a grid step of a grid line, in floating point.
fn near_line(position: usize, size: u32, bed_mm: f64) -> bool {
    let pixels_per_10_mm = (size as f64 * 5.0) / bed_mm * 10.0;
    let fraction = (position as f64 / pixels_per_10_mm).fract();
    fraction <= 0.1 || fraction >= 0.9
}

#[test]
fn empty_preview_is_grid_on_background() {
    let size = PreviewSize { width: 2, height: 2 };
    let mut buffer = Vec::new();
    let mut hash = Some(7);
    let image =
        render_inner(size, &DesignOffset::default(), None, &bed_gcc_spirit(), &mut buffer, &mut hash);
    assert_eq!(hash, None);
    assert_eq!((image.width, image.height), (11, 11));
    assert_eq!(image.pixels.len(), 11 * 11 * 4);
    for y in 0..11 {
        for x in 0..11 {
            let on_grid = [0, 5, 10].contains(&x) && [0, 8].contains(&y);
            let expected = if on_grid { PREVIEW_GRID_COLOUR } else { PREVIEW_BACKGROUND_COLOUR };
            assert_eq!(pixel(&image, x, y), expected, "pixel {x},{y}");
        }
    }
    assert_eq!(PREVIEW_BACKGROUND_COLOUR, [0xE6, 0xE6, 0xE6, 255]);
    assert_eq!(PREVIEW_GRID_COLOUR, [0x64, 0x64, 0x64, 255]);
}

#[test]
fn grid_agrees_with_floating_point() {
    let size = PreviewSize { width: 40, height: 30 };
    let bed = PrintBed::new((0, 300_000), false, (0, 200_000), false);
    let mut buffer = Vec::new();
    let mut hash = None;
    let image = render_inner(size, &DesignOffset::default(), None, &bed, &mut buffer, &mut hash);
    assert_eq!((image.width, image.height), (210, 158));
    let mut grid = 0;
    for y in 0..image.height {
        for x in 0..image.width {
            let on_grid = near_line(x, 40, 300.0) && near_line(y, 30, 200.0);
            // Keep away from pixels that floating point puts right on the edge.
            let fraction_x = (x as f64 * 300.0 / 2000.0).fract();
            let fraction_y = (y as f64 * 200.0 / 1500.0).fract();
            let on_edge = |f: f64| (f - 0.1).abs() < 1e-9 || (f - 0.9).abs() < 1e-9;
            if on_edge(fraction_x) || on_edge(fraction_y) {
                continue;
            }
            let expected = if on_grid { PREVIEW_GRID_COLOUR } else { PREVIEW_BACKGROUND_COLOUR };
            assert_eq!(pixel(&image, x, y), expected, "pixel {x},{y}");
            grid += on_grid as usize;
        }
    }
    assert!(grid > 0);
}

#[test]
fn points_are_marked_with_a_plus() {
    let size = PreviewSize { width: 2, height: 2 };
    let mut sampled: PathsByColour<SampledPath> = PathsByColour::new();
    sampled.push_path(
        PathColour([255, 0, 0]),
        SampledPath { points: vec![PointInMillimeters { x: 300_000, y: 150_000 }], closed: false },
    );
    let mut buffer = Vec::new();
    let mut hash = None;
    let image = render_inner(
        size,
        &DesignOffset { x: 100_000, y: 50_000 },
        Some((&sampled, 42)),
        &bed_gcc_spirit(),
        &mut buffer,
        &mut hash,
    );
    assert_eq!(hash, Some(42));
    // 400 mm of 819.175 mm over ten pixels, rounded up, and 200 mm of 463.2 mm.
    let (mark_x, mark_y) = (5usize, 5usize);
    let red = [255, 0, 0, 255];
    for y in 0..11 {
        for x in 0..11 {
            let in_row = y == mark_y && (mark_x - 2..mark_x + 2).contains(&x);
            let in_column = x == mark_x && (mark_y - 2..mark_y + 2).contains(&y);
            let on_grid = [0, 5, 10].contains(&x) && [0, 8].contains(&y);
            let expected = if in_row || in_column {
                red
            } else if on_grid {
                PREVIEW_GRID_COLOUR
            } else {
                PREVIEW_BACKGROUND_COLOUR
            };
            assert_eq!(pixel(&image, x, y), expected, "pixel {x},{y}");
        }
    }
}

#[test]
fn later_marks_cover_earlier_ones_and_the_canvas_clips() {
    let size = PreviewSize { width: 2, height: 2 };
    let bed = PrintBed::new((0, 100_000), false, (0, 100_000), false);
    let mut paths: PathsByColour<PathInMM> = PathsByColour::new();
    paths.push_path(PathColour([1, 2, 3]), vec![PointInMillimeters { x: 0, y: 0 }]);
    paths.push_path(PathColour([4, 5, 6]), vec![PointInMillimeters { x: 10_000, y: 0 }]);
    paths.push_path(PathColour([1, 2, 3]), vec![PointInMillimeters { x: -500_000, y: 0 }]);
    let mut buffer = vec![9u8; 3];
    let (width, height) = render_canvas(size, MIN_ZOOM_LEVEL, &paths, &bed, &mut buffer);
    assert_eq!((width, height), (3, 3));
    assert_eq!(buffer.len(), 36);
    let image = RenderedImage { width, height, pixels: buffer };
    // The first mark is at the corner; the second, one pixel to the right, covers part of it.
    assert_eq!(pixel(&image, 0, 0), [4, 5, 6, 255]);
    assert_eq!(pixel(&image, 1, 0), [4, 5, 6, 255]);
    assert_eq!(pixel(&image, 2, 0), [4, 5, 6, 255]);
    assert_eq!(pixel(&image, 0, 1), [1, 2, 3, 255]);
    assert_eq!(pixel(&image, 1, 1), [4, 5, 6, 255]);
    // On this bed every pixel is a whole number of grid steps from the origin.
    assert_eq!(pixel(&image, 2, 1), PREVIEW_GRID_COLOUR);
    assert_eq!(pixel(&image, 0, 2), PREVIEW_GRID_COLOUR);
}

#[test]
fn canvas_grows_with_the_zoom() {
    let size = PreviewSize { width: 100, height: 40 };
    let paths: PathsByColour<PathInMM> = PathsByColour::new();
    let bed = bed_gcc_spirit();
    let mut buffer = Vec::new();
    assert_eq!(render_canvas(size, MIN_ZOOM_LEVEL, &paths, &bed, &mut buffer), (105, 42));
    assert_eq!(buffer.len(), 105 * 42 * 4);
    assert_eq!(render_canvas(size, 1500, &paths, &bed, &mut buffer), (158, 63));
    assert_eq!(render_canvas(size, MAX_ZOOM_LEVEL, &paths, &bed, &mut buffer), (525, 210));
    assert_eq!(buffer.len(), 525 * 210 * 4);
    // The buffer never shrinks.
    assert_eq!(render_canvas(size, MIN_ZOOM_LEVEL, &paths, &bed, &mut buffer), (105, 42));
    assert_eq!(buffer.len(), 525 * 210 * 4);
}

#[test]
fn degenerate_previews_are_empty_or_plain() {
    let paths: PathsByColour<PathInMM> = PathsByColour::new();
    let mut buffer = Vec::new();
    let none = PreviewSize { width: 0, height: 5 };
    assert_eq!(render_canvas(none, MAX_ZOOM_LEVEL, &paths, &bed_gcc_spirit(), &mut buffer), (0, 27));
    assert!(buffer.is_empty());

    // On a bed without extent no point has a pixel, and every pixel is on a grid line.
    let flat = PrintBed::new((0, 0), false, (0, 0), false);
    let mut marked: PathsByColour<PathInMM> = PathsByColour::new();
    marked.push_path(PathColour([1, 1, 1]), vec![PointInMillimeters { x: 0, y: 0 }]);
    let size = PreviewSize { width: 1, height: 1 };
    let (width, height) = render_canvas(size, MIN_ZOOM_LEVEL, &marked, &flat, &mut buffer);
    let image = RenderedImage { width, height, pixels: buffer };
    assert_eq!((width, height), (2, 2));
    assert_eq!(pixel(&image, 0, 0), PREVIEW_GRID_COLOUR);
    assert_eq!(pixel(&image, 1, 1), PREVIEW_GRID_COLOUR);
}

#[test]
fn texture_buffer_only_grows() {
    let mut buffer = vec![5u8; 10];
    resize_texture_buffer(&mut buffer, 1, 2);
    assert_eq!(buffer, vec![5u8; 10]);
    resize_texture_buffer(&mut buffer, 2, 2);
    let mut expected = vec![5u8; 10];
    expected.extend([0u8; 6]);
    assert_eq!(buffer, expected);
    resize_texture_buffer(&mut buffer, 0, 1000);
    assert_eq!(buffer.len(), 16);
}

#[test]
fn invalidating_forgets_the_hash() {
    let mut hash = Some(99);
    invalidate_design_texture(&mut hash);
    assert_eq!(hash, None);
    invalidate_design_texture(&mut hash);
    assert_eq!(hash, None);
}
