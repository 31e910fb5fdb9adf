use image::{DynamicImage, GrayImage, Luma, Rgb, RgbImage, Rgba, RgbaImage};
use pix2svg::{Color, ImageProcessor, Rectangle};

const RED: [u8; 4] = [255, 0, 0, 255];
const GREEN: [u8; 4] = [0, 255, 0, 255];
const BLUE: [u8; 4] = [0, 0, 255, 255];
const CLEAR: [u8; 4] = [0, 0, 0, 0];

fn image_of(rows: &[Vec<[u8; 4]>]) -> DynamicImage {
    let height = rows.len() as u32;
    let width = if rows.is_empty() { 0 } else { rows[0].len() as u32 };
    let mut img = RgbaImage::new(width, height);
    for (y, row) in rows.iter().enumerate() {
        assert_eq!(row.len() as u32, width);
        for (x, px) in row.iter().enumerate() {
            img.put_pixel(x as u32, y as u32, Rgba(*px));
        }
    }
    DynamicImage::ImageRgba8(img)
}

fn extract(rows: &[Vec<[u8; 4]>], threshold: u8) -> Vec<Rectangle> {
    let image = image_of(rows);
    let mut processor = ImageProcessor::new(&image, threshold);
    processor.extract_rectangles()
}

fn rect(x: u32, y: u32, width: u32, height: u32, c: [u8; 4]) -> Rectangle {
    Rectangle::new(x, y, width, height, Color::new(c[0], c[1], c[2], c[3]))
}

/// Checks that the footprints and the pixels below the threshold make up the
/// grid, each pixel once, and that each footprint is of one color.
fn check_tiling(rows: &[Vec<[u8; 4]>], threshold: u8, rects: &[Rectangle]) {
    let height = rows.len();
    let width = if rows.is_empty() { 0 } else { rows[0].len() };
    let mut count = vec![vec![0u32; width]; height];
    for r in rects {
        assert!(r.width >= 1 && r.height >= 1);
        assert!((r.x + r.width) as usize <= width);
        assert!((r.y + r.height) as usize <= height);
        for y in r.y..r.y + r.height {
            for x in r.x..r.x + r.width {
                count[y as usize][x as usize] += 1;
                let px = rows[y as usize][x as usize];
                assert_eq!(r.color, Color::new(px[0], px[1], px[2], px[3]));
            }
        }
    }
    for y in 0..height {
        for x in 0..width {
            let expected = if rows[y][x][3] < threshold { 0 } else { 1 };
            assert_eq!(count[y][x], expected, "pixel ({}, {})", x, y);
        }
    }
}

#[test]
fn uniform_square_is_one_rectangle() {
    let rows = vec![vec![RED, RED], vec![RED, RED]];
    let rects = extract(&rows, 1);
    assert_eq!(rects, vec![rect(0, 0, 2, 2, RED)]);
    assert_eq!(rects[0].color, Color { r: 255, g: 0, b: 0, a: 255 });
    assert!(!rects[0].to_svg(1).contains("opacity"));
}

#[test]
fn two_colors_in_a_row_come_in_raster_order() {
    let rows = vec![vec![GREEN, BLUE]];
    let rects = extract(&rows, 1);
    assert_eq!(rects, vec![rect(0, 0, 1, 1, GREEN), rect(1, 0, 1, 1, BLUE)]);
}

#[test]
fn transparent_pixel_gives_no_rectangle() {
    let rows = vec![vec![CLEAR]];
    let image = image_of(&rows);
    let mut processor = ImageProcessor::new(&image, 1);
    assert!(!processor.is_processed(0, 0));
    let rects = processor.extract_rectangles();
    assert!(rects.is_empty());
    assert!(processor.is_processed(0, 0));
}

#[test]
fn l_shape_is_covered_by_two_rectangles() {
    let rows = vec![
        vec![RED, CLEAR, CLEAR],
        vec![RED, CLEAR, CLEAR],
        vec![RED, RED, RED],
    ];
    let rects = extract(&rows, 1);
    assert!(rects.len() >= 2);
    assert_eq!(rects, vec![rect(0, 0, 1, 3, RED), rect(1, 2, 2, 1, RED)]);
    check_tiling(&rows, 1, &rects);
}

#[test]
fn width_is_fixed_before_height() {
    // The run of the first row is two wide, the column below it only one:
    // the rule keeps the width and stops after one row.
    let rows = vec![
        vec![RED, RED],
        vec![RED, BLUE],
        vec![RED, BLUE],
    ];
    let rects = extract(&rows, 1);
    assert_eq!(
        rects,
        vec![rect(0, 0, 2, 1, RED), rect(0, 1, 1, 2, RED), rect(1, 1, 1, 2, BLUE)]
    );
    check_tiling(&rows, 1, &rects);
}

#[test]
fn covered_pixel_stops_the_run() {
    // The green column from the first row reaches into the second row, where
    // the run from the left must stop before it and start anew after it.
    let rows = vec![
        vec![RED, GREEN, RED],
        vec![GREEN, GREEN, GREEN],
    ];
    let rects = extract(&rows, 1);
    assert_eq!(
        rects,
        vec![
            rect(0, 0, 1, 1, RED),
            rect(1, 0, 1, 2, GREEN),
            rect(2, 0, 1, 1, RED),
            rect(0, 1, 1, 1, GREEN),
            rect(2, 1, 1, 1, GREEN),
        ]
    );
    check_tiling(&rows, 1, &rects);
}

#[test]
fn colors_that_differ_in_alpha_only_do_not_merge() {
    let half = [255, 0, 0, 128];
    let rows = vec![vec![RED, half, half, RED]];
    let rects = extract(&rows, 1);
    assert_eq!(
        rects,
        vec![rect(0, 0, 1, 1, RED), rect(1, 0, 2, 1, half), rect(3, 0, 1, 1, RED)]
    );
}

#[test]
fn threshold_is_inclusive() {
    let faint = [10, 20, 30, 99];
    let solid = [10, 20, 30, 100];
    let rows = vec![vec![faint, solid, faint]];
    assert_eq!(extract(&rows, 100), vec![rect(1, 0, 1, 1, solid)]);
    assert_eq!(
        extract(&rows, 99),
        vec![rect(0, 0, 1, 1, faint), rect(1, 0, 1, 1, solid), rect(2, 0, 1, 1, faint)]
    );
    assert_eq!(extract(&rows, 101), vec![]);
}

#[test]
fn threshold_zero_keeps_every_pixel() {
    let rows = vec![vec![CLEAR, CLEAR], vec![CLEAR, RED]];
    let rects = extract(&rows, 0);
    assert_eq!(
        rects,
        vec![rect(0, 0, 2, 1, CLEAR), rect(0, 1, 1, 1, CLEAR), rect(1, 1, 1, 1, RED)]
    );
    check_tiling(&rows, 0, &rects);
}

#[test]
fn threshold_255_keeps_fully_opaque_pixels_only() {
    let almost = [1, 2, 3, 254];
    let rows = vec![vec![almost, RED], vec![RED, almost]];
    let rects = extract(&rows, 255);
    assert_eq!(rects, vec![rect(1, 0, 1, 1, RED), rect(0, 1, 1, 1, RED)]);
    check_tiling(&rows, 255, &rects);
}

#[test]
fn empty_images_give_no_rectangle() {
    for (w, h) in [(0u32, 0u32), (3, 0), (0, 3)] {
        let image = DynamicImage::ImageRgba8(RgbaImage::new(w, h));
        let mut processor = ImageProcessor::new(&image, 1);
        assert!(processor.extract_rectangles().is_empty());
    }
}

#[test]
fn extraction_is_deterministic() {
    let rows = vec![
        vec![RED, RED, BLUE, CLEAR],
        vec![RED, GREEN, BLUE, BLUE],
        vec![CLEAR, GREEN, GREEN, BLUE],
    ];
    let first = extract(&rows, 1);
    let second = extract(&rows, 1);
    assert_eq!(first, second);
    check_tiling(&rows, 1, &first);
}

#[test]
fn tiling_holds_on_a_patterned_image() {
    let palette = [RED, GREEN, BLUE, CLEAR, [9, 9, 9, 40]];
    let mut rows = Vec::new();
    for y in 0..9usize {
        let mut row = Vec::new();
        for x in 0..11usize {
            row.push(palette[(x * x + 3 * y + (x * y) / 2) % palette.len()]);
        }
        rows.push(row);
    }
    for threshold in [0u8, 1, 40, 41, 255] {
        let rects = extract(&rows, threshold);
        check_tiling(&rows, threshold, &rects);
        for pair in rects.windows(2) {
            assert!((pair[0].y, pair[0].x) < (pair[1].y, pair[1].x));
        }
    }
}

#[test]
fn transparent_pixels_lie_in_no_rectangle() {
    let rows = vec![
        vec![RED, CLEAR, RED],
        vec![RED, CLEAR, RED],
    ];
    let rects = extract(&rows, 1);
    assert_eq!(rects, vec![rect(0, 0, 1, 2, RED), rect(2, 0, 1, 2, RED)]);
    for r in &rects {
        assert!(!(r.x <= 1 && 1 < r.x + r.width));
    }
}

#[test]
fn every_mark_is_set_after_extraction() {
    let rows = vec![vec![RED, CLEAR, GREEN], vec![CLEAR, CLEAR, GREEN]];
    let image = image_of(&rows);
    let mut processor = ImageProcessor::new(&image, 1);
    for y in 0..2 {
        for x in 0..3 {
            assert!(!processor.is_processed(x, y));
        }
    }
    processor.extract_rectangles();
    for y in 0..2 {
        for x in 0..3 {
            assert!(processor.is_processed(x, y));
        }
    }
}

#[test]
fn rgb_image_is_read_as_fully_opaque() {
    let mut img = RgbImage::new(2, 1);
    img.put_pixel(0, 0, Rgb([1, 2, 3]));
    img.put_pixel(1, 0, Rgb([1, 2, 3]));
    let image = DynamicImage::ImageRgb8(img);
    let mut processor = ImageProcessor::new(&image, 255);
    assert_eq!(
        processor.extract_rectangles(),
        vec![rect(0, 0, 2, 1, [1, 2, 3, 255])]
    );
}

#[test]
fn gray_image_is_read_as_gray_rgba() {
    let mut img = GrayImage::new(1, 2);
    img.put_pixel(0, 0, Luma([7]));
    img.put_pixel(0, 1, Luma([200]));
    let image = DynamicImage::ImageLuma8(img);
    let mut processor = ImageProcessor::new(&image, 1);
    assert_eq!(
        processor.extract_rectangles(),
        vec![rect(0, 0, 1, 1, [7, 7, 7, 255]), rect(0, 1, 1, 1, [200, 200, 200, 255])]
    );
}

#[test]
fn pixels_are_read_row_by_row() {
    // Width and height differ, and every pixel has a color of its own, so a
    // mix-up of rows and columns or of channels would show.
    let mut rows = Vec::new();
    for y in 0..2u8 {
        let mut row = Vec::new();
        for x in 0..3u8 {
            row.push([10 * x + y, 100 + x, 200 + y, 255 - x]);
        }
        rows.push(row);
    }
    let rects = extract(&rows, 1);
    assert_eq!(rects.len(), 6);
    for (i, r) in rects.iter().enumerate() {
        let (x, y) = ((i % 3) as u32, (i / 3) as u32);
        let px = rows[y as usize][x as usize];
        assert_eq!(*r, rect(x, y, 1, 1, px));
    }
}
