use flatcam::raster::{trace_bytes, trace_decoded, ImageDoc, ImageError, TraceOptions};
use image::{GrayImage, ImageFormat, Luma};
use std::io::Cursor;

/// Encode a `GrayImage` to in-memory PNG bytes.
fn png_bytes(img: &GrayImage) -> Vec<u8> {
    let mut buf = Vec::new();
    img.write_to(&mut Cursor::new(&mut buf), ImageFormat::Png).expect("encode png");
    buf
}

/// A `w×h` white image with the given black pixels set.
fn img_with_black(w: u32, h: u32, black: &[(u32, u32)]) -> GrayImage {
    let mut img = GrayImage::from_pixel(w, h, Luma([255]));
    for &(x, y) in black {
        img.put_pixel(x, y, Luma([0]));
    }
    img
}

/// Number of edge-connected groups of cells (the regions their union forms).
fn regions(doc: &ImageDoc) -> usize {
    let cells = &doc.cells;
    let mut seen = vec![false; cells.len()];
    let mut count = 0;
    for start in 0..cells.len() {
        if seen[start] {
            continue;
        }
        count += 1;
        let mut stack = vec![start];
        seen[start] = true;
        while let Some(i) = stack.pop() {
            let (x, y) = cells[i];
            for (j, &(u, v)) in cells.iter().enumerate() {
                let adjacent = (x == u && (y + 1 == v || v + 1 == y)) || (y == v && (x + 1 == u || u + 1 == x));
                if adjacent && !seen[j] {
                    seen[j] = true;
                    stack.push(j);
                }
            }
        }
    }
    count
}

#[test]
fn single_black_pixel_makes_unit_square() {
    let img = img_with_black(4, 4, &[(1, 1)]);
    let doc = trace_bytes(&png_bytes(&img), &TraceOptions::default()).unwrap();
    assert_eq!(doc.width, 4);
    assert_eq!(doc.height, 4);
    assert_eq!(regions(&doc), 1, "one pixel -> one polygon");
    assert_eq!(doc.cells, vec![(1, 2)]);
}

#[test]
fn solid_black_square_merges_to_one_region() {
    let img = img_with_black(4, 4, &[(1, 1), (2, 1), (1, 2), (2, 2)]);
    let doc = trace_bytes(&png_bytes(&img), &TraceOptions::default()).unwrap();
    assert_eq!(regions(&doc), 1, "adjacent pixels should merge");
    assert_eq!(doc.cells.len(), 4);
}

#[test]
fn disjoint_pixels_stay_separate() {
    let img = img_with_black(4, 4, &[(0, 0), (3, 3)]);
    let doc = trace_bytes(&png_bytes(&img), &TraceOptions::default()).unwrap();
    assert_eq!(regions(&doc), 2, "diagonal pixels do not share an edge");
    assert_eq!(doc.cells.len(), 2);
}

#[test]
fn all_white_is_empty() {
    let img = GrayImage::from_pixel(8, 8, Luma([255]));
    let err = trace_bytes(&png_bytes(&img), &TraceOptions::default()).unwrap_err();
    assert!(matches!(err, ImageError::Empty));
    assert_eq!(err.message(), "no traceable content (image is empty after thresholding)");
}

#[test]
fn invert_selects_white_pixels() {
    let img = img_with_black(4, 4, &[(0, 0)]);
    let opts = TraceOptions { invert: true, ..TraceOptions::default() };
    let doc = trace_bytes(&png_bytes(&img), &opts).unwrap();
    assert_eq!(doc.cells.len(), 15);
}

#[test]
fn threshold_controls_selection() {
    let mut img = GrayImage::from_pixel(2, 2, Luma([255]));
    img.put_pixel(0, 0, Luma([100]));
    let bytes = png_bytes(&img);
    let inked = trace_bytes(&bytes, &TraceOptions::default()).unwrap();
    assert_eq!(inked.cells.len(), 1);
    let low = TraceOptions { threshold: 50, ..TraceOptions::default() };
    let err = trace_bytes(&bytes, &low).unwrap_err();
    assert!(matches!(err, ImageError::Empty));
}

#[test]
fn scale_multiplies_coordinates() {
    // one cell; scaled by 3 by the caller it covers 3 x 3
    let img = img_with_black(4, 4, &[(1, 1)]);
    let doc = trace_bytes(&png_bytes(&img), &TraceOptions::default()).unwrap();
    let scale = 3.0_f64;
    let area: f64 = doc.cells.len() as f64 * scale * scale;
    assert!((area - 9.0).abs() < 1e-9, "area was {area}");
}

#[test]
fn flip_y_reflects_vertically() {
    let img = img_with_black(4, 4, &[(0, 0)]);
    let bytes = png_bytes(&img);
    let up = trace_bytes(&bytes, &TraceOptions::default()).unwrap();
    assert_eq!(up.cells, vec![(0, 3)], "top row maps to y in [3,4]");
    let down_opts = TraceOptions { flip_y: false, ..TraceOptions::default() };
    let down = trace_bytes(&bytes, &down_opts).unwrap();
    assert_eq!(down.cells, vec![(0, 0)], "no-flip top row maps to y in [0,1]");
}

#[test]
fn decode_error_on_garbage() {
    let err = trace_bytes(b"not an image", &TraceOptions::default()).unwrap_err();
    assert!(matches!(err, ImageError::Decode(_)));
}

#[test]
fn cross_shape_merges_and_area_correct() {
    let center = (4u32, 4u32);
    let black = [
        center,
        (center.0, center.1 - 1),
        (center.0, center.1 + 1),
        (center.0 - 1, center.1),
        (center.0 + 1, center.1),
    ];
    let img = img_with_black(8, 8, &black);
    let doc = trace_bytes(&png_bytes(&img), &TraceOptions::default()).unwrap();
    assert_eq!(regions(&doc), 1, "connected cross should be one region");
    assert_eq!(doc.cells.len(), 5);
}

#[test]
fn decoded_pixels_are_read_row_major() {
    // 3 x 2 image: row 0 = [0, 255, 0], row 1 = [255, 255, 10]
    let px = [0u8, 255, 0, 255, 255, 10];
    let doc = trace_decoded(3, 2, &px, &TraceOptions { flip_y: false, ..TraceOptions::default() }).unwrap();
    assert_eq!(doc.cells, vec![(0, 0), (2, 0), (2, 1)]);
    let doc = trace_decoded(3, 2, &px, &TraceOptions::default()).unwrap();
    assert_eq!(doc.cells, vec![(0, 1), (2, 1), (2, 0)]);
}
