use hydroshot::pixels::{bgra_to_rgba, blend_over, blit_rgba_clipped, block_average, crop_raw, crop_region, demultiply, pixelate_fills, BlockFill, PixelateArea};
use hydroshot::selection::ClampedRect;

fn image(w: u32, h: u32) -> Vec<u8> {
    (0..w * h * 4).map(|i| (i % 251) as u8).collect()
}

#[test]
fn crop_raw_copies_the_rectangle() {
    let src = image(4, 3);
    let out = crop_raw(&src, 4, 3, ClampedRect { x: 1, y: 1, w: 2, h: 2 });
    let mut expected = Vec::new();
    for y in 1..3u32 {
        let start = ((y * 4 + 1) * 4) as usize;
        expected.extend_from_slice(&src[start..start + 8]);
    }
    assert_eq!(out, expected);
}

#[test]
fn crop_raw_pads_outside_with_zero() {
    let src = image(2, 2);
    let out = crop_raw(&src, 2, 2, ClampedRect { x: 1, y: 1, w: 2, h: 2 });
    assert_eq!(out.len(), 16);
    assert_eq!(&out[0..4], &src[12..16]);
    assert!(out[4..].iter().all(|&b| b == 0));
}

#[test]
fn crop_raw_of_whole_image_is_identity() {
    let src = image(3, 2);
    assert_eq!(crop_raw(&src, 3, 2, ClampedRect { x: 0, y: 0, w: 3, h: 2 }), src);
}

#[test]
fn crop_region_clamps_to_the_image() {
    let src = image(4, 4);
    let (out, w, h) = crop_region(&src, 4, 2, 3, 5, 5);
    assert_eq!((w, h), (2, 1));
    assert_eq!(out, src[(3 * 4 + 2) * 4..(3 * 4 + 4) * 4].to_vec());
}

#[test]
fn crop_region_inside() {
    let src = image(4, 4);
    let (out, w, h) = crop_region(&src, 4, 1, 1, 2, 2);
    assert_eq!((w, h), (2, 2));
    assert_eq!(&out[0..8], &src[20..28]);
    assert_eq!(&out[8..16], &src[36..44]);
}

#[test]
fn demultiply_restores_straight_alpha() {
    let data = vec![50, 100, 128, 128, 10, 20, 30, 0, 1, 2, 3, 255];
    let out = demultiply(&data);
    assert_eq!(out, vec![99, 199, 255, 128, 0, 0, 0, 0, 1, 2, 3, 255]);
}

#[test]
fn bgra_becomes_rgba() {
    let mut px = vec![1, 2, 3, 4, 5, 6, 7, 8];
    bgra_to_rgba(&mut px);
    assert_eq!(px, vec![3, 2, 1, 4, 7, 6, 5, 8]);
}

#[test]
fn blend_opaque_transparent_and_partial() {
    let mut dst = vec![100u8; 2 * 2 * 4];
    // 1x2 source: an opaque pixel and a half-transparent one
    let src = vec![10, 20, 30, 255, 50, 0, 0, 128];
    blend_over(&mut dst, 2, 2, &src, 1, 2, 1, 0);
    // (1,0) replaced by the opaque pixel
    assert_eq!(&dst[4..8], &[10, 20, 30, 255]);
    // (1,1): s + d * (255 - 128) / 255
    assert_eq!(&dst[12..16], &[99, 49, 49, 177]);
    // column 0 untouched
    assert_eq!(&dst[0..4], &[100, 100, 100, 100]);
    assert_eq!(&dst[8..12], &[100, 100, 100, 100]);
}

#[test]
fn blend_clips_outside_the_destination() {
    let mut dst = vec![7u8; 2 * 2 * 4];
    let src = vec![1, 2, 3, 255, 4, 5, 6, 255, 7, 8, 9, 255, 9, 9, 9, 255];
    blend_over(&mut dst, 2, 2, &src, 2, 2, -1, -1);
    assert_eq!(&dst[0..4], &[9, 9, 9, 255]);
    assert!(dst[4..].iter().all(|&b| b == 7));
    let mut dst2 = vec![7u8; 16];
    let transparent = vec![200, 200, 200, 0];
    blend_over(&mut dst2, 2, 2, &transparent, 1, 1, 0, 0);
    assert!(dst2.iter().all(|&b| b == 7));
}

#[test]
fn blit_premultiplies_and_clips_header_rows() {
    let mut dst = vec![1u8; 3 * 3 * 4];
    // 2x2 straight-alpha source placed at (1, 0); row 0 is header (min_y = 1)
    let src = vec![
        200, 100, 50, 128, 10, 20, 30, 255, //
        255, 255, 255, 0, 90, 60, 30, 255,
    ];
    blit_rgba_clipped(&mut dst, 3, 3, 1, 0, &src, 2, 2, 1);
    // row 0 untouched (header)
    assert!(dst[0..12].iter().all(|&b| b == 1));
    // (1,1) <- src (0,1): fully transparent premultiplies to zero color
    assert_eq!(&dst[16..20], &[0, 0, 0, 0]);
    // (2,1) <- src (1,1): opaque stays the same
    assert_eq!(&dst[20..24], &[90, 60, 30, 255]);
    // (0,1) and row 2 untouched
    assert_eq!(&dst[12..16], &[1, 1, 1, 1]);
    assert!(dst[24..].iter().all(|&b| b == 1));
}

#[test]
fn blit_premultiplies_partial_alpha() {
    let mut dst = vec![0u8; 4];
    blit_rgba_clipped(&mut dst, 1, 1, 0, 0, &[200, 100, 50, 128], 1, 1, 0);
    assert_eq!(dst, vec![(200 * 128 / 255) as u8, (100 * 128 / 255) as u8, (50 * 128 / 255) as u8, 128]);
}

#[test]
fn blit_skips_pixels_missing_from_a_short_source() {
    let mut dst = vec![5u8; 2 * 4];
    blit_rgba_clipped(&mut dst, 2, 1, 0, 0, &[1, 2, 3, 255], 2, 1, 0);
    assert_eq!(dst, vec![1, 2, 3, 255, 5, 5, 5, 5]);
}

#[test]
fn block_average_of_inside_pixels() {
    // 2x2 image: averages of all four pixels
    let src = vec![10, 20, 30, 255, 20, 40, 60, 255, 30, 60, 90, 255, 41, 81, 121, 255];
    assert_eq!(block_average(&src, 2, 0, 0, 2, 2), Some((25, 50, 75)));
    // a block hanging off the right edge averages only the pixels inside
    assert_eq!(block_average(&src, 2, 1, 0, 4, 1), Some((20, 40, 60)));
    // a block below the image has no pixels
    assert_eq!(block_average(&src, 2, 0, 5, 2, 2), None);
    assert_eq!(block_average(&src, 2, 0, 0, 0, 0), None);
}

#[test]
fn swapping_channels_twice_restores_the_bytes() {
    let original = vec![1, 2, 3, 4, 5, 6, 7, 8, 9, 10];
    let mut px = original.clone();
    bgra_to_rgba(&mut px);
    assert_eq!(px, vec![3, 2, 1, 4, 7, 6, 5, 8, 9, 10]);
    bgra_to_rgba(&mut px);
    assert_eq!(px, original);
}

#[test]
fn crop_region_of_a_gradient() {
    let (width, height) = (10u32, 10u32);
    let mut pixels = Vec::new();
    for y in 0..height {
        for x in 0..width {
            pixels.extend_from_slice(&[x as u8 * 25, y as u8 * 25, 128, 255]);
        }
    }
    let (out, w, h) = crop_region(&pixels, width, 2, 3, 4, 4);
    assert_eq!((w, h), (4, 4));
    assert_eq!(out.len(), 64);
    assert_eq!(&out[0..4], &[50, 75, 128, 255]);
    assert_eq!(&out[60..64], &[125, 150, 128, 255]);
}

#[test]
fn pixelate_paints_each_block_in_its_average() {
    // 4x2 screenshot: left half red shades, right half blue.
    let mut src = Vec::new();
    for _row in 0..2 {
        src.extend_from_slice(&[200, 0, 0, 255, 100, 0, 0, 255, 0, 0, 50, 255, 0, 0, 150, 255]);
    }
    let area = PixelateArea { x: 0, y: 0, width: 4, height: 2, block: 2, canvas_w: 4, canvas_h: 2 };
    let fills = pixelate_fills(&src, 4, area);
    assert_eq!(
        fills,
        vec![
            BlockFill { x: 0, y: 0, w: 2, h: 2, r: 150, g: 0, b: 0 },
            BlockFill { x: 2, y: 0, w: 2, h: 2, r: 0, g: 0, b: 100 },
        ]
    );
}

#[test]
fn pixelate_clips_edge_blocks_to_the_canvas() {
    let src = vec![10u8; 3 * 3 * 4];
    let area = PixelateArea { x: 1, y: 0, width: 3, height: 3, block: 2, canvas_w: 3, canvas_h: 2 };
    let fills = pixelate_fills(&src, 3, area);
    // Blocks at x 1 and 3: the second starts past the screenshot's width and
    // the canvas, so it has no pixels; rows at y 0 and 2 (the second row is
    // off the canvas).
    assert_eq!(fills, vec![BlockFill { x: 1, y: 0, w: 2, h: 2, r: 10, g: 10, b: 10 }]);
    // Block size 0 counts as 1.
    let area = PixelateArea { x: 0, y: 0, width: 1, height: 1, block: 0, canvas_w: 1, canvas_h: 1 };
    assert_eq!(pixelate_fills(&src, 3, area), vec![BlockFill { x: 0, y: 0, w: 1, h: 1, r: 10, g: 10, b: 10 }]);
}
