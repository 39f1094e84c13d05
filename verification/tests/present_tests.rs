use hydroshot::present::{pack_rgb, pack_scaled};

#[test]
fn packs_rgba_into_0rgb_words() {
    let src = [0x12, 0x34, 0x56, 0xff, 0xab, 0xcd, 0xef, 0x00];
    let mut buf = vec![7u32; 3];
    pack_rgb(&src, &mut buf, 2);
    assert_eq!(buf, vec![0x123456, 0xabcdef, 7]);
}

#[test]
fn packing_stops_at_the_shortest_of_count_buffer_and_source() {
    let src = [1, 2, 3, 4, 5, 6, 7, 8, 9, 10, 11, 12];
    let mut buf = vec![0u32; 2];
    pack_rgb(&src, &mut buf, 10);
    assert_eq!(buf, vec![0x010203, 0x050607]);
    let mut buf = vec![0u32; 4];
    pack_rgb(&src[..7], &mut buf, 4);
    assert_eq!(buf, vec![0x010203, 0, 0, 0]);
}

#[test]
fn scaled_packing_samples_nearest_pixel() {
    // 2x1 source stretched to 4x2
    let src = [10, 0, 0, 255, 0, 20, 0, 255];
    let mut buf = vec![0u32; 8];
    pack_scaled(&src, 2, 1, &mut buf, 4, 2);
    let a = 10 << 16;
    let b = 20 << 8;
    assert_eq!(buf, vec![a, a, b, b, a, a, b, b]);
}

#[test]
fn scaled_packing_can_shrink() {
    // 4x1 source shrunk to 2x1: samples columns 0 and 2
    let src = [1, 0, 0, 0, 2, 0, 0, 0, 3, 0, 0, 0, 4, 0, 0, 0];
    let mut buf = vec![9u32; 3];
    pack_scaled(&src, 4, 1, &mut buf, 2, 1);
    assert_eq!(buf, vec![1 << 16, 3 << 16, 9]);
}
