//! Handing a rendered RGBA frame to the window surface, whose pixels are
//! `0x00RRGGBB` words.

use vstd::prelude::*;

verus! {

/// The surface word of a pixel: `0x00RRGGBB`.
pub open spec fn rgb_word(r: u8, g: u8, b: u8) -> u32 {
    (r as int * 65536 + g as int * 256 + b as int) as u32
}

/// Number of pixels copied: the frame's pixel count, capped by the buffer
/// and by the whole pixels the source holds.
pub open spec fn copy_count(src_len: int, count: int, buf_len: int) -> int {
    let whole = src_len / 4;
    let a = if count < buf_len { count } else { buf_len };
    if a < whole { a } else { whole }
}

/// Copy the first `count` RGBA pixels of `src` into the surface buffer as
/// `0x00RRGGBB` words (alpha is dropped: frames are opaque); buffer words
/// past what is copied are left as they were.
pub fn pack_rgb(src: &[u8], buffer: &mut [u32], count: usize)
    ensures
        final(buffer)@.len() == old(buffer)@.len(),
        forall|i: int| 0 <= i < copy_count(src@.len() as int, count as int, old(buffer)@.len() as int) ==>
            #[trigger] final(buffer)@[i] == rgb_word(src@[4 * i], src@[4 * i + 1], src@[4 * i + 2]),
        forall|i: int| copy_count(src@.len() as int, count as int, old(buffer)@.len() as int) <= i < old(buffer)@.len() ==>
            #[trigger] final(buffer)@[i] == old(buffer)@[i],
{
    let whole = src.len() / 4;
    let mut n = if count < buffer.len() { count } else { buffer.len() };
    if whole < n {
        n = whole;
    }
    let mut i: usize = 0;
    while i < n
        invariant
            n == copy_count(src@.len() as int, count as int, old(buffer)@.len() as int),
            n <= buffer@.len(),
            n * 4 <= src.len(),
            i <= n,
            buffer@.len() == old(buffer)@.len(),
            forall|k: int| 0 <= k < i ==> #[trigger] buffer@[k] == rgb_word(src@[4 * k], src@[4 * k + 1], src@[4 * k + 2]),
            forall|k: int| i <= k < buffer@.len() ==> #[trigger] buffer@[k] == old(buffer)@[k],
        decreases n - i,
    {
        let p = 4 * i;
        let word: u32 = src[p] as u32 * 65536 + src[p + 1] as u32 * 256 + src[p + 2] as u32;
        buffer[i] = word;
        i += 1;
    }
}

/// Source pixel shown at target coordinate `t` when `src_n` pixels are
/// stretched over `dst_n` (nearest neighbour).
pub open spec fn nearest(t: int, src_n: int, dst_n: int) -> int {
    let s = t * src_n / dst_n;
    if s < src_n - 1 { s } else { src_n - 1 }
}

/// A position on an earlier row comes before every position of row `y`.
pub proof fn lemma_earlier_row(yy: int, xx: int, y: int, w: int)
    requires
        0 <= yy < y,
        0 <= xx < w,
    ensures
        0 <= yy * w + xx < y * w,
{
    assert(0 <= yy * w + xx < (yy + 1) * w) by (nonlinear_arith) requires 0 <= yy, 0 <= xx < w;
    assert((yy + 1) * w <= y * w) by (nonlinear_arith) requires yy + 1 <= y, w >= 0;
}

/// Fill a `pw` x `ph` surface buffer with the `src_w` x `src_h` RGBA frame
/// `src` stretched to it by nearest-neighbour sampling (for windows drawn
/// at a fixed logical size on a scaled display).
pub fn pack_scaled(src: &[u8], src_w: u32, src_h: u32, buffer: &mut [u32], pw: u32, ph: u32)
    requires
        src_w > 0,
        src_h > 0,
        src@.len() >= src_w * src_h * 4,
        old(buffer)@.len() >= pw * ph,
        src_w * pw <= u32::MAX,
        src_h * ph <= u32::MAX,
    ensures
        final(buffer)@.len() == old(buffer)@.len(),
        forall|y: int, x: int| 0 <= y < ph && 0 <= x < pw ==> {
            let s = nearest(y, src_h as int, ph as int) * src_w + nearest(x, src_w as int, pw as int);
            #[trigger] final(buffer)@[y * pw + x] == rgb_word(src@[4 * s], src@[4 * s + 1], src@[4 * s + 2])
        },
        forall|i: int| pw * ph <= i < old(buffer)@.len() ==> #[trigger] final(buffer)@[i] == old(buffer)@[i],
{
    let src_len = src.len();
    let buf_len = buffer.len();
    let mut y: u32 = 0;
    while y < ph
        invariant
            src_w > 0, src_h > 0,
            src@.len() >= src_w * src_h * 4,
            src_len == src@.len(),
            buf_len == buffer@.len(),
            buffer@.len() == old(buffer)@.len(),
            buffer@.len() >= pw * ph,
            src_w * pw <= u32::MAX,
            src_h * ph <= u32::MAX,
            y <= ph,
            forall|yy: int, x: int| 0 <= yy < y && 0 <= x < pw ==> {
                let s = nearest(yy, src_h as int, ph as int) * src_w + nearest(x, src_w as int, pw as int);
                #[trigger] buffer@[yy * pw + x] == rgb_word(src@[4 * s], src@[4 * s + 1], src@[4 * s + 2])
            },
            forall|i: int| y * pw <= i < buffer@.len() ==> #[trigger] buffer@[i] == old(buffer)@[i],
        decreases ph - y,
    {
        assert(y * src_h <= ph * src_h) by (nonlinear_arith) requires y < ph;
        let sy0: u32 = y * src_h / ph;
        let sy: u32 = if sy0 < src_h - 1 { sy0 } else { src_h - 1 };
        let mut x: u32 = 0;
        while x < pw
            invariant
                src_w > 0, src_h > 0,
                src@.len() >= src_w * src_h * 4,
                src_len == src@.len(),
                buf_len == buffer@.len(),
                buffer@.len() == old(buffer)@.len(),
                buffer@.len() >= pw * ph,
                src_w * pw <= u32::MAX,
                y < ph,
                sy == nearest(y as int, src_h as int, ph as int),
                sy < src_h,
                x <= pw,
                forall|yy: int, xx: int| 0 <= yy < y && 0 <= xx < pw ==> {
                    let s = nearest(yy, src_h as int, ph as int) * src_w + nearest(xx, src_w as int, pw as int);
                    #[trigger] buffer@[yy * pw + xx] == rgb_word(src@[4 * s], src@[4 * s + 1], src@[4 * s + 2])
                },
                forall|xx: int| 0 <= xx < x ==> {
                    let s = sy * src_w + nearest(xx, src_w as int, pw as int);
                    #[trigger] buffer@[y * pw + xx] == rgb_word(src@[4 * s], src@[4 * s + 1], src@[4 * s + 2])
                },
                forall|i: int| y * pw + x <= i < buffer@.len() ==> #[trigger] buffer@[i] == old(buffer)@[i],
            decreases pw - x,
        {
            assert(x * src_w <= pw * src_w) by (nonlinear_arith) requires x < pw;
            let sx0: u32 = x * src_w / pw;
            let sx: u32 = if sx0 < src_w - 1 { sx0 } else { src_w - 1 };
            let ghost s = sy * src_w + sx;
            assert(s * 4 + 3 < src_len) by (nonlinear_arith)
                requires s == sy * src_w + sx, sy < src_h, sx < src_w, src_len >= src_w * src_h * 4;
            assert(y * pw + x < pw * ph) by (nonlinear_arith) requires y < ph, x < pw;
            let si: usize = (sy as usize * src_w as usize + sx as usize) * 4;
            let di: usize = y as usize * pw as usize + x as usize;
            let word: u32 = src[si] as u32 * 65536 + src[si + 1] as u32 * 256 + src[si + 2] as u32;
            let ghost before = buffer@;
            buffer[di] = word;
            proof {
                assert forall|yy: int, xx: int| 0 <= yy < y && 0 <= xx < pw implies
                    #[trigger] buffer@[yy * pw + xx] == before[yy * pw + xx] by {
                    lemma_earlier_row(yy, xx, y as int, pw as int);
                }
            }
            x += 1;
        }
        assert(y * pw + pw == (y + 1) * pw) by (nonlinear_arith);
        y += 1;
    }
    assert(ph * pw == pw * ph) by (nonlinear_arith);
}

} // verus!
