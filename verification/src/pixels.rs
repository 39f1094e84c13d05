//! Byte-level pixel operations on RGBA8 buffers: cropping a selection out of
//! a screenshot, alpha compositing, and channel-order conversions.

use vstd::prelude::*;
use vstd::arithmetic::mul::lemma_mul_inequality;
use vstd::arithmetic::div_mod::{lemma_fundamental_div_mod, lemma_fundamental_div_mod_converse_div, lemma_fundamental_div_mod_converse_mod};
use crate::selection::ClampedRect;

verus! {

/// `a - b`, or 0 when `b >= a` (unsigned saturating subtraction).
pub open spec fn sat_sub(a: int, b: int) -> int {
    if a > b { a - b } else { 0 }
}

pub open spec fn min_int(a: int, b: int) -> int {
    if a < b { a } else { b }
}

// ---------------------------------------------------------------------------
// Raw crop of the selection (no annotations).
// ---------------------------------------------------------------------------

/// Number of selection rows that lie inside the screenshot.
pub open spec fn raw_crop_rows(src_h: u32, r: ClampedRect) -> int {
    if r.y >= src_h { 0 } else { min_int(r.h as int, src_h - r.y) }
}

/// Bytes copied per row: the part of the selection row inside the screenshot.
pub open spec fn raw_copy_width(src_w: u32, r: ClampedRect) -> int {
    min_int(r.w as int, sat_sub(src_w as int, r.x as int)) * 4
}

/// Byte offset in the screenshot of the first selected pixel of `row`.
pub open spec fn raw_row_offset(src_w: u32, r: ClampedRect, row: int) -> int {
    ((r.y + row) * src_w + r.x) * 4
}

/// Byte `k` of row `row` of the raw crop: the screenshot byte under it, or 0
/// outside the screenshot.
pub open spec fn raw_crop_byte(pixels: Seq<u8>, src_w: u32, src_h: u32, r: ClampedRect, row: int, k: int) -> u8 {
    if row < raw_crop_rows(src_h, r) && k < raw_copy_width(src_w, r)
        && raw_row_offset(src_w, r, row) + k < pixels.len() {
        pixels[raw_row_offset(src_w, r, row) + k]
    } else {
        0
    }
}

/// Row `row` of the raw crop (`r.w * 4` bytes).
pub open spec fn raw_crop_row(pixels: Seq<u8>, src_w: u32, src_h: u32, r: ClampedRect, row: int) -> Seq<u8> {
    Seq::new((r.w * 4) as nat, |k: int| raw_crop_byte(pixels, src_w, src_h, r, row, k))
}

/// The first `n` rows of the raw crop.
pub open spec fn raw_crop_upto(pixels: Seq<u8>, src_w: u32, src_h: u32, r: ClampedRect, n: int) -> Seq<u8>
    decreases n,
{
    if n <= 0 {
        Seq::empty()
    } else {
        raw_crop_upto(pixels, src_w, src_h, r, n - 1) + raw_crop_row(pixels, src_w, src_h, r, n - 1)
    }
}

/// The RGBA bytes of selection `r` cut out of a `src_w` x `src_h` screenshot,
/// row by row; parts outside the screenshot are zero.
pub open spec fn raw_crop(pixels: Seq<u8>, src_w: u32, src_h: u32, r: ClampedRect) -> Seq<u8> {
    raw_crop_upto(pixels, src_w, src_h, r, r.h as int)
}

/// The 32-bit offset arithmetic of the crop does not overflow.
pub open spec fn raw_crop_fits(src_w: u32, src_h: u32, r: ClampedRect) -> bool {
    raw_crop_rows(src_h, r) == 0 || (
        raw_row_offset(src_w, r, raw_crop_rows(src_h, r) - 1) <= u32::MAX
        && (raw_crop_rows(src_h, r) - 1) * r.w * 4 <= u32::MAX
        && raw_copy_width(src_w, r) <= u32::MAX
    )
}

/// Crop selection `r` out of a `src_w` x `src_h` RGBA screenshot without
/// annotations; bytes outside the screenshot come out zero.
pub fn crop_raw(pixels: &[u8], src_w: u32, src_h: u32, r: ClampedRect) -> (out: Vec<u8>)
    requires
        raw_crop_fits(src_w, src_h, r),
        r.w * r.h * 4 <= usize::MAX,
    ensures
        out@ == raw_crop(pixels@, src_w, src_h, r),
        out@.len() == r.w * r.h * 4,
{
    let rows: u32 = if r.y >= src_h { 0 } else if r.h < src_h - r.y { r.h } else { src_h - r.y };
    let avail: u32 = if src_w > r.x { src_w - r.x } else { 0 };
    let cw: u64 = (if r.w < avail { r.w } else { avail }) as u64 * 4;
    let row_len: u64 = r.w as u64 * 4;
    let mut out: Vec<u8> = Vec::new();
    let mut row: u32 = 0;
    while row < r.h
        invariant
            row <= r.h,
            rows == raw_crop_rows(src_h, r),
            cw == raw_copy_width(src_w, r),
            row_len == r.w * 4,
            raw_crop_fits(src_w, src_h, r),
            r.w * r.h * 4 <= usize::MAX,
            out@ == raw_crop_upto(pixels@, src_w, src_h, r, row as int),
            out@.len() == row * r.w * 4,
        decreases r.h - row,
    {
        let so: u64 = if row < rows {
            proof {
                lemma_mul_inequality(r.y + row as int, r.y + rows - 1, src_w as int);
            }
            ((r.y + row) as u64 * src_w as u64 + r.x as u64) * 4
        } else {
            0
        };
        let ghost before = out@;
        assert((row + 1) * r.w * 4 <= r.w * r.h * 4) by (nonlinear_arith)
            requires row < r.h;
        let mut k: u64 = 0;
        while k < row_len
            invariant
                k <= row_len,
                row < r.h,
                row_len == r.w * 4,
                rows == raw_crop_rows(src_h, r),
                cw == raw_copy_width(src_w, r),
                row < rows ==> so == raw_row_offset(src_w, r, row as int),
                so <= u32::MAX,
                out@ == before + raw_crop_row(pixels@, src_w, src_h, r, row as int).take(k as int),
                before.len() == row * r.w * 4,
                (row + 1) * r.w * 4 <= r.w * r.h * 4,
                r.w * r.h * 4 <= usize::MAX,
            decreases row_len - k,
        {
            let b: u8 = if row < rows && k < cw && so + k < pixels.len() as u64 {
                pixels[(so + k) as usize]
            } else {
                0
            };
            out.push(b);
            k += 1;
            assert(raw_crop_row(pixels@, src_w, src_h, r, row as int).take(k as int)
                =~= raw_crop_row(pixels@, src_w, src_h, r, row as int).take(k - 1).push(b));
        }
        assert(raw_crop_row(pixels@, src_w, src_h, r, row as int).take(row_len as int)
            =~= raw_crop_row(pixels@, src_w, src_h, r, row as int));
        assert(row * r.w * 4 + r.w * 4 == (row + 1) * r.w * 4) by (nonlinear_arith);
        row += 1;
    }
    assert(row * r.w * 4 == r.w * r.h * 4) by (nonlinear_arith)
        requires row == r.h;
    out
}

// ---------------------------------------------------------------------------
// Crop of the selection before flattening annotations into it.
// ---------------------------------------------------------------------------

/// Whole rows of `width * 4` bytes in a buffer of `len` bytes (its length read
/// as a 32-bit value).
pub open spec fn region_source_height(len: nat, width: u32) -> int {
    (len as u32) as int / (if width * 4 > 1 { width * 4 } else { 1 })
}

/// Width of the selection once clamped to the screenshot.
pub open spec fn region_width(width: u32, sel_x: u32, sel_w: u32) -> int {
    min_int(sel_w as int, sat_sub(width as int, sel_x as int))
}

/// Height of the selection once clamped to the screenshot.
pub open spec fn region_height(len: nat, width: u32, sel_y: u32, sel_h: u32) -> int {
    min_int(sel_h as int, sat_sub(region_source_height(len, width), sel_y as int))
}

/// Byte offset of the first selected pixel of selection row `i`.
pub open spec fn region_row_start(width: u32, sel_x: u32, sel_y: u32, i: int) -> int {
    ((sel_y + i) * width + sel_x) * 4
}

/// The bytes of selection rows `0..n`, each `cw` pixels wide; a row that
/// would run past the buffer is left out.
pub open spec fn region_rows(pixels: Seq<u8>, width: u32, sel_x: u32, sel_y: u32, cw: int, n: int) -> Seq<u8>
    decreases n,
{
    if n <= 0 {
        Seq::empty()
    } else {
        let start = region_row_start(width, sel_x, sel_y, n - 1);
        region_rows(pixels, width, sel_x, sel_y, cw, n - 1) + if start + cw * 4 <= pixels.len() {
            pixels.subrange(start, start + cw * 4)
        } else {
            Seq::empty()
        }
    }
}

/// The RGBA bytes of the selection clamped to the screenshot, row by row.
pub open spec fn region_crop(pixels: Seq<u8>, width: u32, sel_x: u32, sel_y: u32, sel_w: u32, sel_h: u32) -> Seq<u8> {
    region_rows(
        pixels, width, sel_x, sel_y, region_width(width, sel_x, sel_w),
        region_height(pixels.len(), width, sel_y, sel_h),
    )
}

/// The 32-bit offset arithmetic of the region crop does not overflow.
pub open spec fn region_crop_fits(len: nat, width: u32, sel_x: u32, sel_y: u32, sel_h: u32) -> bool {
    &&& width * 4 <= u32::MAX
    &&& region_height(len, width, sel_y, sel_h) == 0
        || region_row_start(width, sel_x, sel_y, region_height(len, width, sel_y, sel_h) - 1) <= u32::MAX
}

/// Crop the selection out of a screenshot `width` pixels wide whose height is
/// given by its buffer, clamping the selection to the screenshot. Returns the
/// cropped bytes with the clamped width and height.
pub fn crop_region(pixels: &[u8], width: u32, sel_x: u32, sel_y: u32, sel_w: u32, sel_h: u32)
    -> (out: (Vec<u8>, u32, u32))
    requires
        region_crop_fits(pixels@.len(), width, sel_x, sel_y, sel_h),
    ensures
        out.0@ == region_crop(pixels@, width, sel_x, sel_y, sel_w, sel_h),
        out.1 == region_width(width, sel_x, sel_w),
        out.2 == region_height(pixels@.len(), width, sel_y, sel_h),
{
    let total: u32 = pixels.len() as u32;
    let row_bytes: u32 = width * 4;
    let denom: u32 = if row_bytes > 1 { row_bytes } else { 1 };
    let src_h: u32 = total / denom;
    let avail_w: u32 = if width > sel_x { width - sel_x } else { 0 };
    let cw: u32 = if sel_w < avail_w { sel_w } else { avail_w };
    let avail_h: u32 = if src_h > sel_y { src_h - sel_y } else { 0 };
    let ch: u32 = if sel_h < avail_h { sel_h } else { avail_h };
    let mut out: Vec<u8> = Vec::new();
    let mut i: u32 = 0;
    while i < ch
        invariant
            i <= ch,
            cw == region_width(width, sel_x, sel_w),
            ch == region_height(pixels@.len(), width, sel_y, sel_h),
            region_crop_fits(pixels@.len(), width, sel_x, sel_y, sel_h),
            out@ == region_rows(pixels@, width, sel_x, sel_y, cw as int, i as int),
        decreases ch - i,
    {
        proof {
            lemma_mul_inequality(sel_y + i as int, sel_y + ch - 1, width as int);
        }
        let start: u64 = (((sel_y + i) as u64) * (width as u64) + sel_x as u64) * 4;
        let end: u64 = start + cw as u64 * 4;
        let ghost before = out@;
        if end <= pixels.len() as u64 {
            let mut k: u64 = start;
            while k < end
                invariant
                    start <= k <= end,
                    end <= pixels@.len(),
                    out@ == before + pixels@.subrange(start as int, k as int),
                decreases end - k,
            {
                out.push(pixels[k as usize]);
                k += 1;
                assert(pixels@.subrange(start as int, k as int)
                    =~= pixels@.subrange(start as int, k - 1).push(pixels@[k - 1]));
            }
        } else {
            assert(out@ =~= before + Seq::<u8>::empty());
        }
        i += 1;
    }
    (out, cw, ch)
}

// ---------------------------------------------------------------------------
// Premultiplied to straight alpha.
// ---------------------------------------------------------------------------

/// Byte `i` of the straight-alpha form of premultiplied RGBA `data`: a
/// transparent pixel becomes all zero, an opaque one is copied, and the color
/// channels of a translucent one are divided by its alpha (`c * 255 / a`,
/// truncated to 8 bits).
pub open spec fn demultiplied_byte(data: Seq<u8>, i: int) -> u8 {
    let a = data[i - i % 4 + 3];
    if a == 0 {
        0
    } else if a == 255 {
        if i % 4 == 3 { 255 } else { data[i] }
    } else if i % 4 == 3 {
        a
    } else {
        ((data[i] * 255) / (a as int)) as u8
    }
}

/// Convert premultiplied RGBA pixels (as rendered) back to straight alpha.
pub fn demultiply(data: &[u8]) -> (out: Vec<u8>)
    requires
        data@.len() % 4 == 0,
    ensures
        out@.len() == data@.len(),
        forall|i: int| 0 <= i < data@.len() ==> #[trigger] out@[i] == demultiplied_byte(data@, i),
{
    let mut out: Vec<u8> = Vec::new();
    let mut p: usize = 0;
    while p < data.len()
        invariant
            p <= data@.len(),
            p % 4 == 0,
            data@.len() % 4 == 0,
            out@.len() == p,
            forall|i: int| 0 <= i < p ==> #[trigger] out@[i] == demultiplied_byte(data@, i),
        decreases data@.len() - p,
    {
        let a = data[p + 3];
        if a == 0 {
            out.push(0);
            out.push(0);
            out.push(0);
            out.push(0);
        } else if a == 255 {
            out.push(data[p]);
            out.push(data[p + 1]);
            out.push(data[p + 2]);
            out.push(255);
        } else {
            out.push(#[verifier::truncate] ((data[p] as u16 * 255 / a as u16) as u8));
            out.push(#[verifier::truncate] ((data[p + 1] as u16 * 255 / a as u16) as u8));
            out.push(#[verifier::truncate] ((data[p + 2] as u16 * 255 / a as u16) as u8));
            out.push(a);
        }
        assert forall|i: int| p <= i < p + 4 implies #[trigger] out@[i] == demultiplied_byte(data@, i) by {
            assert(i - i % 4 == p);
        }
        p += 4;
    }
    out
}

// ---------------------------------------------------------------------------
// Channel order conversions of captured screens.
// ---------------------------------------------------------------------------

/// Byte `i` after swapping the first and third byte of every whole 4-byte
/// pixel (BGRA <-> RGBA); trailing bytes of an incomplete pixel are kept.
pub open spec fn swapped_byte(data: Seq<u8>, i: int) -> u8 {
    if i < data.len() - data.len() % 4 {
        if i % 4 == 0 {
            data[i + 2]
        } else if i % 4 == 2 {
            data[i - 2]
        } else {
            data[i]
        }
    } else {
        data[i]
    }
}

/// The channel swap undoes itself: swapping twice gives the bytes back.
pub proof fn lemma_swap_twice(data: Seq<u8>)
    ensures
        Seq::new(data.len(), |i: int| swapped_byte(Seq::new(data.len(), |j: int| swapped_byte(data, j)), i)) == data,
{
    let once = Seq::new(data.len(), |j: int| swapped_byte(data, j));
    let twice = Seq::new(data.len(), |i: int| swapped_byte(once, i));
    assert forall|i: int| 0 <= i < data.len() implies #[trigger] twice[i] == data[i] by {
        if i < data.len() - data.len() % 4 {
            if i % 4 == 0 {
                assert(once[i + 2] == data[i]);
            } else if i % 4 == 2 {
                assert(once[i - 2] == data[i]);
            }
        }
    }
    assert(twice =~= data);
}

/// Convert BGRA pixels to RGBA in place by swapping blue and red.
pub fn bgra_to_rgba(pixels: &mut [u8])
    ensures
        final(pixels)@.len() == old(pixels)@.len(),
        forall|i: int| 0 <= i < old(pixels)@.len() ==> #[trigger] final(pixels)@[i] == swapped_byte(old(pixels)@, i),
{
    let n = pixels.len();
    let whole = n - n % 4;
    let mut p: usize = 0;
    while p < whole
        invariant
            n == pixels@.len(),
            n == old(pixels)@.len(),
            whole == n - n % 4,
            p <= whole,
            p % 4 == 0,
            forall|i: int| 0 <= i < p ==> #[trigger] pixels@[i] == swapped_byte(old(pixels)@, i),
            forall|i: int| p <= i < n ==> #[trigger] pixels@[i] == old(pixels)@[i],
        decreases whole - p,
    {
        let b = pixels[p];
        let r = pixels[p + 2];
        pixels[p] = r;
        pixels[p + 2] = b;
        assert forall|i: int| p <= i < p + 4 implies #[trigger] pixels@[i] == swapped_byte(old(pixels)@, i) by {
            assert(i - i % 4 == p);
        }
        p += 4;
    }
}

// ---------------------------------------------------------------------------
// Alpha compositing of a premultiplied image onto another.
// ---------------------------------------------------------------------------

/// Row and column of position `q` in rows of `w` entries.
pub proof fn lemma_row_col(q: int, w: int, row: int, col: int)
    requires
        w > 0,
        0 <= col < w,
        q == row * w + col,
    ensures
        q / w == row,
        q % w == col,
{
    lemma_fundamental_div_mod_converse_div(q, w, row, col);
    lemma_fundamental_div_mod_converse_mod(q, w, row, col);
}

/// Channel `c` of premultiplied source pixel `s` composited over pixel `d`:
/// a transparent source leaves `d`, an opaque one replaces it, otherwise
/// `s + d * (255 - sa) / 255` per channel, capped at 255.
pub open spec fn composite_byte(d: Seq<u8>, s: Seq<u8>, c: int) -> u8 {
    let sa = s[3] as int;
    if sa == 0 {
        d[c]
    } else if sa == 255 {
        s[c]
    } else {
        let v = s[c] as int + (d[c] as int * (255 - sa)) / 255;
        if v > 255 { 255 } else { v as u8 }
    }
}

/// The source pixel drawn onto destination pixel `p` when the source image is
/// placed at offset `(ox, oy)`, if any.
pub open spec fn source_pixel(dst_w: int, src_w: int, src_h: int, ox: int, oy: int, p: int) -> Option<int> {
    let sx = p % dst_w - ox;
    let sy = p / dst_w - oy;
    if 0 <= sx < src_w && 0 <= sy < src_h { Some(sy * src_w + sx) } else { None }
}

/// Byte `i` of the destination after compositing the source image at
/// `(ox, oy)`; pixels outside the source are unchanged.
pub open spec fn blended_byte(dst: Seq<u8>, dst_w: int, src: Seq<u8>, src_w: int, src_h: int, ox: int, oy: int, i: int) -> u8 {
    match source_pixel(dst_w, src_w, src_h, ox, oy, i / 4) {
        Some(q) => composite_byte(dst.subrange(i - i % 4, i - i % 4 + 4), src.subrange(q * 4, q * 4 + 4), i % 4),
        None => dst[i],
    }
}

/// The sizes fit the 32-bit signed arithmetic of the compositor: both images
/// hold `w * h` RGBA pixels and the placed source stays within `i32`.
pub open spec fn blend_fits(dst_len: int, dst_w: u32, dst_h: u32, src_len: int, src_w: u32, src_h: u32, ox: i32, oy: i32) -> bool {
    &&& dst_len == dst_w * dst_h * 4
    &&& src_len == src_w * src_h * 4
    &&& dst_w * dst_h * 4 <= i32::MAX
    &&& src_w * src_h * 4 <= i32::MAX
    &&& dst_w <= i32::MAX && dst_h <= i32::MAX && src_w <= i32::MAX && src_h <= i32::MAX
    &&& ox + src_w <= i32::MAX + 1
    &&& oy + src_h <= i32::MAX + 1
}

/// Where a source pixel lands: the destination pixel fed by source pixel
/// `(sx, sy)` sits at column `sx + ox` and row `sy + oy`.
pub proof fn lemma_source_pixel_inverse(dw: int, sw: int, sh: int, ox: int, oy: int, p: int, sx: int, sy: int)
    requires
        dw > 0,
        0 <= sx < sw,
        0 <= sy < sh,
        source_pixel(dw, sw, sh, ox, oy, p) == Some(sy * sw + sx),
    ensures
        p / dw == sy + oy,
        p % dw == sx + ox,
{
    let psx = p % dw - ox;
    let psy = p / dw - oy;
    lemma_row_col(sy * sw + sx, sw, sy, sx);
    lemma_row_col(sy * sw + sx, sw, psy, psx);
}

/// A pixel inside a `w` x `h` image lies on one of its `h` rows.
pub proof fn lemma_row_in_range(p: int, w: int, h: int)
    requires
        w > 0,
        0 <= p < w * h,
    ensures
        0 <= p / w < h,
{
    assert(0 <= p / w < h) by (nonlinear_arith)
        requires w > 0, 0 <= p < w * h;
}

/// Composite the premultiplied source pixel at byte `si` of `src` over the
/// destination pixel at byte `di` of `dst`.
fn composite_pixel(dst: &mut [u8], di: usize, src: &[u8], si: usize)
    requires
        di + 4 <= old(dst).len(),
        si + 4 <= src.len(),
    ensures
        final(dst)@.len() == old(dst)@.len(),
        forall|j: int| 0 <= j < old(dst)@.len() && !(di <= j < di + 4) ==> #[trigger] final(dst)@[j] == old(dst)@[j],
        forall|j: int| di <= j < di + 4 ==> #[trigger] final(dst)@[j] == composite_byte(
            old(dst)@.subrange(di as int, di + 4), src@.subrange(si as int, si + 4), j - di),
{
    let sa = src[si + 3] as u32;
    if sa == 0 {
        return;
    }
    if sa == 255 {
        let mut c: usize = 0;
        while c < 4
            invariant
                c <= 4,
                di + 4 <= dst.len(),
                si + 4 <= src.len(),
                sa == src@[si + 3],
                sa == 255,
                dst@.len() == old(dst)@.len(),
                forall|j: int| 0 <= j < dst@.len() && !(di <= j < di + c) ==> #[trigger] dst@[j] == old(dst)@[j],
                forall|j: int| di <= j < di + c ==> #[trigger] dst@[j] == src@[si + (j - di)],
            decreases 4 - c,
        {
            dst[di + c] = src[si + c];
            c += 1;
        }
        return;
    }
    let inv_sa = 255 - sa;
    let mut c: usize = 0;
    while c < 4
        invariant
            c <= 4,
            di + 4 <= dst.len(),
            si + 4 <= src.len(),
            sa == src@[si + 3],
            0 < sa < 255,
            inv_sa == 255 - sa,
            dst@.len() == old(dst)@.len(),
            forall|j: int| 0 <= j < dst@.len() && !(di <= j < di + c) ==> #[trigger] dst@[j] == old(dst)@[j],
            forall|j: int| di <= j < di + c ==> #[trigger] dst@[j] == composite_byte(
                old(dst)@.subrange(di as int, di + 4), src@.subrange(si as int, si + 4), j - di),
        decreases 4 - c,
    {
        let s_c = src[si + c] as u32;
        let d_c = dst[di + c] as u32;
        assert(d_c * inv_sa <= 255 * 255) by (nonlinear_arith)
            requires d_c <= 255, inv_sa <= 255;
        let v = s_c + (d_c * inv_sa) / 255;
        dst[di + c] = if v > 255 { 255 } else { v as u8 };
        c += 1;
    }
}

/// Alpha-blend premultiplied `src` (`src_w` x `src_h`) onto `dst`
/// (`dst_w` x `dst_h`) with its top-left corner at `(offset_x, offset_y)`;
/// parts falling outside `dst` are clipped.
pub fn blend_over(
    dst: &mut [u8],
    dst_w: u32,
    dst_h: u32,
    src: &[u8],
    src_w: u32,
    src_h: u32,
    offset_x: i32,
    offset_y: i32,
)
    requires
        blend_fits(old(dst)@.len() as int, dst_w, dst_h, src@.len() as int, src_w, src_h, offset_x, offset_y),
    ensures
        final(dst)@.len() == old(dst)@.len(),
        forall|i: int| 0 <= i < old(dst)@.len() ==> #[trigger] final(dst)@[i]
            == blended_byte(old(dst)@, dst_w as int, src@, src_w as int, src_h as int, offset_x as int, offset_y as int, i),
{
    let ghost d0 = dst@;
    let ghost dw = dst_w as int;
    let ghost sw = src_w as int;
    let ghost sh = src_h as int;
    let ghost ox = offset_x as int;
    let ghost oy = offset_y as int;
    let mut sy: u32 = 0;
    while sy < src_h
        invariant
            sy <= src_h,
            dw == dst_w as int, sw == src_w as int, sh == src_h as int,
            ox == offset_x as int, oy == offset_y as int,
            blend_fits(d0.len() as int, dst_w, dst_h, src@.len() as int, src_w, src_h, offset_x, offset_y),
            dst@.len() == d0.len(),
            forall|i: int| 0 <= i < d0.len() ==> #[trigger] dst@[i] == match source_pixel(dw, sw, sh, ox, oy, i / 4) {
                Some(q) => if q < sy * sw { blended_byte(d0, dw, src@, sw, sh, ox, oy, i) } else { d0[i] },
                None => d0[i],
            },
        decreases src_h - sy,
    {
        let mut sx: u32 = 0;
        while sx < src_w
            invariant
                sy < src_h,
                sx <= src_w,
                dw == dst_w as int, sw == src_w as int, sh == src_h as int,
                ox == offset_x as int, oy == offset_y as int,
                blend_fits(d0.len() as int, dst_w, dst_h, src@.len() as int, src_w, src_h, offset_x, offset_y),
                dst@.len() == d0.len(),
                forall|i: int| 0 <= i < d0.len() ==> #[trigger] dst@[i] == match source_pixel(dw, sw, sh, ox, oy, i / 4) {
                    Some(q) => if q < sy * sw + sx { blended_byte(d0, dw, src@, sw, sh, ox, oy, i) } else { d0[i] },
                    None => d0[i],
                },
            decreases src_w - sx,
        {
            let ghost cur = sy * sw + sx;
            let ghost before = dst@;
            let dy: i64 = offset_y as i64 + sy as i64;
            let dx: i64 = offset_x as i64 + sx as i64;
            if 0 <= dy && dy < dst_h as i64 && 0 <= dx && dx < dst_w as i64 {
                let ghost p = dy * dw + dx;
                proof {
                    assert(p < dw * dst_h) by (nonlinear_arith)
                        requires p == dy * dw + dx, 0 <= dy < dst_h, 0 <= dx < dw;
                    assert(p * 4 + 4 <= d0.len()) by (nonlinear_arith)
                        requires p < dw * dst_h, d0.len() == dw * dst_h * 4;
                    assert(cur < sh * sw) by (nonlinear_arith)
                        requires cur == sy * sw + sx, sy < sh, sx < sw;
                    assert(cur * 4 + 4 <= src@.len()) by (nonlinear_arith)
                        requires cur < sh * sw, src@.len() == sw * sh * 4;
                    lemma_row_col(p, dw, dy as int, dx as int);
                }
                let di: usize = ((dy * dst_w as i64 + dx) * 4) as usize;
                let si: usize = ((sy as i64 * src_w as i64 + sx as i64) * 4) as usize;
                composite_pixel(dst, di, src, si);
                proof {
                    assert(source_pixel(dw, sw, sh, ox, oy, p) == Some(cur));
                    assert forall|j: int| di <= j < di + 4 implies #[trigger] before[j] == d0[j] by {
                        assert(j / 4 == p);
                    }
                    assert(before.subrange(di as int, di + 4) =~= d0.subrange(di as int, di + 4));
                    assert forall|i: int| 0 <= i < d0.len() implies #[trigger] dst@[i] == match source_pixel(dw, sw, sh, ox, oy, i / 4) {
                        Some(q) => if q < cur + 1 { blended_byte(d0, dw, src@, sw, sh, ox, oy, i) } else { d0[i] },
                        None => d0[i],
                    } by {
                        if di <= i < di + 4 {
                            assert(i / 4 == p);
                            assert(i - i % 4 == di);
                        } else if source_pixel(dw, sw, sh, ox, oy, i / 4) == Some(cur) {
                            lemma_source_pixel_inverse(dw, sw, sh, ox, oy, i / 4, sx as int, sy as int);
                            lemma_fundamental_div_mod(i / 4, dw);
                            assert(i / 4 == p) by (nonlinear_arith)
                                requires
                                    i / 4 == dw * ((i / 4) / dw) + (i / 4) % dw,
                                    (i / 4) / dw == dy,
                                    (i / 4) % dw == dx,
                                    p == dy * dw + dx;
                        }
                    }
                }
            } else {
                proof {
                    assert forall|i: int| 0 <= i < d0.len() implies #[trigger] source_pixel(dw, sw, sh, ox, oy, i / 4) != Some(cur) by {
                        if source_pixel(dw, sw, sh, ox, oy, i / 4) == Some(cur) {
                            assert(i / 4 < dw * dst_h) by (nonlinear_arith)
                                requires 0 <= i < d0.len(), d0.len() == dw * dst_h * 4;
                            lemma_row_in_range(i / 4, dw, dst_h as int);
                            lemma_source_pixel_inverse(dw, sw, sh, ox, oy, i / 4, sx as int, sy as int);
                        }
                    }
                }
            }
            sx += 1;
        }
        proof {
            assert(sy * sw + sw == (sy + 1) * sw) by (nonlinear_arith);
        }
        sy += 1;
    }
    proof {
        assert forall|i: int| 0 <= i < d0.len() implies #[trigger] dst@[i]
            == blended_byte(d0, dw, src@, sw, sh, ox, oy, i) by {
            if let Some(q) = source_pixel(dw, sw, sh, ox, oy, i / 4) {
                let psx = (i / 4) % dw - ox;
                let psy = (i / 4) / dw - oy;
                assert(q < sh * sw) by (nonlinear_arith)
                    requires q == psy * sw + psx, 0 <= psx < sw, 0 <= psy < sh;
            }
        }
    }
}


// ---------------------------------------------------------------------------
// Copying a straight-alpha RGBA image into a premultiplied one.
// ---------------------------------------------------------------------------

/// Channel `k` of straight-alpha pixel `px` in premultiplied form.
pub open spec fn premultiplied_byte(px: Seq<u8>, k: int) -> u8 {
    if k == 3 {
        px[3]
    } else {
        (px[k] as int * px[3] as int / 255) as u8
    }
}

/// The source pixel copied onto destination pixel `p`: as for compositing,
/// but rows above `min_y` are clipped away.
pub open spec fn blit_source(dst_w: int, src_w: int, src_h: int, ox: int, oy: int, min_y: int, p: int) -> Option<int> {
    if p / dst_w >= min_y {
        source_pixel(dst_w, src_w, src_h, ox, oy, p)
    } else {
        None
    }
}

/// Byte `i` of the destination after copying the source at `(ox, oy)`:
/// covered pixels get the premultiplied source pixel when the source buffer
/// holds it; everything else is unchanged.
pub open spec fn blitted_byte(dst: Seq<u8>, dst_w: int, src: Seq<u8>, src_w: int, src_h: int, ox: int, oy: int, min_y: int, i: int) -> u8 {
    match blit_source(dst_w, src_w, src_h, ox, oy, min_y, i / 4) {
        Some(q) => if q * 4 + 3 < src.len() {
            premultiplied_byte(src.subrange(q * 4, q * 4 + 4), i % 4)
        } else {
            dst[i]
        },
        None => dst[i],
    }
}

/// The sizes fit the 32-bit signed arithmetic of the copy.
pub open spec fn blit_fits(dst_len: int, dst_w: u32, dst_h: u32, src_w: u32, src_h: u32, ox: i32, oy: i32) -> bool {
    &&& dst_len == dst_w * dst_h * 4
    &&& dst_w * dst_h * 4 <= i32::MAX
    &&& src_w * src_h * 4 <= i32::MAX
    &&& dst_w <= i32::MAX && dst_h <= i32::MAX && src_w <= i32::MAX && src_h <= i32::MAX
    &&& ox + src_w <= i32::MAX + 1
    &&& oy + src_h <= i32::MAX + 1
}

/// Write source pixel `si` premultiplied onto destination pixel `di`.
fn put_premultiplied(dst: &mut [u8], di: usize, src: &[u8], si: usize)
    requires
        di + 4 <= old(dst).len(),
        si + 4 <= src.len(),
    ensures
        final(dst)@.len() == old(dst)@.len(),
        forall|j: int| 0 <= j < old(dst)@.len() && !(di <= j < di + 4) ==> #[trigger] final(dst)@[j] == old(dst)@[j],
        forall|j: int| di <= j < di + 4 ==> #[trigger] final(dst)@[j] == premultiplied_byte(src@.subrange(si as int, si + 4), j - di),
{
    let a = src[si + 3] as u32;
    let mut c: usize = 0;
    while c < 3
        invariant
            c <= 3,
            di + 4 <= dst.len(),
            si + 4 <= src.len(),
            a == src@[si + 3],
            dst@.len() == old(dst)@.len(),
            forall|j: int| 0 <= j < dst@.len() && !(di <= j < di + c) ==> #[trigger] dst@[j] == old(dst)@[j],
            forall|j: int| di <= j < di + c ==> #[trigger] dst@[j] == premultiplied_byte(src@.subrange(si as int, si + 4), j - di),
        decreases 3 - c,
    {
        let v = src[si + c] as u32;
        assert(v * a <= 255 * 255) by (nonlinear_arith) requires v <= 255, a <= 255;
        assert(v * a / 255 <= 255) by (nonlinear_arith) requires v * a <= 255 * 255;
        dst[di + c] = ((v * a) / 255) as u8;
        c += 1;
    }
    dst[di + 3] = src[si + 3];
}

/// Copy the straight-alpha RGBA image `src` (`w` x `h`) into the
/// premultiplied image `dst` (`dst_w` x `dst_h`) at `(dst_x, dst_y)`,
/// skipping rows above `min_y` (a header strip) and anything outside `dst`
/// or beyond the end of `src`.
pub fn blit_rgba_clipped(
    dst: &mut [u8],
    dst_w: u32,
    dst_h: u32,
    dst_x: i32,
    dst_y: i32,
    src: &[u8],
    w: u32,
    h: u32,
    min_y: i32,
)
    requires
        blit_fits(old(dst)@.len() as int, dst_w, dst_h, w, h, dst_x, dst_y),
        min_y >= 0,
    ensures
        final(dst)@.len() == old(dst)@.len(),
        forall|i: int| 0 <= i < old(dst)@.len() ==> #[trigger] final(dst)@[i]
            == blitted_byte(old(dst)@, dst_w as int, src@, w as int, h as int, dst_x as int, dst_y as int, min_y as int, i),
{
    let ghost d0 = dst@;
    let ghost dw = dst_w as int;
    let ghost sw = w as int;
    let ghost sh = h as int;
    let ghost ox = dst_x as int;
    let ghost oy = dst_y as int;
    let ghost my = min_y as int;
    let mut sy: u32 = 0;
    while sy < h
        invariant
            sy <= h,
            dw == dst_w as int, sw == w as int, sh == h as int,
            ox == dst_x as int, oy == dst_y as int, my == min_y as int,
            min_y >= 0,
            blit_fits(d0.len() as int, dst_w, dst_h, w, h, dst_x, dst_y),
            dst@.len() == d0.len(),
            forall|i: int| 0 <= i < d0.len() ==> #[trigger] dst@[i] == match blit_source(dw, sw, sh, ox, oy, my, i / 4) {
                Some(q) => if q < sy * sw { blitted_byte(d0, dw, src@, sw, sh, ox, oy, my, i) } else { d0[i] },
                None => d0[i],
            },
        decreases h - sy,
    {
        let mut sx: u32 = 0;
        while sx < w
            invariant
                sy < h,
                sx <= w,
                dw == dst_w as int, sw == w as int, sh == h as int,
                ox == dst_x as int, oy == dst_y as int, my == min_y as int,
                min_y >= 0,
                blit_fits(d0.len() as int, dst_w, dst_h, w, h, dst_x, dst_y),
                dst@.len() == d0.len(),
                forall|i: int| 0 <= i < d0.len() ==> #[trigger] dst@[i] == match blit_source(dw, sw, sh, ox, oy, my, i / 4) {
                    Some(q) => if q < sy * sw + sx { blitted_byte(d0, dw, src@, sw, sh, ox, oy, my, i) } else { d0[i] },
                    None => d0[i],
                },
            decreases w - sx,
        {
            let ghost cur = sy * sw + sx;
            let ghost before = dst@;
            let py: i64 = dst_y as i64 + sy as i64;
            let px: i64 = dst_x as i64 + sx as i64;
            proof {
                assert(cur < sh * sw) by (nonlinear_arith)
                    requires cur == sy * sw + sx, sy < sh, sx < sw;
            }
            if min_y as i64 <= py && py < dst_h as i64 && 0 <= px && px < dst_w as i64 {
                let ghost p = py * dw + px;
                proof {
                    assert(p < dw * dst_h) by (nonlinear_arith)
                        requires p == py * dw + px, 0 <= py < dst_h, 0 <= px < dw;
                    assert(p * 4 + 4 <= d0.len()) by (nonlinear_arith)
                        requires p < dw * dst_h, d0.len() == dw * dst_h * 4;
                    assert(cur * 4 + 4 <= sw * sh * 4) by (nonlinear_arith)
                        requires cur < sh * sw;
                    lemma_row_col(p, dw, py as int, px as int);
                    assert(source_pixel(dw, sw, sh, ox, oy, p) == Some(cur));
                    assert(blit_source(dw, sw, sh, ox, oy, my, p) == Some(cur));
                }
                let di: usize = ((py * dst_w as i64 + px) * 4) as usize;
                let si: usize = ((sy as i64 * w as i64 + sx as i64) * 4) as usize;
                if si + 3 < src.len() {
                    put_premultiplied(dst, di, src, si);
                    proof {
                        assert forall|j: int| di <= j < di + 4 implies #[trigger] before[j] == d0[j] by {
                            assert(j / 4 == p);
                        }
                        assert forall|i: int| 0 <= i < d0.len() implies #[trigger] dst@[i] == match blit_source(dw, sw, sh, ox, oy, my, i / 4) {
                            Some(q) => if q < cur + 1 { blitted_byte(d0, dw, src@, sw, sh, ox, oy, my, i) } else { d0[i] },
                            None => d0[i],
                        } by {
                            if di <= i < di + 4 {
                                assert(i / 4 == p);
                                assert(i - i % 4 == di);
                            } else if blit_source(dw, sw, sh, ox, oy, my, i / 4) == Some(cur) {
                                lemma_source_pixel_inverse(dw, sw, sh, ox, oy, i / 4, sx as int, sy as int);
                                lemma_fundamental_div_mod(i / 4, dw);
                                assert(i / 4 == p) by (nonlinear_arith)
                                    requires
                                        i / 4 == dw * ((i / 4) / dw) + (i / 4) % dw,
                                        (i / 4) / dw == py,
                                        (i / 4) % dw == px,
                                        p == py * dw + px;
                            }
                        }
                    }
                }
            } else {
                proof {
                    assert forall|i: int| 0 <= i < d0.len() implies #[trigger] blit_source(dw, sw, sh, ox, oy, my, i / 4) != Some(cur) by {
                        if blit_source(dw, sw, sh, ox, oy, my, i / 4) == Some(cur) {
                            assert(i / 4 < dw * dst_h) by (nonlinear_arith)
                                requires 0 <= i < d0.len(), d0.len() == dw * dst_h * 4;
                            lemma_row_in_range(i / 4, dw, dst_h as int);
                            lemma_source_pixel_inverse(dw, sw, sh, ox, oy, i / 4, sx as int, sy as int);
                        }
                    }
                }
            }
            sx += 1;
        }
        proof {
            assert(sy * sw + sw == (sy + 1) * sw) by (nonlinear_arith);
        }
        sy += 1;
    }
    proof {
        assert forall|i: int| 0 <= i < d0.len() implies #[trigger] dst@[i]
            == blitted_byte(d0, dw, src@, sw, sh, ox, oy, my, i) by {
            if let Some(q) = blit_source(dw, sw, sh, ox, oy, my, i / 4) {
                let psx = (i / 4) % dw - ox;
                let psy = (i / 4) / dw - oy;
                assert(q < sh * sw) by (nonlinear_arith)
                    requires q == psy * sw + psx, 0 <= psx < sw, 0 <= psy < sh;
            }
        }
    }
}


// ---------------------------------------------------------------------------
// Pixelation: the average color of a block of the screenshot.
// ---------------------------------------------------------------------------

/// Byte offset of pixel `(x + c, y + r)` in a screenshot `src_w` pixels wide.
pub open spec fn block_offset(src_w: int, x: int, y: int, r: int, c: int) -> int {
    ((y + r) * src_w + x + c) * 4
}

/// Pixel `(x + c, y + r)` takes part in the average: it lies within the
/// screenshot's width and its bytes are in the buffer.
pub open spec fn block_cell_in(src_len: int, src_w: int, x: int, y: int, r: int, c: int) -> bool {
    x + c < src_w && block_offset(src_w, x, y, r, c) + 3 < src_len
}

/// Sum of channel `ch` over the first `n` cells of block row `r`.
pub open spec fn row_total(src: Seq<u8>, src_w: int, x: int, y: int, r: int, n: int, ch: int) -> int
    decreases n,
{
    if n <= 0 {
        0
    } else {
        row_total(src, src_w, x, y, r, n - 1, ch) + if block_cell_in(src.len() as int, src_w, x, y, r, n - 1) {
            src[block_offset(src_w, x, y, r, n - 1) + ch] as int
        } else {
            0
        }
    }
}

/// Number of cells among the first `n` of block row `r` that take part.
pub open spec fn row_count(src_len: int, src_w: int, x: int, y: int, r: int, n: int) -> int
    decreases n,
{
    if n <= 0 {
        0
    } else {
        row_count(src_len, src_w, x, y, r, n - 1) + if block_cell_in(src_len, src_w, x, y, r, n - 1) { 1int } else { 0int }
    }
}

/// Sum of channel `ch` over the first `m` rows of a block `bw` cells wide.
pub open spec fn block_total(src: Seq<u8>, src_w: int, x: int, y: int, bw: int, m: int, ch: int) -> int
    decreases m,
{
    if m <= 0 { 0 } else { block_total(src, src_w, x, y, bw, m - 1, ch) + row_total(src, src_w, x, y, m - 1, bw, ch) }
}

/// Number of cells taking part among the first `m` rows of a block.
pub open spec fn block_count(src_len: int, src_w: int, x: int, y: int, bw: int, m: int) -> int
    decreases m,
{
    if m <= 0 { 0 } else { block_count(src_len, src_w, x, y, bw, m - 1) + row_count(src_len, src_w, x, y, m - 1, bw) }
}

proof fn lemma_row_bounds(src: Seq<u8>, src_w: int, x: int, y: int, r: int, n: int, ch: int)
    requires
        0 <= ch < 3,
    ensures
        0 <= row_count(src.len() as int, src_w, x, y, r, n) <= if n > 0 { n } else { 0 },
        0 <= row_total(src, src_w, x, y, r, n, ch) <= 255 * row_count(src.len() as int, src_w, x, y, r, n),
    decreases n,
{
    if n > 0 {
        lemma_row_bounds(src, src_w, x, y, r, n - 1, ch);
    }
}

proof fn lemma_block_bounds(src: Seq<u8>, src_w: int, x: int, y: int, bw: int, m: int, ch: int)
    requires
        0 <= ch < 3,
        bw >= 0,
    ensures
        0 <= block_count(src.len() as int, src_w, x, y, bw, m) <= if m > 0 { m * bw } else { 0 },
        0 <= block_total(src, src_w, x, y, bw, m, ch) <= 255 * block_count(src.len() as int, src_w, x, y, bw, m),
    decreases m,
{
    if m > 0 {
        lemma_block_bounds(src, src_w, x, y, bw, m - 1, ch);
        lemma_row_bounds(src, src_w, x, y, m - 1, bw, ch);
        assert((m - 1) * bw + bw == m * bw) by (nonlinear_arith);
    }
}

/// The average color of the `bw` x `bh` block at `(x, y)` of a screenshot
/// `src_w` pixels wide: the mean of each channel over the block's pixels
/// that lie within the screenshot (`None` when there are none).
pub open spec fn block_average_of(src: Seq<u8>, src_w: int, x: int, y: int, bw: int, bh: int) -> Option<(u8, u8, u8)> {
    let n = block_count(src.len() as int, src_w, x, y, bw, bh);
    if n == 0 {
        None
    } else {
        Some((
            (block_total(src, src_w, x, y, bw, bh, 0) / n) as u8,
            (block_total(src, src_w, x, y, bw, bh, 1) / n) as u8,
            (block_total(src, src_w, x, y, bw, bh, 2) / n) as u8,
        ))
    }
}

/// Average color of one pixelation block.
pub fn block_average(src: &[u8], src_w: usize, x: usize, y: usize, bw: usize, bh: usize) -> (avg: Option<(u8, u8, u8)>)
    requires
        (y + bh) * src_w * 4 <= usize::MAX,
        x + bw <= usize::MAX,
        bw * bh * 255 <= u64::MAX,
    ensures
        avg == block_average_of(src@, src_w as int, x as int, y as int, bw as int, bh as int),
{
    let ghost s = src@;
    let ghost len = src@.len() as int;
    let mut sum_r: u64 = 0;
    let mut sum_g: u64 = 0;
    let mut sum_b: u64 = 0;
    let mut count: u64 = 0;
    let mut r: usize = 0;
    while r < bh
        invariant
            (y + bh) * src_w * 4 <= usize::MAX,
            x + bw <= usize::MAX,
            bw * bh * 255 <= u64::MAX,
            s == src@, len == s.len(),
            r <= bh,
            count == block_count(len, src_w as int, x as int, y as int, bw as int, r as int),
            sum_r == block_total(s, src_w as int, x as int, y as int, bw as int, r as int, 0),
            sum_g == block_total(s, src_w as int, x as int, y as int, bw as int, r as int, 1),
            sum_b == block_total(s, src_w as int, x as int, y as int, bw as int, r as int, 2),
        decreases bh - r,
    {
        let mut c: usize = 0;
        while c < bw
            invariant
                (y + bh) * src_w * 4 <= usize::MAX,
                x + bw <= usize::MAX,
                bw * bh * 255 <= u64::MAX,
                s == src@, len == s.len(),
                r < bh,
                c <= bw,
                count == block_count(len, src_w as int, x as int, y as int, bw as int, r as int)
                    + row_count(len, src_w as int, x as int, y as int, r as int, c as int),
                sum_r == block_total(s, src_w as int, x as int, y as int, bw as int, r as int, 0)
                    + row_total(s, src_w as int, x as int, y as int, r as int, c as int, 0),
                sum_g == block_total(s, src_w as int, x as int, y as int, bw as int, r as int, 1)
                    + row_total(s, src_w as int, x as int, y as int, r as int, c as int, 1),
                sum_b == block_total(s, src_w as int, x as int, y as int, bw as int, r as int, 2)
                    + row_total(s, src_w as int, x as int, y as int, r as int, c as int, 2),
            decreases bw - c,
        {
            proof {
                lemma_block_bounds(s, src_w as int, x as int, y as int, bw as int, r as int, 0);
                lemma_block_bounds(s, src_w as int, x as int, y as int, bw as int, r as int, 1);
                lemma_block_bounds(s, src_w as int, x as int, y as int, bw as int, r as int, 2);
                lemma_row_bounds(s, src_w as int, x as int, y as int, r as int, c as int, 0);
                lemma_row_bounds(s, src_w as int, x as int, y as int, r as int, c as int, 1);
                lemma_row_bounds(s, src_w as int, x as int, y as int, r as int, c as int, 2);
                assert(r * bw + c + 1 <= bw * bh) by (nonlinear_arith) requires r < bh, c < bw;
                assert((r * bw + c + 1) * 255 <= bw * bh * 255) by (nonlinear_arith)
                    requires r * bw + c + 1 <= bw * bh;
            }
            let sx = x + c;
            if sx < src_w {
                assert(y + bh <= (y + bh) * src_w * 4) by (nonlinear_arith) requires src_w >= 1;
                let sy = y + r;
                assert((sy * src_w + sx) * 4 + 4 <= (y + bh) * src_w * 4) by (nonlinear_arith)
                    requires sy < y + bh, sx < src_w;
                let si = (sy * src_w + sx) * 4;
                if si + 3 < src.len() {
                    sum_r = sum_r + src[si] as u64;
                    sum_g = sum_g + src[si + 1] as u64;
                    sum_b = sum_b + src[si + 2] as u64;
                    count = count + 1;
                }
            }
            c += 1;
        }
        r += 1;
    }
    if count == 0 {
        None
    } else {
        proof {
            lemma_block_bounds(s, src_w as int, x as int, y as int, bw as int, bh as int, 0);
            lemma_block_bounds(s, src_w as int, x as int, y as int, bw as int, bh as int, 1);
            lemma_block_bounds(s, src_w as int, x as int, y as int, bw as int, bh as int, 2);
            assert(sum_r / count <= 255) by (nonlinear_arith) requires sum_r <= 255 * count, count > 0;
            assert(sum_g / count <= 255) by (nonlinear_arith) requires sum_g <= 255 * count, count > 0;
            assert(sum_b / count <= 255) by (nonlinear_arith) requires sum_b <= 255 * count, count > 0;
        }
        Some(((sum_r / count) as u8, (sum_g / count) as u8, (sum_b / count) as u8))
    }
}

// ---------------------------------------------------------------------------
// Pixelation: the screenshot region is cut into square blocks, row by row,
// and each block is painted in its average color (clipped to the canvas).

/// A region to pixelate: its top-left corner and size in screenshot pixels,
/// the side of a block (0 counts as 1), and the size of the canvas drawn on.
#[derive(Debug, Clone, Copy, PartialEq, Eq, Structural)]
pub struct PixelateArea {
    pub x: usize,
    pub y: usize,
    pub width: usize,
    pub height: usize,
    pub block: usize,
    pub canvas_w: usize,
    pub canvas_h: usize,
}

/// One painted block: a canvas rectangle and its color.
#[derive(Debug, Clone, Copy, PartialEq, Eq, Structural)]
pub struct BlockFill {
    pub x: usize,
    pub y: usize,
    pub w: usize,
    pub h: usize,
    pub r: u8,
    pub g: u8,
    pub b: u8,
}

/// The side of a block, at least 1.
pub open spec fn block_step(a: PixelateArea) -> int {
    if a.block == 0 { 1 } else { a.block as int }
}

/// The fill for the block at offset `(bx, by)` of size `bw` x `bh`: none when
/// no pixel of it lies in the screenshot, or when it falls off the canvas.
pub open spec fn block_fill_of(src: Seq<u8>, src_w: int, a: PixelateArea, bx: int, by: int, bw: int, bh: int) -> Seq<BlockFill> {
    let px = a.x + bx;
    let py = a.y + by;
    match block_average_of(src, src_w, px, py, bw, bh) {
        None => Seq::empty(),
        Some((r, g, b)) => {
            let fx = min_int(px, a.canvas_w as int);
            let fy = min_int(py, a.canvas_h as int);
            let fw = min_int(bw, a.canvas_w - fx);
            let fh = min_int(bh, a.canvas_h - fy);
            if fw > 0 && fh > 0 {
                seq![BlockFill { x: fx as usize, y: fy as usize, w: fw as usize, h: fh as usize, r, g, b }]
            } else {
                Seq::empty()
            }
        },
    }
}

/// The fills of the blocks of one block row (at offset `by`, of height `bh`),
/// from horizontal offset `bx` on.
pub open spec fn row_fills(src: Seq<u8>, src_w: int, a: PixelateArea, bx: int, by: int, bh: int) -> Seq<BlockFill>
    decreases a.width + block_step(a) - bx,
{
    if bx >= a.width || bx < 0 {
        Seq::empty()
    } else {
        block_fill_of(src, src_w, a, bx, by, min_int(block_step(a), a.width - bx), bh)
            + row_fills(src, src_w, a, bx + block_step(a), by, bh)
    }
}

/// The fills of the block rows from vertical offset `by` on, top to bottom.
pub open spec fn grid_fills(src: Seq<u8>, src_w: int, a: PixelateArea, by: int) -> Seq<BlockFill>
    decreases a.height + block_step(a) - by,
{
    if by >= a.height || by < 0 {
        Seq::empty()
    } else {
        row_fills(src, src_w, a, 0, by, min_int(block_step(a), a.height - by))
            + grid_fills(src, src_w, a, by + block_step(a))
    }
}

/// The blocks to paint for a pixelated region, row by row, left to right:
/// each block's average color over the screenshot `src` (`src_w` pixels
/// wide), with its rectangle clipped to the canvas.
pub fn pixelate_fills(src: &[u8], src_w: usize, a: PixelateArea) -> (fills: Vec<BlockFill>)
    requires
        (a.y + a.height) * src_w * 4 <= usize::MAX,
        a.x + a.width + block_step(a) <= usize::MAX,
        a.y + a.height + block_step(a) <= usize::MAX,
        block_step(a) * block_step(a) * 255 <= u64::MAX,
    ensures
        fills@ == grid_fills(src@, src_w as int, a, 0),
{
    let step: usize = if a.block == 0 { 1 } else { a.block };
    let ghost w = src_w as int;
    let mut fills: Vec<BlockFill> = Vec::new();
    let mut by: usize = 0;
    assert(fills@ + grid_fills(src@, w, a, 0) =~= grid_fills(src@, w, a, 0));
    while by < a.height
        invariant
            step == block_step(a),
            (a.y + a.height) * src_w * 4 <= usize::MAX,
            a.x + a.width + step <= usize::MAX,
            a.y + a.height + step <= usize::MAX,
            step * step * 255 <= u64::MAX,
            w == src_w,
            by <= a.height + step,
            fills@ + grid_fills(src@, w, a, by as int) == grid_fills(src@, w, a, 0),
        decreases a.height + step - by,
    {
        let bh: usize = if step < a.height - by { step } else { a.height - by };
        assert(grid_fills(src@, w, a, by as int) == row_fills(src@, w, a, 0, by as int, bh as int)
            + grid_fills(src@, w, a, by + step));
        assert(fills@ + grid_fills(src@, w, a, by as int) =~= fills@ + row_fills(src@, w, a, 0, by as int, bh as int)
            + grid_fills(src@, w, a, by + step));
        let mut bx: usize = 0;
        while bx < a.width
            invariant
                step == block_step(a),
                (a.y + a.height) * src_w * 4 <= usize::MAX,
                a.x + a.width + step <= usize::MAX,
                a.y + a.height + step <= usize::MAX,
                step * step * 255 <= u64::MAX,
                w == src_w,
                by < a.height,
                1 <= bh <= step,
                by + bh <= a.height,
                bx <= a.width + step,
                fills@ + row_fills(src@, w, a, bx as int, by as int, bh as int) + grid_fills(src@, w, a, by + step)
                    == grid_fills(src@, w, a, 0),
            decreases a.width + step - bx,
        {
            let bw: usize = if step < a.width - bx { step } else { a.width - bx };
            let px = a.x + bx;
            let py = a.y + by;
            assert((py + bh) * src_w * 4 <= usize::MAX) by (nonlinear_arith)
                requires
                    py + bh <= a.y + a.height,
                    (a.y + a.height) * src_w * 4 <= usize::MAX;
            assert(bw * bh * 255 <= u64::MAX) by (nonlinear_arith)
                requires
                    bw <= step,
                    bh <= step,
                    step * step * 255 <= u64::MAX;
            let ghost row_rest = row_fills(src@, w, a, bx + step, by as int, bh as int);
            let ghost this = block_fill_of(src@, w, a, bx as int, by as int, bw as int, bh as int);
            assert(row_fills(src@, w, a, bx as int, by as int, bh as int) == this + row_rest);
            let ghost before = fills@;
            match block_average(src, src_w, px, py, bw, bh) {
                Some((r, g, b)) => {
                    let fx = if px < a.canvas_w { px } else { a.canvas_w };
                    let fy = if py < a.canvas_h { py } else { a.canvas_h };
                    let room_w = a.canvas_w - fx;
                    let room_h = a.canvas_h - fy;
                    let fw = if bw < room_w { bw } else { room_w };
                    let fh = if bh < room_h { bh } else { room_h };
                    if fw > 0 && fh > 0 {
                        fills.push(BlockFill { x: fx, y: fy, w: fw, h: fh, r, g, b });
                    }
                },
                None => {},
            }
            assert(fills@ =~= before + this);
            assert(fills@ + row_rest + grid_fills(src@, w, a, by + step)
                =~= before + (this + row_rest) + grid_fills(src@, w, a, by + step));
            bx = bx + step;
        }
        assert(fills@ + row_fills(src@, w, a, bx as int, by as int, bh as int) =~= fills@);
        by = by + step;
    }
    assert(fills@ + grid_fills(src@, w, a, by as int) =~= fills@);
    fills
}

/// Every block of a pixelated region is painted: for the block at column
/// `i` and row `j` of the block grid (offsets `i * step` and `j * step`
/// inside the region, clipped to the region's right and bottom edges), when
/// some of its pixels lie in the screenshot and its corner lies on the
/// canvas, the fills hold that block in the average color of those pixels,
/// clipped to the canvas. Edge blocks narrower than a full block count too.
pub proof fn lemma_every_block_is_painted(src: Seq<u8>, src_w: int, a: PixelateArea, i: int, j: int)
    requires
        0 <= i,
        0 <= j,
        i * block_step(a) < a.width,
        j * block_step(a) < a.height,
    ensures
        ({
            let step = block_step(a);
            let px = a.x + i * step;
            let py = a.y + j * step;
            let bw = min_int(step, a.width - i * step);
            let bh = min_int(step, a.height - j * step);
            match block_average_of(src, src_w, px, py, bw, bh) {
                Some((r, g, b)) => px < a.canvas_w && py < a.canvas_h
                    ==> grid_fills(src, src_w, a, 0).contains(BlockFill {
                        x: px as usize,
                        y: py as usize,
                        w: min_int(bw, a.canvas_w - px) as usize,
                        h: min_int(bh, a.canvas_h - py) as usize,
                        r,
                        g,
                        b,
                    }),
                None => true,
            }
        }),
{
    let step = block_step(a);
    let bx = i * step;
    let by = j * step;
    let bw = min_int(step, a.width - bx);
    let bh = min_int(step, a.height - by);
    let fill = block_fill_of(src, src_w, a, bx, by, bw, bh);
    if fill.len() > 0 {
        lemma_row_holds_block(src, src_w, a, 0, by, bh, i);
        lemma_grid_holds_row(src, src_w, a, 0, j, fill[0], bx);
    }
}

/// The fills of a block row from offset `bx0` hold the fill of the block
/// `k` steps further on.
proof fn lemma_row_holds_block(src: Seq<u8>, src_w: int, a: PixelateArea, bx0: int, by: int, bh: int, k: int)
    requires
        0 <= bx0,
        0 <= k,
        bx0 + k * block_step(a) < a.width,
    ensures
        ({
            let bx = bx0 + k * block_step(a);
            let fill = block_fill_of(src, src_w, a, bx, by, min_int(block_step(a), a.width - bx), bh);
            fill.len() > 0 ==> row_fills(src, src_w, a, bx0, by, bh).contains(fill[0])
        }),
    decreases k,
{
    let step = block_step(a);
    let bx = bx0 + k * step;
    let fill = block_fill_of(src, src_w, a, bx, by, min_int(step, a.width - bx), bh);
    let here = block_fill_of(src, src_w, a, bx0, by, min_int(step, a.width - bx0), bh);
    let rest = row_fills(src, src_w, a, bx0 + step, by, bh);
    assert(k * step >= 0) by (nonlinear_arith)
        requires
            k >= 0,
            step >= 1;
    assert(row_fills(src, src_w, a, bx0, by, bh) == here + rest);
    if fill.len() > 0 {
        if k == 0 {
            assert(k * step == 0) by (nonlinear_arith)
                requires
                    k == 0;
            assert(fill == here);
            assert((here + rest)[0] == fill[0]);
        } else {
            assert(bx0 + k * step == (bx0 + step) + (k - 1) * step) by (nonlinear_arith);
            assert((k - 1) * step >= 0) by (nonlinear_arith)
                requires
                    k >= 1,
                    step >= 1;
            lemma_row_holds_block(src, src_w, a, bx0 + step, by, bh, k - 1);
            let m = choose|m: int| 0 <= m < rest.len() && rest[m] == fill[0];
            assert((here + rest)[here.len() + m] == fill[0]);
        }
    }
}

/// The fills of the block rows from offset `by0` hold every fill of the
/// row `k` steps further down.
proof fn lemma_grid_holds_row(src: Seq<u8>, src_w: int, a: PixelateArea, by0: int, k: int, f: BlockFill, bx: int)
    requires
        0 <= by0,
        0 <= k,
        by0 + k * block_step(a) < a.height,
        ({
            let by = by0 + k * block_step(a);
            row_fills(src, src_w, a, 0, by, min_int(block_step(a), a.height - by)).contains(f)
        }),
    ensures
        grid_fills(src, src_w, a, by0).contains(f),
    decreases k,
{
    let step = block_step(a);
    let here = row_fills(src, src_w, a, 0, by0, min_int(step, a.height - by0));
    let rest = grid_fills(src, src_w, a, by0 + step);
    assert(k * step >= 0) by (nonlinear_arith)
        requires
            k >= 0,
            step >= 1;
    assert(grid_fills(src, src_w, a, by0) == here + rest);
    if k == 0 {
        assert(k * step == 0) by (nonlinear_arith)
            requires
                k == 0;
        let m = choose|m: int| 0 <= m < here.len() && here[m] == f;
        assert((here + rest)[m] == f);
    } else {
        assert(by0 + k * step == (by0 + step) + (k - 1) * step) by (nonlinear_arith);
        assert((k - 1) * step >= 0) by (nonlinear_arith)
            requires
                k >= 1,
                step >= 1;
        lemma_grid_holds_row(src, src_w, a, by0 + step, k - 1, f, bx);
        let m = choose|m: int| 0 <= m < rest.len() && rest[m] == f;
        assert((here + rest)[here.len() + m] == f);
    }
}

} // verus!
