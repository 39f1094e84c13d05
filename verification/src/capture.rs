//! Screen capture: the capturer handles, the error type, and the pixel
//! conversions applied to what the platform hands back.

use vstd::prelude::*;
use vstd::string::*;
use vstd::arithmetic::mul::{lemma_mul_inequality, lemma_mul_is_distributive_add_other_way};
use vstd::arithmetic::div_mod::lemma_fundamental_div_mod;
use crate::strings::{decimal, push_decimal};

verus! {

/// Errors that can occur during screen capture.
pub enum CaptureError {
    PermissionDenied,
    NoDisplay,
    PlatformError(String),
}

impl CaptureError {
    /// The message text of the error.
    pub fn message(&self) -> (m: String)
        ensures
            m@ == match self {
                CaptureError::PermissionDenied => "Permission denied"@,
                CaptureError::NoDisplay => "No display available"@,
                CaptureError::PlatformError(detail) => "Platform error: "@ + detail@,
            },
    {
        match self {
            CaptureError::PermissionDenied => String::from_str("Permission denied"),
            CaptureError::NoDisplay => String::from_str("No display available"),
            CaptureError::PlatformError(detail) => {
                let mut m = String::from_str("Platform error: ");
                m.append(detail.as_str());
                m
            },
        }
    }
}

/// Captures the whole virtual desktop through GDI (Windows).
pub struct WindowsCapturer;

impl WindowsCapturer {
    pub fn new() -> Self {
        WindowsCapturer
    }
}

/// Captures the root window of the default X11 screen (Linux).
pub struct X11Capturer;

impl X11Capturer {
    /// The X11 capturer; connecting happens at capture time, so this never fails.
    pub fn new() -> (r: Result<Self, CaptureError>)
        ensures
            r is Ok,
    {
        Ok(X11Capturer)
    }
}

/// Bits per pixel of the first X11 pixmap format `(depth, bits_per_pixel)`
/// with the given depth, among `formats[i..]`.
pub open spec fn bpp_for_depth(formats: Seq<(u8, u8)>, depth: u8, i: int) -> Option<u8>
    decreases formats.len() - i,
{
    if i < 0 || i >= formats.len() {
        None
    } else if formats[i].0 == depth {
        Some(formats[i].1)
    } else {
        bpp_for_depth(formats, depth, i + 1)
    }
}

/// Whether a captured X11 image of `depth` can be read: its pixmap format must
/// exist and use 32 bits per pixel. `Err` carries the platform error text.
pub open spec fn x11_format_check(formats: Seq<(u8, u8)>, depth: u8) -> Result<(), Seq<char>> {
    match bpp_for_depth(formats, depth, 0) {
        None => Err("No pixmap format for depth "@ + decimal(depth as nat)),
        Some(bpp) => if bpp != 32 {
            Err("Unsupported X11 pixel format: depth "@ + decimal(depth as nat) + " at "@
                + decimal(bpp as nat) + " bpp (expected 32 bpp)"@)
        } else {
            Ok(())
        },
    }
}

fn bpp_lookup(formats: &[(u8, u8)], depth: u8) -> (found: Option<u8>)
    ensures
        found == bpp_for_depth(formats@, depth, 0),
{
    let mut i: usize = 0;
    while i < formats.len()
        invariant
            i <= formats@.len(),
            bpp_for_depth(formats@, depth, 0) == bpp_for_depth(formats@, depth, i as int),
        decreases formats@.len() - i,
    {
        if formats[i].0 == depth {
            return Some(formats[i].1);
        }
        i += 1;
    }
    None
}

/// Check that an X11 image of `depth` uses a 32-bit pixmap format.
pub fn check_x11_format(formats: &[(u8, u8)], depth: u8) -> (r: Result<(), CaptureError>)
    ensures
        match (r, x11_format_check(formats@, depth)) {
            (Ok(()), Ok(())) => true,
            (Err(CaptureError::PlatformError(m)), Err(t)) => m@ == t,
            _ => false,
        },
{
    let found = bpp_lookup(formats, depth);
    match found {
        None => {
            let mut m = String::from_str("No pixmap format for depth ");
            push_decimal(&mut m, depth as u64);
            Err(CaptureError::PlatformError(m))
        },
        Some(bpp) => {
            if bpp != 32 {
                let mut m = String::from_str("Unsupported X11 pixel format: depth ");
                push_decimal(&mut m, depth as u64);
                m.append(" at ");
                push_decimal(&mut m, bpp as u64);
                m.append(" bpp (expected 32 bpp)");
                Err(CaptureError::PlatformError(m))
            } else {
                Ok(())
            }
        },
    }
}

/// Bytes per row of an X11 image buffer of `len` bytes holding `height` rows.
pub open spec fn x11_stride(len: nat, height: u16) -> int {
    if height == 0 { 0 } else { len as int / height as int }
}

/// Channel `c` (R, G, B, A) of pixel `(x, y)` converted from a 32 bpp X11
/// ZPixmap: BGRX when the server is LSB-first, XRGB otherwise; alpha is
/// forced opaque since the X byte is undefined padding.
pub open spec fn x11_pixel_byte(data: Seq<u8>, stride: int, lsb_first: bool, y: int, x: int, c: int) -> u8 {
    let s = y * stride + x * 4;
    if c == 3 {
        255
    } else if lsb_first {
        data[s + 2 - c]
    } else {
        data[s + 1 + c]
    }
}

/// Row `y` of the converted RGBA image.
pub open spec fn x11_row(data: Seq<u8>, width: u16, stride: int, lsb_first: bool, y: int) -> Seq<u8> {
    Seq::new((width * 4) as nat, |k: int| x11_pixel_byte(data, stride, lsb_first, y, k / 4, k % 4))
}

/// The first `n` rows of the converted RGBA image.
pub open spec fn x11_rows(data: Seq<u8>, width: u16, stride: int, lsb_first: bool, n: int) -> Seq<u8>
    decreases n,
{
    if n <= 0 {
        Seq::empty()
    } else {
        x11_rows(data, width, stride, lsb_first, n - 1) + x11_row(data, width, stride, lsb_first, n - 1)
    }
}

/// Convert the pixel data of an X11 GetImage reply (32 bpp, rows padded to
/// the server's scanline pad) to RGBA. A buffer whose rows are narrower than
/// the image is refused.
pub fn x11_image_to_rgba(data: &[u8], width: u16, height: u16, lsb_first: bool) -> (r: Result<Vec<u8>, CaptureError>)
    ensures
        x11_stride(data@.len(), height) < width * 4 ==> match r {
            Err(CaptureError::PlatformError(m)) => m@ == "GetImage returned an undersized buffer"@,
            _ => false,
        },
        x11_stride(data@.len(), height) >= width * 4 ==> match r {
            Ok(pixels) => pixels@ == x11_rows(data@, width, x11_stride(data@.len(), height), lsb_first, height as int),
            _ => false,
        },
{
    let w = width as usize;
    let h = height as usize;
    let stride: usize = if h == 0 { 0 } else { data.len() / h };
    if stride < w * 4 {
        return Err(CaptureError::PlatformError(String::from_str("GetImage returned an undersized buffer")));
    }
    proof {
        if h > 0 {
            lemma_fundamental_div_mod(data@.len() as int, h as int);
            assert(stride * h <= data@.len()) by (nonlinear_arith)
                requires stride == data@.len() as int / h as int, h > 0,
                    data@.len() as int == h * (data@.len() as int / h as int) + data@.len() as int % h as int,
                    data@.len() as int % h as int >= 0;
        }
    }
    let len = data.len();
    let mut out: Vec<u8> = Vec::new();
    let mut y: usize = 0;
    while y < h
        invariant
            y <= h,
            h == height,
            w == width,
            stride == x11_stride(data@.len(), height),
            stride >= w * 4,
            h > 0 ==> stride * h <= data@.len(),
            len == data@.len(),
            out@ == x11_rows(data@, width, stride as int, lsb_first, y as int),
        decreases h - y,
    {
        assert(y * stride + stride <= data@.len()) by (nonlinear_arith)
            requires y < h, stride * h <= data@.len(), stride >= 0;
        assert(y * stride <= data@.len()) by (nonlinear_arith)
            requires y * stride + stride <= data@.len(), stride >= 0;
        let row_start: usize = y * stride;
        let ghost before = out@;
        let mut x: usize = 0;
        while x < w
            invariant
                x <= w,
                y < h,
                w == width,
                stride >= w * 4,
                row_start == y * stride,
                row_start + stride <= data@.len(),
                len == data@.len(),
                out@ == before + x11_row(data@, width, stride as int, lsb_first, y as int).take(4 * x as int),
            decreases w - x,
        {
            assert(row_start + x * 4 + 3 < data@.len());
            let s = row_start + x * 4;
            let (r, g, b) = if lsb_first {
                (data[s + 2], data[s + 1], data[s])
            } else {
                (data[s + 1], data[s + 2], data[s + 3])
            };
            out.push(r);
            out.push(g);
            out.push(b);
            out.push(255);
            x += 1;
            assert(x11_row(data@, width, stride as int, lsb_first, y as int).take(4 * x as int)
                =~= x11_row(data@, width, stride as int, lsb_first, y as int).take(4 * (x - 1) as int)
                    + seq![r, g, b, 255u8]);
        }
        assert(x11_row(data@, width, stride as int, lsb_first, y as int).take(4 * w as int)
            =~= x11_row(data@, width, stride as int, lsb_first, y as int));
        y += 1;
    }
    Ok(out)
}

} // verus!
