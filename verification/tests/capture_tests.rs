use hydroshot::capture::{check_x11_format, x11_image_to_rgba, CaptureError, WindowsCapturer, X11Capturer};

#[test]
fn error_messages() {
    assert_eq!(CaptureError::PermissionDenied.message(), "Permission denied");
    assert_eq!(CaptureError::NoDisplay.message(), "No display available");
    assert_eq!(
        CaptureError::PlatformError("boom".to_string()).message(),
        "Platform error: boom"
    );
}

#[test]
fn capturers_construct() {
    let _w = WindowsCapturer::new();
    assert!(X11Capturer::new().is_ok());
}

#[test]
fn x11_format_needs_32_bpp() {
    assert!(check_x11_format(&[(1, 1), (24, 32)], 24).is_ok());
    match check_x11_format(&[(24, 24)], 24) {
        Err(CaptureError::PlatformError(m)) => {
            assert_eq!(m, "Unsupported X11 pixel format: depth 24 at 24 bpp (expected 32 bpp)")
        }
        _ => panic!("expected a platform error"),
    }
    match check_x11_format(&[(1, 1)], 32) {
        Err(CaptureError::PlatformError(m)) => assert_eq!(m, "No pixmap format for depth 32"),
        _ => panic!("expected a platform error"),
    }
}

#[test]
fn x11_lsb_first_bgrx_becomes_rgba() {
    // 2x1 image, BGRX
    let data = vec![1, 2, 3, 0, 4, 5, 6, 0];
    let out = x11_image_to_rgba(&data, 2, 1, true).ok().expect("converts");
    assert_eq!(out, vec![3, 2, 1, 255, 6, 5, 4, 255]);
}

#[test]
fn x11_msb_first_xrgb_becomes_rgba() {
    let data = vec![0, 1, 2, 3];
    let out = x11_image_to_rgba(&data, 1, 1, false).ok().expect("converts");
    assert_eq!(out, vec![1, 2, 3, 255]);
}

#[test]
fn x11_padded_rows_are_skipped_over() {
    // 1x2 image with rows padded to 8 bytes
    let data = vec![1, 2, 3, 0, 9, 9, 9, 9, 4, 5, 6, 0, 9, 9, 9, 9];
    let out = x11_image_to_rgba(&data, 1, 2, true).ok().expect("converts");
    assert_eq!(out, vec![3, 2, 1, 255, 6, 5, 4, 255]);
}

#[test]
fn x11_undersized_buffer_is_refused() {
    match x11_image_to_rgba(&[1, 2, 3], 1, 1, true) {
        Err(CaptureError::PlatformError(m)) => assert_eq!(m, "GetImage returned an undersized buffer"),
        _ => panic!("expected a platform error"),
    }
}
