use hydroshot::export::{encode_png, saves_as_jpeg};
use hydroshot::upload::{imgur_request, parse_upload_reply, reply_outcome, upload_form, upload_step, UploadStep, IMGUR_UPLOAD_URL};

#[test]
fn upload_needs_a_client_id_then_confirmation() {
    assert_eq!(upload_step("", false, false), UploadStep::NeedClientId);
    assert_eq!(upload_step("", false, true), UploadStep::NeedClientId);
    assert_eq!(upload_step("", true, false), UploadStep::AskConfirm);
    assert_eq!(upload_step("abc", false, false), UploadStep::AskConfirm);
    assert_eq!(upload_step("abc", false, true), UploadStep::Upload);
}

#[test]
fn form_carries_image_and_client_id() {
    let req = upload_form("QUJD".to_string(), "cid");
    assert_eq!(req.authorization, "Client-ID cid");
    assert_eq!(req.fields, vec![("image", "QUJD".to_string()), ("type", "base64".to_string())]);
    assert_eq!(IMGUR_UPLOAD_URL, "https://api.imgur.com/3/image");
}

#[test]
fn request_encodes_png_bytes_in_base64() {
    let req = imgur_request(b"hello", "x");
    assert_eq!(req.fields[0].1, "aGVsbG8=");
    let req = imgur_request(&[0xff, 0x00], "x");
    assert_eq!(req.fields[0].1, "/wA=");
    let req = imgur_request(&[], "x");
    assert_eq!(req.fields[0].1, "");
}

#[test]
fn png_encoding() {
    let png = encode_png(&[255, 0, 0, 255], 1, 1).expect("encodes");
    assert_eq!(&png[..8], &[137, 80, 78, 71, 13, 10, 26, 10]);
    // bytes past the image are ignored
    assert_eq!(encode_png(&[255, 0, 0, 255, 9, 9], 1, 1).expect("encodes"), png);
    assert_eq!(encode_png(&[1, 2, 3], 1, 1), Err("invalid image data".to_string()));
    assert_eq!(encode_png(&[0; 8], 2, 2), Err("invalid image data".to_string()));
}

#[test]
fn jpeg_extensions_drop_alpha() {
    assert!(saves_as_jpeg("jpg"));
    assert!(saves_as_jpeg("JPEG"));
    assert!(!saves_as_jpeg("png"));
    assert!(!saves_as_jpeg("webp"));
    assert!(!saves_as_jpeg("jpgx"));
}

#[test]
fn base64_groups_and_padding() {
    assert_eq!(imgur_request(b"Man", "x").fields[0].1, "TWFu");
    assert_eq!(imgur_request(b"M", "x").fields[0].1, "TQ==");
    assert_eq!(imgur_request(b"Ma", "x").fields[0].1, "TWE=");
    assert_eq!(imgur_request(&[0xfb, 0xff], "x").fields[0].1, "+/8=");
}

#[test]
fn reply_link_is_read_from_data() {
    let body = r#"{"data":{"id":"abc","link":"https://i.imgur.com/abc.png"},"success":true,"status":200}"#;
    assert_eq!(parse_upload_reply(body), Ok("https://i.imgur.com/abc.png".to_string()));
}

#[test]
fn reply_without_link_is_an_error() {
    let err = Err("Failed to parse Imgur response".to_string());
    assert_eq!(parse_upload_reply("not json"), err);
    assert_eq!(parse_upload_reply(r#"{"data":{"error":"bad"},"success":false}"#), err);
    assert_eq!(parse_upload_reply(r#"{"data":{"link":42}}"#), err);
    assert_eq!(parse_upload_reply(""), err);
}

#[test]
fn reply_outcome_maps_the_link() {
    assert_eq!(reply_outcome(Some("l".to_string())), Ok("l".to_string()));
    assert_eq!(reply_outcome(None), Err("Failed to parse Imgur response".to_string()));
}
