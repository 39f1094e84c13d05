//! Imgur upload: when a click on the Upload button may upload, and the
//! request that carries a capture (its PNG bytes in base64).

use vstd::prelude::*;
use base64::Engine;

verus! {

/// Imgur's anonymous image upload endpoint.
pub const IMGUR_UPLOAD_URL: &'static str = "https://api.imgur.com/3/image";

/// The character of the standard base64 alphabet for a 6-bit value:
/// `A`-`Z`, `a`-`z`, `0`-`9`, `+`, `/`.
pub open spec fn base64_digit(v: int) -> char {
    if v < 26 {
        (65 + v) as char
    } else if v < 52 {
        (97 + v - 26) as char
    } else if v < 62 {
        (48 + v - 52) as char
    } else if v == 62 {
        '+'
    } else {
        '/'
    }
}

/// Standard base64 (RFC 4648 alphabet, `=` padding) of `data`: each group of
/// three bytes gives four characters of six bits each, and a last group of
/// one or two bytes is padded with `=` to four characters.
pub open spec fn base64_standard(data: Seq<u8>) -> Seq<char>
    decreases data.len(),
{
    if data.len() == 0 {
        Seq::empty()
    } else if data.len() == 1 {
        let a = data[0] as int;
        seq![base64_digit(a / 4), base64_digit((a % 4) * 16), '=', '=']
    } else if data.len() == 2 {
        let a = data[0] as int;
        let b = data[1] as int;
        seq![base64_digit(a / 4), base64_digit((a % 4) * 16 + b / 16), base64_digit((b % 16) * 4), '=']
    } else {
        let a = data[0] as int;
        let b = data[1] as int;
        let c = data[2] as int;
        seq![
            base64_digit(a / 4),
            base64_digit((a % 4) * 16 + b / 16),
            base64_digit((b % 16) * 4 + c / 64),
            base64_digit(c % 64),
        ] + base64_standard(data.skip(3))
    }
}

/// Base64 text has four characters for every started group of three bytes.
pub proof fn lemma_base64_len(data: Seq<u8>)
    ensures
        base64_standard(data).len() == 4 * ((data.len() + 2) / 3),
    decreases data.len(),
{
    if data.len() >= 3 {
        lemma_base64_len(data.skip(3));
    }
}

/// base64's `STANDARD.encode`: the standard base64 text of `data`. The crate
/// sizes its output with `encoded_len` and panics when that size overflows
/// `usize`, which the bound on the input rules out.
#[verifier::external_body]
fn base64_encode(data: &[u8]) -> (text: String)
    requires
        data@.len() <= usize::MAX / 2,
    ensures
        text@ == base64_standard(data@),
{
    base64::engine::general_purpose::STANDARD.encode(data)
}

/// What serde_json reads as the string at `data.link` of the JSON text
/// `body`, or `None` where the text is no JSON or holds no such string.
pub uninterp spec fn imgur_link(body: Seq<char>) -> Option<Seq<char>>;

/// serde_json's `from_str` into a `Value`, then the string at
/// `["data"]["link"]` (indexing a missing key gives `Null`, which is no
/// string). Its result is named by `imgur_link`.
#[verifier::external_body]
fn extract_link(json: &str) -> (link: Option<String>)
    ensures
        match link {
            Some(l) => imgur_link(json@) == Some(l@),
            None => imgur_link(json@) is None,
        },
{
    let v: serde_json::Value = serde_json::from_str(json).ok()?;
    v["data"]["link"].as_str().map(|s| s.to_string())
}

/// What an Imgur reply gives: the link it carries, or the error shown when
/// there is none.
pub open spec fn reply_outcome_of(link: Option<Seq<char>>) -> Result<Seq<char>, Seq<char>> {
    match link {
        Some(l) => Ok(l),
        None => Err("Failed to parse Imgur response"@),
    }
}

/// The result of an upload, given the link read from the reply (if any).
pub fn reply_outcome(link: Option<String>) -> (r: Result<String, String>)
    ensures
        match link {
            Some(l) => r matches Ok(x) && x@ == l@,
            None => r matches Err(e) && e@ == "Failed to parse Imgur response"@,
        },
{
    match link {
        Some(l) => Ok(l),
        None => Err(String::from_str("Failed to parse Imgur response")),
    }
}

/// Read the uploaded image's link out of Imgur's JSON reply.
pub fn parse_upload_reply(body: &str) -> (r: Result<String, String>)
    ensures
        match r {
            Ok(l) => reply_outcome_of(imgur_link(body@)) == Ok::<Seq<char>, Seq<char>>(l@),
            Err(e) => reply_outcome_of(imgur_link(body@)) == Err::<Seq<char>, Seq<char>>(e@),
        },
{
    let link = extract_link(body);
    reply_outcome(link)
}

/// What a click on the Upload button does.
#[derive(Debug, Clone, Copy, PartialEq, Eq, Structural)]
pub enum UploadStep {
    /// No Imgur client id is configured: tell the user how to set one.
    NeedClientId,
    /// First click: ask for confirmation (the upload is public).
    AskConfirm,
    /// Confirmed second click: upload.
    Upload,
}

/// The step for a click, given the configured client id, whether the
/// client id environment variable is set to something, and whether the
/// previous click asked for confirmation.
pub open spec fn upload_step_of(config_client_id: Seq<char>, env_client_id_set: bool, confirmed: bool) -> UploadStep {
    if config_client_id.len() == 0 && !env_client_id_set {
        UploadStep::NeedClientId
    } else if !confirmed {
        UploadStep::AskConfirm
    } else {
        UploadStep::Upload
    }
}

/// A click uploads exactly when a client id is available, from the
/// configuration or from the environment, and the click confirms; with an
/// id but no confirmation it asks first; without any id it asks for one.
pub proof fn lemma_upload_needs_only_an_id_and_confirmation(config_client_id: Seq<char>, env_client_id_set: bool, confirmed: bool)
    ensures
        (config_client_id.len() > 0 || env_client_id_set) && confirmed
            ==> upload_step_of(config_client_id, env_client_id_set, confirmed) == UploadStep::Upload,
        (config_client_id.len() > 0 || env_client_id_set) && !confirmed
            ==> upload_step_of(config_client_id, env_client_id_set, confirmed) == UploadStep::AskConfirm,
        config_client_id.len() == 0 && !env_client_id_set
            ==> upload_step_of(config_client_id, env_client_id_set, confirmed) == UploadStep::NeedClientId,
{
}

/// Decide what a click on the Upload button does.
pub fn upload_step(config_client_id: &str, env_client_id_set: bool, confirmed: bool) -> (step: UploadStep)
    ensures
        step == upload_step_of(config_client_id@, env_client_id_set, confirmed),
        (config_client_id@.len() > 0 || env_client_id_set) && confirmed ==> step == UploadStep::Upload,
        (config_client_id@.len() > 0 || env_client_id_set) && !confirmed ==> step == UploadStep::AskConfirm,
        config_client_id@.len() == 0 && !env_client_id_set ==> step == UploadStep::NeedClientId,
{
    if config_client_id.unicode_len() == 0 && !env_client_id_set {
        UploadStep::NeedClientId
    } else if !confirmed {
        UploadStep::AskConfirm
    } else {
        UploadStep::Upload
    }
}

/// An Imgur upload request: its `Authorization` header and its form fields.
pub struct UploadRequest {
    pub authorization: String,
    pub fields: Vec<(&'static str, String)>,
}

/// The request fields carrying base64 image text `encoded`, for client `client_id`.
pub open spec fn request_matches(req: UploadRequest, encoded: Seq<char>, client_id: Seq<char>) -> bool {
    &&& req.authorization@ == "Client-ID "@ + client_id
    &&& req.fields@.len() == 2
    &&& req.fields@[0].0@ == "image"@
    &&& req.fields@[0].1@ == encoded
    &&& req.fields@[1].0@ == "type"@
    &&& req.fields@[1].1@ == "base64"@
}

/// The upload request for image text `encoded` (already base64).
pub fn upload_form(encoded: String, client_id: &str) -> (req: UploadRequest)
    ensures
        request_matches(req, encoded@, client_id@),
{
    let mut authorization = String::from_str("Client-ID ");
    authorization.append(client_id);
    let mut fields: Vec<(&'static str, String)> = Vec::new();
    fields.push(("image", encoded));
    fields.push(("type", String::from_str("base64")));
    UploadRequest { authorization, fields }
}

/// The upload request for the PNG bytes `png_data`.
pub fn imgur_request(png_data: &[u8], client_id: &str) -> (req: UploadRequest)
    requires
        png_data@.len() <= usize::MAX / 2,
    ensures
        request_matches(req, base64_standard(png_data@), client_id@),
{
    let encoded = base64_encode(png_data);
    upload_form(encoded, client_id)
}

} // verus!
