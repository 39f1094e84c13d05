//! Platform services that this build does not provide natively: the OS
//! color dialog and OCR answer that they are unavailable, and the login
//! auto-start entry is a desktop file whose text is built here.

use vstd::prelude::*;

verus! {

/// The native color dialog; there is none on this platform, so no color is
/// ever picked.
pub fn pick_color(initial: (u8, u8, u8)) -> (picked: Option<(u8, u8, u8)>)
    ensures
        picked is None,
{
    None
}

/// The answer of [`extract_text`] on this platform.
pub open spec fn ocr_unavailable() -> Seq<char> {
    "OCR is only available on Windows 10+"@
}

/// Recognize the text in an RGBA image; OCR is not available on this
/// platform, so this always fails with the same message.
pub fn extract_text(pixels: &[u8], width: u32, height: u32) -> (text: Result<String, String>)
    ensures
        text is Err,
        text.unwrap_err()@ == ocr_unavailable(),
{
    Err(String::from_str("OCR is only available on Windows 10+"))
}

/// The auto-start desktop entry that launches the executable `exe`.
pub open spec fn desktop_entry_text(exe: Seq<char>) -> Seq<char> {
    "[Desktop Entry]\nType=Application\nName=HydroShot\nExec="@ + exe + "\nX-GNOME-Autostart-enabled=true\n"@
}

/// The contents of the auto-start desktop file for the executable `exe`.
pub fn desktop_entry(exe: &str) -> (entry: String)
    ensures
        entry@ == desktop_entry_text(exe@),
{
    let mut entry = String::from_str("[Desktop Entry]\nType=Application\nName=HydroShot\nExec=");
    entry.append(exe);
    entry.append("\nX-GNOME-Autostart-enabled=true\n");
    entry
}

} // verus!
