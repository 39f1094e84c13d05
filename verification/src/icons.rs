//! The toolbar's icons as SVG documents (Lucide icons, drawn with strokes
//! in a 24x24 view box).

use vstd::prelude::*;
use crate::strings::str_eq;

verus! {

/// Opening tag of an icon document; strokes use `currentColor`, which the
/// renderer replaces by the wanted color.
pub open spec fn svg_open() -> Seq<char> {
    r#"<svg xmlns="http://www.w3.org/2000/svg" width="24" height="24" viewBox="0 0 24 24" fill="none" stroke="currentColor" stroke-width="2" stroke-linecap="round" stroke-linejoin="round">"#@
}

/// An icon document around the drawing `inner`.
pub open spec fn wrapped_svg(inner: Seq<char>) -> Seq<char> {
    svg_open() + inner + "</svg>"@
}

/// Wrap SVG drawing elements in a complete icon document.
pub fn wrap_svg(inner: &str) -> (svg: String)
    ensures
        svg@ == wrapped_svg(inner@),
{
    let mut svg = String::from_str(r#"<svg xmlns="http://www.w3.org/2000/svg" width="24" height="24" viewBox="0 0 24 24" fill="none" stroke="currentColor" stroke-width="2" stroke-linecap="round" stroke-linejoin="round">"#);
    svg.append(inner);
    svg.append("</svg>");
    svg
}

/// The drawing elements of the icon called `name`, if there is one.
pub open spec fn icon_inner(name: Seq<char>) -> Option<Seq<char>> {
    if name == r#"select"#@ { Some(r#"<path d="M18 11V6a2 2 0 0 0-2-2a2 2 0 0 0-2 2"/><path d="M14 10V4a2 2 0 0 0-2-2a2 2 0 0 0-2 2v2"/><path d="M10 10.5V6a2 2 0 0 0-2-2a2 2 0 0 0-2 2v8"/><path d="M18 8a2 2 0 1 1 4 0v6a8 8 0 0 1-8 8H12a8 8 0 0 1-8-8V8a2 2 0 1 1 4 0"/>"#@) } else 
    if name == r#"arrow"#@ { Some(r#"<path d="M5 12h14"/><path d="m12 5 7 7-7 7"/>"#@) } else 
    if name == r#"rectangle"#@ { Some(r#"<rect width="18" height="18" x="3" y="3" rx="2"/>"#@) } else 
    if name == r#"circle"#@ { Some(r#"<circle cx="12" cy="12" r="10"/>"#@) } else 
    if name == r#"line"#@ { Some(r#"<path d="M4 20 L20 4"/>"#@) } else 
    if name == r#"pencil"#@ { Some(r#"<path d="M21.174 6.812a1 1 0 0 0-3.986-3.987L3.842 16.174a2 2 0 0 0-.5.83l-1.321 4.352a.5.5 0 0 0 .623.622l4.353-1.32a2 2 0 0 0 .83-.497z"/><path d="m15 5 4 4"/>"#@) } else 
    if name == r#"highlight"#@ { Some(r#"<path d="m9 11-6 6v3h9l3-3"/><path d="m22 12-4.6 4.6a2 2 0 0 1-2.8 0l-5.2-5.2a2 2 0 0 1 0-2.8L14 4"/>"#@) } else 
    if name == r#"text"#@ { Some(r#"<polyline points="4 7 4 4 20 4 20 7"/><line x1="9" x2="15" y1="20" y2="20"/><line x1="12" x2="12" y1="4" y2="20"/>"#@) } else 
    if name == r#"pixelate"#@ { Some(r#"<rect width="7" height="7" x="2" y="2" rx="1"/><rect width="7" height="7" x="15" y="2" rx="1"/><rect width="7" height="7" x="2" y="15" rx="1"/><rect width="7" height="7" x="15" y="15" rx="1"/>"#@) } else 
    if name == r#"step-marker"#@ { Some(r#"<line x1="4" x2="20" y1="9" y2="9"/><line x1="4" x2="20" y1="15" y2="15"/><line x1="10" x2="8" y1="3" y2="21"/><line x1="16" x2="14" y1="3" y2="21"/>"#@) } else 
    if name == r#"eyedropper"#@ { Some(r#"<path d="m2 22 1-1h3l9-9"/><path d="M3 21v-3l9-9"/><path d="m15 6 3.4-3.4a2.1 2.1 0 1 1 3 3L18 9l.4.4a2.1 2.1 0 1 1-3 3l-3.8-3.8a2.1 2.1 0 1 1 3-3l.4.4Z"/>"#@) } else 
    if name == r#"pin"#@ { Some(r#"<path d="M12 17v5"/><path d="M9 10.76a2 2 0 0 1-1.11 1.79l-1.78.9A2 2 0 0 0 5 15.24V16a1 1 0 0 0 1 1h12a1 1 0 0 0 1-1v-.76a2 2 0 0 0-1.11-1.79l-1.78-.9A2 2 0 0 1 15 10.76V7a1 1 0 0 1 1-1 2 2 0 0 0 0-4H8a2 2 0 0 0 0 4 1 1 0 0 1 1 1z"/>"#@) } else 
    if name == r#"copy"#@ { Some(r#"<rect width="14" height="14" x="8" y="8" rx="2" ry="2"/><path d="M4 16c-1.1 0-2-.9-2-2V4c0-1.1.9-2 2-2h10c1.1 0 2 .9 2 2"/>"#@) } else 
    if name == r#"upload"#@ { Some(r#"<path d="M21 15v4a2 2 0 0 1-2 2H5a2 2 0 0 1-2-2v-4"/><polyline points="17 8 12 3 7 8"/><line x1="12" x2="12" y1="3" y2="15"/>"#@) } else 
    if name == r#"save"#@ { Some(r#"<path d="M21 15v4a2 2 0 0 1-2 2H5a2 2 0 0 1-2-2v-4"/><polyline points="7 10 12 15 17 10"/><line x1="12" x2="12" y1="15" y2="3"/>"#@) } else 
    if name == r#"rounded-rect"#@ { Some(r#"<rect x="3" y="3" width="18" height="18" rx="5"/>"#@) } else 
    if name == r#"ocr"#@ { Some(r#"<path d="M4 7V4h3"/><path d="M17 4h3v3"/><path d="M4 17v3h3"/><path d="M17 20h3v-3"/><path d="M7 8h10"/><path d="M7 12h10"/><path d="M7 16h10"/>"#@) } else { None }
}

fn inner_svg(name: &str) -> (inner: Option<&'static str>)
    ensures
        inner is Some == icon_inner(name@) is Some,
        inner is Some ==> inner.unwrap()@ == icon_inner(name@).unwrap(),
{
    if str_eq(name, r#"select"#) {
        Some(r#"<path d="M18 11V6a2 2 0 0 0-2-2a2 2 0 0 0-2 2"/><path d="M14 10V4a2 2 0 0 0-2-2a2 2 0 0 0-2 2v2"/><path d="M10 10.5V6a2 2 0 0 0-2-2a2 2 0 0 0-2 2v8"/><path d="M18 8a2 2 0 1 1 4 0v6a8 8 0 0 1-8 8H12a8 8 0 0 1-8-8V8a2 2 0 1 1 4 0"/>"#)
    } else 
    if str_eq(name, r#"arrow"#) {
        Some(r#"<path d="M5 12h14"/><path d="m12 5 7 7-7 7"/>"#)
    } else 
    if str_eq(name, r#"rectangle"#) {
        Some(r#"<rect width="18" height="18" x="3" y="3" rx="2"/>"#)
    } else 
    if str_eq(name, r#"circle"#) {
        Some(r#"<circle cx="12" cy="12" r="10"/>"#)
    } else 
    if str_eq(name, r#"line"#) {
        Some(r#"<path d="M4 20 L20 4"/>"#)
    } else 
    if str_eq(name, r#"pencil"#) {
        Some(r#"<path d="M21.174 6.812a1 1 0 0 0-3.986-3.987L3.842 16.174a2 2 0 0 0-.5.83l-1.321 4.352a.5.5 0 0 0 .623.622l4.353-1.32a2 2 0 0 0 .83-.497z"/><path d="m15 5 4 4"/>"#)
    } else 
    if str_eq(name, r#"highlight"#) {
        Some(r#"<path d="m9 11-6 6v3h9l3-3"/><path d="m22 12-4.6 4.6a2 2 0 0 1-2.8 0l-5.2-5.2a2 2 0 0 1 0-2.8L14 4"/>"#)
    } else 
    if str_eq(name, r#"text"#) {
        Some(r#"<polyline points="4 7 4 4 20 4 20 7"/><line x1="9" x2="15" y1="20" y2="20"/><line x1="12" x2="12" y1="4" y2="20"/>"#)
    } else 
    if str_eq(name, r#"pixelate"#) {
        Some(r#"<rect width="7" height="7" x="2" y="2" rx="1"/><rect width="7" height="7" x="15" y="2" rx="1"/><rect width="7" height="7" x="2" y="15" rx="1"/><rect width="7" height="7" x="15" y="15" rx="1"/>"#)
    } else 
    if str_eq(name, r#"step-marker"#) {
        Some(r#"<line x1="4" x2="20" y1="9" y2="9"/><line x1="4" x2="20" y1="15" y2="15"/><line x1="10" x2="8" y1="3" y2="21"/><line x1="16" x2="14" y1="3" y2="21"/>"#)
    } else 
    if str_eq(name, r#"eyedropper"#) {
        Some(r#"<path d="m2 22 1-1h3l9-9"/><path d="M3 21v-3l9-9"/><path d="m15 6 3.4-3.4a2.1 2.1 0 1 1 3 3L18 9l.4.4a2.1 2.1 0 1 1-3 3l-3.8-3.8a2.1 2.1 0 1 1 3-3l.4.4Z"/>"#)
    } else 
    if str_eq(name, r#"pin"#) {
        Some(r#"<path d="M12 17v5"/><path d="M9 10.76a2 2 0 0 1-1.11 1.79l-1.78.9A2 2 0 0 0 5 15.24V16a1 1 0 0 0 1 1h12a1 1 0 0 0 1-1v-.76a2 2 0 0 0-1.11-1.79l-1.78-.9A2 2 0 0 1 15 10.76V7a1 1 0 0 1 1-1 2 2 0 0 0 0-4H8a2 2 0 0 0 0 4 1 1 0 0 1 1 1z"/>"#)
    } else 
    if str_eq(name, r#"copy"#) {
        Some(r#"<rect width="14" height="14" x="8" y="8" rx="2" ry="2"/><path d="M4 16c-1.1 0-2-.9-2-2V4c0-1.1.9-2 2-2h10c1.1 0 2 .9 2 2"/>"#)
    } else 
    if str_eq(name, r#"upload"#) {
        Some(r#"<path d="M21 15v4a2 2 0 0 1-2 2H5a2 2 0 0 1-2-2v-4"/><polyline points="17 8 12 3 7 8"/><line x1="12" x2="12" y1="3" y2="15"/>"#)
    } else 
    if str_eq(name, r#"save"#) {
        Some(r#"<path d="M21 15v4a2 2 0 0 1-2 2H5a2 2 0 0 1-2-2v-4"/><polyline points="7 10 12 15 17 10"/><line x1="12" x2="12" y1="15" y2="3"/>"#)
    } else 
    if str_eq(name, r#"rounded-rect"#) {
        Some(r#"<rect x="3" y="3" width="18" height="18" rx="5"/>"#)
    } else 
    if str_eq(name, r#"ocr"#) {
        Some(r#"<path d="M4 7V4h3"/><path d="M17 4h3v3"/><path d="M4 17v3h3"/><path d="M17 20h3v-3"/><path d="M7 8h10"/><path d="M7 12h10"/><path d="M7 16h10"/>"#)
    } else {
        None
    }
}

/// The SVG document of the icon called `name` (`None` for an unknown name).
pub fn get_svg(name: &str) -> (svg: Option<String>)
    ensures
        svg is Some == icon_inner(name@) is Some,
        svg is Some ==> svg.unwrap()@ == wrapped_svg(icon_inner(name@).unwrap()),
{
    match inner_svg(name) {
        Some(inner) => Some(wrap_svg(inner)),
        None => None,
    }
}

} // verus!
