//! Plain records of image metadata, and the text forms of ICC header fields.
use vstd::prelude::*;

use crate::text::{decimal, push_char, push_decimal};

verus! {

/// The byte of `v` at big-endian position `i` (0 is the most significant).
pub open spec fn be_byte(v: u32, i: int) -> u8 {
    ((v as int / pow256(3 - i)) % 256) as u8
}

/// 256 to the power `k`, for `k` from 0 to 3.
pub open spec fn pow256(k: int) -> int {
    if k <= 0 {
        1
    } else if k == 1 {
        256
    } else if k == 2 {
        65536
    } else {
        16777216
    }
}

/// A printable ASCII byte stands for itself; any other byte shows as `?`.
pub open spec fn tag_char(b: u8) -> char {
    if 0x20 <= b && b <= 0x7e {
        b as char
    } else {
        '?'
    }
}

/// The four-character text of an ICC signature, most significant byte first.
pub open spec fn tag_text(v: u32) -> Seq<char> {
    seq![tag_char(be_byte(v, 0)), tag_char(be_byte(v, 1)), tag_char(be_byte(v, 2)), tag_char(be_byte(v, 3))]
}

/// `major.minor.bugfix` of an ICC version field.
pub open spec fn icc_version_text(v: u32) -> Seq<char> {
    decimal(be_byte(v, 0) as nat) + seq!['.'] + decimal((be_byte(v, 1) / 16) as nat) + seq!['.']
        + decimal((be_byte(v, 1) % 16) as nat)
}

fn tag_char_of(b: u8) -> (c: char)
    ensures
        c == tag_char(b),
{
    if 0x20 <= b && b <= 0x7e {
        b as char
    } else {
        '?'
    }
}

/// Text form of a four-byte ICC signature such as `mntr` or `RGB `.
pub fn u32_to_tag(tag: u32) -> (s: String)
    ensures
        s@ == tag_text(tag),
{
    let mut s = String::new();
    push_char(&mut s, tag_char_of((tag / 16777216) as u8));
    push_char(&mut s, tag_char_of(((tag / 65536) % 256) as u8));
    push_char(&mut s, tag_char_of(((tag / 256) % 256) as u8));
    push_char(&mut s, tag_char_of((tag % 256) as u8));
    assert(s@ =~= tag_text(tag));
    s
}

/// Text form `major.minor.bugfix` of an ICC profile version field.
pub fn format_icc_version(version_raw: u32) -> (s: String)
    ensures
        s@ == icc_version_text(version_raw),
{
    let major = version_raw / 16777216;
    let minor = (version_raw / 1048576) % 16;
    let bugfix = (version_raw / 65536) % 16;
    assert(major as int == be_byte(version_raw, 0));
    assert(minor as int == be_byte(version_raw, 1) / 16) by {
        assert(version_raw as int / 1048576 == (version_raw as int / 65536) / 16) by (nonlinear_arith);
    }
    let mut s = String::new();
    push_decimal(&mut s, major);
    push_char(&mut s, '.');
    push_decimal(&mut s, minor);
    push_char(&mut s, '.');
    push_decimal(&mut s, bugfix);
    assert(s@ =~= icc_version_text(version_raw));
    s
}

/// Camera and capture details read from an image's EXIF block.
#[derive(Debug, Clone)]
pub struct ExifInfo {
    pub make: Option<String>,
    pub model: Option<String>,
    pub software: Option<String>,
    pub datetime: Option<String>,
    pub datetime_original: Option<String>,
    pub lens_model: Option<String>,
    pub orientation: Option<u16>,
    pub gps_iso6709: Option<String>,
}

/// The header fields of a decoded ICC profile, as the decoder gives them.
#[derive(Debug, Clone)]
pub struct IccHeader {
    pub length: u32,
    pub cmmid: u32,
    pub version: u32,
    pub device_class: u32,
    pub color_space: u32,
    pub pcs: u32,
    pub create_date: String,
    pub platform: u32,
    pub flags: u32,
    pub manufacturer: u32,
    pub model: u32,
    pub rendering_intent: u32,
}

/// An ICC profile summarised for display: signatures as text.
#[derive(Debug, Clone)]
pub struct IccInfo {
    pub size: u32,
    pub cmm_type: String,
    pub version: String,
    pub profile_class: String,
    pub color_space: String,
    pub pcs: String,
    pub created: Option<String>,
    pub platform: String,
    pub flags: u32,
    pub manufacturer: String,
    pub model: String,
    pub rendering_intent: u32,
}

/// The summary of a profile with header `h`.
pub fn icc_info_from_header(h: &IccHeader) -> (r: IccInfo)
    ensures
        r.size == h.length,
        r.cmm_type@ == tag_text(h.cmmid),
        r.version@ == icc_version_text(h.version),
        r.profile_class@ == tag_text(h.device_class),
        r.color_space@ == tag_text(h.color_space),
        r.pcs@ == tag_text(h.pcs),
        r.created is Some && r.created->Some_0@ == h.create_date@,
        r.platform@ == tag_text(h.platform),
        r.flags == h.flags,
        r.manufacturer@ == tag_text(h.manufacturer),
        r.model@ == tag_text(h.model),
        r.rendering_intent == h.rendering_intent,
{
    IccInfo {
        size: h.length,
        cmm_type: u32_to_tag(h.cmmid),
        version: format_icc_version(h.version),
        profile_class: u32_to_tag(h.device_class),
        color_space: u32_to_tag(h.color_space),
        pcs: u32_to_tag(h.pcs),
        created: Some(h.create_date.clone()),
        platform: u32_to_tag(h.platform),
        flags: h.flags,
        manufacturer: u32_to_tag(h.manufacturer),
        model: u32_to_tag(h.model),
        rendering_intent: h.rendering_intent,
    }
}

} // verus!
