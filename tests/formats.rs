use image_viewer::clipboard::{
    clipboard_text_path, dib_to_bmp, retry_clipboard_open, DibError, CLIPBOARD_OPEN_RETRIES,
};
use image_viewer::metadata::{format_icc_version, icc_info_from_header, u32_to_tag, IccHeader};
use image_viewer::text::{push_decimal, to_wide_string};

fn dib(header_size: u32, bit_count: u16, clr_used: u32, len: usize) -> Vec<u8> {
    let mut d = vec![0u8; len];
    d[0..4].copy_from_slice(&header_size.to_le_bytes());
    d[14..16].copy_from_slice(&bit_count.to_le_bytes());
    d[32..36].copy_from_slice(&clr_used.to_le_bytes());
    d
}

#[test]
fn dib_too_small() {
    assert_eq!(dib_to_bmp(&[0u8; 39]), Err(DibError::TooSmall));
    assert_eq!(dib_to_bmp(&[]), Err(DibError::TooSmall));
}

#[test]
fn dib_unsupported_header() {
    assert_eq!(dib_to_bmp(&dib(12, 24, 0, 40)), Err(DibError::UnsupportedHeader));
    assert_eq!(dib_to_bmp(&dib(124, 24, 0, 100)), Err(DibError::UnsupportedHeader));
}

#[test]
fn dib_true_colour_has_no_palette() {
    let d = dib(40, 24, 0, 52);
    let bmp = dib_to_bmp(&d).unwrap();
    assert_eq!(&bmp[0..2], b"BM");
    assert_eq!(u32::from_le_bytes(bmp[2..6].try_into().unwrap()), 66);
    assert_eq!(u32::from_le_bytes(bmp[6..10].try_into().unwrap()), 0);
    assert_eq!(u32::from_le_bytes(bmp[10..14].try_into().unwrap()), 54);
    assert_eq!(&bmp[14..], &d[..]);
}

#[test]
fn dib_palette_sizes() {
    let bmp = dib_to_bmp(&dib(40, 8, 0, 40)).unwrap();
    assert_eq!(u32::from_le_bytes(bmp[10..14].try_into().unwrap()), 14 + 40 + 256 * 4);
    let bmp = dib_to_bmp(&dib(40, 1, 0, 40)).unwrap();
    assert_eq!(u32::from_le_bytes(bmp[10..14].try_into().unwrap()), 14 + 40 + 2 * 4);
    let bmp = dib_to_bmp(&dib(40, 8, 16, 40)).unwrap();
    assert_eq!(u32::from_le_bytes(bmp[10..14].try_into().unwrap()), 14 + 40 + 16 * 4);
    let bmp = dib_to_bmp(&dib(108, 32, 0, 120)).unwrap();
    assert_eq!(u32::from_le_bytes(bmp[10..14].try_into().unwrap()), 14 + 108);
    assert_eq!(bmp.len(), 134);
}

#[test]
fn icc_tags_and_versions() {
    assert_eq!(u32_to_tag(0x6d6e7472), "mntr");
    assert_eq!(u32_to_tag(0x52474220), "RGB ");
    assert_eq!(u32_to_tag(0x00417f42), "?A?B");
    assert_eq!(format_icc_version(0x02100000), "2.1.0");
    assert_eq!(format_icc_version(0x04300000), "4.3.0");
    assert_eq!(format_icc_version(0xff_f5_0000), "255.15.5");
    assert_eq!(format_icc_version(0), "0.0.0");
}

#[test]
fn icc_header_summary() {
    let h = IccHeader {
        length: 3144,
        cmmid: 0x4c696e6f,
        version: 0x02100000,
        device_class: 0x6d6e7472,
        color_space: 0x52474220,
        pcs: 0x58595a20,
        create_date: "1998/ 2/ 9 06:49:00".to_string(),
        platform: 0x4d534654,
        flags: 0,
        manufacturer: 0x49454320,
        model: 0x73524742,
        rendering_intent: 0,
    };
    let info = icc_info_from_header(&h);
    assert_eq!(info.size, 3144);
    assert_eq!(info.cmm_type, "Lino");
    assert_eq!(info.version, "2.1.0");
    assert_eq!(info.profile_class, "mntr");
    assert_eq!(info.color_space, "RGB ");
    assert_eq!(info.pcs, "XYZ ");
    assert_eq!(info.created.as_deref(), Some("1998/ 2/ 9 06:49:00"));
    assert_eq!(info.platform, "MSFT");
    assert_eq!(info.manufacturer, "IEC ");
    assert_eq!(info.model, "sRGB");
}

#[test]
fn decimal_text() {
    let mut s = String::from("v");
    push_decimal(&mut s, 4294967295);
    assert_eq!(s, "v4294967295");
}

#[test]
fn wide_strings_end_with_zero() {
    assert_eq!(to_wide_string("ab"), vec![0x61, 0x62, 0]);
    assert_eq!(to_wide_string(""), vec![0]);
    assert_eq!(to_wide_string("\u{e9}\u{1f600}"), vec![0xe9, 0xd83d, 0xde00, 0]);
}

#[test]
fn clipboard_text_names_a_path() {
    assert_eq!(clipboard_text_path("  \"C:\\img\\a.png\"  \r\nsecond"), Some("C:\\img\\a.png".to_string()));
    assert_eq!(clipboard_text_path("/tmp/b.jpg"), Some("/tmp/b.jpg".to_string()));
    assert_eq!(clipboard_text_path("\n\n  x.png \n"), Some("x.png".to_string()));
    assert_eq!(clipboard_text_path("   \n\t "), None);
    assert_eq!(clipboard_text_path("\"\""), None);
    assert_eq!(clipboard_text_path(""), None);
}

#[test]
fn clipboard_open_retries_are_bounded() {
    let mut left = CLIPBOARD_OPEN_RETRIES;
    let mut attempts = 1;
    while let Some(next) = retry_clipboard_open(left) {
        left = next;
        attempts += 1;
    }
    assert_eq!(attempts, 51);
    assert_eq!(retry_clipboard_open(0), None);
}
