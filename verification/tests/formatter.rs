use clipboard_formats::decode::hex_block;
use clipboard_formats::formatter::{
    content_kind_label, format_block_content, format_hex, image_data_url, sidebar_label,
};
use clipboard_formats::parser::{ContentKind, FormatBlock};

fn block(name: &str, content: ContentKind) -> FormatBlock {
    FormatBlock {
        format_id: 49300,
        format_name: name.to_string(),
        is_preview: false,
        content,
        raw_bytes: Vec::new(),
    }
}

#[test]
fn format_hex_of_empty_data_is_only_the_size_line() {
    assert_eq!(format_hex(&[]), "size: 0 bytes\n");
}

#[test]
fn format_hex_pads_a_short_row() {
    let expected = format!("size: 3 bytes\n00000000  48 69 00 {} Hi.\n", " ".repeat(39));
    assert_eq!(format_hex(b"Hi\x00"), expected);
}

#[test]
fn format_hex_full_row_and_offsets() {
    let data: Vec<u8> = (0x20u8..0x31u8).collect();
    let out = format_hex(&data);
    let expected = "size: 17 bytes\n".to_string()
        + "00000000  20 21 22 23 24 25 26 27 28 29 2a 2b 2c 2d 2e 2f   !\"#$%&'()*+,-./\n"
        + &format!("00000010  30 {} 0\n", " ".repeat(45));
    assert_eq!(out, expected);
}

#[test]
fn format_hex_shows_unprintable_bytes_as_dots() {
    let out = format_hex(&[0x7f, 0x0a, 0x80, 0xff, 0x7e]);
    let expected = format!("size: 5 bytes\n00000000  7f 0a 80 ff 7e {} ....~\n", " ".repeat(33));
    assert_eq!(out, expected);
}

#[test]
fn format_hex_truncates_after_256_bytes() {
    let data = vec![0x41u8; 300];
    let out = format_hex(&data);
    assert!(out.starts_with("size: 300 bytes\n"));
    assert!(out.ends_with("\u{2026} (300 bytes total, showing first 256)\n"));
    assert_eq!(out.lines().count(), 1 + 16 + 1);
    assert!(out.contains("000000f0  41"));
    assert!(!out.contains("00000100"));
}

#[test]
fn hex_dump_rows_have_fixed_width() {
    let data: Vec<u8> = (0u8..40u8).collect();
    let out = format_hex(&data);
    let rows: Vec<&str> = out.lines().skip(1).collect();
    assert_eq!(rows.len(), 3);
    assert_eq!(rows[0].len(), 59 + 16);
    assert_eq!(rows[1].len(), 59 + 16);
    assert_eq!(rows[2].len(), 59 + 8);
}

#[test]
fn binary_block_renders_as_hex_dump() {
    let data = b"binary \x01\x02 data".to_vec();
    let b = block("Blob", hex_block(&data));
    assert_eq!(format_block_content(&b), format_hex(&data));
}

#[test]
fn text_and_xml_render_as_themselves() {
    assert_eq!(format_block_content(&block("T", ContentKind::Text("hello".to_string()))), "hello");
    assert_eq!(format_block_content(&block("X", ContentKind::Xml("<a/>".to_string()))), "<a/>");
}

#[test]
fn image_renders_its_dimensions() {
    let b = block(
        "CF_DIB",
        ContentKind::Image { width: 640, height: 480, data_url: "data:x".to_string() },
    );
    assert_eq!(format_block_content(&b), "[BMP 640\u{d7}480]");
    let b = block("CF_DIB", ContentKind::Image { width: 2, height: 3, data_url: String::new() });
    assert_eq!(
        format_block_content(&b),
        "[BMP 2\u{d7}3 \u{2014} too large for inline preview, use Show Binary]"
    );
}

#[test]
fn kind_labels() {
    assert_eq!(content_kind_label(&block("a", ContentKind::Text(String::new()))), "text");
    assert_eq!(content_kind_label(&block("a", ContentKind::Xml(String::new()))), "xml");
    assert_eq!(content_kind_label(&block("a", hex_block(&[1]))), "binary");
    let img = ContentKind::Image { width: 1, height: 1, data_url: "u".to_string() };
    assert_eq!(content_kind_label(&block("a", img)), "image");
}

#[test]
fn data_url_only_for_images() {
    let img = ContentKind::Image { width: 1, height: 1, data_url: "data:abc".to_string() };
    assert_eq!(image_data_url(&block("a", img)), Some("data:abc"));
    assert_eq!(image_data_url(&block("a", ContentKind::Text("data:abc".to_string()))), None);
}

#[test]
fn sidebar_uses_filemaker_descriptions() {
    let b = block("Mac-XMSC", ContentKind::Text(String::new()));
    assert_eq!(sidebar_label(&b), "FileMaker Script");
    let b = block("Mac-XMTB", ContentKind::Text(String::new()));
    assert_eq!(sidebar_label(&b), "FileMaker Table");
    let b = block("HTML Format", ContentKind::Text(String::new()));
    assert_eq!(sidebar_label(&b), "HTML Format");
}
