use clipboard_formats::decode::{
    decode_ansi, decode_best_effort, decode_filemaker, decode_utf16le, hex_block,
};
use clipboard_formats::dib::{bmp_bytes, decode_dib};
use clipboard_formats::formatter::format_hex;
use clipboard_formats::parser::ContentKind;

fn text(c: ContentKind) -> String {
    match c {
        ContentKind::Text(t) => t,
        other => panic!("expected text, got {:?}", other),
    }
}

fn binary(c: ContentKind) -> (usize, String) {
    match c {
        ContentKind::Binary { size, hex_preview } => (size, hex_preview),
        other => panic!("expected binary, got {:?}", other),
    }
}

fn utf16le(s: &str) -> Vec<u8> {
    s.encode_utf16().flat_map(|w| w.to_le_bytes()).collect()
}

#[test]
fn hex_block_holds_size_and_rows() {
    let (size, hex) = binary(hex_block(b"AB"));
    assert_eq!(size, 2);
    assert_eq!(hex, format!("00000000  41 42 {} AB\n", " ".repeat(42)));
    assert_eq!(format!("size: 2 bytes\n{}", hex), format_hex(b"AB"));
}

#[test]
fn utf16le_stops_at_nul() {
    let mut data = utf16le("Hi there");
    data.extend_from_slice(&[0, 0]);
    data.extend_from_slice(&utf16le("junk"));
    assert_eq!(text(decode_utf16le(&data)), "Hi there");
}

#[test]
fn utf16le_decodes_pairs_and_replaces_lone_surrogates() {
    let data = [0x3d, 0xd8, 0x00, 0xde, 0x00, 0xdc, 0x41, 0x00];
    assert_eq!(text(decode_utf16le(&data)), "\u{1F600}\u{FFFD}A");
}

#[test]
fn utf16le_odd_trailing_byte_is_ignored() {
    assert_eq!(text(decode_utf16le(&[0x41, 0x00, 0x42])), "A");
}

#[test]
fn utf16le_too_short_is_binary() {
    let (size, _) = binary(decode_utf16le(&[0x41]));
    assert_eq!(size, 1);
}

#[test]
fn ansi_prefers_utf8() {
    assert_eq!(text(decode_ansi("h\u{e9}llo\0\0".as_bytes())), "h\u{e9}llo");
}

#[test]
fn ansi_falls_back_to_latin1() {
    assert_eq!(text(decode_ansi(b"caf\xe9\x00")), "caf\u{e9}");
}

#[test]
fn ansi_keeps_inner_nuls_and_empty_input() {
    assert_eq!(text(decode_ansi(b"a\x00b\x00\x00")), "a\u{0}b");
    assert_eq!(text(decode_ansi(b"")), "");
    assert_eq!(text(decode_ansi(b"\x00\x00")), "");
}

#[test]
fn best_effort_utf8() {
    assert_eq!(text(decode_best_effort(b"plain text\x00")), "plain text");
}

#[test]
fn best_effort_utf16_when_not_utf8() {
    let data = [0xe9, 0x00, 0x41, 0x00, 0x00, 0x00];
    assert_eq!(text(decode_best_effort(&data)), "\u{e9}A");
}

#[test]
fn best_effort_surrogates_give_a_dump() {
    let data = [0x00, 0xd8, 0xff, 0xff];
    let (size, hex) = binary(decode_best_effort(&data));
    assert_eq!(size, 4);
    assert!(hex.starts_with("00000000  00 d8 ff ff "));
}

#[test]
fn best_effort_odd_invalid_gives_a_dump() {
    let (size, _) = binary(decode_best_effort(&[0xff, 0xfe, 0xfd]));
    assert_eq!(size, 3);
}

#[test]
fn filemaker_body_is_length_prefixed() {
    let mut data = vec![4, 0, 0, 0];
    data.extend_from_slice(b"<a/>trailing");
    assert_eq!(text(decode_filemaker(&data)), "<a/>");
}

#[test]
fn filemaker_declared_length_beyond_data_takes_the_rest() {
    let mut data = vec![0xff, 0xff, 0, 0];
    data.extend_from_slice(b"<fmxmlsnippet/>");
    assert_eq!(text(decode_filemaker(&data)), "<fmxmlsnippet/>");
}

#[test]
fn filemaker_invalid_or_short_is_binary() {
    let (size, _) = binary(decode_filemaker(&[1, 0, 0]));
    assert_eq!(size, 3);
    let (size, _) = binary(decode_filemaker(&[2, 0, 0, 0, 0xff, 0xfe]));
    assert_eq!(size, 6);
}

fn dib_sample() -> Vec<u8> {
    vec![
        40, 0, 0, 0, 254, 255, 255, 255, 3, 0, 0, 0, 1, 0, 24, 0, 0, 0, 0, 0, 0, 0, 0, 0, 0, 0, 0,
        0, 0, 0, 0, 0, 0, 0, 0, 0, 0, 0, 0, 0, 1, 2, 3, 4, 5, 6, 7, 8,
    ]
}

#[test]
fn dib_becomes_a_bmp_data_url() {
    match decode_dib(&dib_sample()) {
        ContentKind::Image { width, height, data_url } => {
            assert_eq!(width, 2);
            assert_eq!(height, 3);
            assert_eq!(
                data_url,
                "data:image/bmp;base64,Qk0+AAAAAAAAADYAAAAoAAAA/v///wMAAAABABgAAAAAAAAAAAAAAAAAAAAAAAAAAAAAAAAAAQIDBAUGBwg="
            );
        },
        other => panic!("expected image, got {:?}", other),
    }
}

#[test]
fn dib_header_counts_the_palette() {
    let mut data = vec![0u8; 40];
    data[0] = 40;
    data[14] = 8;
    let bmp = bmp_bytes(&data);
    assert_eq!(&bmp[..14], &[66, 77, 54, 0, 0, 0, 0, 0, 0, 0, 54, 4, 0, 0]);
    assert_eq!(&bmp[14..], &data[..]);
}

#[test]
fn dib_uses_declared_color_count() {
    let mut data = vec![0u8; 40];
    data[0] = 40;
    data[14] = 8;
    data[32] = 2;
    let bmp = bmp_bytes(&data);
    assert_eq!(&bmp[10..14], &[14 + 40 + 8, 0, 0, 0]);
}

#[test]
fn dib_too_short_is_binary() {
    let (size, _) = binary(decode_dib(&[0u8; 39]));
    assert_eq!(size, 39);
    let mut data = vec![0u8; 40];
    data[0] = 41;
    let (size, _) = binary(decode_dib(&data));
    assert_eq!(size, 40);
}
