use clipboard_formats::decode::decode_best_effort;
use clipboard_formats::dib::{bmp_bytes, decode_dib};
use clipboard_formats::formatter::format_hex;
use clipboard_formats::formatter::{content_kind_label, image_data_url};
use clipboard_formats::parser::{ContentKind, FormatBlock};

#[test]
fn data_url_length_follows_base64_groups() {
    for extra in 0..5usize {
        let mut data = vec![0u8; 40 + extra];
        data[0] = 40;
        match decode_dib(&data) {
            ContentKind::Image { data_url, .. } => {
                let n = data.len() + 14;
                assert_eq!(data_url.len(), 22 + 4 * ((n + 2) / 3));
                assert!(data_url.starts_with("data:image/bmp;base64,Qk"));
            },
            other => panic!("expected image, got {:?}", other),
        }
    }
}

#[test]
fn bmp_header_records_file_size() {
    let mut data = vec![0u8; 300];
    data[0] = 40;
    data[14] = 32;
    let bmp = bmp_bytes(&data);
    assert_eq!(bmp.len(), 314);
    assert_eq!(u32::from_le_bytes([bmp[2], bmp[3], bmp[4], bmp[5]]), 314);
    assert_eq!(u32::from_le_bytes([bmp[10], bmp[11], bmp[12], bmp[13]]), 54);
    assert_eq!(&bmp[14..], &data[..]);
}

#[test]
fn utf16_without_surrogates_is_lossless() {
    let units: Vec<u16> = vec![0x00e9, 0x4e2d, 0xe000, 0x0041];
    let data: Vec<u8> = units.iter().flat_map(|w| w.to_le_bytes()).collect();
    let expected: String = units.iter().map(|&u| char::from_u32(u as u32).unwrap()).collect();
    match decode_best_effort(&data) {
        ContentKind::Text(t) => assert_eq!(t, expected),
        other => panic!("expected text, got {:?}", other),
    }
}

#[test]
fn dump_length_is_sixty_per_row_plus_bytes() {
    for n in [0usize, 1, 15, 16, 17, 255, 256, 257, 1000] {
        let data = vec![0x2eu8; n];
        let out = format_hex(&data);
        let header = format!("size: {} bytes\n", n);
        let shown = n.min(256);
        let rows = (shown + 15) / 16;
        let dump_len: usize = out[header.len()..].chars().take_while(|&c| c != '\u{2026}').count();
        assert_eq!(dump_len, 60 * rows + shown);
    }
}

#[test]
fn image_label_matches_data_url() {
    let kinds = vec![
        ContentKind::Text("t".to_string()),
        ContentKind::Xml("x".to_string()),
        ContentKind::Binary { size: 0, hex_preview: String::new() },
        ContentKind::Image { width: 1, height: 1, data_url: "d".to_string() },
    ];
    for content in kinds {
        let b = FormatBlock {
            format_id: 1,
            format_name: "n".to_string(),
            is_preview: false,
            content,
            raw_bytes: Vec::new(),
        };
        assert_eq!(content_kind_label(&b) == "image", image_data_url(&b).is_some());
    }
}

#[test]
fn bitfields_masks_come_before_the_pixels() {
    let mut data = vec![0u8; 52];
    data[0] = 40;
    data[14] = 32;
    data[16] = 3;
    let bmp = bmp_bytes(&data);
    assert_eq!(u32::from_le_bytes([bmp[10], bmp[11], bmp[12], bmp[13]]), 66);
    data[16] = 6;
    let bmp = bmp_bytes(&data);
    assert_eq!(u32::from_le_bytes([bmp[10], bmp[11], bmp[12], bmp[13]]), 70);
    data[0] = 108;
    let mut v5 = vec![0u8; 108];
    v5[..52].copy_from_slice(&data);
    let bmp = bmp_bytes(&v5);
    assert_eq!(u32::from_le_bytes([bmp[10], bmp[11], bmp[12], bmp[13]]), 14 + 108);
}

#[test]
fn unicode_text_round_trips() {
    for s in ["", "hello", "h\u{e9}llo \u{4e2d}\u{6587} \u{1F600}!"] {
        let data: Vec<u8> = s.encode_utf16().chain([0u16]).flat_map(|u| u.to_le_bytes()).collect();
        match clipboard_formats::decode::decode_utf16le(&data) {
            ContentKind::Text(t) => assert_eq!(t, s),
            other => panic!("expected text, got {:?}", other),
        }
    }
}

#[test]
fn ansi_text_round_trips() {
    for s in ["", "plain", "\u{e9}t\u{e9} \u{1F600}", "a\u{0}b"] {
        for nuls in 0..3usize {
            let mut data = s.as_bytes().to_vec();
            data.extend(std::iter::repeat(0u8).take(nuls));
            match clipboard_formats::decode::decode_ansi(&data) {
                ContentKind::Text(t) => assert_eq!(t, s),
                other => panic!("expected text, got {:?}", other),
            }
        }
    }
}
