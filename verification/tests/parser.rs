use clipboard_formats::clipboard::{format_name, known_format_name, ClipboardData, ClipboardEntry};
use clipboard_formats::parser::{
    detect_and_parse, filemaker_label, is_filemaker_format, is_preview, parse_entry, ContentKind,
    ParsedContent,
};
use clipboard_formats::xml::pretty_print_xml;

fn entry(id: u32, name: &str, data: &[u8]) -> ClipboardEntry {
    ClipboardEntry { format_id: id, format_name: name.to_string(), data: data.to_vec() }
}

fn utf16le(s: &str) -> Vec<u8> {
    s.encode_utf16().flat_map(|w| w.to_le_bytes()).chain([0, 0]).collect()
}

#[test]
fn standard_format_names() {
    assert_eq!(known_format_name(1), Some("CF_TEXT"));
    assert_eq!(known_format_name(13), Some("CF_UNICODETEXT"));
    assert_eq!(known_format_name(17), Some("CF_DIBV5"));
    assert_eq!(known_format_name(0), None);
    assert_eq!(known_format_name(18), None);
}

#[test]
fn format_name_prefers_standard_then_registered_then_number() {
    let registered: Vec<u16> = "HTML Format".encode_utf16().collect();
    assert_eq!(format_name(8, &registered), "CF_DIB");
    assert_eq!(format_name(49161, &registered), "HTML Format");
    assert_eq!(format_name(49161, &[]), "#49161");
    assert_eq!(format_name(0, &[]), "#0");
}

#[test]
fn filemaker_labels() {
    assert_eq!(filemaker_label("Mac-XMFD"), Some("FileMaker Field"));
    assert_eq!(filemaker_label("Mac-XMSS"), Some("FileMaker Script Step"));
    assert_eq!(filemaker_label("Mac-XML2"), Some("FileMaker Layout Object"));
    assert_eq!(filemaker_label("Mac-XMFN"), Some("FileMaker Custom Function"));
    assert_eq!(filemaker_label("mac-xmfd"), None);
    assert_eq!(filemaker_label("Mac-XMFD "), None);
    assert!(is_filemaker_format("Mac-XMTB"));
    assert!(!is_filemaker_format("Mac-PICT"));
}

#[test]
fn preview_rules() {
    let all = vec![
        entry(13, "CF_UNICODETEXT", &utf16le("x")),
        entry(1, "CF_TEXT", b"x\0"),
        entry(7, "CF_OEMTEXT", b"x\0"),
        entry(2, "CF_BITMAP", b""),
        entry(49200, "Mac-PICT", b"pict"),
        entry(8, "CF_DIB", b""),
    ];
    let flags: Vec<bool> = all.iter().map(|e| is_preview(e, &all)).collect();
    assert_eq!(flags, vec![false, true, true, true, true, false]);
    let alone = vec![entry(1, "CF_TEXT", b"x\0")];
    assert!(!is_preview(&alone[0], &alone));
}

#[test]
fn parse_entry_pretty_prints_xml_text() {
    let e = entry(49300, "Custom", b"  <a><b>x</b></a>\n\0");
    let block = parse_entry(&e).unwrap();
    assert_eq!(block.format_id, 49300);
    assert_eq!(block.format_name, "Custom");
    assert!(!block.is_preview);
    assert_eq!(block.raw_bytes, e.data);
    match block.content {
        ContentKind::Xml(x) => assert_eq!(x, "<a>\n  <b>x</b>\n</a>"),
        other => panic!("expected xml, got {:?}", other),
    }
}

#[test]
fn parse_entry_keeps_text_when_xml_is_malformed() {
    let e = entry(1, "CF_TEXT", b"<a></b>\0");
    match parse_entry(&e).unwrap().content {
        ContentKind::Text(t) => assert_eq!(t, "<a></b>"),
        other => panic!("expected text, got {:?}", other),
    }
}

#[test]
fn parse_entry_filemaker_xml() {
    let mut data = vec![20, 0, 0, 0];
    data.extend_from_slice(b"<fmxmlsnippet/>     ");
    let e = entry(49500, "Mac-XMSC", &data);
    match parse_entry(&e).unwrap().content {
        ContentKind::Xml(x) => assert_eq!(x, "<fmxmlsnippet/>"),
        other => panic!("expected xml, got {:?}", other),
    }
}

#[test]
fn parse_entry_html_format_is_ansi() {
    let e = entry(49400, "HTML Format", b"Version:0.9\r\n\0");
    match parse_entry(&e).unwrap().content {
        ContentKind::Text(t) => assert_eq!(t, "Version:0.9\r\n"),
        other => panic!("expected text, got {:?}", other),
    }
}

#[test]
fn pretty_print_xml_reindents() {
    assert_eq!(pretty_print_xml("<a><b>x</b><c/></a>").unwrap(), "<a>\n  <b>x</b>\n  <c/>\n</a>");
    assert!(pretty_print_xml("<a></b>").is_err());
    assert_eq!(pretty_print_xml("").unwrap(), "");
}

#[test]
fn detect_and_parse_empty_clipboard() {
    let data = ClipboardData { entries: Vec::new() };
    assert!(matches!(detect_and_parse(&data), Ok(ParsedContent::Empty)));
}

#[test]
fn detect_and_parse_one_block_per_entry() {
    let data = ClipboardData {
        entries: vec![
            entry(13, "CF_UNICODETEXT", &utf16le("hello")),
            entry(1, "CF_TEXT", b"hello\0"),
            entry(16, "CF_LOCALE", &[9, 4, 0, 0]),
        ],
    };
    match detect_and_parse(&data) {
        Ok(ParsedContent::Formats(blocks)) => {
            assert_eq!(blocks.len(), 3);
            let ids: Vec<u32> = blocks.iter().map(|b| b.format_id).collect();
            assert_eq!(ids, vec![13, 1, 16]);
            let previews: Vec<bool> = blocks.iter().map(|b| b.is_preview).collect();
            assert_eq!(previews, vec![false, true, true]);
            match &blocks[0].content {
                ContentKind::Text(t) => assert_eq!(t, "hello"),
                other => panic!("expected text, got {:?}", other),
            }
            assert_eq!(blocks[2].raw_bytes, vec![9, 4, 0, 0]);
        },
        other => panic!("expected blocks, got {:?}", other),
    }
}
