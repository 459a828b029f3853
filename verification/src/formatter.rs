//! Rendering decoded blocks as text for display.

use vstd::prelude::*;
use crate::digits::{decimal, push_char, push_decimal};
use crate::hexdump::{hex_dump, push_hex_dump};
use crate::parser::{filemaker_description, filemaker_label, Content, ContentKind, FormatBlock};

verus! {

/// The line that opens a dump of `n` bytes: `size: n bytes` and a line
/// break.
pub open spec fn size_line(n: nat) -> Seq<char> {
    "size: "@ + decimal(n) + " bytes\n"@
}

/// The line that closes a dump of more than 256 bytes.
pub open spec fn truncation_line(n: nat) -> Seq<char> {
    seq!['\u{2026}'] + " ("@ + decimal(n) + " bytes total, showing first 256)\n"@
}

/// The full hex dump of `data`: its size, the rows of its first 256 bytes
/// and, when it is longer, a line that says so.
pub open spec fn hex_text(data: Seq<u8>) -> Seq<char> {
    size_line(data.len()) + hex_dump(data) + if data.len() > 256 {
        truncation_line(data.len())
    } else {
        seq![]
    }
}

/// Hex dump of raw bytes (first 256 bytes, 16 bytes per row).
pub fn format_hex(data: &[u8]) -> (out: String)
    ensures
        out@ == hex_text(data@),
{
    let mut out = "size: ".to_owned();
    push_decimal(&mut out, data.len() as u64);
    out.append(" bytes\n");
    push_hex_dump(&mut out, data);
    if data.len() > 256 {
        push_char(&mut out, '\u{2026}');
        out.append(" (");
        push_decimal(&mut out, data.len() as u64);
        out.append(" bytes total, showing first 256)\n");
    }
    out
}

/// The content-type tag of content.
pub open spec fn kind_label(c: Content) -> Seq<char> {
    match c {
        Content::Text(_) => "text"@,
        Content::Xml(_) => "xml"@,
        Content::Binary { .. } => "binary"@,
        Content::Image { .. } => "image"@,
    }
}

/// The content-type tag string for a block.
pub fn content_kind_label(block: &FormatBlock) -> (r: &'static str)
    ensures
        r@ == kind_label(block.content@),
{
    match &block.content {
        ContentKind::Text(_) => "text",
        ContentKind::Xml(_) => "xml",
        ContentKind::Binary { .. } => "binary",
        ContentKind::Image { .. } => "image",
    }
}

/// The placeholder text for an image: its dimensions, and a note when it
/// has no data URL.
pub open spec fn image_text(width: u32, height: u32, has_url: bool) -> Seq<char> {
    "[BMP "@ + decimal(width as nat) + seq!['\u{d7}'] + decimal(height as nat) + if has_url {
        seq![']']
    } else {
        seq![' ', '\u{2014}'] + " too large for inline preview, use Show Binary]"@
    }
}

/// The body text that content renders as.
pub open spec fn content_text(c: Content) -> Seq<char> {
    match c {
        Content::Text(t) => t,
        Content::Xml(x) => x,
        Content::Binary { size, hex_preview } => size_line(size) + hex_preview,
        Content::Image { width, height, data_url } => image_text(
            width,
            height,
            data_url.len() > 0,
        ),
    }
}

/// The rendered body text for a block (without header).
pub fn format_block_content(block: &FormatBlock) -> (out: String)
    ensures
        out@ == content_text(block.content@),
{
    match &block.content {
        ContentKind::Text(text) => text.clone(),
        ContentKind::Xml(xml) => xml.clone(),
        ContentKind::Binary { size, hex_preview } => {
            let mut out = "size: ".to_owned();
            push_decimal(&mut out, *size as u64);
            out.append(" bytes\n");
            out.append(hex_preview.as_str());
            out
        },
        ContentKind::Image { width, height, data_url } => {
            let mut out = "[BMP ".to_owned();
            push_decimal(&mut out, *width as u64);
            push_char(&mut out, '\u{d7}');
            push_decimal(&mut out, *height as u64);
            if data_url.as_str().is_empty() {
                push_char(&mut out, ' ');
                push_char(&mut out, '\u{2014}');
                out.append(" too large for inline preview, use Show Binary]");
            } else {
                push_char(&mut out, ']');
            }
            out
        },
    }
}

/// For image blocks, returns the data URL; None for all other kinds.
pub fn image_data_url(block: &FormatBlock) -> (r: Option<&str>)
    ensures
        r is Some <==> block.content@ is Image,
        r matches Some(url) ==> block.content@ matches Content::Image { data_url, .. }
            && url@ == data_url,
{
    if let ContentKind::Image { data_url, .. } = &block.content {
        Some(data_url.as_str())
    } else {
        None
    }
}

/// The label of a block in the sidebar: the FileMaker description of its
/// format name when there is one, else the name itself.
pub open spec fn sidebar_text(name: Seq<char>) -> Seq<char> {
    match filemaker_description(name) {
        Some(label) => label,
        None => name,
    }
}

/// Friendly sidebar label: FileMaker name if known, otherwise format_name.
pub fn sidebar_label(block: &FormatBlock) -> (r: String)
    ensures
        r@ == sidebar_text(block.format_name@),
{
    match filemaker_label(block.format_name.as_str()) {
        Some(label) => label.to_owned(),
        None => block.format_name.clone(),
    }
}

} // verus!
