//! Decoding every format entry on the clipboard into a displayable block.

use vstd::prelude::*;
use crate::clipboard::{ClipboardData, ClipboardEntry};
use crate::decode::{
    ansi_content, best_effort_content, decode_ansi, decode_best_effort, decode_filemaker,
    decode_utf16le, filemaker_content, utf16le_content,
};
use crate::dib::{decode_dib, dib_content, dib_decodable};
use crate::unicode::{str_eq, string_from_chars, trim_white_space, trimmed_chars};
use crate::xml::{pretty_print_xml, xml_reindent, ParseError};

verus! {

/// How we decoded a single clipboard format.
#[derive(Debug)]
pub enum ContentKind {
    /// Valid text.
    Text(String),
    /// XML that has been pretty-printed.
    Xml(String),
    /// Raw bytes shown as a hex dump.
    Binary { size: usize, hex_preview: String },
    /// Bitmap image with a data URL for inline display.
    Image { width: u32, height: u32, data_url: String },
}

/// What a [`ContentKind`] holds, with its strings as character sequences.
pub enum Content {
    Text(Seq<char>),
    Xml(Seq<char>),
    Binary { size: nat, hex_preview: Seq<char> },
    Image { width: u32, height: u32, data_url: Seq<char> },
}

impl View for ContentKind {
    type V = Content;

    open spec fn view(&self) -> Content {
        match self {
            ContentKind::Text(t) => Content::Text(t@),
            ContentKind::Xml(x) => Content::Xml(x@),
            ContentKind::Binary { size, hex_preview } => Content::Binary {
                size: *size as nat,
                hex_preview: hex_preview@,
            },
            ContentKind::Image { width, height, data_url } => Content::Image {
                width: *width,
                height: *height,
                data_url: data_url@,
            },
        }
    }
}

/// One decoded clipboard format block ready for display.
#[derive(Debug)]
pub struct FormatBlock {
    pub format_id: u32,
    pub format_name: String,
    /// True if this entry is a visual preview/duplicate (e.g. CF_BITMAP, CF_LOCALE).
    pub is_preview: bool,
    pub content: ContentKind,
    /// Raw bytes from the clipboard for this format (used for binary toggle view).
    pub raw_bytes: Vec<u8>,
}

/// All decoded blocks from the clipboard.
#[derive(Debug)]
pub enum ParsedContent {
    Formats(Vec<FormatBlock>),
    Empty,
}

/// The friendly description of a FileMaker Windows clipboard format name.
pub open spec fn filemaker_description(name: Seq<char>) -> Option<Seq<char>> {
    if name == "Mac-XMFD"@ { Some("FileMaker Field"@) }
    else if name == "Mac-XMSC"@ { Some("FileMaker Script"@) }
    else if name == "Mac-XMSS"@ { Some("FileMaker Script Step"@) }
    else if name == "Mac-XML2"@ { Some("FileMaker Layout Object"@) }
    else if name == "Mac-XMFN"@ { Some("FileMaker Custom Function"@) }
    else if name == "Mac-XMTB"@ { Some("FileMaker Table"@) }
    else { None }
}

/// The friendly description of a FileMaker clipboard format, or `None` for
/// any other format name.
pub fn filemaker_label(format_name: &str) -> (r: Option<&'static str>)
    ensures
        r matches Some(label) ==> filemaker_description(format_name@) == Some(label@),
        r is None ==> filemaker_description(format_name@) is None,
{
    if str_eq(format_name, "Mac-XMFD") {
        Some("FileMaker Field")
    } else if str_eq(format_name, "Mac-XMSC") {
        Some("FileMaker Script")
    } else if str_eq(format_name, "Mac-XMSS") {
        Some("FileMaker Script Step")
    } else if str_eq(format_name, "Mac-XML2") {
        Some("FileMaker Layout Object")
    } else if str_eq(format_name, "Mac-XMFN") {
        Some("FileMaker Custom Function")
    } else if str_eq(format_name, "Mac-XMTB") {
        Some("FileMaker Table")
    } else {
        None
    }
}

/// Whether a format name is one of FileMaker's.
pub fn is_filemaker_format(name: &str) -> (r: bool)
    ensures
        r == filemaker_description(name@) is Some,
{
    filemaker_label(name).is_some()
}

/// The format IDs that are always visual previews or rendering hints:
/// CF_BITMAP, CF_METAFILEPICT, CF_PALETTE, CF_ENHMETAFILE and CF_LOCALE.
pub open spec fn is_preview_format_id(id: u32) -> bool {
    id == 2 || id == 3 || id == 9 || id == 14 || id == 16
}

/// Whether an entry is suppressed as a preview or duplicate among `all`:
/// a preview format ID, FileMaker's `Mac-PICT` picture, or CF_TEXT and
/// CF_OEMTEXT when CF_UNICODETEXT is present as well.
pub open spec fn preview_entry(id: u32, name: Seq<char>, all_ids: Seq<u32>) -> bool {
    ||| is_preview_format_id(id)
    ||| name == "Mac-PICT"@
    ||| (id == 1 || id == 7) && all_ids.contains(13)
}

/// The format IDs of a list of entries.
pub open spec fn entry_ids(all: Seq<ClipboardEntry>) -> Seq<u32> {
    all.map_values(|e: ClipboardEntry| e.format_id)
}

/// Returns true if this entry should be suppressed as a preview / duplicate.
pub fn is_preview(entry: &ClipboardEntry, all: &[ClipboardEntry]) -> (r: bool)
    ensures
        r == preview_entry(entry.format_id, entry.format_name@, entry_ids(all@)),
{
    let id = entry.format_id;
    if id == 2 || id == 3 || id == 9 || id == 14 || id == 16 {
        return true;
    }
    if str_eq(entry.format_name.as_str(), "Mac-PICT") {
        return true;
    }
    if id == 1 || id == 7 {
        let mut i: usize = 0;
        while i < all.len()
            invariant
                i <= all.len(),
                id == entry.format_id,
                id == 1 || id == 7,
                forall|k: int| 0 <= k < i ==> all@[k].format_id != 13,
            decreases all.len() - i,
        {
            if all[i].format_id == 13 {
                assert(entry_ids(all@)[i as int] == 13);
                return true;
            }
            i = i + 1;
        }
        assert(!entry_ids(all@).contains(13)) by {
            assert forall|k: int| 0 <= k < all@.len() implies entry_ids(all@)[k] != 13 by {
                assert(entry_ids(all@)[k] == all@[k].format_id);
            }
        }
    }
    false
}


/// What the decoder for an entry's format makes of its bytes: UTF-16LE for
/// CF_UNICODETEXT, UTF-8 or Latin-1 for CF_TEXT, CF_OEMTEXT and the HTML
/// format, a bitmap for CF_DIB and CF_DIBV5, the length-prefixed body for
/// FileMaker formats, and a best guess for everything else.
pub open spec fn entry_content(id: u32, name: Seq<char>, data: Seq<u8>) -> Content {
    if id == 13 {
        utf16le_content(data)
    } else if id == 1 || id == 7 {
        ansi_content(data)
    } else if id == 8 || id == 17 {
        dib_content(data)
    } else if name == "HTML Format"@ {
        ansi_content(data)
    } else if filemaker_description(name) is Some {
        filemaker_content(data)
    } else {
        best_effort_content(data)
    }
}

/// The text that is handed to the XML pretty-printer: decoded text whose
/// trimmed form starts with `<`, trimmed.
pub open spec fn xml_candidate(c: Content) -> Option<Seq<char>> {
    match c {
        Content::Text(t) => {
            let trimmed = trim_white_space(t);
            if trimmed.len() > 0 && trimmed[0] == '<' {
                Some(trimmed)
            } else {
                None
            }
        },
        _ => None,
    }
}

/// What decoded content ends up as: text that looks like XML becomes its
/// pretty-printed form when pretty-printing succeeds and stays as it is when
/// it fails; any other content stays as it is.
pub open spec fn final_content(decoded: Content) -> Content {
    match xml_candidate(decoded) {
        Some(t) => match xml_reindent(t) {
            Ok(x) => Content::Xml(x),
            Err(_) => decoded,
        },
        None => decoded,
    }
}

/// Whether the data of an entry can be decoded within the machine's limits:
/// for a bitmap that becomes an image, its data URL must fit in an
/// allocation.
pub open spec fn entry_decodable(e: ClipboardEntry) -> bool {
    (e.format_id == 8 || e.format_id == 17) ==> dib_decodable(e.data@)
}

/// Whether `b` is the block for entry `e`, with the given preview flag.
pub open spec fn block_for(b: FormatBlock, e: ClipboardEntry, preview: bool) -> bool {
    &&& b.format_id == e.format_id
    &&& b.format_name@ == e.format_name@
    &&& b.is_preview == preview
    &&& b.raw_bytes@ == e.data@
    &&& b.content@ == final_content(entry_content(e.format_id, e.format_name@, e.data@))
}

/// Decodes an entry's bytes with the decoder for its format.
pub fn decode_entry(entry: &ClipboardEntry) -> (c: ContentKind)
    requires
        entry_decodable(*entry),
    ensures
        c@ == entry_content(entry.format_id, entry.format_name@, entry.data@),
{
    let id = entry.format_id;
    let data = entry.data.as_slice();
    if id == 13 {
        decode_utf16le(data)
    } else if id == 1 || id == 7 {
        decode_ansi(data)
    } else if id == 8 || id == 17 {
        decode_dib(data)
    } else if str_eq(entry.format_name.as_str(), "HTML Format") {
        decode_ansi(data)
    } else if is_filemaker_format(entry.format_name.as_str()) {
        decode_filemaker(data)
    } else {
        decode_best_effort(data)
    }
}

/// The trimmed text of decoded content when it looks like XML.
pub fn xml_candidate_text(c: &ContentKind) -> (r: Option<String>)
    ensures
        r matches Some(t) ==> xml_candidate(c@) == Some(t@),
        r is None ==> xml_candidate(c@) is None,
{
    match c {
        ContentKind::Text(t) => {
            let trimmed = trimmed_chars(t.as_str());
            if trimmed.len() > 0 && trimmed[0] == '<' {
                Some(string_from_chars(trimmed.as_slice()))
            } else {
                None
            }
        },
        _ => None,
    }
}

/// The content once the pretty-printer has answered: its XML when it
/// succeeded, the decoded content unchanged when it failed.
pub fn xml_or_text(decoded: ContentKind, pretty: Result<String, ParseError>) -> (c: ContentKind)
    ensures
        pretty matches Ok(x) ==> c@ == Content::Xml(x@),
        pretty is Err ==> c@ == decoded@,
{
    match pretty {
        Ok(xml) => ContentKind::Xml(xml),
        Err(_) => decoded,
    }
}

/// The bytes of a vector, copied.
fn copy_bytes(v: &Vec<u8>) -> (r: Vec<u8>)
    ensures
        r@ == v@,
{
    let r = v.clone();
    assert(r@ =~= v@);
    r
}

/// Decodes one entry into a block; text that looks like XML is
/// pretty-printed when that succeeds.
pub fn parse_entry(entry: &ClipboardEntry) -> (r: Result<FormatBlock, ParseError>)
    requires
        entry_decodable(*entry),
    ensures
        r matches Ok(b) && block_for(b, *entry, false),
{
    let decoded = decode_entry(entry);
    let content = match xml_candidate_text(&decoded) {
        Some(trimmed) => xml_or_text(decoded, pretty_print_xml(trimmed.as_str())),
        None => decoded,
    };
    Ok(
        FormatBlock {
            format_id: entry.format_id,
            format_name: entry.format_name.clone(),
            is_preview: false,
            content,
            raw_bytes: copy_bytes(&entry.data),
        },
    )
}

/// Whether every entry of `all` can be decoded within the machine's limits.
pub open spec fn all_decodable(all: Seq<ClipboardEntry>) -> bool {
    forall|i: int| 0 <= i < all.len() ==> entry_decodable(#[trigger] all[i])
}

/// Whether `blocks` are the blocks of `all`, one per entry and in order,
/// each flagged as a preview exactly when [`preview_entry`] says so.
pub open spec fn blocks_for(blocks: Seq<FormatBlock>, all: Seq<ClipboardEntry>) -> bool {
    &&& blocks.len() == all.len()
    &&& forall|i: int|
        0 <= i < all.len() ==> block_for(
            #[trigger] blocks[i],
            all[i],
            preview_entry(all[i].format_id, all[i].format_name@, entry_ids(all)),
        )
}

/// Detect and parse every format entry on the clipboard.
pub fn detect_and_parse(data: &ClipboardData) -> (r: Result<ParsedContent, ParseError>)
    requires
        all_decodable(data.entries@),
    ensures
        r matches Ok(parsed) && match parsed {
            ParsedContent::Empty => data.entries@.len() == 0,
            ParsedContent::Formats(blocks) => data.entries@.len() > 0 && blocks_for(
                blocks@,
                data.entries@,
            ),
        },
{
    if data.entries.len() == 0 {
        return Ok(ParsedContent::Empty);
    }
    let all = data.entries.as_slice();
    let mut blocks: Vec<FormatBlock> = Vec::new();
    let mut i: usize = 0;
    while i < all.len()
        invariant
            all@ == data.entries@,
            all_decodable(all@),
            i <= all.len(),
            blocks@.len() == i,
            forall|k: int|
                0 <= k < i ==> block_for(
                    #[trigger] blocks@[k],
                    all@[k],
                    preview_entry(all@[k].format_id, all@[k].format_name@, entry_ids(all@)),
                ),
        decreases all.len() - i,
    {
        let entry = &all[i];
        let preview = is_preview(entry, all);
        assert(entry_decodable(all@[i as int]));
        match parse_entry(entry) {
            Ok(mut block) => {
                block.is_preview = preview;
                blocks.push(block);
            },
            Err(_) => {},
        }
        i = i + 1;
    }
    if blocks.len() == 0 {
        Ok(ParsedContent::Empty)
    } else {
        Ok(ParsedContent::Formats(blocks))
    }
}

} // verus!
