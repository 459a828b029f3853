//! Clipboard entries as the platform hands them over, and the names of the
//! standard clipboard formats.

use vstd::prelude::*;
use crate::digits::{decimal, push_char, push_decimal};
use crate::unicode::{utf16_lossy, utf16_lossy_string};

verus! {

/// One clipboard format entry: its Windows format ID, a human-readable name,
/// and the raw bytes stored under that format.
#[derive(Debug)]
pub struct ClipboardEntry {
    pub format_id: u32,
    pub format_name: String,
    pub data: Vec<u8>,
}

/// All format entries currently on the clipboard.
#[derive(Debug)]
pub struct ClipboardData {
    pub entries: Vec<ClipboardEntry>,
}

/// The name of a standard clipboard format, for the IDs 1 to 17.
pub open spec fn standard_format_name(id: u32) -> Option<Seq<char>> {
    if id == 1 { Some("CF_TEXT"@) }
    else if id == 2 { Some("CF_BITMAP"@) }
    else if id == 3 { Some("CF_METAFILEPICT"@) }
    else if id == 4 { Some("CF_SYLK"@) }
    else if id == 5 { Some("CF_DIF"@) }
    else if id == 6 { Some("CF_TIFF"@) }
    else if id == 7 { Some("CF_OEMTEXT"@) }
    else if id == 8 { Some("CF_DIB"@) }
    else if id == 9 { Some("CF_PALETTE"@) }
    else if id == 10 { Some("CF_PENDATA"@) }
    else if id == 11 { Some("CF_RIFF"@) }
    else if id == 12 { Some("CF_WAVE"@) }
    else if id == 13 { Some("CF_UNICODETEXT"@) }
    else if id == 14 { Some("CF_ENHMETAFILE"@) }
    else if id == 15 { Some("CF_HDROP"@) }
    else if id == 16 { Some("CF_LOCALE"@) }
    else if id == 17 { Some("CF_DIBV5"@) }
    else { None }
}

/// The name of a standard clipboard format, or `None` for any other ID.
pub fn known_format_name(id: u32) -> (r: Option<&'static str>)
    ensures
        r matches Some(name) ==> standard_format_name(id) == Some(name@),
        r is None ==> standard_format_name(id) is None,
{
    match id {
        1 => Some("CF_TEXT"),
        2 => Some("CF_BITMAP"),
        3 => Some("CF_METAFILEPICT"),
        4 => Some("CF_SYLK"),
        5 => Some("CF_DIF"),
        6 => Some("CF_TIFF"),
        7 => Some("CF_OEMTEXT"),
        8 => Some("CF_DIB"),
        9 => Some("CF_PALETTE"),
        10 => Some("CF_PENDATA"),
        11 => Some("CF_RIFF"),
        12 => Some("CF_WAVE"),
        13 => Some("CF_UNICODETEXT"),
        14 => Some("CF_ENHMETAFILE"),
        15 => Some("CF_HDROP"),
        16 => Some("CF_LOCALE"),
        17 => Some("CF_DIBV5"),
        _ => None,
    }
}

/// The display name of a format: the standard name for IDs 1 to 17, else
/// the name the system has registered for it (given as UTF-16 code units,
/// empty when there is none), else `#` and the ID in decimal.
pub open spec fn format_display_name(id: u32, registered: Seq<u16>) -> Seq<char> {
    match standard_format_name(id) {
        Some(name) => name,
        None => if registered.len() > 0 {
            utf16_lossy(registered)
        } else {
            seq!['#'] + decimal(id as nat)
        },
    }
}

/// The display name of clipboard format `id`, where `registered` holds the
/// name that the system has registered for it (empty when it has none).
pub fn format_name(id: u32, registered: &[u16]) -> (name: String)
    ensures
        name@ == format_display_name(id, registered@),
{
    if let Some(name) = known_format_name(id) {
        return name.to_owned();
    }
    if registered.len() > 0 {
        utf16_lossy_string(registered)
    } else {
        let mut s = String::new();
        push_char(&mut s, '#');
        push_decimal(&mut s, id as u64);
        s
    }
}

} // verus!
