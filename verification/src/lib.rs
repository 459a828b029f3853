//! Decoding and rendering of clipboard format entries: text in its several
//! encodings, FileMaker XML, device-independent bitmaps and hex dumps.

pub mod digits;
pub mod hexdump;
pub mod unicode;
pub mod base64_text;
pub mod clipboard;
pub mod parser;
pub mod decode;
pub mod dib;
pub mod xml;
pub mod formatter;
pub mod laws;
