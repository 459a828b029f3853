//! The decoders for the byte layouts that clipboard formats use.

use vstd::prelude::*;
use vstd::utf8::{decode_utf8, valid_utf8};
use crate::hexdump::{hex_dump, push_hex_dump};
use crate::parser::{Content, ContentKind};
use crate::unicode::{
    is_surrogate, latin1, latin1_string, trim_trailing_nuls, trimmed_zero_len, utf16_lossy,
    utf16_lossy_string, utf8_string, without_trailing_nuls, without_trailing_zeros,
};

verus! {

/// Raw bytes shown as a hex dump of their first 256 bytes.
pub open spec fn binary_content(data: Seq<u8>) -> Content {
    Content::Binary { size: data.len(), hex_preview: hex_dump(data) }
}

/// The little-endian 16-bit value at byte `i`.
pub open spec fn le_u16_at(d: Seq<u8>, i: int) -> nat {
    d[i] as nat + 256 * (d[i + 1] as nat)
}

/// The little-endian 32-bit value at byte `i`.
pub open spec fn le_u32_at(d: Seq<u8>, i: int) -> nat {
    d[i] as nat + 256 * (d[i + 1] as nat) + 65536 * (d[i + 2] as nat) + 16777216 * (
    d[i + 3] as nat)
}

/// The little-endian 16-bit words of `d`, a trailing odd byte left out.
pub open spec fn le_words(d: Seq<u8>) -> Seq<u16> {
    Seq::new(d.len() / 2, |i: int| le_u16_at(d, 2 * i) as u16)
}

/// Words written as little-endian bytes, two per word.
pub open spec fn le_word_bytes(w: Seq<u16>) -> Seq<u8> {
    Seq::new(
        2 * w.len(),
        |j: int|
            if j % 2 == 0 {
                (w[j / 2] % 256) as u8
            } else {
                (w[j / 2] / 256) as u8
            },
    )
}

/// The index of the first zero word at or after `i`, or the length.
pub open spec fn first_zero_from(w: Seq<u16>, i: nat) -> nat
    decreases w.len() - i,
{
    if i < w.len() && w[i as int] != 0 {
        first_zero_from(w, i + 1)
    } else {
        i
    }
}

/// The words of `w` before its first zero word.
pub open spec fn before_first_zero(w: Seq<u16>) -> Seq<u16> {
    w.take(first_zero_from(w, 0) as int)
}

/// CF_UNICODETEXT: UTF-16LE up to the first NUL; under two bytes, a dump.
pub open spec fn utf16le_content(d: Seq<u8>) -> Content {
    if d.len() < 2 {
        binary_content(d)
    } else {
        Content::Text(utf16_lossy(before_first_zero(le_words(d))))
    }
}

/// CF_TEXT, CF_OEMTEXT and the HTML format: the bytes up to the last nonzero
/// one, as UTF-8 when they are valid UTF-8 and as Latin-1 otherwise.
pub open spec fn ansi_content(d: Seq<u8>) -> Content {
    let t = without_trailing_zeros(d);
    if valid_utf8(t) {
        Content::Text(decode_utf8(t))
    } else {
        Content::Text(latin1(t))
    }
}

/// Whether no word of `d` is a UTF-16 surrogate.
pub open spec fn no_surrogate_words(d: Seq<u8>) -> bool {
    forall|i: int| 0 <= i < le_words(d).len() ==> !is_surrogate(#[trigger] le_words(d)[i])
}

/// The text of an unknown format read as UTF-16LE without its trailing
/// NULs.
pub open spec fn utf16le_guess(d: Seq<u8>) -> Seq<char> {
    without_trailing_nuls(utf16_lossy(le_words(d)))
}

/// Any other format: UTF-8 up to the last nonzero byte; else, for an even
/// length of at least two bytes with no surrogate word, UTF-16LE without
/// trailing NULs when that is not empty; else a dump.
pub open spec fn best_effort_content(d: Seq<u8>) -> Content {
    let t = without_trailing_zeros(d);
    if valid_utf8(t) {
        Content::Text(decode_utf8(t))
    } else if d.len() >= 2 && d.len() % 2 == 0 && no_surrogate_words(d) && utf16le_guess(d).len()
        > 0 {
        Content::Text(utf16le_guess(d))
    } else {
        binary_content(d)
    }
}

/// The body of a FileMaker entry: after the 4-byte length prefix, as many
/// bytes as it declares or as there are.
pub open spec fn filemaker_body(d: Seq<u8>) -> Seq<u8> {
    let declared = le_u32_at(d, 0);
    let end = if d.len() < 4 + declared { d.len() as int } else { 4 + declared as int };
    d.subrange(4, end)
}

/// FileMaker formats: the body as UTF-8 text; a dump when there is no
/// complete length prefix or the body is not valid UTF-8.
pub open spec fn filemaker_content(d: Seq<u8>) -> Content {
    if d.len() < 4 {
        binary_content(d)
    } else if valid_utf8(filemaker_body(d)) {
        Content::Text(decode_utf8(filemaker_body(d)))
    } else {
        binary_content(d)
    }
}

/// Raw bytes as a hex dump of their first 256 bytes.
pub fn hex_block(data: &[u8]) -> (c: ContentKind)
    ensures
        c@ == binary_content(data@),
{
    let mut hex = String::new();
    push_hex_dump(&mut hex, data);
    ContentKind::Binary { size: data.len(), hex_preview: hex }
}

/// The little-endian word made of two bytes.
fn le_u16(lo: u8, hi: u8) -> (w: u16)
    ensures
        w as nat == lo as nat + 256 * (hi as nat),
{
    lo as u16 + (hi as u16) * 256
}

/// The little-endian 32-bit value at byte `i`.
pub fn read_le_u32(d: &[u8], i: usize) -> (v: u64)
    requires
        i + 4 <= d@.len(),
    ensures
        v as nat == le_u32_at(d@, i as int),
        v < 0x1_0000_0000,
{
    d[i] as u64 + 256 * (d[i + 1] as u64) + 65536 * (d[i + 2] as u64) + 16777216 * (d[i + 3] as u64)
}

/// The little-endian words of `d`, stopping before the first zero word when
/// `stop_at_zero` is set.
fn words_of(d: &[u8], stop_at_zero: bool) -> (w: Vec<u16>)
    ensures
        !stop_at_zero ==> w@ == le_words(d@),
        stop_at_zero ==> w@ == before_first_zero(le_words(d@)),
{
    let ghost all = le_words(d@);
    let n: usize = d.len() / 2;
    let mut w: Vec<u16> = Vec::new();
    let mut i: usize = 0;
    while i < n
        invariant_except_break
            n == all.len(),
            n == d@.len() / 2,
            all == le_words(d@),
            i <= n,
            w@ == all.take(i as int),
            stop_at_zero ==> first_zero_from(all, 0) == first_zero_from(all, i as nat),
        ensures
            !stop_at_zero ==> w@ == all,
            stop_at_zero ==> w@ == before_first_zero(all),
        decreases n - i,
    {
        assert(2 * i + 1 < d.len()) by (nonlinear_arith)
            requires
                i < n,
                n == d.len() / 2,
        ;
        let x = le_u16(d[2 * i], d[2 * i + 1]);
        assert(x == all[i as int]);
        if stop_at_zero && x == 0 {
            break;
        }
        w.push(x);
        proof {
            assert(all.take(i + 1) =~= all.take(i as int).push(x));
        }
        i = i + 1;
    }
    proof {
        if !stop_at_zero {
            assert(all.take(n as int) =~= all);
        }
    }
    w
}

/// Decodes UTF-16LE (the standard Windows Unicode clipboard format).
pub fn decode_utf16le(data: &[u8]) -> (c: ContentKind)
    ensures
        c@ == utf16le_content(data@),
{
    if data.len() < 2 {
        return hex_block(data);
    }
    let words = words_of(data, true);
    ContentKind::Text(utf16_lossy_string(&words))
}

/// Decodes plain-text clipboard formats (CF_TEXT, the HTML format, etc.).
pub fn decode_ansi(data: &[u8]) -> (c: ContentKind)
    ensures
        c@ == ansi_content(data@),
{
    let n = trimmed_zero_len(data);
    let trimmed = &data[0..n];
    match utf8_string(trimmed) {
        Some(s) => ContentKind::Text(s),
        None => ContentKind::Text(latin1_string(trimmed)),
    }
}

/// Whether some word of `words` is a UTF-16 surrogate.
fn has_surrogate(words: &[u16]) -> (r: bool)
    ensures
        r == exists|i: int| 0 <= i < words@.len() && is_surrogate(#[trigger] words@[i]),
{
    let mut i: usize = 0;
    while i < words.len()
        invariant
            i <= words.len(),
            forall|k: int| 0 <= k < i ==> !is_surrogate(#[trigger] words@[k]),
        decreases words.len() - i,
    {
        if 0xD800 <= words[i] && words[i] <= 0xDFFF {
            return true;
        }
        i = i + 1;
    }
    false
}

/// Tries UTF-8, then UTF-16LE, then falls back to a hex dump.
pub fn decode_best_effort(data: &[u8]) -> (c: ContentKind)
    ensures
        c@ == best_effort_content(data@),
{
    let n = trimmed_zero_len(data);
    let trimmed = &data[0..n];
    if let Some(s) = utf8_string(trimmed) {
        return ContentKind::Text(s);
    }
    if data.len() >= 2 && data.len() % 2 == 0 {
        let words = words_of(data, false);
        if !has_surrogate(&words) {
            let decoded = utf16_lossy_string(&words);
            let s = trim_trailing_nuls(decoded.as_str());
            if !s.as_str().is_empty() {
                return ContentKind::Text(s);
            }
        }
    }
    hex_block(data)
}

/// Decodes FileMaker's clipboard format: a 4-byte little-endian length
/// prefix and a UTF-8 XML body.
pub fn decode_filemaker(data: &[u8]) -> (c: ContentKind)
    ensures
        c@ == filemaker_content(data@),
{
    if data.len() < 4 {
        return hex_block(data);
    }
    let declared = read_le_u32(data, 0);
    let end: usize = if (data.len() as u64) < 4 + declared {
        data.len()
    } else {
        (4 + declared) as usize
    };
    let body = &data[4..end];
    match utf8_string(body) {
        Some(s) => ContentKind::Text(s),
        None => hex_block(data),
    }
}

} // verus!
