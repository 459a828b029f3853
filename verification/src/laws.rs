//! Properties that hold across the decoders and renderers.

use vstd::prelude::*;
use crate::base64_text::{base64_encode, base64_len};
use crate::decode::{binary_content, le_u16_at, le_u32_at};
use crate::dib::{bmp_file, le_u32_bytes, pixel_offset};
use crate::digits::hex_padded;
use crate::formatter::{content_text, hex_text, kind_label, truncation_line};
use crate::parser::{blocks_for, entry_ids, is_preview_format_id, Content, FormatBlock};
use crate::clipboard::{format_display_name, ClipboardEntry};
use crate::decode::best_effort_content;
use crate::dib::dib_content;
use crate::digits::{decimal, decimal_char, hex_char};
use crate::parser::{block_for, filemaker_description, final_content};
use crate::decode::{filemaker_content, utf16le_content as unicode_text_content};
use crate::hexdump::shown_char;
use crate::formatter::sidebar_text;
use crate::decode::{
    ansi_content, before_first_zero, filemaker_body, first_zero_from, le_word_bytes, le_words,
    utf16le_content,
};
use crate::unicode::encode_utf16;
use vstd::utf8::{char_is_scalar, char_u32_cast, encode_utf8_decode_utf8, encode_utf8_valid_utf8, is_scalar, last_continuation_byte};
use crate::unicode::{latin1, without_trailing_zeros, zero_trimmed_len};
use vstd::utf8::{decode_utf8, decode_utf8_encode_utf8, encode_scalar, encode_utf8, valid_utf8};
use crate::hexdump::{
    char_column, dump_row, dump_rows, hex_column, hex_dump, preview_len, row_chunk, row_count,
    spaces,
};
use crate::unicode::{
    drop_trailing_white_space, is_surrogate, is_white_space, skip_white_space, trim_white_space,
    utf16_lossy,
};

verus! {

/// A zero-padded hex rendering has exactly the requested width.
pub proof fn lemma_hex_padded_len(n: nat, width: nat)
    ensures
        hex_padded(n, width).len() == width,
    decreases width,
{
    if width > 0 {
        lemma_hex_padded_len(n / 16, (width - 1) as nat);
    }
}

/// The hex column takes three characters per byte.
pub proof fn lemma_hex_column_len(chunk: Seq<u8>)
    ensures
        hex_column(chunk).len() == 3 * chunk.len(),
    decreases chunk.len(),
{
    if chunk.len() > 0 {
        lemma_hex_column_len(chunk.drop_last());
        lemma_hex_padded_len(chunk.last() as nat, 2);
    }
}

/// A row of up to sixteen bytes takes sixty characters plus one per byte.
pub proof fn lemma_dump_row_len(offset: nat, chunk: Seq<u8>)
    requires
        chunk.len() <= 16,
    ensures
        dump_row(offset, chunk).len() == 60 + chunk.len(),
{
    lemma_hex_padded_len(offset, 8);
    lemma_hex_column_len(chunk);
    assert(spaces((3 * (16 - chunk.len())) as nat).len() == 3 * (16 - chunk.len()));
    assert(char_column(chunk).len() == chunk.len());
}

/// The first `count` rows of a dump take sixty characters per row plus one
/// per byte shown.
pub proof fn lemma_dump_rows_len(d: Seq<u8>, count: nat)
    requires
        count <= row_count(d.len()),
    ensures
        dump_rows(d, count).len() == 60 * count + (if 16 * count <= d.len() {
            16 * count as int
        } else {
            d.len() as int
        }),
    decreases count,
{
    if count > 0 {
        let r = (count - 1) as nat;
        lemma_dump_rows_len(d, r);
        assert(16 * r < d.len());
        lemma_dump_row_len(16 * r, row_chunk(d, r));
    }
}

/// Every row of a dump has the same layout, so a dump of `data` is sixty
/// characters per row plus one per byte shown, with sixteen bytes to a row
/// and at most 256 bytes shown.
pub proof fn law_hex_dump_len(data: Seq<u8>)
    ensures
        hex_dump(data).len() == 60 * row_count(preview_len(data.len())) + preview_len(data.len()),
        row_count(preview_len(data.len())) <= 16,
{
    let m = preview_len(data.len());
    let shown = data.take(m as int);
    lemma_dump_rows_len(shown, row_count(m));
}

/// A binary block renders as the hex dump of its bytes; the dump of data
/// over 256 bytes adds only the line that says how much was left out.
pub proof fn law_binary_block_is_hex_dump(data: Seq<u8>)
    ensures
        hex_text(data) == content_text(binary_content(data)) + if data.len() > 256 {
            truncation_line(data.len())
        } else {
            seq![]
        },
{
    assert(hex_text(data) =~= content_text(binary_content(data)) + if data.len() > 256 {
        truncation_line(data.len())
    } else {
        seq![]
    });
}

/// The padded base64 encoding has four characters for every started group
/// of three bytes.
pub proof fn law_base64_len(d: Seq<u8>)
    ensures
        base64_encode(d).len() == base64_len(d.len()),
    decreases d.len(),
{
    if d.len() >= 3 {
        law_base64_len(d.skip(3));
    }
}

/// UTF-16 without surrogates decodes losslessly: each unit is the character
/// with its code.
pub proof fn law_utf16_without_surrogates(u: Seq<u16>)
    requires
        forall|i: int| 0 <= i < u.len() ==> !is_surrogate(#[trigger] u[i]),
    ensures
        utf16_lossy(u) == u.map_values(|x: u16| x as char),
    decreases u.len(),
{
    if u.len() > 0 {
        let rest = u.drop_first();
        assert forall|i: int| 0 <= i < rest.len() implies !is_surrogate(#[trigger] rest[i]) by {
            assert(rest[i] == u[i + 1]);
        }
        law_utf16_without_surrogates(rest);
        assert(!is_surrogate(u[0]));
        assert(utf16_lossy(u) =~= u.map_values(|x: u16| x as char));
    }
}

/// The 32-bit value written as four little-endian bytes reads back.
pub proof fn lemma_le_u32_roundtrip(v: nat)
    requires
        v < 0x1_0000_0000,
    ensures
        le_u32_bytes(v).len() == 4,
        le_u32_at(le_u32_bytes(v), 0) == v,
{
    reveal(le_u32_bytes);
    let b = le_u32_bytes(v);
    assert(b[0] as nat == v % 256);
    assert(b[1] as nat == (v / 256) % 256);
    assert(b[2] as nat == (v / 65536) % 256);
    assert(b[3] as nat == (v / 16777216) % 256);
    assert(v % 256 + 256 * ((v / 256) % 256) + 65536 * ((v / 65536) % 256) + 16777216 * ((v
        / 16777216) % 256) == v) by (nonlinear_arith)
        requires
            v < 0x1_0000_0000,
    ;
}

/// The BMP file built from a DIB starts with "BM", records its own size and
/// the pixel offset in its header, and holds the DIB unchanged after the
/// fourteen header bytes.
pub proof fn law_bmp_file_layout(d: Seq<u8>)
    ensures
        bmp_file(d).len() == d.len() + 14,
        bmp_file(d)[0] == 66u8,
        bmp_file(d)[1] == 77u8,
        le_u32_at(bmp_file(d), 2) == (d.len() + 14) % 0x1_0000_0000,
        le_u32_at(bmp_file(d), 10) == pixel_offset(d),
        bmp_file(d).skip(14) == d,
{
    let size = ((14 + d.len()) % 0x1_0000_0000) as nat;
    let off = pixel_offset(d);
    lemma_le_u32_roundtrip(size);
    lemma_le_u32_roundtrip(off);
    let b = bmp_file(d);
    let sb = le_u32_bytes(size);
    let ob = le_u32_bytes(off);
    assert(b[2] == sb[0] && b[3] == sb[1] && b[4] == sb[2] && b[5] == sb[3]);
    assert(b[10] == ob[0] && b[11] == ob[1] && b[12] == ob[2] && b[13] == ob[3]);
    assert(b.skip(14) =~= d);
}

/// The first index that skipping white space stops at: everything before
/// it from `i` is white space, and it is the end or not white space.
pub proof fn lemma_skip_white_space(s: Seq<char>, i: nat)
    requires
        i <= s.len(),
    ensures
        i <= skip_white_space(s, i) <= s.len(),
        forall|k: int| i <= k < skip_white_space(s, i) ==> is_white_space(#[trigger] s[k]),
        skip_white_space(s, i) == s.len() || !is_white_space(s[skip_white_space(s, i) as int]),
    decreases s.len() - i,
{
    if i < s.len() && is_white_space(s[i as int]) {
        lemma_skip_white_space(s, i + 1);
    }
}

/// Dropping trailing white space from `s.subrange(lo, j)` stops at an end
/// after which everything up to `j` is white space, and before which is
/// `lo` or a character that is not white space.
pub proof fn lemma_drop_trailing_white_space(s: Seq<char>, lo: nat, j: nat)
    requires
        lo <= j <= s.len(),
    ensures
        lo <= drop_trailing_white_space(s, lo, j) <= j,
        forall|k: int|
            drop_trailing_white_space(s, lo, j) <= k < j ==> is_white_space(#[trigger] s[k]),
        drop_trailing_white_space(s, lo, j) == lo || !is_white_space(
            s[drop_trailing_white_space(s, lo, j) - 1],
        ),
    decreases j,
{
    if j > lo && is_white_space(s[j - 1]) {
        lemma_drop_trailing_white_space(s, lo, (j - 1) as nat);
    }
}

/// Trimming removes exactly the white space at both ends: the result is a
/// contiguous part of the input that neither starts nor ends with white
/// space, and everything around it is white space.
pub proof fn law_trim_white_space(s: Seq<char>)
    ensures
        exists|a: int, b: int|
            0 <= a <= b <= s.len() && trim_white_space(s) == s.subrange(a, b) && (forall|k: int|
                0 <= k < a ==> is_white_space(#[trigger] s[k])) && (forall|k: int|
                b <= k < s.len() ==> is_white_space(#[trigger] s[k])),
        trim_white_space(s).len() > 0 ==> !is_white_space(trim_white_space(s)[0])
            && !is_white_space(trim_white_space(s).last()),
{
    let a = skip_white_space(s, 0);
    lemma_skip_white_space(s, 0);
    let b = drop_trailing_white_space(s, a, s.len());
    lemma_drop_trailing_white_space(s, a, s.len());
    let t = trim_white_space(s);
    assert(t == s.subrange(a as int, b as int));
    if t.len() > 0 {
        assert(t[0] == s[a as int]);
        assert(t.last() == s[b - 1]);
    }
}


/// When CF_UNICODETEXT is on the clipboard, the CF_TEXT and CF_OEMTEXT
/// blocks that parsing yields are flagged as duplicates.
pub proof fn law_ansi_text_flagged_beside_unicode(
    blocks: Seq<FormatBlock>,
    all: Seq<ClipboardEntry>,
    i: int,
)
    requires
        blocks_for(blocks, all),
        entry_ids(all).contains(13),
        0 <= i < blocks.len(),
        blocks[i].format_id == 1 || blocks[i].format_id == 7,
    ensures
        blocks[i].is_preview,
{
}

/// Blocks of the bitmap-handle, metafile, palette, enhanced-metafile and
/// locale formats are always flagged as previews, and a block is flagged
/// only for one of the reasons that [`crate::parser::preview_entry`] names.
pub proof fn law_preview_formats_flagged(blocks: Seq<FormatBlock>, all: Seq<ClipboardEntry>, i: int)
    requires
        blocks_for(blocks, all),
        0 <= i < blocks.len(),
    ensures
        is_preview_format_id(blocks[i].format_id) ==> blocks[i].is_preview,
        blocks[i].is_preview ==> is_preview_format_id(blocks[i].format_id)
            || blocks[i].format_name@ == "Mac-PICT"@ || ((blocks[i].format_id == 1
            || blocks[i].format_id == 7) && entry_ids(all).contains(13)),
{
}

/// A block has a data URL exactly when its content-type tag is `image`.
pub proof fn law_image_url_iff_image_label(c: Content)
    ensures
        (c is Image) <==> kind_label(c) == "image"@,
{
    reveal_strlit("image");
    reveal_strlit("text");
    reveal_strlit("xml");
    reveal_strlit("binary");
    if !(c is Image) {
        assert(kind_label(c).len() != 5 || kind_label(c)[0] != 'i');
    }
}

/// The body of a FileMaker entry never runs past the length its prefix
/// declares, and is the data that follows the prefix.
pub proof fn law_filemaker_body_within_declared(d: Seq<u8>)
    requires
        d.len() >= 4,
    ensures
        filemaker_body(d).len() <= le_u32_at(d, 0),
        filemaker_body(d) == d.skip(4).take(filemaker_body(d).len() as int),
{
    assert(filemaker_body(d) =~= d.skip(4).take(filemaker_body(d).len() as int));
}


/// Removing trailing zero bytes leaves a prefix that is empty or ends with
/// a nonzero byte.
pub proof fn lemma_zero_trimmed_len(d: Seq<u8>, j: nat)
    requires
        j <= d.len(),
    ensures
        zero_trimmed_len(d, j) <= j,
        zero_trimmed_len(d, j) == 0 || d[zero_trimmed_len(d, j) - 1] != 0,
    decreases j,
{
    if j > 0 && d[j - 1] == 0 {
        lemma_zero_trimmed_len(d, (j - 1) as nat);
    }
}

/// The UTF-8 encoding of characters that end with NUL ends with a zero byte.
pub proof fn lemma_encode_utf8_last_nul(chars: Seq<char>)
    requires
        chars.len() > 0,
        chars.last() == '\0',
    ensures
        encode_utf8(chars).len() > 0,
        encode_utf8(chars).last() == 0,
    decreases chars.len(),
{
    let first = encode_scalar(chars[0] as u32);
    assert(first.len() > 0);
    if chars.len() == 1 {
        assert(chars.drop_first().len() == 0);
        assert(encode_utf8(chars.drop_first()) =~= Seq::<u8>::empty());
        assert((0u32 & 0x7F) as u8 == 0u8) by (bit_vector);
        assert(encode_utf8(chars) =~= first);
    } else {
        let rest = chars.drop_first();
        assert(rest.last() == chars.last());
        lemma_encode_utf8_last_nul(rest);
        assert(encode_utf8(chars) == first + encode_utf8(rest));
    }
}

/// Text decoded from CF_TEXT, CF_OEMTEXT or the HTML format never ends with
/// the NUL terminator: trailing zero bytes are dropped before decoding,
/// whether the bytes are read as UTF-8 or as Latin-1.
pub proof fn law_ansi_text_drops_nul_terminator(d: Seq<u8>)
    ensures
        ansi_content(d) matches Content::Text(t) && (t.len() > 0 ==> t.last() != '\0'),
{
    let t = without_trailing_zeros(d);
    lemma_zero_trimmed_len(d, d.len());
    assert(t.len() == 0 || t.last() != 0);
    if valid_utf8(t) {
        let chars = decode_utf8(t);
        decode_utf8_encode_utf8(t);
        if chars.len() > 0 && chars.last() == '\0' {
            lemma_encode_utf8_last_nul(chars);
        }
    } else {
        let chars = latin1(t);
        if chars.len() > 0 {
            assert(chars.last() == t.last() as char);
        }
    }
}


/// Little-endian bytes of words read back as the same words.
pub proof fn lemma_le_words_of_bytes(w: Seq<u16>)
    ensures
        le_words(le_word_bytes(w)) == w,
{
    let d = le_word_bytes(w);
    assert forall|i: int| 0 <= i < w.len() implies #[trigger] le_words(d)[i] == w[i] by {
        assert(d[2 * i] == (w[i] % 256) as u8);
        assert(d[2 * i + 1] == (w[i] / 256) as u8);
    }
    assert(le_words(d) =~= w);
}

/// The first zero word of `w` is at `n` when the words before it are
/// nonzero.
pub proof fn lemma_first_zero_from(w: Seq<u16>, n: nat, i: nat)
    requires
        i <= n < w.len(),
        w[n as int] == 0,
        forall|k: int| 0 <= k < n ==> w[k] != 0,
    ensures
        first_zero_from(w, i) == n,
    decreases n - i,
{
    if i < n {
        lemma_first_zero_from(w, n, i + 1);
    }
}

/// UTF-16 encoding of characters without NUL holds no zero unit, and
/// decoding it gives the characters back.
pub proof fn lemma_utf16_roundtrip(s: Seq<char>)
    requires
        !s.contains('\0'),
    ensures
        utf16_lossy(encode_utf16(s)) == s,
        forall|k: int| 0 <= k < encode_utf16(s).len() ==> encode_utf16(s)[k] != 0,
    decreases s.len(),
{
    if s.len() > 0 {
        let rest = s.drop_first();
        assert(!rest.contains('\0')) by {
            if rest.contains('\0') {
                let k = choose|k: int| 0 <= k < rest.len() && rest[k] == '\0';
                assert(s[k + 1] == '\0');
            }
        }
        lemma_utf16_roundtrip(rest);
        let c = s[0] as u32;
        char_is_scalar(s[0]);
        char_u32_cast(s[0], c);
        assert(s[0] != '\0');
        let e = encode_utf16(s);
        let er = encode_utf16(rest);
        if c < 0x10000 {
            let u = c as u16;
            assert(e == seq![u] + er);
            assert(!is_surrogate(u));
            assert(e.drop_first() =~= er);
            assert(u as char == s[0]);
            assert(utf16_lossy(e) =~= s);
        } else {
            let x = c - 0x10000;
            let hi = (0xD800 + x / 0x400) as u16;
            let lo = (0xDC00 + x % 0x400) as u16;
            assert(e == seq![hi, lo] + er);
            assert(0x10000 + (hi - 0xD800) * 0x400 + (lo - 0xDC00) == c);
            assert(e.subrange(2, e.len() as int) =~= er);
            assert(utf16_lossy(e) =~= s);
        }
    }
}

/// NUL-terminated UTF-16LE text without NUL, as CF_UNICODETEXT holds it,
/// decodes back to the text.
pub proof fn law_utf16le_roundtrip(s: Seq<char>)
    requires
        !s.contains('\0'),
    ensures
        utf16le_content(le_word_bytes(encode_utf16(s).push(0))) == Content::Text(s),
{
    let units = encode_utf16(s);
    let w = units.push(0);
    lemma_utf16_roundtrip(s);
    lemma_le_words_of_bytes(w);
    lemma_first_zero_from(w, units.len(), 0);
    assert(before_first_zero(w) =~= units);
}

/// The UTF-8 encoding of characters that do not end with NUL does not end
/// with a zero byte.
pub proof fn lemma_encode_utf8_last_nonzero(chars: Seq<char>)
    requires
        chars.len() > 0,
        chars.last() != '\0',
    ensures
        encode_utf8(chars).len() > 0,
        encode_utf8(chars).last() != 0,
    decreases chars.len(),
{
    let c = chars[0] as u32;
    let first = encode_scalar(c);
    char_is_scalar(chars[0]);
    assert(first.len() > 0);
    if chars.len() == 1 {
        char_u32_cast(chars[0], c);
        assert(c != 0);
        assert(encode_utf8(chars.drop_first()) =~= Seq::<u8>::empty());
        assert(encode_utf8(chars) =~= first);
        if c <= 0x7f {
            assert(c != 0 && c <= 0x7f ==> (c & 0x7F) as u8 != 0u8) by (bit_vector);
        } else {
            assert((0x80u8 | (c & 0x3F) as u8) != 0u8) by (bit_vector);
            assert(first.last() == last_continuation_byte(c));
        }
    } else {
        let rest = chars.drop_first();
        assert(rest.last() == chars.last());
        lemma_encode_utf8_last_nonzero(rest);
        assert(encode_utf8(chars) == first + encode_utf8(rest));
    }
}

/// Removing trailing zeros from `d` stops at `n` when everything after `n`
/// is zero and the byte before it is not.
pub proof fn lemma_zero_trimmed_at(d: Seq<u8>, n: nat, j: nat)
    requires
        n <= j <= d.len(),
        forall|k: int| n <= k < d.len() ==> d[k] == 0,
        n == 0 || d[n - 1] != 0,
    ensures
        zero_trimmed_len(d, j) == n,
    decreases j,
{
    if j > n {
        lemma_zero_trimmed_at(d, n, (j - 1) as nat);
    }
}

/// Text that does not end with NUL, written as UTF-8 followed by any number
/// of NUL bytes, decodes back to the text as CF_TEXT.
pub proof fn law_ansi_roundtrip(s: Seq<char>, nuls: nat)
    requires
        s.len() == 0 || s.last() != '\0',
    ensures
        ansi_content(encode_utf8(s) + Seq::new(nuls, |i: int| 0u8)) == Content::Text(s),
{
    let b = encode_utf8(s);
    let d = b + Seq::new(nuls, |i: int| 0u8);
    if s.len() > 0 {
        lemma_encode_utf8_last_nonzero(s);
        assert(d[b.len() - 1] == b.last());
    } else {
        assert(b =~= Seq::<u8>::empty());
    }
    lemma_zero_trimmed_at(d, b.len(), d.len());
    assert(without_trailing_zeros(d) =~= b);
    encode_utf8_valid_utf8(s);
    encode_utf8_decode_utf8(s);
}


/// Parsing flags a block as a preview exactly when its entry is CF_BITMAP
/// (2), CF_METAFILEPICT (3), CF_PALETTE (9), CF_ENHMETAFILE (14) or
/// CF_LOCALE (16), is named `Mac-PICT`, or is CF_TEXT (1) or CF_OEMTEXT (7)
/// on a clipboard that also holds CF_UNICODETEXT (13).
pub proof fn law_preview_flags(blocks: Seq<FormatBlock>, all: Seq<ClipboardEntry>, i: int)
    requires
        blocks_for(blocks, all),
        0 <= i < all.len(),
    ensures
        blocks[i].format_id == all[i].format_id,
        blocks[i].is_preview <==> {
            ||| all[i].format_id == 2
            ||| all[i].format_id == 3
            ||| all[i].format_id == 9
            ||| all[i].format_id == 14
            ||| all[i].format_id == 16
            ||| all[i].format_name@ == "Mac-PICT"@
            ||| (all[i].format_id == 1 || all[i].format_id == 7) && exists|j: int|
                0 <= j < all.len() && #[trigger] all[j].format_id == 13
        },
{
    let ids = entry_ids(all);
    assert(ids.len() == all.len());
    if exists|j: int| 0 <= j < all.len() && #[trigger] all[j].format_id == 13 {
        let j = choose|j: int| 0 <= j < all.len() && #[trigger] all[j].format_id == 13;
        assert(ids[j] == 13);
    }
    if ids.contains(13) {
        let j = choose|j: int| 0 <= j < ids.len() && ids[j] == 13;
        assert(all[j].format_id == 13);
    }
}

/// The absolute value of a 32-bit two's complement number given by its bits,
/// written out.
pub open spec fn abs_of_bits(x: nat) -> nat {
    if x < 0x8000_0000 {
        x
    } else {
        (0x1_0000_0000 - x) as nat
    }
}

/// A bitmap with a complete BITMAPINFOHEADER that holds at least its declared
/// header size becomes an image whose width and height are the absolute
/// values of biWidth and biHeight (so at most 2^31; a top-down bitmap with a
/// negative height gets its positive height), and whose data URL is the BMP
/// file in base64.
pub proof fn law_dib_image(d: Seq<u8>)
    requires
        d.len() >= 40,
        d.len() >= le_u32_at(d, 0),
    ensures
        dib_content(d) matches Content::Image { width, height, data_url } && width as nat
            == abs_of_bits(le_u32_at(d, 4)) && height as nat == abs_of_bits(le_u32_at(d, 8))
            && width <= 0x8000_0000u32 && height <= 0x8000_0000u32 && data_url
            == "data:image/bmp;base64,"@ + base64_encode(bmp_file(d)),
{
}

/// Parsing a CF_DIB (8) or CF_DIBV5 (17) entry whose data holds a complete
/// BITMAPINFOHEADER and its declared header size yields an image of the
/// header's absolute width and height with the BMP file as a data URL.
pub proof fn law_bitmap_entries_become_images(b: FormatBlock, e: ClipboardEntry, preview: bool)
    requires
        block_for(b, e, preview),
        e.format_id == 8 || e.format_id == 17,
        e.data@.len() >= 40,
        e.data@.len() >= le_u32_at(e.data@, 0),
    ensures
        b.content@ matches Content::Image { width, height, data_url } && width as nat
            == abs_of_bits(le_u32_at(e.data@, 4)) && height as nat == abs_of_bits(
            le_u32_at(e.data@, 8),
        ) && data_url == "data:image/bmp;base64,"@ + base64_encode(bmp_file(e.data@)),
{
    law_dib_image(e.data@);
}

/// An unknown format whose bytes up to the last nonzero one are valid UTF-8
/// is that UTF-8 text, whatever the length's parity.
pub proof fn law_best_effort_prefers_utf8(d: Seq<u8>)
    requires
        valid_utf8(without_trailing_zeros(d)),
    ensures
        best_effort_content(d) == Content::Text(decode_utf8(without_trailing_zeros(d))),
{
}

/// The names of the standard clipboard formats, whatever name is registered
/// for them, and the fallback for any other ID.
pub proof fn law_standard_format_names(id: u32, registered: Seq<u16>)
    ensures
        id == 1 ==> format_display_name(id, registered) == "CF_TEXT"@,
        id == 2 ==> format_display_name(id, registered) == "CF_BITMAP"@,
        id == 3 ==> format_display_name(id, registered) == "CF_METAFILEPICT"@,
        id == 4 ==> format_display_name(id, registered) == "CF_SYLK"@,
        id == 5 ==> format_display_name(id, registered) == "CF_DIF"@,
        id == 6 ==> format_display_name(id, registered) == "CF_TIFF"@,
        id == 7 ==> format_display_name(id, registered) == "CF_OEMTEXT"@,
        id == 8 ==> format_display_name(id, registered) == "CF_DIB"@,
        id == 9 ==> format_display_name(id, registered) == "CF_PALETTE"@,
        id == 10 ==> format_display_name(id, registered) == "CF_PENDATA"@,
        id == 11 ==> format_display_name(id, registered) == "CF_RIFF"@,
        id == 12 ==> format_display_name(id, registered) == "CF_WAVE"@,
        id == 13 ==> format_display_name(id, registered) == "CF_UNICODETEXT"@,
        id == 14 ==> format_display_name(id, registered) == "CF_ENHMETAFILE"@,
        id == 15 ==> format_display_name(id, registered) == "CF_HDROP"@,
        id == 16 ==> format_display_name(id, registered) == "CF_LOCALE"@,
        id == 17 ==> format_display_name(id, registered) == "CF_DIBV5"@,
        (id == 0 || id > 17) && registered.len() > 0 ==> format_display_name(id, registered)
            == utf16_lossy(registered),
        (id == 0 || id > 17) && registered.len() == 0 ==> format_display_name(id, registered)
            == seq!['#'] + decimal(id as nat),
{
}


/// Which decoder parsing uses for an entry: CF_UNICODETEXT (13) as UTF-16LE,
/// CF_TEXT (1) and CF_OEMTEXT (7) as ANSI text, the `HTML Format` as ANSI
/// text, the six FileMaker formats by their length-prefixed body, and any
/// other format by the best guess; bitmaps are covered by
/// [`law_bitmap_entries_become_images`].
pub proof fn law_decoder_for_entry(b: FormatBlock, e: ClipboardEntry, preview: bool)
    requires
        block_for(b, e, preview),
    ensures
        e.format_id == 13 ==> b.content@ == final_content(unicode_text_content(e.data@)),
        e.format_id == 1 || e.format_id == 7 ==> b.content@ == final_content(
            ansi_content(e.data@),
        ),
        ({
            let id = e.format_id;
            let n = e.format_name@;
            let other_id = id != 1 && id != 7 && id != 8 && id != 13 && id != 17;
            &&& other_id && n == "HTML Format"@ ==> b.content@ == final_content(
                ansi_content(e.data@),
            )
            &&& other_id && n != "HTML Format"@ && (n == "Mac-XMFD"@ || n == "Mac-XMSC"@ || n
                == "Mac-XMSS"@ || n == "Mac-XML2"@ || n == "Mac-XMFN"@ || n == "Mac-XMTB"@)
                ==> b.content@ == final_content(filemaker_content(e.data@))
            &&& other_id && n != "HTML Format"@ && n != "Mac-XMFD"@ && n != "Mac-XMSC"@ && n
                != "Mac-XMSS"@ && n != "Mac-XML2"@ && n != "Mac-XMFN"@ && n != "Mac-XMTB"@
                ==> b.content@ == final_content(best_effort_content(e.data@))
        }),
{
}

/// The FileMaker clipboard formats and their descriptions; no other name has
/// one, and the sidebar shows the description in place of the name.
pub proof fn law_filemaker_descriptions(name: Seq<char>)
    ensures
        name == "Mac-XMFD"@ ==> filemaker_description(name) == Some("FileMaker Field"@),
        name == "Mac-XMSC"@ ==> filemaker_description(name) == Some("FileMaker Script"@),
        name == "Mac-XMSS"@ ==> filemaker_description(name) == Some("FileMaker Script Step"@),
        name == "Mac-XML2"@ ==> filemaker_description(name) == Some("FileMaker Layout Object"@),
        name == "Mac-XMFN"@ ==> filemaker_description(name) == Some(
            "FileMaker Custom Function"@,
        ),
        name == "Mac-XMTB"@ ==> filemaker_description(name) == Some("FileMaker Table"@),
        name != "Mac-XMFD"@ && name != "Mac-XMSC"@ && name != "Mac-XMSS"@ && name
            != "Mac-XML2"@ && name != "Mac-XMFN"@ && name != "Mac-XMTB"@ ==> filemaker_description(
            name,
        ) is None && sidebar_text(name) == name,
        filemaker_description(name) matches Some(label) ==> sidebar_text(name) == label,
{
    reveal_strlit("Mac-XMFD");
    reveal_strlit("Mac-XMSC");
    reveal_strlit("Mac-XMSS");
    reveal_strlit("Mac-XML2");
    reveal_strlit("Mac-XMFN");
    reveal_strlit("Mac-XMTB");
    assert("Mac-XMSC"@ != "Mac-XMFD"@) by {
        assert("Mac-XMSC"@[6] != "Mac-XMFD"@[6]);
    }
    assert("Mac-XMSS"@ != "Mac-XMFD"@) by {
        assert("Mac-XMSS"@[6] != "Mac-XMFD"@[6]);
    }
    assert("Mac-XMSS"@ != "Mac-XMSC"@) by {
        assert("Mac-XMSS"@[7] != "Mac-XMSC"@[7]);
    }
    assert("Mac-XML2"@ != "Mac-XMFD"@) by {
        assert("Mac-XML2"@[6] != "Mac-XMFD"@[6]);
    }
    assert("Mac-XML2"@ != "Mac-XMSC"@) by {
        assert("Mac-XML2"@[6] != "Mac-XMSC"@[6]);
    }
    assert("Mac-XML2"@ != "Mac-XMSS"@) by {
        assert("Mac-XML2"@[6] != "Mac-XMSS"@[6]);
    }
    assert("Mac-XMFN"@ != "Mac-XMFD"@) by {
        assert("Mac-XMFN"@[7] != "Mac-XMFD"@[7]);
    }
    assert("Mac-XMFN"@ != "Mac-XMSC"@) by {
        assert("Mac-XMFN"@[6] != "Mac-XMSC"@[6]);
    }
    assert("Mac-XMFN"@ != "Mac-XMSS"@) by {
        assert("Mac-XMFN"@[6] != "Mac-XMSS"@[6]);
    }
    assert("Mac-XMFN"@ != "Mac-XML2"@) by {
        assert("Mac-XMFN"@[6] != "Mac-XML2"@[6]);
    }
    assert("Mac-XMTB"@ != "Mac-XMFD"@) by {
        assert("Mac-XMTB"@[6] != "Mac-XMFD"@[6]);
    }
    assert("Mac-XMTB"@ != "Mac-XMSC"@) by {
        assert("Mac-XMTB"@[6] != "Mac-XMSC"@[6]);
    }
    assert("Mac-XMTB"@ != "Mac-XMSS"@) by {
        assert("Mac-XMTB"@[6] != "Mac-XMSS"@[6]);
    }
    assert("Mac-XMTB"@ != "Mac-XML2"@) by {
        assert("Mac-XMTB"@[6] != "Mac-XML2"@[6]);
    }
    assert("Mac-XMTB"@ != "Mac-XMFN"@) by {
        assert("Mac-XMTB"@[6] != "Mac-XMFN"@[6]);
    }
}

/// The content-type tags.
pub proof fn law_kind_labels(c: Content)
    ensures
        c is Text ==> kind_label(c) == "text"@,
        c is Xml ==> kind_label(c) == "xml"@,
        c is Binary ==> kind_label(c) == "binary"@,
        c is Image ==> kind_label(c) == "image"@,
{
}

/// The character column of a dump shows the space and the printable ASCII
/// bytes 0x21 to 0x7E as themselves and every other byte as a dot.
pub proof fn law_shown_chars(b: u8)
    ensures
        0x20 <= b <= 0x7e ==> shown_char(b) == b as char,
        (b < 0x20 || b > 0x7e) ==> shown_char(b) == '.',
{
}


/// Where the pixels of the BMP file start: right after the two headers for a
/// true-colour bitmap without a colour table, after the three or four colour
/// masks that follow a 40-byte header with BI_BITFIELDS or
/// BI_ALPHABITFIELDS, and after a full palette of 2^bits entries for up to
/// eight bits per pixel when biClrUsed is zero.
pub proof fn law_pixel_offset(d: Seq<u8>)
    requires
        d.len() >= 40,
        le_u32_at(d, 0) < 0x1000,
    ensures
        le_u32_at(d, 16) != 3 && le_u32_at(d, 16) != 6 && le_u32_at(d, 32) == 0 && le_u16_at(
            d,
            14,
        ) > 8 ==> pixel_offset(d) == 14 + le_u32_at(d, 0),
        le_u32_at(d, 0) == 40 && le_u32_at(d, 16) == 3 && le_u32_at(d, 32) == 0 && le_u16_at(
            d,
            14,
        ) > 8 ==> pixel_offset(d) == 14 + 40 + 12,
        le_u32_at(d, 0) == 40 && le_u32_at(d, 16) == 6 && le_u32_at(d, 32) == 0 && le_u16_at(
            d,
            14,
        ) > 8 ==> pixel_offset(d) == 14 + 40 + 16,
        le_u32_at(d, 16) != 3 && le_u32_at(d, 16) != 6 && le_u32_at(d, 32) == 0 && le_u16_at(
            d,
            14,
        ) == 8 ==> pixel_offset(d) == 14 + le_u32_at(d, 0) + 1024,
        le_u32_at(d, 16) != 3 && le_u32_at(d, 16) != 6 && le_u32_at(d, 32) == 0 && le_u16_at(
            d,
            14,
        ) == 1 ==> pixel_offset(d) == 14 + le_u32_at(d, 0) + 8,
        le_u32_at(d, 16) != 3 && le_u32_at(d, 16) != 6 && 0 < le_u32_at(d, 32) < 0x1000
            ==> pixel_offset(d) == 14 + le_u32_at(d, 0) + 4 * le_u32_at(d, 32),
{
    reveal_with_fuel(crate::dib::pow2, 9);
}


/// The number that a string of decimal digits denotes.
pub open spec fn digits_value(s: Seq<char>) -> nat
    decreases s.len(),
{
    if s.len() == 0 {
        0
    } else {
        digits_value(s.drop_last()) * 10 + ((s.last() as u32 - '0' as u32) as nat)
    }
}

/// The code of a decimal digit character.
pub proof fn lemma_decimal_char(d: nat)
    requires
        d < 10,
    ensures
        decimal_char(d) as u32 == '0' as u32 + d,
        '0' <= decimal_char(d) <= '9',
        d > 0 ==> decimal_char(d) != '0',
{
    assert(decimal_char(d) as u32 == '0' as u32 + d);
}

/// The decimal rendering of a number is a nonempty string of ASCII digits,
/// without a leading zero unless it is `0`, that denotes the number.
pub proof fn law_decimal(n: nat)
    ensures
        decimal(n).len() > 0,
        n >= 10 ==> decimal(n).len() > 1,
        forall|i: int| 0 <= i < decimal(n).len() ==> '0' <= #[trigger] decimal(n)[i] <= '9',
        decimal(n).len() > 1 ==> decimal(n)[0] != '0',
        digits_value(decimal(n)) == n,
    decreases n,
{
    lemma_decimal_char(n % 10);
    let d = decimal(n);
    if n < 10 {
        assert(d == seq![decimal_char(n)]);
        assert(d.drop_last() =~= Seq::<char>::empty());
        assert(d.last() == decimal_char(n));
        assert(digits_value(d.drop_last()) == 0);
        assert(digits_value(d) == n);
    } else {
        law_decimal(n / 10);
        let r = decimal(n / 10);
        assert(d == r + seq![decimal_char(n % 10)]);
        assert(d.drop_last() =~= r);
        assert(d.last() == decimal_char(n % 10));
        assert forall|i: int| 0 <= i < d.len() implies '0' <= #[trigger] d[i] <= '9' by {
            if i < r.len() {
                assert(d[i] == r[i]);
            }
        }
        assert(d[0] == r[0]);
        if n / 10 < 10 {
            lemma_decimal_char(n / 10);
            assert(r == seq![decimal_char(n / 10)]);
        }
        assert(digits_value(d) == digits_value(r) * 10 + n % 10);
        assert((n / 10) * 10 + n % 10 == n);
    }
}


/// The value of a lower-case hexadecimal digit.
pub open spec fn hex_digit_value(c: char) -> nat {
    if c <= '9' {
        (c as u32 - '0' as u32) as nat
    } else {
        (c as u32 - 'a' as u32 + 10) as nat
    }
}

/// The number that a string of lower-case hexadecimal digits denotes.
pub open spec fn hex_value(s: Seq<char>) -> nat
    decreases s.len(),
{
    if s.len() == 0 {
        0
    } else {
        hex_value(s.drop_last()) * 16 + hex_digit_value(s.last())
    }
}

/// Sixteen to the power `w`.
pub open spec fn pow16(w: nat) -> nat
    decreases w,
{
    if w == 0 {
        1
    } else {
        16 * pow16((w - 1) as nat)
    }
}

/// A hex digit is one of `0`-`9`, `a`-`f`, and reads back as its value.
pub proof fn lemma_hex_char(d: nat)
    requires
        d < 16,
    ensures
        ('0' <= hex_char(d) <= '9') || ('a' <= hex_char(d) <= 'f'),
        hex_digit_value(hex_char(d)) == d,
{
    assert(hex_char(d) as u32 == if d < 10 { '0' as u32 + d } else { 'a' as u32 + d - 10 });
}

/// A zero-padded hex rendering of width `w` is `w` lower-case hex digits
/// that denote `n` modulo 16^w: the offsets and bytes of a dump read back.
pub proof fn law_hex_padded(n: nat, w: nat)
    ensures
        hex_padded(n, w).len() == w,
        forall|i: int|
            0 <= i < w ==> ('0' <= #[trigger] hex_padded(n, w)[i] <= '9') || ('a'
                <= hex_padded(n, w)[i] <= 'f'),
        hex_value(hex_padded(n, w)) == n % pow16(w),
    decreases w,
{
    if w > 0 {
        let w1 = (w - 1) as nat;
        law_hex_padded(n / 16, w1);
        lemma_hex_char(n % 16);
        let h = hex_padded(n, w);
        let r = hex_padded(n / 16, w1);
        assert(h == r + seq![hex_char(n % 16)]);
        assert(h.drop_last() =~= r);
        assert forall|i: int| 0 <= i < w implies ('0' <= #[trigger] h[i] <= '9') || ('a' <= h[i]
            <= 'f') by {
            if i < w1 {
                assert(h[i] == r[i]);
            }
        }
        assert(hex_value(h) == (n / 16) % pow16(w1) * 16 + n % 16);
        assert(pow16(w) == 16 * pow16(w1));
        assert(pow16(w1) > 0) by {
            lemma_pow16_positive(w1);
        }
        assert((n / 16) % pow16(w1) * 16 + n % 16 == n % (16 * pow16(w1))) by (nonlinear_arith)
            requires
                pow16(w1) > 0,
        {
            vstd::arithmetic::div_mod::lemma_breakdown(n as int, 16, pow16(w1) as int);
        }
    }
}

/// Powers of sixteen are positive.
pub proof fn lemma_pow16_positive(w: nat)
    ensures
        pow16(w) > 0,
    decreases w,
{
    if w > 0 {
        lemma_pow16_positive((w - 1) as nat);
    }
}

} // verus!
