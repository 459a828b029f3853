//! The hex dump used for binary clipboard data: the first 256 bytes, sixteen
//! to a row, each row with its offset, the bytes in hex and their printable
//! characters.

use vstd::prelude::*;
use crate::digits::{hex_padded, push_char, push_hex_padded};

verus! {

/// How many bytes a dump shows at most.
pub const PREVIEW_LIMIT: usize = 256;

/// The number of bytes of `len` that a dump shows.
pub open spec fn preview_len(len: nat) -> nat {
    if len < 256 { len } else { 256 }
}

/// The number of rows that `m` shown bytes take.
pub open spec fn row_count(m: nat) -> nat {
    (m + 15) / 16
}

/// A byte as the character column shows it: printable ASCII and the space
/// as themselves, everything else as a dot.
pub open spec fn shown_char(b: u8) -> char {
    if (0x21 <= b && b <= 0x7e) || b == 0x20 {
        b as char
    } else {
        '.'
    }
}

/// The hex column of a row: each byte as two digits and a space.
pub open spec fn hex_column(chunk: Seq<u8>) -> Seq<char>
    decreases chunk.len(),
{
    if chunk.len() == 0 {
        seq![]
    } else {
        hex_column(chunk.drop_last()) + hex_padded(chunk.last() as nat, 2) + seq![' ']
    }
}

/// `k` spaces.
pub open spec fn spaces(k: nat) -> Seq<char> {
    Seq::new(k, |i: int| ' ')
}

/// The character column of a row.
pub open spec fn char_column(chunk: Seq<u8>) -> Seq<char> {
    chunk.map_values(|b: u8| shown_char(b))
}

/// One row of a dump: the offset in eight hex digits, two spaces, the hex
/// column padded to sixteen bytes, a space, the character column and a
/// line break.
pub open spec fn dump_row(offset: nat, chunk: Seq<u8>) -> Seq<char> {
    hex_padded(offset, 8) + seq![' ', ' '] + hex_column(chunk) + spaces(
        (3 * (16 - chunk.len())) as nat,
    ) + seq![' '] + char_column(chunk) + seq!['\n']
}

/// The bytes that row `r` of a dump of `d` shows.
pub open spec fn row_chunk(d: Seq<u8>, r: nat) -> Seq<u8> {
    let start: int = 16 * (r as int);
    let end: int = if start + 16 <= d.len() { start + 16 } else { d.len() as int };
    d.subrange(start, end)
}

/// The first `count` rows of a dump of `d`.
pub open spec fn dump_rows(d: Seq<u8>, count: nat) -> Seq<char>
    decreases count,
{
    if count == 0 {
        seq![]
    } else {
        let r = (count - 1) as nat;
        dump_rows(d, r) + dump_row(16 * r, row_chunk(d, r))
    }
}

/// The whole dump of `data`: every row of its first 256 bytes.
pub open spec fn hex_dump(data: Seq<u8>) -> Seq<char> {
    let shown = data.take(preview_len(data.len()) as int);
    dump_rows(shown, row_count(shown.len()))
}

/// Appends the hex column of `chunk`.
fn push_hex_column(out: &mut String, chunk: &[u8])
    ensures
        final(out)@ == old(out)@ + hex_column(chunk@),
{
    let ghost start = out@;
    let mut j: usize = 0;
    while j < chunk.len()
        invariant
            j <= chunk.len(),
            out@ == start + hex_column(chunk@.take(j as int)),
        decreases chunk.len() - j,
    {
        let b = chunk[j];
        push_hex_padded(out, b as u64, 2);
        push_char(out, ' ');
        proof {
            assert(chunk@.take(j + 1).drop_last() =~= chunk@.take(j as int));
        }
        j = j + 1;
    }
    assert(chunk@.take(chunk.len() as int) =~= chunk@);
}

/// Appends `k` spaces.
fn push_spaces(out: &mut String, k: usize)
    ensures
        final(out)@ == old(out)@ + spaces(k as nat),
{
    let ghost start = out@;
    let mut j: usize = 0;
    while j < k
        invariant
            j <= k,
            out@ == start + spaces(j as nat),
        decreases k - j,
    {
        push_char(out, ' ');
        proof {
            assert(spaces((j + 1) as nat) =~= spaces(j as nat).push(' '));
        }
        j = j + 1;
    }
}

/// The character for one byte of the character column.
pub fn shown(b: u8) -> (c: char)
    ensures
        c == shown_char(b),
{
    if (0x21 <= b && b <= 0x7e) || b == 0x20 {
        b as char
    } else {
        '.'
    }
}

/// Appends the character column of `chunk`.
fn push_char_column(out: &mut String, chunk: &[u8])
    ensures
        final(out)@ == old(out)@ + char_column(chunk@),
{
    let ghost start = out@;
    let mut j: usize = 0;
    while j < chunk.len()
        invariant
            j <= chunk.len(),
            out@ == start + char_column(chunk@.take(j as int)),
        decreases chunk.len() - j,
    {
        let c = shown(chunk[j]);
        push_char(out, c);
        proof {
            assert(char_column(chunk@.take(j + 1)) =~= char_column(chunk@.take(j as int)).push(c));
        }
        j = j + 1;
    }
    assert(chunk@.take(chunk.len() as int) =~= chunk@);
}

/// Appends one row of a dump.
fn push_row(out: &mut String, offset: u64, chunk: &[u8])
    requires
        chunk@.len() <= 16,
    ensures
        final(out)@ == old(out)@ + dump_row(offset as nat, chunk@),
{
    let ghost start = out@;
    push_hex_padded(out, offset, 8);
    push_char(out, ' ');
    push_char(out, ' ');
    push_hex_column(out, chunk);
    push_spaces(out, 3 * (16 - chunk.len()));
    push_char(out, ' ');
    push_char_column(out, chunk);
    push_char(out, '\n');
    assert(out@ =~= start + dump_row(offset as nat, chunk@));
}

/// Appends the dump of `data`: the rows of its first 256 bytes.
pub fn push_hex_dump(out: &mut String, data: &[u8])
    ensures
        final(out)@ == old(out)@ + hex_dump(data@),
{
    let ghost start = out@;
    let n: usize = if data.len() < PREVIEW_LIMIT { data.len() } else { PREVIEW_LIMIT };
    let shown_bytes = &data[0..n];
    let rows: usize = (n + 15) / 16;
    let mut r: usize = 0;
    while r < rows
        invariant
            n <= 256,
            shown_bytes@ == data@.take(n as int),
            n == preview_len(data@.len()),
            rows == row_count(n as nat),
            r <= rows,
            out@ == start + dump_rows(shown_bytes@, r as nat),
        decreases rows - r,
    {
        let begin: usize = 16 * r;
        let end: usize = if begin + 16 <= n { begin + 16 } else { n };
        let chunk = &shown_bytes[begin..end];
        push_row(out, begin as u64, chunk);
        proof {
            assert(chunk@ == row_chunk(shown_bytes@, r as nat));
            assert(dump_rows(shown_bytes@, (r + 1) as nat) == dump_rows(shown_bytes@, r as nat)
                + dump_row(16 * r as nat, row_chunk(shown_bytes@, r as nat)));
        }
        r = r + 1;
    }
}

} // verus!
