//! Text in the encodings that clipboard formats use: UTF-8, UTF-16 and
//! Latin-1, and the character-level trimming the decoders apply.

use vstd::prelude::*;
use vstd::utf8::{decode_utf8, encode_utf8, encode_utf8_decode_utf8, valid_utf8};
use crate::digits::push_char;

verus! {

/// The characters of a string, in order.
pub fn chars_of(s: &str) -> (v: Vec<char>)
    ensures
        v@ == s@,
{
    let mut v: Vec<char> = Vec::new();
    for c in it: s.chars()
        invariant
            v@ == it.seq().take(it.index() as int),
            it.seq() == s@,
    {
        v.push(c);
        proof {
            assert(it.seq().take(it.index() + 1) =~= it.seq().take(it.index() as int).push(c));
        }
    }
    v
}


/// A string with the given characters.
pub fn string_from_chars(cs: &[char]) -> (s: String)
    ensures
        s@ == cs@,
{
    let mut s = String::new();
    let mut i: usize = 0;
    while i < cs.len()
        invariant
            i <= cs.len(),
            s@ == cs@.take(i as int),
        decreases cs.len() - i,
    {
        push_char(&mut s, cs[i]);
        proof {
            assert(cs@.take(i + 1) =~= cs@.take(i as int).push(cs@[i as int]));
        }
        i = i + 1;
    }
    assert(cs@.take(cs.len() as int) =~= cs@);
    s
}

/// Decodes UTF-8 (`std::str::from_utf8`): `Some` exactly when the bytes are
/// well-formed UTF-8, holding the characters they encode.
#[verifier::external_body]
pub(crate) fn utf8_string(bytes: &[u8]) -> (r: Option<String>)
    ensures
        r is Some <==> valid_utf8(bytes@),
        r matches Some(s) ==> s@ == decode_utf8(bytes@),
{
    match std::str::from_utf8(bytes) {
        Ok(s) => Some(s.to_string()),
        Err(_) => None,
    }
}

/// The character with the same code as a byte (ISO 8859-1).
pub open spec fn latin1(bytes: Seq<u8>) -> Seq<char> {
    bytes.map_values(|b: u8| b as char)
}

/// Decodes bytes as ISO 8859-1: each byte is the character with its code.
pub fn latin1_string(bytes: &[u8]) -> (s: String)
    ensures
        s@ == latin1(bytes@),
{
    let mut s = String::new();
    let mut i: usize = 0;
    while i < bytes.len()
        invariant
            i <= bytes.len(),
            s@ == latin1(bytes@.take(i as int)),
        decreases bytes.len() - i,
    {
        let c = bytes[i] as char;
        push_char(&mut s, c);
        proof {
            assert(latin1(bytes@.take(i + 1)) =~= latin1(bytes@.take(i as int)).push(c));
        }
        i = i + 1;
    }
    assert(bytes@.take(bytes.len() as int) =~= bytes@);
    s
}

/// A UTF-16 code unit that opens a surrogate pair.
pub open spec fn is_high_surrogate(u: u16) -> bool {
    0xD800 <= u && u <= 0xDBFF
}

/// A UTF-16 code unit that closes a surrogate pair.
pub open spec fn is_low_surrogate(u: u16) -> bool {
    0xDC00 <= u && u <= 0xDFFF
}

/// Either half of a surrogate pair.
pub open spec fn is_surrogate(u: u16) -> bool {
    0xD800 <= u && u <= 0xDFFF
}

/// The Unicode replacement character U+FFFD.
pub open spec fn replacement_char() -> char {
    '\u{FFFD}'
}

/// UTF-16 decoding in which each code unit that is not part of a well-formed
/// surrogate pair becomes U+FFFD.
pub open spec fn utf16_lossy(u: Seq<u16>) -> Seq<char>
    decreases u.len(),
{
    if u.len() == 0 {
        seq![]
    } else if is_high_surrogate(u[0]) && u.len() >= 2 && is_low_surrogate(u[1]) {
        seq![(0x10000 + (u[0] - 0xD800) * 0x400 + (u[1] - 0xDC00)) as char] + utf16_lossy(
            u.subrange(2, u.len() as int),
        )
    } else if is_surrogate(u[0]) {
        seq![replacement_char()] + utf16_lossy(u.drop_first())
    } else {
        seq![u[0] as char] + utf16_lossy(u.drop_first())
    }
}

/// The UTF-16 encoding of characters: one unit below U+10000, else a
/// surrogate pair.
pub open spec fn encode_utf16(s: Seq<char>) -> Seq<u16>
    decreases s.len(),
{
    if s.len() == 0 {
        seq![]
    } else {
        let c = s[0] as u32;
        (if c < 0x10000 {
            seq![c as u16]
        } else {
            seq![(0xD800 + (c - 0x10000) / 0x400) as u16, (0xDC00 + (c - 0x10000) % 0x400) as u16]
        }) + encode_utf16(s.drop_first())
    }
}

/// Decodes UTF-16 with replacement (`String::from_utf16_lossy`): surrogate
/// pairs become the character they encode, unpaired surrogates U+FFFD and
/// every other unit the character with its code.
#[verifier::external_body]
pub(crate) fn utf16_lossy_string(units: &[u16]) -> (s: String)
    ensures
        s@ == utf16_lossy(units@),
{
    String::from_utf16_lossy(units)
}


/// Whether two strings hold the same characters, compared by their UTF-8
/// bytes.
pub fn str_eq(a: &str, b: &str) -> (r: bool)
    ensures
        r == (a@ == b@),
{
    let x = a.as_bytes();
    let y = b.as_bytes();
    proof {
        encode_utf8_decode_utf8(a@);
        encode_utf8_decode_utf8(b@);
    }
    if x.len() != y.len() {
        return false;
    }
    let mut i: usize = 0;
    while i < x.len()
        invariant
            x@ == encode_utf8(a@),
            y@ == encode_utf8(b@),
            x.len() == y.len(),
            i <= x.len(),
            forall|k: int| 0 <= k < i ==> x@[k] == y@[k],
        decreases x.len() - i,
    {
        if x[i] != y[i] {
            return false;
        }
        i = i + 1;
    }
    assert(x@ =~= y@);
    true
}

/// The characters that `char::is_whitespace` accepts: those with the
/// Unicode White_Space property.
pub open spec fn is_white_space(c: char) -> bool {
    let u = c as u32;
    (0x9 <= u && u <= 0xd) || u == 0x20 || u == 0x85 || u == 0xa0 || u == 0x1680 || (0x2000 <= u
        && u <= 0x200a) || u == 0x2028 || u == 0x2029 || u == 0x202f || u == 0x205f || u == 0x3000
}

/// Whether a character has the White_Space property.
pub fn white_space(c: char) -> (r: bool)
    ensures
        r == is_white_space(c),
{
    let u = c as u32;
    (0x9 <= u && u <= 0xd) || u == 0x20 || u == 0x85 || u == 0xa0 || u == 0x1680 || (0x2000 <= u
        && u <= 0x200a) || u == 0x2028 || u == 0x2029 || u == 0x202f || u == 0x205f || u == 0x3000
}

/// The first index at or after `i` that does not hold white space.
pub open spec fn skip_white_space(s: Seq<char>, i: nat) -> nat
    decreases s.len() - i,
{
    if i < s.len() && is_white_space(s[i as int]) {
        skip_white_space(s, i + 1)
    } else {
        i
    }
}

/// The end of `s.subrange(lo, j)` once its trailing white space is removed.
pub open spec fn drop_trailing_white_space(s: Seq<char>, lo: nat, j: nat) -> nat
    decreases j,
{
    if j > lo && is_white_space(s[j - 1]) {
        drop_trailing_white_space(s, lo, (j - 1) as nat)
    } else {
        j
    }
}

/// `s` without leading and trailing white space (`str::trim`).
pub open spec fn trim_white_space(s: Seq<char>) -> Seq<char> {
    let a = skip_white_space(s, 0);
    let b = drop_trailing_white_space(s, a, s.len());
    s.subrange(a as int, b as int)
}

/// The characters of `s` without leading and trailing white space.
pub fn trimmed_chars(s: &str) -> (r: Vec<char>)
    ensures
        r@ == trim_white_space(s@),
{
    let cs = chars_of(s);
    let mut a: usize = 0;
    while a < cs.len() && white_space(cs[a])
        invariant
            cs@ == s@,
            a <= cs.len(),
            skip_white_space(s@, a as nat) == skip_white_space(s@, 0),
        decreases cs.len() - a,
    {
        a = a + 1;
    }
    let mut b: usize = cs.len();
    while b > a && white_space(cs[b - 1])
        invariant
            cs@ == s@,
            a <= b <= cs.len(),
            a == skip_white_space(s@, 0),
            drop_trailing_white_space(s@, a as nat, b as nat) == drop_trailing_white_space(
                s@,
                a as nat,
                s@.len(),
            ),
        decreases b,
    {
        b = b - 1;
    }
    let mut r: Vec<char> = Vec::new();
    let mut i: usize = a;
    while i < b
        invariant
            cs@ == s@,
            a <= i <= b <= cs.len(),
            r@ == cs@.subrange(a as int, i as int),
        decreases b - i,
    {
        r.push(cs[i]);
        proof {
            assert(cs@.subrange(a as int, i + 1) =~= cs@.subrange(a as int, i as int).push(cs@[i as int]));
        }
        i = i + 1;
    }
    r
}

/// The length of `d.take(j)` once its trailing zero bytes are removed.
pub open spec fn zero_trimmed_len(d: Seq<u8>, j: nat) -> nat
    decreases j,
{
    if j > 0 && d[j - 1] == 0 {
        zero_trimmed_len(d, (j - 1) as nat)
    } else {
        j
    }
}

/// `d` up to and including its last nonzero byte.
pub open spec fn without_trailing_zeros(d: Seq<u8>) -> Seq<u8> {
    d.take(zero_trimmed_len(d, d.len()) as int)
}

/// The length of `d` up to and including its last nonzero byte.
pub fn trimmed_zero_len(d: &[u8]) -> (n: usize)
    ensures
        n == zero_trimmed_len(d@, d@.len()),
        n <= d@.len(),
{
    let mut j: usize = d.len();
    while j > 0 && d[j - 1] == 0
        invariant
            j <= d.len(),
            zero_trimmed_len(d@, j as nat) == zero_trimmed_len(d@, d@.len()),
        decreases j,
    {
        j = j - 1;
    }
    j
}

/// The length of `s.take(j)` once its trailing NUL characters are removed.
pub open spec fn nul_trimmed_len(s: Seq<char>, j: nat) -> nat
    decreases j,
{
    if j > 0 && s[j - 1] == '\0' {
        nul_trimmed_len(s, (j - 1) as nat)
    } else {
        j
    }
}

/// `s` without its trailing NUL characters (`trim_end_matches('\0')`).
pub open spec fn without_trailing_nuls(s: Seq<char>) -> Seq<char> {
    s.take(nul_trimmed_len(s, s.len()) as int)
}

/// The string without its trailing NUL characters.
pub fn trim_trailing_nuls(s: &str) -> (r: String)
    ensures
        r@ == without_trailing_nuls(s@),
{
    let cs = chars_of(s);
    let mut j: usize = cs.len();
    while j > 0 && cs[j - 1] == '\0'
        invariant
            cs@ == s@,
            j <= cs.len(),
            nul_trimmed_len(s@, j as nat) == nul_trimmed_len(s@, s@.len()),
        decreases j,
    {
        j = j - 1;
    }
    string_from_chars(&cs[0..j])
}

} // verus!
