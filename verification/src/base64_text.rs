//! Standard base64 (RFC 4648, with padding), as the `base64` crate's
//! `STANDARD` engine writes it.

use vstd::prelude::*;
use base64::Engine;

verus! {

/// The character of the standard alphabet for a six-bit value.
pub open spec fn base64_char(v: nat) -> char {
    if v < 26 {
        (('A' as u32) + v) as char
    } else if v < 52 {
        (('a' as u32) + (v - 26)) as char
    } else if v < 62 {
        (('0' as u32) + (v - 52)) as char
    } else if v == 62 {
        '+'
    } else {
        '/'
    }
}

/// Standard base64 with `=` padding: each group of three bytes becomes four
/// characters; a final group of one or two bytes is padded to four.
pub open spec fn base64_encode(d: Seq<u8>) -> Seq<char>
    decreases d.len(),
{
    if d.len() == 0 {
        seq![]
    } else if d.len() == 1 {
        let a = d[0] as nat;
        seq![base64_char(a / 4), base64_char((a % 4) * 16), '=', '=']
    } else if d.len() == 2 {
        let a = d[0] as nat;
        let b = d[1] as nat;
        seq![base64_char(a / 4), base64_char((a % 4) * 16 + b / 16), base64_char((b % 16) * 4), '=']
    } else {
        let a = d[0] as nat;
        let b = d[1] as nat;
        let c = d[2] as nat;
        seq![
            base64_char(a / 4),
            base64_char((a % 4) * 16 + b / 16),
            base64_char((b % 16) * 4 + c / 64),
            base64_char(c % 64),
        ] + base64_encode(d.skip(3))
    }
}

/// The length of the padded encoding of `n` bytes.
pub open spec fn base64_len(n: nat) -> nat {
    4 * ((n + 2) / 3)
}

/// Encodes bytes with `base64::engine::general_purpose::STANDARD`, whose
/// alphabet and padding are those of RFC 4648. The crate panics when the
/// encoded length does not fit in an allocation, so `requires` leaves that
/// out.
#[verifier::external_body]
pub(crate) fn base64_standard(bytes: &[u8]) -> (s: String)
    requires
        base64_len(bytes@.len() as nat) <= isize::MAX,
    ensures
        s@ == base64_encode(bytes@),
{
    base64::engine::general_purpose::STANDARD.encode(bytes)
}

} // verus!
