//! Decimal and hexadecimal rendering of unsigned integers, appended to a
//! `String` one character at a time.

use vstd::prelude::*;

verus! {

/// The ASCII digit for a value below ten.
pub open spec fn decimal_char(d: nat) -> char {
    (('0' as u32) + d) as char
}

/// The lower-case hexadecimal digit for a value below sixteen.
pub open spec fn hex_char(d: nat) -> char {
    if d < 10 {
        (('0' as u32) + d) as char
    } else {
        (('a' as u32) + (d - 10)) as char
    }
}

/// The shortest decimal rendering of `n`, as `{}` prints it.
pub open spec fn decimal(n: nat) -> Seq<char>
    decreases n,
{
    if n < 10 {
        seq![decimal_char(n)]
    } else {
        decimal(n / 10) + seq![decimal_char(n % 10)]
    }
}

/// The last `width` lower-case hexadecimal digits of `n`, zero padded, as
/// `{:0width$x}` prints any `n` below `16^width`.
pub open spec fn hex_padded(n: nat, width: nat) -> Seq<char>
    decreases width,
{
    if width == 0 {
        seq![]
    } else {
        hex_padded(n / 16, (width - 1) as nat) + seq![hex_char(n % 16)]
    }
}

/// Appends one character to a string (`String::push`).
#[verifier::external_body]
pub(crate) fn push_char(s: &mut String, c: char)
    ensures
        final(s)@ == old(s)@.push(c),
{
    s.push(c);
}

/// The digit character for a value below sixteen.
pub fn hex_digit(d: u32) -> (c: char)
    requires
        d < 16,
    ensures
        c == hex_char(d as nat),
{
    if d < 10 {
        let c: char = ((d as u8) + 48u8) as char;
        c
    } else {
        let c: char = ((d as u8) + 87u8) as char;
        c
    }
}

/// Appends the decimal rendering of `n`.
pub fn push_decimal(s: &mut String, n: u64)
    ensures
        final(s)@ == old(s)@ + decimal(n as nat),
    decreases n,
{
    if n < 10 {
        let c = hex_digit(n as u32);
        push_char(s, c);
    } else {
        push_decimal(s, n / 10);
        let c = hex_digit((n % 10) as u32);
        push_char(s, c);
    }
}

/// Appends the `width` last hexadecimal digits of `n`, zero padded.
pub fn push_hex_padded(s: &mut String, n: u64, width: u32)
    ensures
        final(s)@ == old(s)@ + hex_padded(n as nat, width as nat),
    decreases width,
{
    if width > 0 {
        push_hex_padded(s, n / 16, width - 1);
        let c = hex_digit((n % 16) as u32);
        push_char(s, c);
    }
}

} // verus!
