//! Building `String`s out of ASCII byte buffers.
//!
//! The codec and the resolver assemble their output as vectors of ASCII
//! bytes; this module states what such a buffer looks like as a character
//! sequence and converts it into a `String`.

use vstd::prelude::*;

verus! {

/// The character sequence denoted by a buffer of ASCII bytes: each byte
/// read as the character with the same code point.
pub open spec fn ascii_view(bytes: Seq<u8>) -> Seq<char> {
    bytes.map_values(|b: u8| b as char)
}

/// Relies on `String::from_utf8`: ASCII bytes are valid UTF-8, and the
/// resulting string's characters are exactly those bytes' code points.
#[verifier::external_body]
pub(crate) fn ascii_to_string(bytes: Vec<u8>) -> (s: String)
    requires
        forall|i: int| 0 <= i < bytes@.len() ==> bytes@[i] < 128,
    ensures
        s@ == ascii_view(bytes@),
{
    String::from_utf8(bytes).unwrap_or_default()
}

/// The decimal digit character for a value below ten.
pub open spec fn dec_digit_char(d: nat) -> char {
    (d + 48) as char
}

/// The decimal digits of `n`, most significant first; empty for zero.
pub open spec fn dec_digits_msf(n: nat) -> Seq<char>
    decreases n,
{
    if n == 0 {
        Seq::empty()
    } else {
        dec_digits_msf(n / 10) + seq![dec_digit_char(n % 10)]
    }
}

/// The usual decimal rendering of `n`: `"0"` for zero, otherwise its
/// digits with no leading zeros.
pub open spec fn spec_decimal(n: nat) -> Seq<char> {
    if n == 0 {
        seq!['0']
    } else {
        dec_digits_msf(n)
    }
}

/// Appends the decimal digits of `n`, most significant first, as ASCII
/// bytes.
fn push_dec_digits(n: u16, buf: &mut Vec<u8>)
    requires
        forall|i: int| 0 <= i < old(buf)@.len() ==> old(buf)@[i] < 128,
    ensures
        forall|i: int| 0 <= i < final(buf)@.len() ==> final(buf)@[i] < 128,
        ascii_view(final(buf)@) == ascii_view(old(buf)@) + dec_digits_msf(n as nat),
    decreases n,
{
    if n == 0 {
        assert(ascii_view(buf@) =~= ascii_view(buf@) + dec_digits_msf(0));
    } else {
        push_dec_digits(n / 10, buf);
        let ghost prev = buf@;
        let b = (n % 10) as u8 + 48;
        buf.push(b);
        proof {
            assert(buf@ =~= prev + seq![b]);
            assert(b as char == dec_digit_char(n as nat % 10));
            assert(ascii_view(buf@) =~= ascii_view(prev) + seq![b as char]);
            assert(ascii_view(buf@) =~= ascii_view(old(buf)@) + dec_digits_msf(n as nat));
        }
    }
}

/// Renders `n` in decimal.
pub fn decimal_string(n: u16) -> (s: String)
    ensures
        s@ == spec_decimal(n as nat),
{
    if n == 0 {
        let s = "0".to_owned();
        proof {
            reveal_strlit("0");
            assert(s@ =~= seq!['0']);
        }
        s
    } else {
        let mut buf: Vec<u8> = Vec::new();
        push_dec_digits(n, &mut buf);
        proof {
            assert(ascii_view(buf@) =~= dec_digits_msf(n as nat));
        }
        ascii_to_string(buf)
    }
}

} // verus!
