//! Base-62 identifier codec.
//!
//! A link identifier is a non-negative 64-bit integer; its short code is
//! its base-62 representation over the alphabet `0-9`, `A-Z`, `a-z`, in
//! that order, each symbol's position being its numeric value. Encoding
//! is total and produces the shortest representation (no leading
//! zero-value symbols, except the single-symbol code for zero). Decoding
//! rejects the empty string, any string holding a character outside the
//! alphabet, and any string whose value does not fit in 64 bits.

use crate::ascii::{ascii_to_string, ascii_view};
use vstd::prelude::*;

verus! {

/// The symbol whose numeric value is `d`: `'0'..='9'` for 0-9,
/// `'A'..='Z'` for 10-35, `'a'..='z'` for 36-61.
pub open spec fn digit_char(d: nat) -> char {
    if d < 10 {
        (d + 48) as char
    } else if d < 36 {
        (d + 55) as char
    } else {
        (d + 61) as char
    }
}

/// The numeric value of an alphabet symbol, and 62 for every character
/// outside the alphabet.
pub open spec fn char_val(c: char) -> nat {
    let u = c as int;
    if 48 <= u <= 57 {
        (u - 48) as nat
    } else if 65 <= u <= 90 {
        (u - 55) as nat
    } else if 97 <= u <= 122 {
        (u - 61) as nat
    } else {
        62
    }
}

/// Whether `c` is one of the 62 alphabet symbols.
pub open spec fn in_alphabet(c: char) -> bool {
    char_val(c) < 62
}

/// Whether every character of `s` is an alphabet symbol.
pub open spec fn all_in_alphabet(s: Seq<char>) -> bool {
    forall|i: int| 0 <= i < s.len() ==> in_alphabet(#[trigger] s[i])
}

/// The base-62 digits of `n`, most significant first; empty for zero.
pub open spec fn digits_msf(n: nat) -> Seq<char>
    decreases n,
{
    if n == 0 {
        Seq::empty()
    } else {
        digits_msf(n / 62) + seq![digit_char(n % 62)]
    }
}

/// The code of `n`: `"0"` for zero, otherwise the digits of `n` with no
/// leading zero-value symbol.
pub open spec fn spec_encode(n: nat) -> Seq<char> {
    if n == 0 {
        seq!['0']
    } else {
        digits_msf(n)
    }
}

/// The number denoted by a symbol sequence, read left to right:
/// each step multiplies by 62 and adds the next symbol's value.
pub open spec fn code_value(s: Seq<char>) -> nat
    decreases s.len(),
{
    if s.len() == 0 {
        0
    } else {
        code_value(s.drop_last()) * 62 + char_val(s.last())
    }
}

/// Symbol values round-trip: `char_val` inverts `digit_char`.
proof fn lemma_digit_char_val(d: nat)
    requires
        d < 62,
    ensures
        char_val(digit_char(d)) == d,
        in_alphabet(digit_char(d)),
        (digit_char(d) as int) < 128,
{
}

/// The ASCII byte of the symbol whose numeric value is `d`.
fn digit_byte(d: u64) -> (b: u8)
    requires
        d < 62,
    ensures
        b < 128,
        b as char == digit_char(d as nat),
{
    if d < 10 {
        (d + 48) as u8
    } else if d < 36 {
        (d + 55) as u8
    } else {
        (d + 61) as u8
    }
}

/// Appends the base-62 digits of `n`, most significant first, as ASCII
/// bytes.
fn push_digits(n: u64, buf: &mut Vec<u8>)
    requires
        forall|i: int| 0 <= i < old(buf)@.len() ==> old(buf)@[i] < 128,
    ensures
        forall|i: int| 0 <= i < final(buf)@.len() ==> final(buf)@[i] < 128,
        ascii_view(final(buf)@) == ascii_view(old(buf)@) + digits_msf(n as nat),
    decreases n,
{
    if n == 0 {
        assert(ascii_view(buf@) =~= ascii_view(buf@) + digits_msf(0));
    } else {
        push_digits(n / 62, buf);
        let ghost prev = buf@;
        let b = digit_byte(n % 62);
        buf.push(b);
        proof {
            assert(buf@ =~= prev + seq![b]);
            assert(ascii_view(buf@) =~= ascii_view(prev) + seq![b as char]);
            assert(digits_msf(n as nat) == digits_msf(n as nat / 62) + seq![
                digit_char(n as nat % 62),
            ]);
            assert(ascii_view(buf@) =~= ascii_view(old(buf)@) + digits_msf(n as nat));
        }
    }
}

/// Extending a symbol sequence by one symbol multiplies its value by 62
/// and adds the new symbol's value.
proof fn lemma_code_value_step(s: Seq<char>, i: int)
    requires
        0 <= i < s.len(),
    ensures
        code_value(s.take(i + 1)) == code_value(s.take(i)) * 62 + char_val(s[i]),
{
    assert(s.take(i + 1).drop_last() =~= s.take(i));
    assert(s.take(i + 1).last() == s[i]);
}

/// The value of a sequence is at least the value of any of its prefixes.
proof fn lemma_code_value_prefix(s: Seq<char>, i: int)
    requires
        0 <= i <= s.len(),
    ensures
        code_value(s) >= code_value(s.take(i)),
    decreases s.len() - i,
{
    if i < s.len() {
        lemma_code_value_step(s, i);
        assert(code_value(s.take(i)) * 62 >= code_value(s.take(i)) * 1);
        lemma_code_value_prefix(s, i + 1);
    } else {
        assert(s.take(i) =~= s);
    }
}

/// Encodes a link identifier as its base-62 short code.
pub fn base62_encode(n: u64) -> (s: String)
    ensures
        s@ == spec_encode(n as nat),
{
    if n == 0 {
        let s = "0".to_owned();
        proof {
            reveal_strlit("0");
            assert(s@ =~= seq!['0']);
        }
        s
    } else {
        let mut buf: Vec<u8> = Vec::new();
        push_digits(n, &mut buf);
        proof {
            assert(ascii_view(buf@) =~= digits_msf(n as nat));
        }
        ascii_to_string(buf)
    }
}

/// Decodes a base-62 short code back into a link identifier.
///
/// Succeeds exactly on the non-empty strings over the alphabet whose
/// value fits in 64 bits; the empty string is rejected rather than read
/// as zero, and a value too large for 64 bits is rejected rather than
/// wrapped.
pub fn base62_decode(s: &str) -> (r: Option<u64>)
    ensures
        r is Some <==> s@.len() > 0 && all_in_alphabet(s@) && code_value(s@) <= u64::MAX,
        r matches Some(v) ==> v == code_value(s@),
{
    let len = s.unicode_len();
    if len == 0 {
        return None;
    }
    if !s.is_ascii() {
        proof {
            let j = choose|j: int|
                0 <= j < s@.len() && !('\0' <= #[trigger] s@[j] <= '\u{7f}');
            assert(!in_alphabet(s@[j]));
        }
        return None;
    }
    let mut n: u64 = 0;
    let mut i: usize = 0;
    while i < len
        invariant
            0 < len == s@.len(),
            i <= len,
            s.is_ascii(),
            all_in_alphabet(s@.take(i as int)),
            n == code_value(s@.take(i as int)),
        decreases len - i,
    {
        let b = s.get_ascii(i);
        proof {
            assert('\0' <= s@[i as int] <= '\u{7f}');
            assert(b == s@[i as int] as int);
        }
        let v: u64;
        if 48 <= b && b <= 57 {
            v = (b - 48) as u64;
        } else if 65 <= b && b <= 90 {
            v = (b - 55) as u64;
        } else if 97 <= b && b <= 122 {
            v = (b - 61) as u64;
        } else {
            proof {
                assert(!in_alphabet(s@[i as int]));
            }
            return None;
        }
        proof {
            assert(v == char_val(s@[i as int]));
        }
        if n > (u64::MAX - v) / 62 {
            proof {
                vstd::arithmetic::div_mod::lemma_fundamental_div_mod((u64::MAX - v) as int, 62);
                assert(n * 62 + v > u64::MAX);
                lemma_code_value_step(s@, i as int);
                lemma_code_value_prefix(s@, i as int + 1);
                assert(code_value(s@) > u64::MAX);
            }
            return None;
        }
        proof {
            vstd::arithmetic::div_mod::lemma_fundamental_div_mod((u64::MAX - v) as int, 62);
            assert(n * 62 + v <= u64::MAX);
            lemma_code_value_step(s@, i as int);
        }
        n = n * 62 + v;
        i = i + 1;
    }
    proof {
        assert(s@.take(len as int) =~= s@);
    }
    Some(n)
}

/// The digits of `n` denote `n`, lie in the alphabet, and, for a
/// positive `n`, begin with a symbol whose value is not zero.
proof fn lemma_digits_msf(n: nat)
    ensures
        code_value(digits_msf(n)) == n,
        all_in_alphabet(digits_msf(n)),
        n > 0 ==> digits_msf(n).len() > 0 && char_val(digits_msf(n).first()) != 0,
    decreases n,
{
    if n > 0 {
        lemma_digits_msf(n / 62);
        lemma_digit_char_val(n % 62);
        let s = digits_msf(n);
        assert(s.drop_last() =~= digits_msf(n / 62));
        assert(s.last() == digit_char(n % 62));
        vstd::arithmetic::div_mod::lemma_fundamental_div_mod(n as int, 62);
        assert(forall|i: int|
            0 <= i < s.len() ==> in_alphabet(#[trigger] s[i]) == if i < s.len() - 1 {
                in_alphabet(digits_msf(n / 62)[i])
            } else {
                in_alphabet(digit_char(n % 62))
            });
        if n / 62 == 0 {
            assert(s.first() == digit_char(n % 62));
            assert(n % 62 == n);
        } else {
            assert(s.first() == digits_msf(n / 62).first());
        }
    }
}

/// Round trip: for every 64-bit identifier `n`, the code of `n` is a
/// non-empty string over the alphabet whose value is `n` again — so
/// `base62_decode(base62_encode(n))` returns `Some(n)`.
pub proof fn lemma_round_trip(n: u64)
    ensures
        spec_encode(n as nat).len() > 0,
        all_in_alphabet(spec_encode(n as nat)),
        code_value(spec_encode(n as nat)) == n,
{
    if n == 0 {
        let s = spec_encode(0);
        assert(s.drop_last() =~= Seq::<char>::empty());
        assert(s.last() == '0');
        assert(char_val('0') == 0);
        assert(code_value(Seq::<char>::empty()) == 0);
        assert(code_value(s) == code_value(s.drop_last()) * 62 + char_val(s.last()));
    } else {
        lemma_digits_msf(n as nat);
    }
}

/// Alphabet closure: the code of any 64-bit identifier holds only
/// alphabet symbols.
pub proof fn lemma_alphabet_closure(n: u64)
    ensures
        all_in_alphabet(spec_encode(n as nat)),
{
    lemma_round_trip(n);
}

/// Shortest form: the code of zero is the single symbol `'0'`, and the
/// code of any positive identifier never begins with the zero-value
/// symbol.
pub proof fn lemma_shortest_form(n: u64)
    ensures
        n == 0 ==> spec_encode(n as nat) == seq!['0'],
        n > 0 ==> spec_encode(n as nat).len() > 0 && spec_encode(n as nat).first() != '0',
{
    if n > 0 {
        lemma_digits_msf(n as nat);
        assert(char_val('0') == 0);
    }
}

} // verus!
