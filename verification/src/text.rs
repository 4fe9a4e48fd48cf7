//! Decimal text: turning numbers into digit strings and digit strings
//! back into numbers, over both characters and raw bytes.

use vstd::prelude::*;

verus! {

/// The character for one decimal digit.
pub open spec fn digit_char(d: int) -> char {
    if d == 0 {
        '0'
    } else if d == 1 {
        '1'
    } else if d == 2 {
        '2'
    } else if d == 3 {
        '3'
    } else if d == 4 {
        '4'
    } else if d == 5 {
        '5'
    } else if d == 6 {
        '6'
    } else if d == 7 {
        '7'
    } else if d == 8 {
        '8'
    } else {
        '9'
    }
}

/// The decimal digits of `n`, most significant first, without leading
/// zeros (`0` is written as one digit).
pub open spec fn dec_digits(n: nat) -> Seq<char>
    decreases n,
{
    if n < 10 {
        seq![digit_char(n as int)]
    } else {
        dec_digits(n / 10) + seq![digit_char((n % 10) as int)]
    }
}

/// `n` in decimal, zero-padded on the left to at least two digits.
pub open spec fn pad2(n: nat) -> Seq<char> {
    if n < 10 {
        seq!['0', digit_char(n as int)]
    } else {
        dec_digits(n)
    }
}

pub(crate) fn digit_str(d: u64) -> (r: &'static str)
    requires
        d < 10,
    ensures
        r@ =~= seq![digit_char(d as int)],
{
    if d == 0 {
        proof {
            reveal_strlit("0");
        }
        "0"
    } else if d == 1 {
        proof {
            reveal_strlit("1");
        }
        "1"
    } else if d == 2 {
        proof {
            reveal_strlit("2");
        }
        "2"
    } else if d == 3 {
        proof {
            reveal_strlit("3");
        }
        "3"
    } else if d == 4 {
        proof {
            reveal_strlit("4");
        }
        "4"
    } else if d == 5 {
        proof {
            reveal_strlit("5");
        }
        "5"
    } else if d == 6 {
        proof {
            reveal_strlit("6");
        }
        "6"
    } else if d == 7 {
        proof {
            reveal_strlit("7");
        }
        "7"
    } else if d == 8 {
        proof {
            reveal_strlit("8");
        }
        "8"
    } else {
        proof {
            reveal_strlit("9");
        }
        "9"
    }
}

/// `n` written in decimal.
pub fn u64_to_string(n: u64) -> (s: String)
    ensures
        s@ =~= dec_digits(n as nat),
    decreases n,
{
    if n < 10 {
        String::from_str(digit_str(n))
    } else {
        let mut s = u64_to_string(n / 10);
        s.append(digit_str(n % 10));
        proof {
            assert(s@ =~= dec_digits((n / 10) as nat) + seq![digit_char((n % 10) as int)]);
        }
        s
    }
}

/// `n` written in decimal, zero-padded to at least two digits.
pub fn u64_to_string_pad2(n: u64) -> (s: String)
    ensures
        s@ =~= pad2(n as nat),
{
    if n < 10 {
        let mut s = String::from_str({
            proof {
                reveal_strlit("0");
            }
            "0"
        });
        s.append(digit_str(n));
        proof {
            assert(s@ =~= pad2(n as nat));
        }
        s
    } else {
        u64_to_string(n)
    }
}

/// Whether the byte is an ASCII decimal digit.
pub open spec fn is_digit_byte(b: u8) -> bool {
    48 <= b <= 57
}

/// The value of one ASCII digit byte.
pub open spec fn digit_byte_val(b: u8) -> nat {
    (b - 48) as nat
}

/// Whether every byte of the sequence is an ASCII decimal digit.
pub open spec fn all_digit_bytes(s: Seq<u8>) -> bool {
    forall|i: int| 0 <= i < s.len() ==> is_digit_byte(#[trigger] s[i])
}

/// The number that a sequence of ASCII digit bytes denotes (empty
/// sequences denote zero).
pub open spec fn bytes_value(s: Seq<u8>) -> nat
    decreases s.len(),
{
    if s.len() == 0 {
        0
    } else {
        bytes_value(s.drop_last()) * 10 + digit_byte_val(s.last())
    }
}

/// A digit sequence denotes at least what any of its prefixes denotes.
pub proof fn lemma_bytes_value_prefix(s: Seq<u8>, i: int)
    requires
        0 <= i <= s.len(),
    ensures
        bytes_value(s.subrange(0, i)) <= bytes_value(s),
    decreases s.len() - i,
{
    if i < s.len() {
        lemma_bytes_value_prefix(s, i + 1);
        assert(s.subrange(0, i + 1).drop_last() =~= s.subrange(0, i));
        assert(s.subrange(0, i + 1).last() == s[i]);
        assert(bytes_value(s.subrange(0, i)) <= bytes_value(s.subrange(0, i + 1)));
    } else {
        assert(s.subrange(0, i) =~= s);
    }
}

/// Parses a run of ASCII digit bytes as a `u64`; `None` when the run is
/// empty, holds a non-digit, or denotes a number above `u64::MAX`.
pub fn parse_u64_bytes(s: &[u8]) -> (r: Option<u64>)
    ensures
        r is Some <==> s@.len() > 0 && all_digit_bytes(s@) && bytes_value(s@) <= u64::MAX,
        r is Some ==> r->0 == bytes_value(s@),
{
    if s.len() == 0 {
        return None;
    }
    let mut acc: u64 = 0;
    let mut i: usize = 0;
    while i < s.len()
        invariant
            0 <= i <= s@.len(),
            all_digit_bytes(s@.subrange(0, i as int)),
            acc == bytes_value(s@.subrange(0, i as int)),
        decreases s@.len() - i,
    {
        let b = s[i];
        if b < 48 || b > 57 {
            return None;
        }
        let wide: u128 = (acc as u128) * 10 + ((b - 48) as u128);
        proof {
            assert(s@.subrange(0, i + 1).drop_last() =~= s@.subrange(0, i as int));
            assert(s@.subrange(0, i + 1).last() == s@[i as int]);
        }
        if wide > u64::MAX as u128 {
            proof {
                lemma_bytes_value_prefix(s@, i + 1);
            }
            return None;
        }
        acc = wide as u64;
        i = i + 1;
    }
    proof {
        assert(s@.subrange(0, i as int) =~= s@);
    }
    Some(acc)
}

/// Whether the character is an ASCII decimal digit.
pub open spec fn is_digit_char(c: char) -> bool {
    48 <= c as u32 <= 57
}

/// The value of one ASCII digit character.
pub open spec fn digit_char_val(c: char) -> nat {
    (c as u32 - 48) as nat
}

/// Whether every character of the sequence is an ASCII decimal digit.
pub open spec fn all_digit_chars(s: Seq<char>) -> bool {
    forall|i: int| 0 <= i < s.len() ==> is_digit_char(#[trigger] s[i])
}

/// The number that a sequence of ASCII digit characters denotes.
pub open spec fn chars_value(s: Seq<char>) -> nat
    decreases s.len(),
{
    if s.len() == 0 {
        0
    } else {
        chars_value(s.drop_last()) * 10 + digit_char_val(s.last())
    }
}

/// A digit sequence denotes at least what any of its prefixes denotes.
pub proof fn lemma_chars_value_prefix(s: Seq<char>, i: int)
    requires
        0 <= i <= s.len(),
    ensures
        chars_value(s.subrange(0, i)) <= chars_value(s),
    decreases s.len() - i,
{
    if i < s.len() {
        lemma_chars_value_prefix(s, i + 1);
        assert(s.subrange(0, i + 1).drop_last() =~= s.subrange(0, i));
        assert(s.subrange(0, i + 1).last() == s[i]);
        assert(chars_value(s.subrange(0, i)) <= chars_value(s.subrange(0, i + 1)));
    } else {
        assert(s.subrange(0, i) =~= s);
    }
}

/// Parses a string of ASCII digit characters as a `u64`; `None` when the
/// string is empty, holds a non-digit, or denotes a number above
/// `u64::MAX`.
pub fn parse_u64_chars(s: &str) -> (r: Option<u64>)
    ensures
        r is Some <==> s@.len() > 0 && all_digit_chars(s@) && chars_value(s@) <= u64::MAX,
        r is Some ==> r->0 == chars_value(s@),
{
    let n = s.unicode_len();
    if n == 0 {
        return None;
    }
    let mut acc: u64 = 0;
    let mut i: usize = 0;
    while i < n
        invariant
            n == s@.len(),
            0 <= i <= n,
            all_digit_chars(s@.subrange(0, i as int)),
            acc == chars_value(s@.subrange(0, i as int)),
        decreases n - i,
    {
        let c = s.get_char(i);
        let v = c as u32;
        if v < 48 || v > 57 {
            return None;
        }
        let wide: u128 = (acc as u128) * 10 + ((v - 48) as u128);
        proof {
            assert(s@.subrange(0, i + 1).drop_last() =~= s@.subrange(0, i as int));
            assert(s@.subrange(0, i + 1).last() == s@[i as int]);
        }
        if wide > u64::MAX as u128 {
            proof {
                lemma_chars_value_prefix(s@, i + 1);
            }
            return None;
        }
        acc = wide as u64;
        i = i + 1;
    }
    proof {
        assert(s@.subrange(0, i as int) =~= s@);
    }
    Some(acc)
}

/// Whether two string slices hold the same characters.
pub fn streq(a: &str, b: &str) -> (r: bool)
    ensures
        r == (a@ == b@),
{
    let sa = String::from_str(a);
    let sb = String::from_str(b);
    sa == sb
}

/// Whether every byte is ASCII (below 128).
pub open spec fn is_ascii_bytes(s: Seq<u8>) -> bool {
    forall|i: int| 0 <= i < s.len() ==> #[trigger] s[i] < 128
}

/// The characters of an ASCII byte sequence, one per byte.
pub open spec fn ascii_chars_of(s: Seq<u8>) -> Seq<char> {
    Seq::new(s.len(), |i: int| s[i] as char)
}

} // verus!
