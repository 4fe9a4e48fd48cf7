//! Calls into code the verifier does not read: each function here is
//! trusted, its contract states what the callee's documentation promises
//! and no more.

use vstd::prelude::*;
use crate::text::{ascii_chars_of, is_ascii_bytes};

verus! {

/// What `String::from_utf8_lossy` returns for the given bytes.
pub uninterp spec fn lossy_decode(bytes: Seq<u8>) -> Seq<char>;

/// Relies on `String::from_utf8_lossy`: decodes the bytes as UTF-8,
/// replacing invalid sequences with U+FFFD; bytes that already are valid
/// UTF-8 decode to themselves, so ASCII bytes come back one character per
/// byte.
#[verifier::external_body]
pub fn lossy_string(bytes: &[u8]) -> (r: String)
    ensures
        r@ == lossy_decode(bytes@),
        is_ascii_bytes(bytes@) ==> r@ == ascii_chars_of(bytes@),
{
    String::from_utf8_lossy(bytes).into_owned()
}

/// What `str::trim` returns for the given characters.
pub uninterp spec fn trim_spec(s: Seq<char>) -> Seq<char>;

/// Relies on `str::trim`: returns the string with leading and trailing
/// whitespace removed, a subslice of the input.
#[verifier::external_body]
pub fn str_trim(s: &str) -> (r: &str)
    ensures
        r@ == trim_spec(s@),
        r@.len() <= s@.len(),
        s@.len() == 0 ==> r@.len() == 0,
{
    s.trim()
}

/// Relies on `String::push`: appends the one character to the string.
#[verifier::external_body]
pub fn push_char(s: &mut String, c: char)
    ensures
        final(s)@ == old(s)@.push(c),
{
    s.push(c);
}

/// Whether the regular expression `pattern` matches anywhere in `text`
/// (false when `pattern` is not a valid pattern).
pub uninterp spec fn regex_accepts(pattern: Seq<char>, text: Seq<char>) -> bool;

/// Relies on `regex::Regex::new` and `regex::Regex::is_match`: compiles
/// the pattern and reports whether it matches anywhere in the text; a
/// pattern that does not compile is reported as no match.
#[verifier::external_body]
pub fn regex_is_match(pattern: &str, text: &str) -> (r: bool)
    ensures
        r == regex_accepts(pattern@, text@),
{
    match regex::Regex::new(pattern) {
        Ok(re) => re.is_match(text),
        Err(_) => false,
    }
}

} // verus!
