//! Line-oriented progress parsing.
//!
//! External tools report progress as text lines. A download progress line
//! holds a `[download]` marker, then a percentage, and possibly a
//! transfer-speed token (digits, an optional fraction, a unit, then `/s`)
//! and an `ETA` token followed by the estimate. A cut progress line holds
//! an `out_time_ms=` marker followed by the elapsed time in microseconds.
//! Lines are raw bytes: they need not be valid UTF-8, and everything a
//! parser hands back as text is decoded lossily.

use vstd::prelude::*;
use crate::progress::{percent_one_decimal, percent_one_decimal_spec, ProgressStage, ProgressUpdate};
use crate::shim::{lossy_decode, lossy_string};
use crate::text::{all_digit_bytes, bytes_value, digit_byte_val, is_digit_byte};

verus! {

/// Whether the byte is blank space inside a line.
pub open spec fn is_ws_byte(b: u8) -> bool {
    b == 32 || b == 9
}

/// First index at or after `i` that does not hold blank space (or the
/// end of the sequence).
pub open spec fn skip_ws(s: Seq<u8>, i: int) -> int
    decreases s.len() - i,
{
    if 0 <= i < s.len() && is_ws_byte(s[i]) {
        skip_ws(s, i + 1)
    } else {
        i
    }
}

/// First index at or after `i` that does not hold an ASCII digit (or the
/// end of the sequence).
pub open spec fn skip_digits(s: Seq<u8>, i: int) -> int
    decreases s.len() - i,
{
    if 0 <= i < s.len() && is_digit_byte(s[i]) {
        skip_digits(s, i + 1)
    } else {
        i
    }
}

/// First index at or after `i` that holds blank space (or the end of the
/// sequence).
pub open spec fn skip_nonws(s: Seq<u8>, i: int) -> int
    decreases s.len() - i,
{
    if 0 <= i < s.len() && !is_ws_byte(s[i]) {
        skip_nonws(s, i + 1)
    } else {
        i
    }
}

pub proof fn lemma_skip_ws_bounds(s: Seq<u8>, i: int)
    requires
        0 <= i <= s.len(),
    ensures
        i <= skip_ws(s, i) <= s.len(),
    decreases s.len() - i,
{
    if i < s.len() && is_ws_byte(s[i]) {
        lemma_skip_ws_bounds(s, i + 1);
    }
}

pub proof fn lemma_skip_digits_bounds(s: Seq<u8>, i: int)
    requires
        0 <= i <= s.len(),
    ensures
        i <= skip_digits(s, i) <= s.len(),
        all_digit_bytes(s.subrange(i, skip_digits(s, i))),
    decreases s.len() - i,
{
    if i < s.len() && is_digit_byte(s[i]) {
        lemma_skip_digits_bounds(s, i + 1);
        assert forall|k: int| 0 <= k < s.subrange(i, skip_digits(s, i)).len() implies is_digit_byte(
            #[trigger] s.subrange(i, skip_digits(s, i))[k],
        ) by {
            if k > 0 {
                assert(s.subrange(i, skip_digits(s, i))[k] == s.subrange(
                    i + 1,
                    skip_digits(s, i + 1),
                )[k - 1]);
            }
        }
    } else {
        assert(s.subrange(i, i) =~= Seq::<u8>::empty());
    }
}

pub proof fn lemma_skip_nonws_bounds(s: Seq<u8>, i: int)
    requires
        0 <= i <= s.len(),
    ensures
        i <= skip_nonws(s, i) <= s.len(),
    decreases s.len() - i,
{
    if i < s.len() && !is_ws_byte(s[i]) {
        lemma_skip_nonws_bounds(s, i + 1);
    }
}

pub fn skip_ws_exec(line: &[u8], i: usize) -> (j: usize)
    requires
        i <= line@.len(),
    ensures
        j as int == skip_ws(line@, i as int),
        i <= j <= line@.len(),
{
    let mut j = i;
    while j < line.len() && (line[j] == 32 || line[j] == 9)
        invariant
            i <= j <= line@.len(),
            skip_ws(line@, i as int) == skip_ws(line@, j as int),
        decreases line@.len() - j,
    {
        j = j + 1;
    }
    j
}

fn skip_digits_exec(line: &[u8], i: usize) -> (j: usize)
    requires
        i <= line@.len(),
    ensures
        j as int == skip_digits(line@, i as int),
        i <= j <= line@.len(),
{
    let mut j = i;
    while j < line.len() && 48 <= line[j] && line[j] <= 57
        invariant
            i <= j <= line@.len(),
            skip_digits(line@, i as int) == skip_digits(line@, j as int),
        decreases line@.len() - j,
    {
        j = j + 1;
    }
    j
}

fn skip_nonws_exec(line: &[u8], i: usize) -> (j: usize)
    requires
        i <= line@.len(),
    ensures
        j as int == skip_nonws(line@, i as int),
        i <= j <= line@.len(),
{
    let mut j = i;
    while j < line.len() && line[j] != 32 && line[j] != 9
        invariant
            i <= j <= line@.len(),
            skip_nonws(line@, i as int) == skip_nonws(line@, j as int),
        decreases line@.len() - j,
    {
        j = j + 1;
    }
    j
}

/// First index at or after `i` that holds a line feed (or the end).
pub open spec fn skip_to_nl(s: Seq<u8>, i: int) -> int
    decreases s.len() - i,
{
    if 0 <= i < s.len() && s[i] != '\n' as u8 {
        skip_to_nl(s, i + 1)
    } else {
        i
    }
}

pub proof fn lemma_skip_to_nl_bounds(s: Seq<u8>, i: int)
    requires
        0 <= i <= s.len(),
    ensures
        i <= skip_to_nl(s, i) <= s.len(),
    decreases s.len() - i,
{
    if i < s.len() && s[i] != '\n' as u8 {
        lemma_skip_to_nl_bounds(s, i + 1);
    }
}

pub fn skip_to_nl_exec(s: &[u8], i: usize) -> (j: usize)
    requires
        i <= s@.len(),
    ensures
        j as int == skip_to_nl(s@, i as int),
        i <= j <= s@.len(),
{
    let mut j = i;
    while j < s.len() && s[j] != 10
        invariant
            i <= j <= s@.len(),
            skip_to_nl(s@, i as int) == skip_to_nl(s@, j as int),
        decreases s@.len() - j,
    {
        j = j + 1;
    }
    j
}

/// The line starting at `l`: up to the next line feed, one trailing
/// carriage return removed.
pub open spec fn line_at(s: Seq<u8>, l: int) -> Seq<u8> {
    let e = skip_to_nl(s, l);
    if e > l && s[e - 1] == '\r' as u8 {
        s.subrange(l, e - 1)
    } else {
        s.subrange(l, e)
    }
}

/// The `[download]` marker bytes.
pub open spec fn dl_marker() -> Seq<u8> {
    seq![
        '[' as u8,
        'd' as u8,
        'o' as u8,
        'w' as u8,
        'n' as u8,
        'l' as u8,
        'o' as u8,
        'a' as u8,
        'd' as u8,
        ']' as u8,
    ]
}

/// Whether a download progress match begins at `i`: the marker, at least
/// one blank, digits, an optional `.` fraction, then `%`.
pub open spec fn dl_match_at(s: Seq<u8>, i: int) -> bool {
    let p = i + 10;
    let q = skip_ws(s, p);
    let e = skip_digits(s, q);
    &&& 0 <= i
    &&& p <= s.len()
    &&& s.subrange(i, p) == dl_marker()
    &&& p < s.len()
    &&& is_ws_byte(s[p])
    &&& q < s.len()
    &&& is_digit_byte(s[q])
    &&& if e < s.len() && s[e] == '.' as u8 {
        let f = skip_digits(s, e + 1);
        f < s.len() && s[f] == '%' as u8
    } else {
        e < s.len() && s[e] == '%' as u8
    }
}

/// Start of the integer digits of the percentage matched at `i`.
pub open spec fn dl_digits_start(s: Seq<u8>, i: int) -> int {
    skip_ws(s, i + 10)
}

/// End of the integer digits of the percentage matched at `i`.
pub open spec fn dl_digits_end(s: Seq<u8>, i: int) -> int {
    skip_digits(s, dl_digits_start(s, i))
}

/// The fraction digits of the percentage matched at `i` (empty when the
/// percentage has no `.`).
pub open spec fn dl_frac_digits(s: Seq<u8>, i: int) -> Seq<u8> {
    let e = dl_digits_end(s, i);
    if e < s.len() && s[e] == '.' as u8 {
        s.subrange(e + 1, skip_digits(s, e + 1))
    } else {
        Seq::empty()
    }
}

/// Index one past the `%` of the percentage matched at `i`.
pub open spec fn dl_percent_end(s: Seq<u8>, i: int) -> int {
    let e = dl_digits_end(s, i);
    if e < s.len() && s[e] == '.' as u8 {
        skip_digits(s, e + 1) + 1
    } else {
        e + 1
    }
}

/// The value of the first two fraction digits, in hundredths.
pub open spec fn frac2_val(fp: Seq<u8>) -> nat {
    if fp.len() == 0 {
        0
    } else if fp.len() == 1 {
        digit_byte_val(fp[0]) * 10
    } else {
        digit_byte_val(fp[0]) * 10 + digit_byte_val(fp[1])
    }
}

/// A percentage in hundredths, clamped to 100 %.
pub open spec fn clamp_centi(n: nat) -> nat {
    if n > 10000 {
        10000
    } else {
        n
    }
}

/// The percentage matched at `i`, in hundredths of a percent, truncated
/// to two fraction digits and clamped to 100 %.
pub open spec fn dl_percent_at(s: Seq<u8>, i: int) -> nat {
    clamp_centi(
        bytes_value(s.subrange(dl_digits_start(s, i), dl_digits_end(s, i))) * 100 + frac2_val(
            dl_frac_digits(s, i),
        ),
    )
}

/// First index at or after `i` where a download progress match begins,
/// or the length of the sequence when there is none.
pub open spec fn first_dl_match_from(s: Seq<u8>, i: int) -> int
    decreases s.len() - i,
{
    if 0 <= i < s.len() {
        if dl_match_at(s, i) {
            i
        } else {
            first_dl_match_from(s, i + 1)
        }
    } else {
        s.len() as int
    }
}

/// A download progress match begins somewhere iff the scan from the left
/// stops before the end.
pub proof fn lemma_first_dl_match_iff(s: Seq<u8>, i: int)
    requires
        0 <= i <= s.len(),
    ensures
        first_dl_match_from(s, i) < s.len() <==> exists|j: int| i <= j && dl_match_at(s, j),
    decreases s.len() - i,
{
    if i < s.len() {
        lemma_first_dl_match_iff(s, i + 1);
        if dl_match_at(s, i) {
            assert(exists|j: int| i <= j && dl_match_at(s, j));
        } else {
            if exists|j: int| i <= j && dl_match_at(s, j) {
                let j = choose|j: int| i <= j && dl_match_at(s, j);
                assert(i + 1 <= j && dl_match_at(s, j));
            }
        }
    } else {
        if exists|j: int| i <= j && dl_match_at(s, j) {
            let j = choose|j: int| i <= j && dl_match_at(s, j);
            lemma_skip_ws_bounds(s, j + 10);
            assert(false);
        }
    }
}

/// Whether a blank-delimited token begins at `i`.
pub open spec fn is_token_start(s: Seq<u8>, i: int) -> bool {
    &&& 0 <= i < s.len()
    &&& !is_ws_byte(s[i])
    &&& (i == 0 || is_ws_byte(s[i - 1]))
}

/// The token beginning at `i`: everything up to the next blank.
pub open spec fn token_at(s: Seq<u8>, i: int) -> Seq<u8> {
    s.subrange(i, skip_nonws(s, i))
}

/// Whether a token reads as a transfer speed: it starts with a digit and
/// ends in `/s`.
pub open spec fn is_speed_token(t: Seq<u8>) -> bool {
    &&& t.len() >= 3
    &&& is_digit_byte(t[0])
    &&& t[t.len() - 2] == '/' as u8
    &&& t[t.len() - 1] == 's' as u8
}

/// First index at or after `i` where a speed token begins, or the length
/// of the sequence when there is none.
pub open spec fn first_speed_from(s: Seq<u8>, i: int) -> int
    decreases s.len() - i,
{
    if 0 <= i < s.len() {
        if is_token_start(s, i) && is_speed_token(token_at(s, i)) {
            i
        } else {
            first_speed_from(s, i + 1)
        }
    } else {
        s.len() as int
    }
}

/// The `ETA` token bytes.
pub open spec fn eta_marker() -> Seq<u8> {
    seq!['E' as u8, 'T' as u8, 'A' as u8]
}

/// First index at or after `i` where a token equal to `ETA` begins, or
/// the length of the sequence when there is none.
pub open spec fn first_eta_from(s: Seq<u8>, i: int) -> int
    decreases s.len() - i,
{
    if 0 <= i < s.len() {
        if is_token_start(s, i) && token_at(s, i) == eta_marker() {
            i
        } else {
            first_eta_from(s, i + 1)
        }
    } else {
        s.len() as int
    }
}

/// The byte span of the speed token of the line matched at `m`, if any:
/// the first speed token after the percentage.
pub open spec fn dl_speed_span(s: Seq<u8>, m: int) -> Option<(int, int)> {
    let k = first_speed_from(s, dl_percent_end(s, m));
    if k < s.len() {
        Some((k, skip_nonws(s, k)))
    } else {
        None
    }
}

/// The byte span of the ETA estimate of the line matched at `m`, if any:
/// the token after the first `ETA` token after the percentage.
pub open spec fn dl_eta_span(s: Seq<u8>, m: int) -> Option<(int, int)> {
    let k = first_eta_from(s, dl_percent_end(s, m));
    if k < s.len() {
        let a = skip_ws(s, skip_nonws(s, k));
        if a < s.len() {
            Some((a, skip_nonws(s, a)))
        } else {
            None
        }
    } else {
        None
    }
}

/// All trailing newline bytes removed, then all trailing carriage
/// returns.
pub open spec fn strip_nl(s: Seq<u8>) -> Seq<u8>
    decreases s.len(),
{
    if s.len() > 0 && s.last() == '\n' as u8 {
        strip_nl(s.drop_last())
    } else {
        s
    }
}

pub open spec fn strip_cr(s: Seq<u8>) -> Seq<u8>
    decreases s.len(),
{
    if s.len() > 0 && s.last() == '\r' as u8 {
        strip_cr(s.drop_last())
    } else {
        s
    }
}

/// The body of a raw line: trailing newlines, then trailing carriage
/// returns, removed.
pub open spec fn line_body(s: Seq<u8>) -> Seq<u8> {
    strip_cr(strip_nl(s))
}

/// Removes the line terminator: every trailing newline, then every
/// trailing carriage return.
pub fn strip_line_ending(line: &[u8]) -> (r: &[u8])
    ensures
        r@ == line_body(line@),
{
    let mut end = line.len();
    proof {
        assert(line@.subrange(0, line@.len() as int) =~= line@);
    }
    while end > 0 && line[end - 1] == 10
        invariant
            0 <= end <= line@.len(),
            strip_nl(line@) == strip_nl(line@.subrange(0, end as int)),
        decreases end,
    {
        proof {
            assert(line@.subrange(0, end as int).drop_last() =~= line@.subrange(0, end - 1));
        }
        end = end - 1;
    }
    proof {
        assert(strip_nl(line@.subrange(0, end as int)) =~= line@.subrange(0, end as int));
    }
    let nl_end = end;
    let ghost stripped = line@.subrange(0, nl_end as int);
    while end > 0 && line[end - 1] == 13
        invariant
            0 <= end <= nl_end <= line@.len(),
            stripped == line@.subrange(0, nl_end as int),
            forall|k: int| 0 <= k < end ==> line@[k] == stripped[k],
            strip_cr(stripped) == strip_cr(line@.subrange(0, end as int)),
        decreases end,
    {
        proof {
            assert(line@.subrange(0, end as int).drop_last() =~= line@.subrange(0, end - 1));
        }
        end = end - 1;
    }
    proof {
        assert(strip_cr(line@.subrange(0, end as int)) =~= line@.subrange(0, end as int));
    }
    &line[0..end]
}

fn is_dl_marker_at(line: &[u8], i: usize) -> (r: bool)
    requires
        i + 10 <= line@.len(),
    ensures
        r <==> line@.subrange(i as int, i as int + 10) == dl_marker(),
{
    let r = line[i] == '[' as u8 && line[i + 1] == 'd' as u8 && line[i + 2] == 'o' as u8 && line[i
        + 3] == 'w' as u8 && line[i + 4] == 'n' as u8 && line[i + 5] == 'l' as u8 && line[i + 6]
        == 'o' as u8 && line[i + 7] == 'a' as u8 && line[i + 8] == 'd' as u8 && line[i + 9]
        == ']' as u8;
    proof {
        let sub = line@.subrange(i as int, i as int + 10);
        assert(sub[0] == line@[i as int]);
        assert(sub[1] == line@[i as int + 1]);
        assert(sub[2] == line@[i as int + 2]);
        assert(sub[3] == line@[i as int + 3]);
        assert(sub[4] == line@[i as int + 4]);
        assert(sub[5] == line@[i as int + 5]);
        assert(sub[6] == line@[i as int + 6]);
        assert(sub[7] == line@[i as int + 7]);
        assert(sub[8] == line@[i as int + 8]);
        assert(sub[9] == line@[i as int + 9]);
        if r {
            assert(sub =~= dl_marker());
        }
        if sub == dl_marker() {
            assert(r);
        }
    }
    r
}

/// A number clamped to 101: enough to tell apart every percentage up to
/// 100 from everything larger.
pub open spec fn clamp101(n: nat) -> nat {
    if n > 101 {
        101
    } else {
        n
    }
}

fn clamped_value(line: &[u8], q: usize, e: usize) -> (v: u32)
    requires
        q <= e <= line@.len(),
        all_digit_bytes(line@.subrange(q as int, e as int)),
    ensures
        v as nat == clamp101(bytes_value(line@.subrange(q as int, e as int))),
        v <= 101,
{
    let mut v: u32 = 0;
    let mut j = q;
    proof {
        assert(line@.subrange(q as int, q as int) =~= Seq::<u8>::empty());
    }
    while j < e
        invariant
            q <= j <= e <= line@.len(),
            all_digit_bytes(line@.subrange(q as int, e as int)),
            v as nat == clamp101(bytes_value(line@.subrange(q as int, j as int))),
            v <= 101,
        decreases e - j,
    {
        proof {
            assert(line@.subrange(q as int, e as int)[j - q] == line@[j as int]);
            assert(line@.subrange(q as int, j + 1).drop_last() =~= line@.subrange(
                q as int,
                j as int,
            ));
            assert(line@.subrange(q as int, j + 1).last() == line@[j as int]);
        }
        let d = (line[j] - 48) as u32;
        let t = v * 10 + d;
        v = if t > 101 {
            101
        } else {
            t
        };
        j = j + 1;
    }
    v
}

fn try_dl_match_at(line: &[u8], i: usize) -> (r: Option<(u32, usize)>)
    requires
        i <= line@.len(),
    ensures
        r is Some <==> dl_match_at(line@, i as int),
        r matches Some(t) ==> {
            &&& t.0 as nat == dl_percent_at(line@, i as int)
            &&& t.0 <= 10000
            &&& t.1 as int == dl_percent_end(line@, i as int)
            &&& i < t.1 <= line@.len()
        },
{
    if line.len() - i < 10 {
        return None;
    }
    if !is_dl_marker_at(line, i) {
        return None;
    }
    let p = i + 10;
    if p >= line.len() {
        return None;
    }
    if !(line[p] == 32 || line[p] == 9) {
        return None;
    }
    let q = skip_ws_exec(line, p);
    if q >= line.len() {
        return None;
    }
    if line[q] < 48 || line[q] > 57 {
        return None;
    }
    let e = skip_digits_exec(line, q);
    proof {
        lemma_skip_digits_bounds(line@, q as int);
    }
    let v = clamped_value(line, q, e);
    let fs: usize;
    let fe: usize;
    let pe: usize;
    if e < line.len() && line[e] == '.' as u8 {
        let f = skip_digits_exec(line, e + 1);
        if f < line.len() && line[f] == '%' as u8 {
            fs = e + 1;
            fe = f;
            pe = f + 1;
        } else {
            return None;
        }
    } else if e < line.len() && line[e] == '%' as u8 {
        fs = e;
        fe = e;
        pe = e + 1;
    } else {
        return None;
    }
    proof {
        lemma_skip_digits_bounds(line@, fs as int);
        assert(dl_frac_digits(line@, i as int) =~= line@.subrange(fs as int, fe as int));
    }
    let f2: u32 = if fe == fs {
        0
    } else {
        proof {
            assert(line@.subrange(fs as int, fe as int)[0] == line@[fs as int]);
        }
        if fe - fs == 1 {
            ((line[fs] - 48) as u32) * 10
        } else {
            proof {
                assert(line@.subrange(fs as int, fe as int)[1] == line@[fs as int + 1]);
            }
            ((line[fs] - 48) as u32) * 10 + ((line[fs + 1] - 48) as u32)
        }
    };
    let centi: u32 = if v >= 101 {
        10000
    } else {
        let t = v * 100 + f2;
        if t > 10000 {
            10000
        } else {
            t
        }
    };
    proof {
        let s = line@;
        let ip = s.subrange(dl_digits_start(s, i as int), dl_digits_end(s, i as int));
        if v >= 101 {
            assert(bytes_value(ip) >= 101);
            assert(bytes_value(ip) * 100 >= 10100);
        } else {
            assert(v as nat == bytes_value(ip));
        }
        assert(f2 as nat == frac2_val(dl_frac_digits(s, i as int)));
        assert(centi as nat == dl_percent_at(s, i as int));
    }
    Some((centi, pe))
}

fn find_speed_from(line: &[u8], from: usize) -> (k: usize)
    requires
        from <= line@.len(),
    ensures
        k as int == first_speed_from(line@, from as int),
        from <= k <= line@.len(),
{
    let n = line.len();
    let mut i = from;
    while i < n
        invariant
            from <= i <= n,
            n == line@.len(),
            first_speed_from(line@, from as int) == first_speed_from(line@, i as int),
        decreases n - i,
    {
        let c = line[i];
        let start = (c != 32 && c != 9) && (i == 0 || line[i - 1] == 32 || line[i - 1] == 9);
        if start {
            let e = skip_nonws_exec(line, i);
            proof {
                if e - i >= 3 {
                    assert(token_at(line@, i as int)[0] == line@[i as int]);
                    assert(token_at(line@, i as int)[e - i - 2] == line@[e - 2]);
                    assert(token_at(line@, i as int)[e - i - 1] == line@[e - 1]);
                }
            }
            if e - i >= 3 && 48 <= line[i] && line[i] <= 57 && line[e - 2] == '/' as u8 && line[e
                - 1] == 's' as u8 {
                return i;
            }
        }
        proof {
            assert(!(is_token_start(line@, i as int) && is_speed_token(token_at(line@, i as int))));
        }
        i = i + 1;
    }
    n
}

fn find_eta_from(line: &[u8], from: usize) -> (k: usize)
    requires
        from <= line@.len(),
    ensures
        k as int == first_eta_from(line@, from as int),
        from <= k <= line@.len(),
{
    let n = line.len();
    let mut i = from;
    while i < n
        invariant
            from <= i <= n,
            n == line@.len(),
            first_eta_from(line@, from as int) == first_eta_from(line@, i as int),
        decreases n - i,
    {
        let c = line[i];
        let start = (c != 32 && c != 9) && (i == 0 || line[i - 1] == 32 || line[i - 1] == 9);
        if start {
            let e = skip_nonws_exec(line, i);
            proof {
                if e - i == 3 {
                    assert(token_at(line@, i as int)[0] == line@[i as int]);
                    assert(token_at(line@, i as int)[1] == line@[i as int + 1]);
                    assert(token_at(line@, i as int)[2] == line@[i as int + 2]);
                    assert(eta_marker()[0] == 'E' as u8);
                    assert(eta_marker()[1] == 'T' as u8);
                    assert(eta_marker()[2] == 'A' as u8);
                }
            }
            if e - i == 3 && line[i] == 'E' as u8 && line[i + 1] == 'T' as u8 && line[i + 2]
                == 'A' as u8 {
                proof {
                    assert(token_at(line@, i as int) =~= eta_marker());
                }
                return i;
            }
            proof {
                if token_at(line@, i as int) == eta_marker() {
                    assert(token_at(line@, i as int).len() == 3);
                    assert(false);
                }
            }
        }
        proof {
            assert(!(is_token_start(line@, i as int) && token_at(line@, i as int)
                == eta_marker()));
        }
        i = i + 1;
    }
    n
}

/// The status text of a download progress update.
pub open spec fn dl_message_spec(centi: nat) -> Seq<char> {
    "Downloading... "@ + percent_one_decimal_spec(centi) + "%"@
}

/// Parses one raw output line of the download tool.
///
/// The update carries the percentage of the line's first download
/// progress match, the first speed token after it, and the token after
/// the first `ETA` token after it; a line with no download progress
/// match produces no update.
pub fn parse_download_line(raw: &[u8]) -> (r: Option<ProgressUpdate>)
    ensures
        ({
            let s = line_body(raw@);
            let m = first_dl_match_from(s, 0);
            match r {
                Some(u) => {
                    &&& m < s.len()
                    &&& dl_match_at(s, m)
                    &&& u.stage == ProgressStage::Downloading
                    &&& u.percent_centi as nat == dl_percent_at(s, m)
                    &&& u.wf()
                    &&& u.message@ == dl_message_spec(u.percent_centi as nat)
                    &&& match dl_speed_span(s, m) {
                        Some(sp) => u.speed matches Some(v) && v@ == lossy_decode(
                            s.subrange(sp.0, sp.1),
                        ),
                        None => u.speed is None,
                    }
                    &&& match dl_eta_span(s, m) {
                        Some(sp) => u.eta matches Some(v) && v@ == lossy_decode(
                            s.subrange(sp.0, sp.1),
                        ),
                        None => u.eta is None,
                    }
                },
                None => m == s.len(),
            }
        }),
{
    let line = strip_line_ending(raw);
    let n = line.len();
    let mut i: usize = 0;
    while i < n
        invariant
            0 <= i <= n,
            n == line@.len(),
            line@ == line_body(raw@),
            first_dl_match_from(line@, 0) == first_dl_match_from(line@, i as int),
        decreases n - i,
    {
        match try_dl_match_at(line, i) {
            Some((centi, pe)) => {
                let mut msg = String::from_str("Downloading... ");
                let pstr = percent_one_decimal(centi);
                msg.append(pstr.as_str());
                msg.append({
                    proof {
                        reveal_strlit("%");
                    }
                    "%"
                });
                let ks = find_speed_from(line, pe);
                let speed: Option<String> = if ks < n {
                    let e2 = skip_nonws_exec(line, ks);
                    proof {
                        lemma_skip_nonws_bounds(line@, ks as int);
                    }
                    Some(lossy_string(&line[ks..e2]))
                } else {
                    None
                };
                let kt = find_eta_from(line, pe);
                let eta: Option<String> = if kt < n {
                    let te = skip_nonws_exec(line, kt);
                    let a = skip_ws_exec(line, te);
                    if a < n {
                        let ae = skip_nonws_exec(line, a);
                        Some(lossy_string(&line[a..ae]))
                    } else {
                        None
                    }
                } else {
                    None
                };
                return Some(
                    ProgressUpdate {
                        stage: ProgressStage::Downloading,
                        percent_centi: centi,
                        message: msg,
                        speed,
                        eta,
                    },
                );
            },
            None => {
                i = i + 1;
            },
        }
    }
    None
}

/// The `out_time_ms=` marker bytes.
pub open spec fn cut_marker() -> Seq<u8> {
    seq![
        'o' as u8,
        'u' as u8,
        't' as u8,
        '_' as u8,
        't' as u8,
        'i' as u8,
        'm' as u8,
        'e' as u8,
        '_' as u8,
        'm' as u8,
        's' as u8,
        '=' as u8,
    ]
}

/// Whether a cut progress match begins at `i`: the marker followed by at
/// least one digit.
pub open spec fn cut_match_at(s: Seq<u8>, i: int) -> bool {
    &&& 0 <= i
    &&& i + 12 < s.len()
    &&& s.subrange(i, i + 12) == cut_marker()
    &&& is_digit_byte(s[i + 12])
}

/// First index at or after `i` where a cut progress match begins, or the
/// length of the sequence when there is none.
pub open spec fn first_cut_match_from(s: Seq<u8>, i: int) -> int
    decreases s.len() - i,
{
    if 0 <= i < s.len() {
        if cut_match_at(s, i) {
            i
        } else {
            first_cut_match_from(s, i + 1)
        }
    } else {
        s.len() as int
    }
}

/// The digit run after the cut progress marker matched at `i`.
pub open spec fn cut_digits(s: Seq<u8>, i: int) -> Seq<u8> {
    s.subrange(i + 12, skip_digits(s, i + 12))
}

/// Elapsed over total, in hundredths of a percent, clamped to 100 %; a
/// zero total reads as no progress rather than a division by zero.
pub open spec fn cut_percent(elapsed: nat, total_us: nat) -> nat {
    if total_us == 0 {
        0
    } else {
        clamp_centi((elapsed * 10000) / total_us)
    }
}

fn is_cut_marker_at(line: &[u8], i: usize) -> (r: bool)
    requires
        i + 12 <= line@.len(),
    ensures
        r <==> line@.subrange(i as int, i as int + 12) == cut_marker(),
{
    let r = line[i] == 'o' as u8 && line[i + 1] == 'u' as u8 && line[i + 2] == 't' as u8 && line[i
        + 3] == '_' as u8 && line[i + 4] == 't' as u8 && line[i + 5] == 'i' as u8 && line[i + 6]
        == 'm' as u8 && line[i + 7] == 'e' as u8 && line[i + 8] == '_' as u8 && line[i + 9]
        == 'm' as u8 && line[i + 10] == 's' as u8 && line[i + 11] == '=' as u8;
    proof {
        let sub = line@.subrange(i as int, i as int + 12);
        assert(sub[0] == line@[i as int]);
        assert(sub[1] == line@[i as int + 1]);
        assert(sub[2] == line@[i as int + 2]);
        assert(sub[3] == line@[i as int + 3]);
        assert(sub[4] == line@[i as int + 4]);
        assert(sub[5] == line@[i as int + 5]);
        assert(sub[6] == line@[i as int + 6]);
        assert(sub[7] == line@[i as int + 7]);
        assert(sub[8] == line@[i as int + 8]);
        assert(sub[9] == line@[i as int + 9]);
        assert(sub[10] == line@[i as int + 10]);
        assert(sub[11] == line@[i as int + 11]);
        if r {
            assert(sub =~= cut_marker());
        }
        if sub == cut_marker() {
            assert(r);
        }
    }
    r
}

/// Parses one raw output line of the cut tool against the clip's total
/// duration in microseconds, returning the elapsed percentage in
/// hundredths.
///
/// The percentage comes from the line's first `out_time_ms=` match; a
/// line with no match, or an elapsed number too large to represent,
/// produces no update.
pub fn parse_cut_line(raw: &[u8], total_us: u64) -> (r: Option<u32>)
    ensures
        ({
            let s = line_body(raw@);
            let m = first_cut_match_from(s, 0);
            match r {
                Some(c) => {
                    &&& m < s.len()
                    &&& cut_match_at(s, m)
                    &&& bytes_value(cut_digits(s, m)) <= u64::MAX
                    &&& c as nat == cut_percent(bytes_value(cut_digits(s, m)), total_us as nat)
                    &&& c <= 10000
                },
                None => m == s.len() || bytes_value(cut_digits(s, m)) > u64::MAX,
            }
        }),
{
    let line = strip_line_ending(raw);
    let n = line.len();
    let mut i: usize = 0;
    while i < n
        invariant
            0 <= i <= n,
            n == line@.len(),
            line@ == line_body(raw@),
            first_cut_match_from(line@, 0) == first_cut_match_from(line@, i as int),
        decreases n - i,
    {
        if n - i > 12 && is_cut_marker_at(line, i) && 48 <= line[i + 12] && line[i + 12] <= 57 {
            let e = skip_digits_exec(line, i + 12);
            proof {
                lemma_skip_digits_bounds(line@, i as int + 12);
                lemma_skip_digits_bounds(line@, i as int + 13);
                assert(cut_match_at(line@, i as int));
                assert(first_cut_match_from(line@, i as int) == i);
                assert(skip_digits(line@, i as int + 12) == skip_digits(line@, i as int + 13));
                assert(e > i + 12);
            }
            let elapsed = match crate::text::parse_u64_bytes(&line[i + 12..e]) {
                Some(v) => v,
                None => {
                    return None;
                },
            };
            let centi: u32 = if total_us == 0 {
                0
            } else {
                let w = (elapsed as u128) * 10000 / (total_us as u128);
                if w > 10000 {
                    10000
                } else {
                    w as u32
                }
            };
            return Some(centi);
        }
        proof {
            assert(!cut_match_at(line@, i as int));
        }
        i = i + 1;
    }
    None
}

} // verus!
