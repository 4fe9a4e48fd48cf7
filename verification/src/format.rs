//! Human-readable rendering of durations and byte counts.

use vstd::prelude::*;
use crate::text::{dec_digits, digit_char, pad2, u64_to_string, u64_to_string_pad2};

verus! {

pub const KB: u64 = 1024;

pub const MB: u64 = 1024 * 1024;

pub const GB: u64 = 1024 * 1024 * 1024;

/// A duration in whole seconds as `HH:MM:SS`, or `MM:SS` when there is
/// no full hour.
pub open spec fn format_duration_spec(s: nat) -> Seq<char> {
    if s / 3600 > 0 {
        pad2(s / 3600) + ":"@ + pad2((s % 3600) / 60) + ":"@ + pad2(s % 60)
    } else {
        pad2((s % 3600) / 60) + ":"@ + pad2(s % 60)
    }
}

/// Renders a duration in whole seconds.
pub fn format_duration(seconds: u64) -> (r: String)
    ensures
        r@ == format_duration_spec(seconds as nat),
{
    let hours = seconds / 3600;
    let minutes = (seconds % 3600) / 60;
    let secs = seconds % 60;
    if hours > 0 {
        let mut s = u64_to_string_pad2(hours);
        s.append(":");
        s.append(u64_to_string_pad2(minutes).as_str());
        s.append(":");
        s.append(u64_to_string_pad2(secs).as_str());
        s
    } else {
        let mut s = u64_to_string_pad2(minutes);
        s.append(":");
        s.append(u64_to_string_pad2(secs).as_str());
        s
    }
}

/// `num / den` rounded to the nearest whole number, ties to the even
/// neighbour.
pub open spec fn rhe_div(num: nat, den: nat) -> nat {
    let q = num / den;
    let r = num % den;
    if 2 * r > den {
        q + 1
    } else if 2 * r < den {
        q
    } else if q % 2 == 0 {
        q
    } else {
        q + 1
    }
}

fn rhe_div_exec(num: u128, den: u128) -> (q: u128)
    requires
        den > 0,
    ensures
        q as nat == rhe_div(num as nat, den as nat),
{
    let qq = num / den;
    let rr = num % den;
    let h = den / 2;
    proof {
        assert(den == 2 * (den / 2) + den % 2);
        vstd::arithmetic::div_mod::lemma_fundamental_div_mod(num as int, den as int);
        if den >= 2 {
            assert((qq as int) * 2 <= (qq as int) * (den as int)) by (nonlinear_arith)
                requires
                    den >= 2,
                    qq >= 0,
            ;
            assert(qq < u128::MAX);
        }
    }
    if rr > h {
        qq + 1
    } else if rr < h || den % 2 == 1 {
        qq
    } else if qq % 2 == 0 {
        qq
    } else {
        qq + 1
    }
}

/// A count of tenths as a number with one decimal place: `15` becomes
/// `1.5`.
pub open spec fn tenths_string(t: nat) -> Seq<char> {
    dec_digits(t / 10) + "."@ + seq![digit_char((t % 10) as int)]
}

fn build_tenths(t: u64) -> (r: String)
    ensures
        r@ == tenths_string(t as nat),
{
    let mut s = u64_to_string(t / 10);
    s.append(".");
    s.append(u64_to_string(t % 10).as_str());
    proof {
        assert(dec_digits((t % 10) as nat) =~= seq![digit_char((t % 10) as int)]);
    }
    s
}

/// A byte count in the largest binary unit it reaches: whole gigabytes
/// and megabytes with one decimal place, whole kilobytes, or plain
/// bytes, each rounded to the nearest representable value.
pub open spec fn format_bytes_spec(b: nat) -> Seq<char> {
    if b >= GB {
        tenths_string(rhe_div(b * 10, GB as nat)) + " GB"@
    } else if b >= MB {
        tenths_string(rhe_div(b * 10, MB as nat)) + " MB"@
    } else if b >= KB {
        dec_digits(rhe_div(b, KB as nat)) + " KB"@
    } else {
        dec_digits(b) + " B"@
    }
}

/// Renders a byte count.
pub fn format_bytes(bytes: u64) -> (r: String)
    ensures
        r@ == format_bytes_spec(bytes as nat),
{
    if bytes >= GB {
        let t = rhe_div_exec((bytes as u128) * 10, GB as u128);
        let mut s = build_tenths(t as u64);
        s.append(" GB");
        s
    } else if bytes >= MB {
        let t = rhe_div_exec((bytes as u128) * 10, MB as u128);
        let mut s = build_tenths(t as u64);
        s.append(" MB");
        s
    } else if bytes >= KB {
        let t = rhe_div_exec(bytes as u128, KB as u128);
        let mut s = u64_to_string(t as u64);
        s.append(" KB");
        s
    } else {
        let mut s = u64_to_string(bytes);
        s.append(" B");
        s
    }
}

} // verus!
