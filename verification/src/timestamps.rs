//! Timestamps as the caller writes them (`SS`, `MM:SS` or `HH:MM:SS`)
//! and their validation against a video's duration.

use vstd::prelude::*;
use crate::errors::AppError;
use crate::shim::{str_trim, trim_spec};
use crate::text::{all_digit_chars, chars_value, parse_u64_chars};

verus! {

/// First index at or after `i` that holds a colon (or the end).
pub open spec fn find_colon(s: Seq<char>, i: int) -> int
    decreases s.len() - i,
{
    if 0 <= i < s.len() && s[i] != ':' {
        find_colon(s, i + 1)
    } else {
        i
    }
}

fn find_colon_exec(s: &str, i: usize, n: usize) -> (j: usize)
    requires
        i <= n,
        n == s@.len(),
    ensures
        j as int == find_colon(s@, i as int),
        i <= j <= n,
{
    let mut j = i;
    while j < n && s.get_char(j) != ':'
        invariant
            i <= j <= n,
            n == s@.len(),
            find_colon(s@, i as int) == find_colon(s@, j as int),
        decreases n - j,
    {
        j = j + 1;
    }
    j
}

/// What a run of characters denotes as a `u64`: a number only when it is
/// a non-empty all-digit run that fits.
pub open spec fn parsed_u64_chars(s: Seq<char>) -> Option<u64> {
    if s.len() > 0 && all_digit_chars(s) && chars_value(s) <= u64::MAX {
        Some(chars_value(s) as u64)
    } else {
        None
    }
}

/// The seconds a trimmed timestamp denotes: one colon-separated part is
/// seconds, two are minutes and seconds, three are hours, minutes and
/// seconds; anything else, or a sum too large, denotes nothing.
pub open spec fn timestamp_value(t: Seq<char>) -> Option<u64> {
    let c1 = find_colon(t, 0);
    if c1 == t.len() {
        parsed_u64_chars(t)
    } else {
        let c2 = find_colon(t, c1 + 1);
        if c2 == t.len() {
            match (parsed_u64_chars(t.subrange(0, c1)), parsed_u64_chars(
                t.subrange(c1 + 1, t.len() as int),
            )) {
                (Some(m), Some(s)) => {
                    if m * 60 + s <= u64::MAX {
                        Some((m * 60 + s) as u64)
                    } else {
                        None
                    }
                },
                _ => None,
            }
        } else {
            let c3 = find_colon(t, c2 + 1);
            if c3 == t.len() {
                match (parsed_u64_chars(t.subrange(0, c1)), parsed_u64_chars(
                    t.subrange(c1 + 1, c2),
                ), parsed_u64_chars(t.subrange(c2 + 1, t.len() as int))) {
                    (Some(h), Some(m), Some(s)) => {
                        if h * 3600 + m * 60 + s <= u64::MAX {
                            Some((h * 3600 + m * 60 + s) as u64)
                        } else {
                            None
                        }
                    },
                    _ => None,
                }
            } else {
                None
            }
        }
    }
}

/// The seconds a timestamp denotes after trimming.
pub open spec fn parse_timestamp_spec(ts: Seq<char>) -> Option<u64> {
    timestamp_value(trim_spec(ts))
}

/// Parses a timestamp written as `SS`, `MM:SS` or `HH:MM:SS` into whole
/// seconds, ignoring surrounding whitespace.
pub fn parse_timestamp(timestamp: &str) -> (r: Option<u64>)
    ensures
        r == parse_timestamp_spec(timestamp@),
{
    let t = str_trim(timestamp);
    let n = t.unicode_len();
    let c1 = find_colon_exec(t, 0, n);
    if c1 == n {
        proof {
            assert(t@.subrange(0, n as int) =~= t@);
        }
        return parse_u64_chars(t);
    }
    let c2 = find_colon_exec(t, c1 + 1, n);
    if c2 == n {
        let m = match parse_u64_chars(t.substring_char(0, c1)) {
            Some(v) => v,
            None => {
                return None;
            },
        };
        let s = match parse_u64_chars(t.substring_char(c1 + 1, n)) {
            Some(v) => v,
            None => {
                return None;
            },
        };
        let total = (m as u128) * 60 + (s as u128);
        if total > u64::MAX as u128 {
            return None;
        }
        return Some(total as u64);
    }
    let c3 = find_colon_exec(t, c2 + 1, n);
    if c3 == n {
        let h = match parse_u64_chars(t.substring_char(0, c1)) {
            Some(v) => v,
            None => {
                return None;
            },
        };
        let m = match parse_u64_chars(t.substring_char(c1 + 1, c2)) {
            Some(v) => v,
            None => {
                return None;
            },
        };
        let s = match parse_u64_chars(t.substring_char(c2 + 1, n)) {
            Some(v) => v,
            None => {
                return None;
            },
        };
        let total = (h as u128) * 3600 + (m as u128) * 60 + (s as u128);
        if total > u64::MAX as u128 {
            return None;
        }
        return Some(total as u64);
    }
    None
}

/// How one optional timestamp field reads: absent or blank is no bound,
/// a parsable timestamp is a bound, and anything else is an error.
pub open spec fn timestamp_field(o: Option<Seq<char>>) -> Option<Option<u64>> {
    match o {
        None => Some(None),
        Some(s) => {
            if trim_spec(s).len() == 0 {
                Some(None)
            } else {
                match parse_timestamp_spec(s) {
                    Some(v) => Some(Some(v)),
                    None => None,
                }
            }
        },
    }
}

/// What validating two optional timestamps against a duration yields:
/// the parsed bounds, or the message of the first failing rule. A start
/// must lie before the duration and before the end; an end must be
/// positive and no later than the duration.
pub open spec fn validate_timestamps_spec(
    start: Option<Seq<char>>,
    end: Option<Seq<char>>,
    duration: u64,
) -> Result<(Option<u64>, Option<u64>), Seq<char>> {
    match timestamp_field(start) {
        None => Err("Invalid start time: "@ + start->0),
        Some(sv) => match timestamp_field(end) {
            None => Err("Invalid end time: "@ + end->0),
            Some(ev) => {
                if sv matches Some(s) && s >= duration {
                    Err("Start time exceeds video duration"@)
                } else if ev matches Some(e) && e == 0 {
                    Err("End time must be positive"@)
                } else if ev matches Some(e) && e > duration {
                    Err("End time exceeds video duration"@)
                } else if sv matches Some(s) && ev matches Some(e) && s >= e {
                    Err("Start time must be before end time"@)
                } else {
                    Ok((sv, ev))
                }
            },
        },
    }
}

/// Validates optional start and end timestamps against the video's
/// duration in whole seconds. Blank fields are no bound; a field that
/// does not parse, or a bound outside the video, is refused with a
/// message naming the first broken rule.
pub fn validate_timestamps(start: Option<String>, end: Option<String>, duration: u64) -> (r:
    Result<(Option<u64>, Option<u64>), AppError>)
    ensures
        match validate_timestamps_spec(start.deep_view(), end.deep_view(), duration) {
            Ok(p) => r matches Ok(q) && q == p,
            Err(m) => r matches Err(AppError::InvalidTimestamp(msg)) && msg@ == m,
        },
{
    let start_secs: Option<u64> = match &start {
        Some(s) => {
            if str_trim(s.as_str()).unicode_len() == 0 {
                None
            } else {
                match parse_timestamp(s.as_str()) {
                    Some(v) => Some(v),
                    None => {
                        let mut m = String::from_str("Invalid start time: ");
                        m.append(s.as_str());
                        return Err(AppError::InvalidTimestamp(m));
                    },
                }
            }
        },
        None => None,
    };
    let end_secs: Option<u64> = match &end {
        Some(e) => {
            if str_trim(e.as_str()).unicode_len() == 0 {
                None
            } else {
                match parse_timestamp(e.as_str()) {
                    Some(v) => Some(v),
                    None => {
                        let mut m = String::from_str("Invalid end time: ");
                        m.append(e.as_str());
                        return Err(AppError::InvalidTimestamp(m));
                    },
                }
            }
        },
        None => None,
    };
    if let Some(s) = start_secs {
        if s >= duration {
            return Err(
                AppError::InvalidTimestamp(String::from_str("Start time exceeds video duration")),
            );
        }
    }
    if let Some(e) = end_secs {
        if e == 0 {
            return Err(AppError::InvalidTimestamp(String::from_str("End time must be positive")));
        }
        if e > duration {
            return Err(
                AppError::InvalidTimestamp(String::from_str("End time exceeds video duration")),
            );
        }
    }
    if let (Some(s), Some(e)) = (start_secs, end_secs) {
        if s >= e {
            return Err(
                AppError::InvalidTimestamp(String::from_str("Start time must be before end time")),
            );
        }
    }
    Ok((start_secs, end_secs))
}

} // verus!
