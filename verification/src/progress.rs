//! The progress protocol: typed snapshots of job advancement.

use vstd::prelude::*;
use crate::text::{dec_digits, digit_char, u64_to_string};

verus! {

/// The logical phase a job is in.
#[derive(Debug, Clone, Copy, PartialEq, Eq, Structural)]
pub enum ProgressStage {
    Fetching,
    Downloading,
    Cutting,
    Complete,
    Error,
}

/// One immutable snapshot of job advancement. Percentages are carried in
/// hundredths of a percent, so `4250` stands for 42.5 %.
#[derive(Debug, Clone)]
pub struct ProgressUpdate {
    pub stage: ProgressStage,
    /// Hundredths of a percent, between 0 and 10000.
    pub percent_centi: u32,
    /// Human-readable status text.
    pub message: String,
    /// Transfer speed as reported by the tool, download stage only.
    pub speed: Option<String>,
    /// Estimated time of arrival as reported by the tool, download stage
    /// only.
    pub eta: Option<String>,
}

impl ProgressUpdate {
    /// A percentage never exceeds 100 %.
    pub open spec fn wf(&self) -> bool {
        self.percent_centi <= 10000
    }
}

/// A centi-percent written with one decimal place, truncated: `4250`
/// becomes `42.5`.
pub open spec fn percent_one_decimal_spec(c: nat) -> Seq<char> {
    dec_digits(c / 100) + seq!['.', digit_char(((c % 100) / 10) as int)]
}

/// Renders a centi-percent with one decimal place.
pub fn percent_one_decimal(c: u32) -> (s: String)
    ensures
        s@ =~= percent_one_decimal_spec(c as nat),
{
    let mut s = u64_to_string((c / 100) as u64);
    s.append({
        proof {
            reveal_strlit(".");
        }
        "."
    });
    s.append(crate::text::digit_str(((c % 100) / 10) as u64));
    s
}

/// A centi-percent written as a whole percentage, truncated: `4250`
/// becomes `42`.
pub open spec fn percent_whole_spec(c: nat) -> Seq<char> {
    dec_digits(c / 100)
}

/// Renders a centi-percent as a whole percentage.
pub fn percent_whole(c: u32) -> (s: String)
    ensures
        s@ =~= percent_whole_spec(c as nat),
{
    u64_to_string((c / 100) as u64)
}

} // verus!
