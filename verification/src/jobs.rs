//! Job supervision decisions: the single-active-job slot, the download
//! job, and the cut job with its one automatic fallback attempt.
//!
//! The functions here decide; running the external process, the channel
//! and the awaiting happen outside the library, which hands every output
//! line and the exit status back in as plain values.

use vstd::prelude::*;
use crate::errors::AppError;
use crate::lineparse::{cut_digits, cut_match_at, cut_percent, first_cut_match_from, line_at, line_body, parse_cut_line, skip_to_nl_exec};
use crate::media::DownloadMode;
use crate::progress::{percent_whole, percent_whole_spec, ProgressStage, ProgressUpdate};
use crate::shim::{lossy_decode, lossy_string};
use crate::text::{all_digit_chars, bytes_value, chars_value, dec_digits, parse_u64_chars, streq, u64_to_string};

verus! {

/// The process-wide record of the at most one running job: the running
/// job's token, or nothing.
pub struct ActiveJobSlot {
    pub active: Option<u64>,
}

impl ActiveJobSlot {
    /// An empty slot: nothing runs.
    pub fn new() -> (r: Self)
        ensures
            r.active is None,
    {
        ActiveJobSlot { active: None }
    }

    /// Whether a job is running.
    pub fn is_active(&self) -> (r: bool)
        ensures
            r == (self.active is Some),
    {
        match self.active {
            Some(_) => true,
            None => false,
        }
    }

    /// Records `job` as the running job. Starting while another job runs
    /// is refused before anything is spawned, and the slot is unchanged.
    pub fn try_start(&mut self, job: u64) -> (r: Result<(), AppError>)
        ensures
            old(self).active is None ==> r is Ok && final(self).active == Some(job),
            old(self).active is Some ==> *final(self) == *old(self) && (r matches Err(
                AppError::DownloadError(m),
            ) && m@ == "A download is already in progress"@),
    {
        if self.is_active() {
            Err(AppError::DownloadError(String::from_str("A download is already in progress")))
        } else {
            self.active = Some(job);
            Ok(())
        }
    }

    /// Empties the slot and hands back the running job's token so the
    /// caller can terminate it. Cancelling with nothing running is
    /// refused, and the slot is unchanged.
    pub fn cancel(&mut self) -> (r: Result<u64, AppError>)
        ensures
            old(self).active matches Some(j) ==> r == Ok::<u64, AppError>(j)
                && final(self).active is None,
            old(self).active is None ==> *final(self) == *old(self) && r matches Err(
                AppError::Cancelled,
            ),
    {
        match self.active {
            Some(j) => {
                self.active = None;
                Ok(j)
            },
            None => Err(AppError::Cancelled),
        }
    }

    /// Empties the slot: every job clears it when it ends, however it
    /// ends.
    pub fn clear(&mut self)
        ensures
            final(self).active is None,
    {
        self.active = None;
    }

    /// Whether a progress update of job `job` may still be forwarded:
    /// only updates of the running job are, so a cancelled job's updates
    /// go nowhere.
    pub fn should_forward(&self, job: u64) -> (r: bool)
        ensures
            r == (self.active == Some(job)),
    {
        match self.active {
            Some(j) => j == job,
            None => false,
        }
    }
}

/// The height a quality string requests: its number when it is one that
/// fits a `u32`, and 1080 otherwise.
pub open spec fn height_of_quality(q: Seq<char>) -> nat {
    if q.len() > 0 && all_digit_chars(q) && chars_value(q) <= u32::MAX {
        chars_value(q)
    } else {
        1080
    }
}

fn quality_height(quality: &str) -> (h: u32)
    ensures
        h as nat == height_of_quality(quality@),
{
    match parse_u64_chars(quality) {
        Some(v) => {
            if v <= u32::MAX as u64 {
                v as u32
            } else {
                1080
            }
        },
        None => 1080,
    }
}

/// The format selector for a video download bounded by height `h`.
pub open spec fn video_format_arg(h: nat) -> Seq<char> {
    "bestvideo[height<="@ + dec_digits(h) + "]+bestaudio/best[height<="@ + dec_digits(h) + "]"@
}

fn build_video_format_arg(h: u32) -> (r: String)
    ensures
        r@ == video_format_arg(h as nat),
{
    let digits = u64_to_string(h as u64);
    let mut s = String::from_str("bestvideo[height<=");
    s.append(digits.as_str());
    s.append("]+bestaudio/best[height<=");
    s.append(digits.as_str());
    s.append("]");
    s
}

/// The tool's audio-quality level for a quality identifier: best for
/// `high` and for anything unrecognized.
pub open spec fn audio_quality_arg(q: Seq<char>) -> Seq<char> {
    if q == "high"@ {
        "0"@
    } else if q == "medium"@ {
        "5"@
    } else if q == "low"@ {
        "9"@
    } else {
        "0"@
    }
}

/// Whole seconds written with two zero fraction digits.
pub open spec fn secs2(s: nat) -> Seq<char> {
    dec_digits(s) + ".00"@
}

fn build_secs2(s: u64) -> (r: String)
    ensures
        r@ == secs2(s as nat),
{
    let mut t = u64_to_string(s);
    t.append(".00");
    t
}

/// Whole seconds written with three zero fraction digits.
pub open spec fn secs3(s: nat) -> Seq<char> {
    dec_digits(s) + ".000"@
}

fn build_secs3(s: u64) -> (r: String)
    ensures
        r@ == secs3(s as nat),
{
    let mut t = u64_to_string(s);
    t.append(".000");
    t
}

/// The download-section selector for an optional start and end second.
/// Only meaningful when at least one bound is given.
pub open spec fn section_arg(start: Option<u64>, end: Option<u64>) -> Seq<char> {
    if start is Some && end is Some {
        "*"@ + secs2(start->0 as nat) + "-"@ + secs2(end->0 as nat)
    } else if start is Some {
        "*"@ + secs2(start->0 as nat) + "-inf"@
    } else {
        "*0-"@ + secs2(end->0 as nat)
    }
}

/// The full argument list of a download invocation.
pub open spec fn download_args_spec(
    url: Seq<char>,
    mode: DownloadMode,
    quality: Seq<char>,
    output: Seq<char>,
    start: Option<u64>,
    end: Option<u64>,
) -> Seq<Seq<char>> {
    let base = seq!["--newline"@, "--no-warnings"@, "--no-playlist"@];
    let mode_args = match mode {
        DownloadMode::VideoWithAudio => seq![
            "-f"@,
            video_format_arg(height_of_quality(quality)),
            "--merge-output-format"@,
            "mp4"@,
        ],
        DownloadMode::AudioOnly => seq![
            "-f"@,
            "bestaudio/best"@,
            "-x"@,
            "--audio-format"@,
            "mp3"@,
            "--audio-quality"@,
            audio_quality_arg(quality),
        ],
    };
    let out_args = seq!["-o"@, output];
    let cut_args = if start is Some || end is Some {
        seq!["--download-sections"@, section_arg(start, end), "--force-keyframes-at-cuts"@]
    } else {
        Seq::empty()
    };
    base + mode_args + out_args + cut_args + seq![url]
}

/// One download to supervise: what to fetch, how, and where to put it.
pub struct DownloadJob {
    pub url: String,
    pub mode: DownloadMode,
    /// For video: the height as digits. For audio: a quality identifier.
    pub quality: String,
    pub output_path: String,
    /// Start of the wanted clip in whole seconds, when cutting.
    pub start_secs: Option<u64>,
    /// End of the wanted clip in whole seconds, when cutting.
    pub end_secs: Option<u64>,
}

impl DownloadJob {
    /// The argument list of the download invocation: progress line by
    /// line, the format for the requested mode and quality, the section
    /// bounds when the caller cuts, then the URL.
    pub fn args(&self) -> (r: Vec<String>)
        ensures
            r.deep_view() =~~= download_args_spec(
                self.url@,
                self.mode,
                self.quality@,
                self.output_path@,
                self.start_secs,
                self.end_secs,
            ),
    {
        let mut a: Vec<String> = Vec::new();
        a.push(String::from_str("--newline"));
        a.push(String::from_str("--no-warnings"));
        a.push(String::from_str("--no-playlist"));
        match self.mode {
            DownloadMode::VideoWithAudio => {
                a.push(String::from_str("-f"));
                a.push(build_video_format_arg(quality_height(self.quality.as_str())));
                a.push(String::from_str("--merge-output-format"));
                a.push(String::from_str("mp4"));
            },
            DownloadMode::AudioOnly => {
                a.push(String::from_str("-f"));
                a.push(String::from_str("bestaudio/best"));
                a.push(String::from_str("-x"));
                a.push(String::from_str("--audio-format"));
                a.push(String::from_str("mp3"));
                a.push(String::from_str("--audio-quality"));
                let q = self.quality.as_str();
                if streq(q, "high") {
                    a.push(String::from_str("0"));
                } else if streq(q, "medium") {
                    a.push(String::from_str("5"));
                } else if streq(q, "low") {
                    a.push(String::from_str("9"));
                } else {
                    a.push(String::from_str("0"));
                }
            },
        }
        a.push(String::from_str("-o"));
        a.push(self.output_path.clone());
        if self.start_secs.is_some() || self.end_secs.is_some() {
            a.push(String::from_str("--download-sections"));
            match (self.start_secs, self.end_secs) {
                (Some(s), Some(e)) => {
                    let mut t = String::from_str("*");
                    t.append(build_secs2(s).as_str());
                    t.append("-");
                    t.append(build_secs2(e).as_str());
                    a.push(t);
                },
                (Some(s), None) => {
                    let mut t = String::from_str("*");
                    t.append(build_secs2(s).as_str());
                    t.append("-inf");
                    a.push(t);
                },
                (None, Some(e)) => {
                    let mut t = String::from_str("*0-");
                    t.append(build_secs2(e).as_str());
                    a.push(t);
                },
                (None, None) => {
                    a.push(String::from_str("*"));
                },
            }
            a.push(String::from_str("--force-keyframes-at-cuts"));
        }
        a.push(self.url.clone());
        a
    }

    /// The update announcing the download's start.
    pub fn starting_update(&self) -> (u: ProgressUpdate)
        ensures
            u.stage == ProgressStage::Downloading,
            u.percent_centi == 0,
            u.message@ == "Starting download..."@,
            u.speed is None,
            u.eta is None,
            u.wf(),
    {
        ProgressUpdate {
            stage: ProgressStage::Downloading,
            percent_centi: 0,
            message: String::from_str("Starting download..."),
            speed: None,
            eta: None,
        }
    }

    /// The final update of a download that ended well.
    pub fn complete_update(&self) -> (u: ProgressUpdate)
        ensures
            u.stage == ProgressStage::Complete,
            u.percent_centi == 10000,
            u.message@ == "Download complete!"@,
            u.speed is None,
            u.eta is None,
            u.wf(),
    {
        ProgressUpdate {
            stage: ProgressStage::Complete,
            percent_centi: 10000,
            message: String::from_str("Download complete!"),
            speed: None,
            eta: None,
        }
    }

    /// Settles the job from the process's exit: success hands the caller
    /// the output path, anything else is a terminal download failure.
    pub fn on_exit(&self, success: bool) -> (r: Result<String, AppError>)
        ensures
            success ==> (r matches Ok(p) && p@ == self.output_path@),
            !success ==> (r matches Err(AppError::DownloadError(m)) && m@ == "Download failed"@),
    {
        if success {
            Ok(self.output_path.clone())
        } else {
            Err(AppError::DownloadError(String::from_str("Download failed")))
        }
    }
}

/// Which invocation of a cut job is running, or whether it is settled.
#[derive(Debug, Clone, Copy, PartialEq, Eq, Structural)]
pub enum CutAttempt {
    /// The fast stream-copy invocation.
    Primary,
    /// The re-encoding invocation, tried exactly once after the primary
    /// one fails.
    Fallback,
    /// The job is settled, well or badly.
    Done,
}

/// What the supervisor must do after a cut invocation exits.
#[derive(Debug, Clone, Copy, PartialEq, Eq, Structural)]
pub enum CutDecision {
    /// The cut ended well: report completion.
    Finished,
    /// Run the re-encoding invocation.
    RunFallback,
    /// Terminal failure: no further retries.
    Failed,
}

/// The longest clip whose duration still fits `u64` microseconds.
pub const MAX_CUT_SECS: u64 = 18_446_744_073_709;

/// One cut to supervise: the clip bounds and which attempt is running.
pub struct CutJob {
    pub input_path: String,
    pub output_path: String,
    /// Start of the clip in whole seconds.
    pub start_secs: u64,
    /// End of the clip in whole seconds.
    pub end_secs: u64,
    pub attempt: CutAttempt,
}

impl CutJob {
    /// The clip runs forward and its duration fits `u64` microseconds.
    pub open spec fn wf(&self) -> bool {
        self.start_secs <= self.end_secs && self.end_secs - self.start_secs <= MAX_CUT_SECS
    }

    /// The clip's duration in microseconds.
    pub open spec fn duration_us_spec(&self) -> nat {
        ((self.end_secs - self.start_secs) * 1_000_000) as nat
    }

    /// A fresh cut job, about to run its primary invocation.
    pub fn new(input_path: String, output_path: String, start_secs: u64, end_secs: u64) -> (r:
        Self)
        requires
            start_secs <= end_secs,
            end_secs - start_secs <= MAX_CUT_SECS,
        ensures
            r.input_path == input_path,
            r.output_path == output_path,
            r.start_secs == start_secs,
            r.end_secs == end_secs,
            r.attempt == CutAttempt::Primary,
            r.wf(),
    {
        CutJob { input_path, output_path, start_secs, end_secs, attempt: CutAttempt::Primary }
    }

    /// The clip's duration in microseconds.
    pub fn duration_us(&self) -> (r: u64)
        requires
            self.wf(),
        ensures
            r as nat == self.duration_us_spec(),
    {
        (self.end_secs - self.start_secs) * 1_000_000
    }

    /// The status text of a cut progress update at `centi` hundredths of
    /// a percent, for the given attempt.
    pub open spec fn message_spec(attempt: CutAttempt, centi: nat) -> Seq<char> {
        if attempt == CutAttempt::Fallback {
            "Re-encoding... "@ + percent_whole_spec(centi) + "%"@
        } else {
            "Cutting video... "@ + percent_whole_spec(centi) + "%"@
        }
    }

    /// Parses one raw output line of the running invocation into an
    /// update: the elapsed share of the clip's duration, from the line's
    /// first `out_time_ms=` match.
    pub fn on_line(&self, raw: &[u8]) -> (r: Option<ProgressUpdate>)
        requires
            self.wf(),
        ensures
            ({
                let s = line_body(raw@);
                let m = first_cut_match_from(s, 0);
                match r {
                    Some(u) => {
                        &&& m < s.len()
                        &&& cut_match_at(s, m)
                        &&& bytes_value(cut_digits(s, m)) <= u64::MAX
                        &&& u.stage == ProgressStage::Cutting
                        &&& u.percent_centi as nat == cut_percent(
                            bytes_value(cut_digits(s, m)),
                            self.duration_us_spec(),
                        )
                        &&& u.wf()
                        &&& u.message@ == Self::message_spec(
                            self.attempt,
                            u.percent_centi as nat,
                        )
                        &&& u.speed is None
                        &&& u.eta is None
                    },
                    None => m == s.len() || bytes_value(cut_digits(s, m)) > u64::MAX,
                }
            }),
    {
        match parse_cut_line(raw, self.duration_us()) {
            Some(centi) => {
                let head = if matches!(self.attempt, CutAttempt::Fallback) {
                    "Re-encoding... "
                } else {
                    "Cutting video... "
                };
                let mut msg = String::from_str(head);
                msg.append(percent_whole(centi).as_str());
                msg.append("%");
                Some(
                    ProgressUpdate {
                        stage: ProgressStage::Cutting,
                        percent_centi: centi,
                        message: msg,
                        speed: None,
                        eta: None,
                    },
                )
            },
            None => None,
        }
    }

    /// Settles or advances the job from an invocation's exit. A failing
    /// primary invocation is retried through the fallback exactly once:
    /// the decision is `RunFallback` only from the primary attempt, and a
    /// failing fallback is terminal.
    pub fn on_exit(&mut self, success: bool) -> (r: CutDecision)
        requires
            old(self).attempt != CutAttempt::Done,
        ensures
            final(self).input_path == old(self).input_path,
            final(self).output_path == old(self).output_path,
            final(self).start_secs == old(self).start_secs,
            final(self).end_secs == old(self).end_secs,
            success ==> r == CutDecision::Finished && final(self).attempt == CutAttempt::Done,
            !success && old(self).attempt == CutAttempt::Primary ==> r == CutDecision::RunFallback
                && final(self).attempt == CutAttempt::Fallback,
            !success && old(self).attempt == CutAttempt::Fallback ==> r == CutDecision::Failed
                && final(self).attempt == CutAttempt::Done,
    {
        if success {
            self.attempt = CutAttempt::Done;
            CutDecision::Finished
        } else if matches!(self.attempt, CutAttempt::Primary) {
            self.attempt = CutAttempt::Fallback;
            CutDecision::RunFallback
        } else {
            self.attempt = CutAttempt::Done;
            CutDecision::Failed
        }
    }

    /// The argument list of the stream-copy invocation.
    pub fn primary_args(&self) -> (r: Vec<String>)
        requires
            self.wf(),
        ensures
            r.deep_view() =~~= seq![
                "-y"@,
                "-ss"@,
                secs3(self.start_secs as nat),
                "-i"@,
                self.input_path@,
                "-t"@,
                secs3((self.end_secs - self.start_secs) as nat),
                "-c"@,
                "copy"@,
                "-avoid_negative_ts"@,
                "make_zero"@,
                "-progress"@,
                "pipe:1"@,
                self.output_path@,
            ],
    {
        let mut a: Vec<String> = Vec::new();
        a.push(String::from_str("-y"));
        a.push(String::from_str("-ss"));
        a.push(build_secs3(self.start_secs));
        a.push(String::from_str("-i"));
        a.push(self.input_path.clone());
        a.push(String::from_str("-t"));
        a.push(build_secs3(self.end_secs - self.start_secs));
        a.push(String::from_str("-c"));
        a.push(String::from_str("copy"));
        a.push(String::from_str("-avoid_negative_ts"));
        a.push(String::from_str("make_zero"));
        a.push(String::from_str("-progress"));
        a.push(String::from_str("pipe:1"));
        a.push(self.output_path.clone());
        a
    }

    /// The argument list of the re-encoding invocation.
    pub fn fallback_args(&self) -> (r: Vec<String>)
        requires
            self.wf(),
        ensures
            r.deep_view() =~~= seq![
                "-y"@,
                "-ss"@,
                secs3(self.start_secs as nat),
                "-i"@,
                self.input_path@,
                "-t"@,
                secs3((self.end_secs - self.start_secs) as nat),
                "-c:v"@,
                "libx264"@,
                "-preset"@,
                "fast"@,
                "-crf"@,
                "23"@,
                "-c:a"@,
                "aac"@,
                "-b:a"@,
                "128k"@,
                "-progress"@,
                "pipe:1"@,
                self.output_path@,
            ],
    {
        let mut a: Vec<String> = Vec::new();
        a.push(String::from_str("-y"));
        a.push(String::from_str("-ss"));
        a.push(build_secs3(self.start_secs));
        a.push(String::from_str("-i"));
        a.push(self.input_path.clone());
        a.push(String::from_str("-t"));
        a.push(build_secs3(self.end_secs - self.start_secs));
        a.push(String::from_str("-c:v"));
        a.push(String::from_str("libx264"));
        a.push(String::from_str("-preset"));
        a.push(String::from_str("fast"));
        a.push(String::from_str("-crf"));
        a.push(String::from_str("23"));
        a.push(String::from_str("-c:a"));
        a.push(String::from_str("aac"));
        a.push(String::from_str("-b:a"));
        a.push(String::from_str("128k"));
        a.push(String::from_str("-progress"));
        a.push(String::from_str("pipe:1"));
        a.push(self.output_path.clone());
        a
    }

    /// The update announcing the primary invocation's start.
    pub fn start_update(&self) -> (u: ProgressUpdate)
        ensures
            u.stage == ProgressStage::Cutting,
            u.percent_centi == 0,
            u.message@ == "Starting video cut..."@,
            u.speed is None,
            u.eta is None,
            u.wf(),
    {
        ProgressUpdate {
            stage: ProgressStage::Cutting,
            percent_centi: 0,
            message: String::from_str("Starting video cut..."),
            speed: None,
            eta: None,
        }
    }

    /// The update announcing the fallback invocation's start.
    pub fn fallback_start_update(&self) -> (u: ProgressUpdate)
        ensures
            u.stage == ProgressStage::Cutting,
            u.percent_centi == 0,
            u.message@ == "Re-encoding video (this may take longer)..."@,
            u.speed is None,
            u.eta is None,
            u.wf(),
    {
        ProgressUpdate {
            stage: ProgressStage::Cutting,
            percent_centi: 0,
            message: String::from_str("Re-encoding video (this may take longer)..."),
            speed: None,
            eta: None,
        }
    }

    /// The final update of a cut that ended well.
    pub fn complete_update(&self) -> (u: ProgressUpdate)
        ensures
            u.stage == ProgressStage::Complete,
            u.percent_centi == 10000,
            u.message@ == "Cut complete!"@,
            u.speed is None,
            u.eta is None,
            u.wf(),
    {
        ProgressUpdate {
            stage: ProgressStage::Complete,
            percent_centi: 10000,
            message: String::from_str("Cut complete!"),
            speed: None,
            eta: None,
        }
    }

    /// The error a cut whose fallback also failed reports.
    pub fn failure_error(&self) -> (e: AppError)
        ensures
            e matches AppError::CutError(m) && m@ == "ffmpeg encoding failed"@,
    {
        AppError::CutError(String::from_str("ffmpeg encoding failed"))
    }
}

/// The argument list of a metadata fetch invocation: metadata only, as
/// one record, no download.
pub fn fetch_args(url: &str) -> (r: Vec<String>)
    ensures
        r.deep_view() =~~= seq![
            "--dump-json"@,
            "--no-download"@,
            "--no-warnings"@,
            "--no-playlist"@,
            "--flat-playlist"@,
            url@,
        ],
{
    let mut a: Vec<String> = Vec::new();
    a.push(String::from_str("--dump-json"));
    a.push(String::from_str("--no-download"));
    a.push(String::from_str("--no-warnings"));
    a.push(String::from_str("--no-playlist"));
    a.push(String::from_str("--flat-playlist"));
    a.push(String::from_str(url));
    a
}

/// The fetch failure reported when the tool exits badly: the first line
/// of its error output, decoded lossily, or a generic text when there
/// was none.
pub fn fetch_error_from_stderr(stderr: &[u8]) -> (e: AppError)
    ensures
        e matches AppError::FetchError(m) && m@ == "yt-dlp error: "@ + (if stderr@.len() == 0 {
            "Unknown error"@
        } else {
            lossy_decode(line_at(stderr@, 0))
        }),
{
    let mut m = String::from_str("yt-dlp error: ");
    if stderr.len() == 0 {
        m.append("Unknown error");
    } else {
        let nl = skip_to_nl_exec(stderr, 0);
        let end = if nl > 0 && stderr[nl - 1] == 13 {
            nl - 1
        } else {
            nl
        };
        m.append(lossy_string(&stderr[0..end]).as_str());
    }
    AppError::FetchError(m)
}

/// The update carrying a terminal failure to the observers.
pub fn error_update(e: &AppError) -> (u: ProgressUpdate)
    ensures
        u.stage == ProgressStage::Error,
        u.percent_centi == 0,
        u.message@ == e.message_spec(),
        u.speed is None,
        u.eta is None,
        u.wf(),
{
    ProgressUpdate {
        stage: ProgressStage::Error,
        percent_centi: 0,
        message: e.message(),
        speed: None,
        eta: None,
    }
}

} // verus!
