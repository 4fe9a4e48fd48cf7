//! Typed records for platforms, download modes, qualities and video
//! metadata, and the shaping of the download tool's raw format list into
//! the few options worth offering.

use vstd::prelude::*;
use crate::format::{format_bytes, format_bytes_spec};
use crate::text::{all_digit_chars, chars_value, dec_digits, streq, u64_to_string};

verus! {

/// A supported source platform.
#[derive(Debug, Clone, Copy, PartialEq, Eq, Structural)]
pub enum Platform {
    YouTube,
    TikTok,
    Instagram,
    Twitter,
    Reddit,
    SoundCloud,
}

impl Platform {
    /// Whether the platform offers video downloads: every platform but
    /// the audio-only one.
    pub fn supports_video(&self) -> (r: bool)
        ensures
            r == (*self != Platform::SoundCloud),
    {
        match self {
            Platform::SoundCloud => false,
            _ => true,
        }
    }
}

/// What a download produces: a video with its audio, or audio alone.
#[derive(Debug, Clone, Copy, PartialEq, Eq, Structural)]
pub enum DownloadMode {
    VideoWithAudio,
    AudioOnly,
}

/// One selectable video quality.
#[derive(Debug, Clone)]
pub struct VideoQuality {
    /// Height in pixels.
    pub height: u32,
    /// Human-readable label, the height followed by `p`.
    pub label: String,
    /// Estimated file size, when known.
    pub filesize_approx: Option<String>,
}

/// One selectable audio quality.
#[derive(Debug, Clone)]
pub struct AudioQuality {
    /// Identifier the caller hands back when requesting a download.
    pub quality_id: String,
    /// Human-readable label.
    pub label: String,
    /// Approximate bitrate in kbit/s.
    pub bitrate: u32,
}

/// One format of a video as the download tool reports it.
#[derive(Debug)]
pub struct VideoFormat {
    pub format_id: String,
    pub ext: String,
    pub resolution: String,
    /// Frames per second, whole frames, when known.
    pub fps: Option<u64>,
    pub vcodec: Option<String>,
    pub acodec: Option<String>,
    /// File size in bytes, when known.
    pub filesize: Option<u64>,
    /// Human-readable file size, when known.
    pub filesize_approx: Option<String>,
    /// Quality note, the height followed by `p` when the height is known.
    pub quality: String,
    pub has_video: bool,
    pub has_audio: bool,
}

/// Complete metadata of one video.
#[derive(Debug, Clone)]
pub struct VideoInfo {
    pub id: String,
    pub title: String,
    /// Duration in whole seconds.
    pub duration: u64,
    /// Human-readable duration.
    pub duration_string: String,
    pub thumbnail: Option<String>,
    pub uploader: Option<String>,
    pub formats: Vec<VideoFormat>,
    pub video_qualities: Vec<VideoQuality>,
    pub audio_qualities: Vec<AudioQuality>,
    pub platform: Platform,
}

/// A caller's request to download one video.
#[derive(Debug, Clone)]
pub struct DownloadRequest {
    pub url: String,
    /// For video: the height as digits. For audio: a quality identifier.
    pub quality: String,
    pub mode: DownloadMode,
    pub output_path: String,
    /// Start of the wanted clip in whole seconds, when cutting.
    pub start_time: Option<u64>,
    /// End of the wanted clip in whole seconds, when cutting.
    pub end_time: Option<u64>,
}

fn clone_opt_string(o: &Option<String>) -> (r: Option<String>)
    ensures
        r == *o,
{
    match o {
        Some(s) => Some(s.clone()),
        None => None,
    }
}

impl Clone for VideoFormat {
    fn clone(&self) -> (r: Self)
        ensures
            r == *self,
    {
        VideoFormat {
            format_id: self.format_id.clone(),
            ext: self.ext.clone(),
            resolution: self.resolution.clone(),
            fps: self.fps,
            vcodec: clone_opt_string(&self.vcodec),
            acodec: clone_opt_string(&self.acodec),
            filesize: self.filesize,
            filesize_approx: clone_opt_string(&self.filesize_approx),
            quality: self.quality.clone(),
            has_video: self.has_video,
            has_audio: self.has_audio,
        }
    }
}

/// One format exactly as the tool's metadata names it, before shaping.
#[derive(Debug)]
pub struct RawFormat {
    pub format_id: String,
    pub ext: String,
    pub resolution: Option<String>,
    /// Frames per second, whole frames, when known.
    pub fps: Option<u64>,
    pub vcodec: Option<String>,
    pub acodec: Option<String>,
    /// Exact file size in bytes, when known.
    pub filesize: Option<u64>,
    /// Estimated file size in bytes, when known.
    pub filesize_approx: Option<u64>,
    pub format_note: Option<String>,
    /// Height in pixels, when known.
    pub height: Option<u32>,
    /// Width in pixels, when known.
    pub width: Option<u32>,
}

impl RawFormat {
    /// Whether the format carries video: a codec other than `none`.
    pub open spec fn spec_has_video(&self) -> bool {
        self.vcodec matches Some(v) && v@ != "none"@
    }

    /// Whether the format carries audio: a codec other than `none`.
    pub open spec fn spec_has_audio(&self) -> bool {
        self.acodec matches Some(a) && a@ != "none"@
    }

    /// The resolution text: as reported, or width by height, or unknown.
    pub open spec fn spec_resolution(&self) -> Seq<char> {
        match self.resolution {
            Some(r) => r@,
            None => match (self.width, self.height) {
                (Some(w), Some(h)) => dec_digits(w as nat) + "x"@ + dec_digits(h as nat),
                _ => "unknown"@,
            },
        }
    }

    /// The quality note: the height followed by `p` when the height is
    /// known, else the reported note, else unknown.
    pub open spec fn spec_quality(&self) -> Seq<char> {
        match self.height {
            Some(h) => dec_digits(h as nat) + "p"@,
            None => match self.format_note {
                Some(n) => n@,
                None => "unknown"@,
            },
        }
    }

    /// The known size: the exact one when present, else the estimate.
    pub open spec fn spec_filesize(&self) -> Option<u64> {
        if self.filesize is Some {
            self.filesize
        } else {
            self.filesize_approx
        }
    }
}

/// All trailing `p` characters removed.
pub open spec fn strip_p(s: Seq<char>) -> Seq<char>
    decreases s.len(),
{
    if s.len() > 0 && s.last() == 'p' {
        strip_p(s.drop_last())
    } else {
        s
    }
}

/// The height a quality note denotes: the number before its trailing
/// `p`s when that is a number fitting `u32`, and zero otherwise.
pub open spec fn extract_height_spec(q: Seq<char>) -> nat {
    let t = strip_p(q);
    if t.len() > 0 && all_digit_chars(t) && chars_value(t) <= u32::MAX {
        chars_value(t)
    } else {
        0
    }
}

/// The height a quality note such as `1080p` denotes, zero when it
/// denotes none.
pub fn extract_height(quality: &str) -> (h: u32)
    ensures
        h as nat == extract_height_spec(quality@),
{
    let n = quality.unicode_len();
    let mut end = n;
    proof {
        assert(quality@.subrange(0, n as int) =~= quality@);
    }
    while end > 0 && quality.get_char(end - 1) == 'p'
        invariant
            0 <= end <= n,
            n == quality@.len(),
            strip_p(quality@) == strip_p(quality@.subrange(0, end as int)),
        decreases end,
    {
        proof {
            assert(quality@.subrange(0, end as int).drop_last() =~= quality@.subrange(0, end - 1));
        }
        end = end - 1;
    }
    proof {
        assert(strip_p(quality@.subrange(0, end as int)) =~= quality@.subrange(0, end as int));
    }
    let t = quality.substring_char(0, end);
    match crate::text::parse_u64_chars(t) {
        Some(v) => {
            if v <= u32::MAX as u64 {
                v as u32
            } else {
                0
            }
        },
        None => 0,
    }
}

/// A format's display label: the quality, the video codec when one is
/// named, and the approximate size when one is known.
pub open spec fn label_spec(
    quality: Seq<char>,
    vcodec: Option<Seq<char>>,
    size: Option<Seq<char>>,
) -> Seq<char> {
    let with_codec = match vcodec {
        Some(v) => if v != "none"@ {
            quality + " • "@ + v
        } else {
            quality
        },
        None => quality,
    };
    match size {
        Some(s) => with_codec + " • ~"@ + s,
        None => with_codec,
    }
}

impl VideoFormat {
    /// Renders the format's display label.
    pub fn label(&self) -> (r: String)
        ensures
            r@ == label_spec(
                self.quality@,
                self.vcodec.deep_view(),
                self.filesize_approx.deep_view(),
            ),
    {
        let mut s = self.quality.clone();
        match &self.vcodec {
            Some(v) => {
                if !streq(v.as_str(), "none") {
                    s.append(" • ");
                    s.append(v.as_str());
                }
            },
            None => {},
        }
        match &self.filesize_approx {
            Some(sz) => {
                s.append(" • ~");
                s.append(sz.as_str());
            },
            None => {},
        }
        s
    }
}

/// Shapes one raw format into the offered record; formats without video
/// are dropped.
pub fn convert_format(raw: &RawFormat) -> (r: Option<VideoFormat>)
    ensures
        r is Some <==> raw.spec_has_video(),
        r matches Some(f) ==> {
            &&& f.format_id == raw.format_id
            &&& f.ext == raw.ext
            &&& f.resolution@ == raw.spec_resolution()
            &&& f.fps == raw.fps
            &&& f.vcodec == raw.vcodec
            &&& f.acodec == raw.acodec
            &&& f.filesize == raw.spec_filesize()
            &&& match raw.spec_filesize() {
                Some(b) => f.filesize_approx matches Some(s) && s@ == format_bytes_spec(b as nat),
                None => f.filesize_approx is None,
            }
            &&& f.quality@ == raw.spec_quality()
            &&& f.has_video == true
            &&& f.has_audio == raw.spec_has_audio()
        },
{
    let has_video = match &raw.vcodec {
        Some(v) => !streq(v.as_str(), "none"),
        None => false,
    };
    let has_audio = match &raw.acodec {
        Some(a) => !streq(a.as_str(), "none"),
        None => false,
    };
    if !has_video {
        return None;
    }
    let resolution: String = match &raw.resolution {
        Some(r) => r.clone(),
        None => {
            match (raw.width, raw.height) {
                (Some(w), Some(h)) => {
                    let mut s = u64_to_string(w as u64);
                    s.append("x");
                    s.append(u64_to_string(h as u64).as_str());
                    s
                },
                _ => String::from_str("unknown"),
            }
        },
    };
    let quality: String = match raw.height {
        Some(h) => {
            let mut s = u64_to_string(h as u64);
            s.append("p");
            s
        },
        None => match &raw.format_note {
            Some(n) => n.clone(),
            None => String::from_str("unknown"),
        },
    };
    let filesize: Option<u64> = match raw.filesize {
        Some(b) => Some(b),
        None => raw.filesize_approx,
    };
    let filesize_approx: Option<String> = match filesize {
        Some(b) => Some(format_bytes(b)),
        None => None,
    };
    Some(
        VideoFormat {
            format_id: raw.format_id.clone(),
            ext: raw.ext.clone(),
            resolution,
            fps: raw.fps,
            vcodec: clone_opt_string(&raw.vcodec),
            acodec: clone_opt_string(&raw.acodec),
            filesize,
            filesize_approx,
            quality,
            has_video,
            has_audio,
        },
    )
}

/// Whether some format in the list carries the quality note `q`.
pub open spec fn has_key(s: Seq<VideoFormat>, q: Seq<char>) -> bool {
    exists|i: int| 0 <= i < s.len() && s[i].quality@ == q
}

/// Whether `f` is the first format of the list that carries its quality
/// note.
pub open spec fn is_first_with_note(s: Seq<VideoFormat>, f: VideoFormat) -> bool {
    exists|k: int|
        0 <= k < s.len() && f == s[k] && (forall|k2: int|
            0 <= k2 < k ==> s[k2].quality@ != #[trigger] s[k].quality@)
}

fn contains_key(out: &Vec<VideoFormat>, q: &String) -> (r: bool)
    ensures
        r == has_key(out@, q@),
{
    let mut i: usize = 0;
    while i < out.len()
        invariant
            0 <= i <= out@.len(),
            forall|j: int| 0 <= j < i ==> out@[j].quality@ != q@,
        decreases out@.len() - i,
    {
        if out[i].quality == *q {
            return true;
        }
        i = i + 1;
    }
    false
}

/// Keeps the most useful formats: at most eight, one per quality note
/// (the first format reported with that note), ordered from the greatest
/// height down.
pub fn filter_formats(formats: Vec<VideoFormat>) -> (r: Vec<VideoFormat>)
    ensures
        r@.len() <= 8,
        forall|i: int, j: int| 0 <= i < j < r@.len() ==> r@[i].quality@ != r@[j].quality@,
        forall|i: int, j: int|
            0 <= i < j < r@.len() ==> extract_height_spec(r@[i].quality@) >= extract_height_spec(
                r@[j].quality@,
            ),
        forall|i: int| 0 <= i < r@.len() ==> is_first_with_note(formats@, #[trigger] r@[i]),
        r@.len() < 8 ==> forall|k: int|
            0 <= k < formats@.len() ==> has_key(r@, #[trigger] formats@[k].quality@),
        r@.len() > 0 ==> forall|k: int|
            0 <= k < formats@.len() && !has_key(r@, #[trigger] formats@[k].quality@)
                ==> extract_height_spec(formats@[k].quality@) <= extract_height_spec(
                r@[r@.len() - 1].quality@,
            ),
{
    let n = formats.len();
    let mut out: Vec<VideoFormat> = Vec::new();
    let mut done = false;
    while !done && out.len() < 8
        invariant
            n == formats@.len(),
            out@.len() <= 8,
            forall|i: int, j: int|
                0 <= i < j < out@.len() ==> out@[i].quality@ != out@[j].quality@,
            forall|i: int, j: int|
                0 <= i < j < out@.len() ==> extract_height_spec(out@[i].quality@)
                    >= extract_height_spec(out@[j].quality@),
            forall|i: int| 0 <= i < out@.len() ==> is_first_with_note(formats@, #[trigger] out@[i]),
            out@.len() > 0 ==> forall|k: int|
                0 <= k < n && !has_key(out@, #[trigger] formats@[k].quality@)
                    ==> extract_height_spec(formats@[k].quality@) <= extract_height_spec(
                    out@[out@.len() - 1].quality@,
                ),
            done ==> forall|k: int|
                0 <= k < n ==> has_key(out@, #[trigger] formats@[k].quality@),
        decreases 8 - out@.len() + (if done {
            0int
        } else {
            1int
        }),
    {
        let mut best: usize = n;
        let mut k: usize = 0;
        while k < n
            invariant
                n == formats@.len(),
                0 <= k <= n,
                best <= n,
                best < n ==> best < k,
                best < n ==> !has_key(out@, formats@[best as int].quality@),
                best < n ==> forall|j: int|
                    0 <= j < k && !has_key(out@, #[trigger] formats@[j].quality@) ==> (
                    extract_height_spec(formats@[j].quality@) < extract_height_spec(
                        formats@[best as int].quality@,
                    ) || (extract_height_spec(formats@[j].quality@) == extract_height_spec(
                        formats@[best as int].quality@,
                    ) && best <= j)),
                best == n ==> forall|j: int|
                    0 <= j < k ==> has_key(out@, #[trigger] formats@[j].quality@),
            decreases n - k,
        {
            if !contains_key(&out, &formats[k].quality) {
                if best == n {
                    best = k;
                } else {
                    let hk = extract_height(formats[k].quality.as_str());
                    let hb = extract_height(formats[best].quality.as_str());
                    if hk > hb {
                        best = k;
                    }
                }
            }
            k = k + 1;
        }
        if best == n {
            done = true;
        } else {
            let ghost old_out = out@;
            let chosen = formats[best].clone();
            out.push(chosen);
            proof {
                let b = best as int;
                assert(out@ == old_out.push(formats@[b]));
                // the pushed format is the first carrying its quality note
                assert forall|k2: int| 0 <= k2 < b implies formats@[k2].quality@
                    != formats@[b].quality@ by {
                    if formats@[k2].quality@ == formats@[b].quality@ {
                        if has_key(old_out, formats@[k2].quality@) {
                            let i0 = choose|i: int|
                                0 <= i < old_out.len() && old_out[i].quality@
                                    == formats@[k2].quality@;
                            assert(old_out[i0].quality@ == formats@[b].quality@);
                            assert(has_key(old_out, formats@[b].quality@));
                            assert(false);
                        }
                        assert(!has_key(old_out, formats@[k2].quality@));
                        assert(extract_height_spec(formats@[k2].quality@) == extract_height_spec(
                            formats@[b].quality@,
                        ));
                        assert(false);
                    }
                }
                assert(is_first_with_note(formats@, formats@[b]));
                // keys still absent are no taller than the one just pushed
                assert forall|k2: int|
                    0 <= k2 < n && !has_key(out@, #[trigger] formats@[k2].quality@) implies
                    extract_height_spec(formats@[k2].quality@) <= extract_height_spec(
                    formats@[b].quality@,
                ) by {
                    if has_key(old_out, formats@[k2].quality@) {
                        let i0 = choose|i: int|
                            0 <= i < old_out.len() && old_out[i].quality@
                                == formats@[k2].quality@;
                        assert(out@[i0] == old_out[i0]);
                        assert(has_key(out@, formats@[k2].quality@));
                        assert(false);
                    }
                    assert(!has_key(old_out, formats@[k2].quality@));
                }
                // ordering against the earlier entries
                assert forall|i: int| 0 <= i < old_out.len() implies extract_height_spec(
                    old_out[i].quality@,
                ) >= extract_height_spec(formats@[b].quality@) by {
                    assert(!has_key(old_out, formats@[b].quality@));
                    if i < old_out.len() - 1 {
                        assert(extract_height_spec(old_out[i].quality@) >= extract_height_spec(
                            old_out[old_out.len() - 1].quality@,
                        ));
                    }
                }
                // the new entry's key is new
                assert forall|i: int| 0 <= i < old_out.len() implies old_out[i].quality@
                    != formats@[b].quality@ by {
                    if old_out[i].quality@ == formats@[b].quality@ {
                        assert(has_key(old_out, formats@[b].quality@));
                    }
                }
            }
        }
    }
    out
}

/// Whether some offered quality in the list has height `h`.
pub open spec fn has_height(s: Seq<VideoQuality>, h: u32) -> bool {
    exists|i: int| 0 <= i < s.len() && s[i].height == h
}

fn contains_height(out: &Vec<VideoQuality>, h: u32) -> (r: bool)
    ensures
        r == has_height(out@, h),
{
    let mut i: usize = 0;
    while i < out.len()
        invariant
            0 <= i <= out@.len(),
            forall|j: int| 0 <= j < i ==> out@[j].height != h,
        decreases out@.len() - i,
    {
        if out[i].height == h {
            return true;
        }
        i = i + 1;
    }
    false
}

/// Whether a raw format offers a selectable video height.
pub open spec fn offers_height(f: RawFormat) -> bool {
    f.spec_has_video() && f.height is Some
}

/// Whether the offered quality `q` comes from the first raw format that
/// offers its height.
pub open spec fn quality_from_first(s: Seq<RawFormat>, q: VideoQuality) -> bool {
    exists|k: int|
        {
            &&& 0 <= k < s.len()
            &&& offers_height(#[trigger] s[k])
            &&& s[k].height == Some(q.height)
            &&& (forall|k2: int|
                0 <= k2 < k ==> !(offers_height(#[trigger] s[k2]) && s[k2].height == Some(
                    q.height,
                )))
            &&& match s[k].spec_filesize() {
                Some(b) => q.filesize_approx matches Some(t) && t@ == format_bytes_spec(b as nat),
                None => q.filesize_approx is None,
            }
        }
}

/// The quality options of a raw format list: one per distinct height
/// among the video formats, from the greatest height down, at most
/// eight, each labelled with its height and sized from the first format
/// reported with that height.
pub fn extract_video_qualities(raw_formats: &Vec<RawFormat>) -> (r: Vec<VideoQuality>)
    ensures
        r@.len() <= 8,
        forall|i: int, j: int| 0 <= i < j < r@.len() ==> r@[i].height > r@[j].height,
        forall|i: int|
            0 <= i < r@.len() ==> (#[trigger] r@[i]).label@ == dec_digits(r@[i].height as nat)
                + "p"@,
        forall|i: int| 0 <= i < r@.len() ==> quality_from_first(raw_formats@, #[trigger] r@[i]),
        r@.len() < 8 ==> forall|k: int|
            0 <= k < raw_formats@.len() && offers_height(#[trigger] raw_formats@[k]) ==> has_height(
                r@,
                raw_formats@[k].height->0,
            ),
        r@.len() > 0 ==> forall|k: int|
            0 <= k < raw_formats@.len() && offers_height(#[trigger] raw_formats@[k])
                && !has_height(r@, raw_formats@[k].height->0) ==> raw_formats@[k].height->0
                < r@[r@.len() - 1].height,
{
    let n = raw_formats.len();
    let mut out: Vec<VideoQuality> = Vec::new();
    let mut done = false;
    while !done && out.len() < 8
        invariant
            n == raw_formats@.len(),
            out@.len() <= 8,
            forall|i: int, j: int| 0 <= i < j < out@.len() ==> out@[i].height > out@[j].height,
            forall|i: int|
                0 <= i < out@.len() ==> (#[trigger] out@[i]).label@ == dec_digits(
                    out@[i].height as nat,
                ) + "p"@,
            forall|i: int|
                0 <= i < out@.len() ==> quality_from_first(raw_formats@, #[trigger] out@[i]),
            out@.len() > 0 ==> forall|k: int|
                0 <= k < n && offers_height(#[trigger] raw_formats@[k]) && !has_height(
                    out@,
                    raw_formats@[k].height->0,
                ) ==> raw_formats@[k].height->0 < out@[out@.len() - 1].height,
            done ==> forall|k: int|
                0 <= k < n && offers_height(#[trigger] raw_formats@[k]) ==> has_height(
                    out@,
                    raw_formats@[k].height->0,
                ),
        decreases 8 - out@.len() + (if done {
            0int
        } else {
            1int
        }),
    {
        let mut best: usize = n;
        let mut k: usize = 0;
        while k < n
            invariant
                n == raw_formats@.len(),
                0 <= k <= n,
                best <= n,
                best < n ==> best < k,
                best < n ==> offers_height(raw_formats@[best as int]) && !has_height(
                    out@,
                    raw_formats@[best as int].height->0,
                ),
                best < n ==> forall|j: int|
                    0 <= j < k && offers_height(#[trigger] raw_formats@[j]) && !has_height(
                        out@,
                        raw_formats@[j].height->0,
                    ) ==> (raw_formats@[j].height->0 < raw_formats@[best as int].height->0 || (
                    raw_formats@[j].height->0 == raw_formats@[best as int].height->0 && best <= j)),
                best == n ==> forall|j: int|
                    0 <= j < k ==> !(offers_height(#[trigger] raw_formats@[j]) && !has_height(
                        out@,
                        raw_formats@[j].height->0,
                    )),
            decreases n - k,
        {
            let f = &raw_formats[k];
            let is_video = match &f.vcodec {
                Some(v) => !streq(v.as_str(), "none"),
                None => false,
            };
            let cand: Option<u32> = if is_video {
                match f.height {
                    Some(h) => {
                        if contains_height(&out, h) {
                            None
                        } else {
                            Some(h)
                        }
                    },
                    None => None,
                }
            } else {
                None
            };
            match cand {
                Some(h) => {
                    if best == n {
                        best = k;
                    } else {
                        let hb = match raw_formats[best].height {
                            Some(x) => x,
                            None => 0,
                        };
                        if h > hb {
                            best = k;
                        }
                    }
                },
                None => {},
            }
            k = k + 1;
        }
        if best == n {
            done = true;
        } else {
            let ghost old_out = out@;
            let f = &raw_formats[best];
            let h = match f.height {
                Some(x) => x,
                None => 0,
            };
            let filesize: Option<u64> = match f.filesize {
                Some(b) => Some(b),
                None => f.filesize_approx,
            };
            let filesize_approx: Option<String> = match filesize {
                Some(b) => Some(format_bytes(b)),
                None => None,
            };
            let mut label = u64_to_string(h as u64);
            label.append("p");
            let entry = VideoQuality { height: h, label, filesize_approx };
            out.push(entry);
            proof {
                let b = best as int;
                assert(raw_formats@[b].height == Some(h));
                assert(out@ == old_out.push(out@[old_out.len() as int]));
                // the chosen format is the first offering this height
                assert forall|k2: int| 0 <= k2 < b implies !(offers_height(
                    #[trigger] raw_formats@[k2],
                ) && raw_formats@[k2].height == Some(h)) by {
                    if offers_height(raw_formats@[k2]) && raw_formats@[k2].height == Some(h) {
                        if has_height(old_out, raw_formats@[k2].height->0) {
                            let i0 = choose|i: int|
                                0 <= i < old_out.len() && old_out[i].height
                                    == raw_formats@[k2].height->0;
                            assert(old_out[i0].height == raw_formats@[b].height->0);
                            assert(has_height(old_out, raw_formats@[b].height->0));
                            assert(false);
                        }
                        assert(!has_height(old_out, raw_formats@[k2].height->0));
                        assert(raw_formats@[k2].height->0 == raw_formats@[b].height->0);
                        assert(false);
                    }
                }
                assert(quality_from_first(raw_formats@, out@[old_out.len() as int]));
                // heights still absent are lower than the one just pushed
                assert forall|k2: int|
                    0 <= k2 < n && offers_height(#[trigger] raw_formats@[k2]) && !has_height(
                        out@,
                        raw_formats@[k2].height->0,
                    ) implies raw_formats@[k2].height->0 < h by {
                    if has_height(old_out, raw_formats@[k2].height->0) {
                        let i0 = choose|i: int|
                            0 <= i < old_out.len() && old_out[i].height
                                == raw_formats@[k2].height->0;
                        assert(out@[i0] == old_out[i0]);
                        assert(has_height(out@, raw_formats@[k2].height->0));
                        assert(false);
                    }
                    assert(!has_height(old_out, raw_formats@[k2].height->0));
                    if raw_formats@[k2].height->0 == h {
                        assert(out@[old_out.len() as int].height == h);
                        assert(has_height(out@, raw_formats@[k2].height->0));
                        assert(false);
                    }
                }
                // ordering against the earlier entries
                assert forall|i: int| 0 <= i < old_out.len() implies old_out[i].height > h by {
                    assert(offers_height(raw_formats@[b]));
                    assert(!has_height(old_out, raw_formats@[b].height->0));
                    assert(h < old_out[old_out.len() - 1].height);
                    if i < old_out.len() - 1 {
                        assert(old_out[i].height > old_out[old_out.len() - 1].height);
                    }
                }
            }
        }
    }
    out
}


/// The three audio quality options offered for audio-only downloads.
pub fn default_audio_qualities() -> (r: Vec<AudioQuality>)
    ensures
        r@.len() == 3,
        r@[0].quality_id@ == "high"@ && r@[0].label@ == "High Quality (320kbps)"@ && r@[0].bitrate
            == 320,
        r@[1].quality_id@ == "medium"@ && r@[1].label@ == "Medium Quality (192kbps)"@
            && r@[1].bitrate == 192,
        r@[2].quality_id@ == "low"@ && r@[2].label@ == "Low Quality (128kbps)"@ && r@[2].bitrate
            == 128,
{
    let mut v: Vec<AudioQuality> = Vec::new();
    v.push(
        AudioQuality {
            quality_id: String::from_str("high"),
            label: String::from_str("High Quality (320kbps)"),
            bitrate: 320,
        },
    );
    v.push(
        AudioQuality {
            quality_id: String::from_str("medium"),
            label: String::from_str("Medium Quality (192kbps)"),
            bitrate: 192,
        },
    );
    v.push(
        AudioQuality {
            quality_id: String::from_str("low"),
            label: String::from_str("Low Quality (128kbps)"),
            bitrate: 128,
        },
    );
    v
}

} // verus!
