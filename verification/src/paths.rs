//! Where the external binaries live inside the dependency directory,
//! the installed-tools status, and the naming of output files.

use vstd::prelude::*;
use crate::shim::{push_char, str_trim, trim_spec};

verus! {

/// The path of the download tool inside the dependency directory.
pub fn get_ytdlp_path(deps_dir: &str) -> (r: String)
    ensures
        r@ == deps_dir@ + "/yt-dlp"@,
{
    let mut s = String::from_str(deps_dir);
    s.append("/yt-dlp");
    s
}

/// The path of the cut tool inside the dependency directory.
pub fn get_ffmpeg_path(deps_dir: &str) -> (r: String)
    ensures
        r@ == deps_dir@ + "/ffmpeg"@,
{
    let mut s = String::from_str(deps_dir);
    s.append("/ffmpeg");
    s
}

/// Which of the two external tools are present.
#[derive(Debug, Clone, Copy, PartialEq, Eq, Structural)]
pub struct DepsStatus {
    pub ytdlp_installed: bool,
    pub ffmpeg_installed: bool,
    /// Both tools are present.
    pub ready: bool,
}

impl DepsStatus {
    /// `ready` says exactly that both tools are installed.
    pub open spec fn wf(&self) -> bool {
        self.ready == (self.ytdlp_installed && self.ffmpeg_installed)
    }

    /// The status for the two availability answers.
    pub fn from_flags(ytdlp: bool, ffmpeg: bool) -> (r: Self)
        ensures
            r.ytdlp_installed == ytdlp,
            r.ffmpeg_installed == ffmpeg,
            r.ready == (ytdlp && ffmpeg),
            r.wf(),
    {
        DepsStatus { ytdlp_installed: ytdlp, ffmpeg_installed: ffmpeg, ready: ytdlp && ffmpeg }
    }
}

/// A character as it may appear in a file name: the separators and
/// wildcard characters become underscores.
pub open spec fn sanitize_char(c: char) -> char {
    if c == '/' || c == '\\' || c == ':' || c == '*' || c == '?' || c == '"' || c == '<' || c == '>'
        || c == '|' {
        '_'
    } else {
        c
    }
}

/// Every character sanitized.
pub open spec fn sanitized(s: Seq<char>) -> Seq<char> {
    Seq::new(s.len(), |i: int| sanitize_char(s[i]))
}

/// At most the first 200 characters.
pub open spec fn truncated_200(s: Seq<char>) -> Seq<char> {
    if s.len() > 200 {
        s.subrange(0, 200)
    } else {
        s
    }
}

/// Builds an output file name from a title and an extension: the title
/// with unsafe characters replaced, cut to 200 characters, trimmed of
/// surrounding whitespace, and the extension appended after a dot.
pub fn generate_filename(title: String, format_ext: String) -> (r: String)
    ensures
        r@ == trim_spec(truncated_200(sanitized(title@))) + "."@ + format_ext@,
{
    let n = title.as_str().unicode_len();
    let mut s = String::new();
    let mut i: usize = 0;
    proof {
        assert(s@ =~= sanitized(title@).subrange(0, 0));
    }
    while i < n
        invariant
            0 <= i <= n,
            n == title@.len(),
            s@ == sanitized(title@).subrange(0, i as int),
        decreases n - i,
    {
        let c = title.as_str().get_char(i);
        let sc = if c == '/' || c == '\\' || c == ':' || c == '*' || c == '?' || c == '"' || c
            == '<' || c == '>' || c == '|' {
            '_'
        } else {
            c
        };
        push_char(&mut s, sc);
        proof {
            assert(s@ =~= sanitized(title@).subrange(0, i + 1));
        }
        i = i + 1;
    }
    proof {
        assert(sanitized(title@).subrange(0, n as int) =~= sanitized(title@));
    }
    let cut: &str = if s.as_str().unicode_len() > 200 {
        s.as_str().substring_char(0, 200)
    } else {
        s.as_str()
    };
    let trimmed = str_trim(cut);
    let mut out = String::from_str(trimmed);
    out.append(".");
    out.append(format_ext.as_str());
    out
}

} // verus!
