//! The range-serving file server's decisions: parsing the request,
//! computing the byte window, and building the response header.
//!
//! The server serves exactly one file. A request is a raw byte chunk; the
//! method is read from its leading token and a `Range` header, when one
//! parses, selects a byte window. An unparsable or out-of-bounds range
//! degrades to the whole file rather than failing the request. Sockets
//! and disk reads happen outside the library.

use vstd::prelude::*;
use crate::lineparse::{is_ws_byte, lemma_skip_to_nl_bounds, line_at, skip_to_nl, skip_to_nl_exec, skip_ws};
use crate::text::{all_digit_bytes, bytes_value, dec_digits, u64_to_string};

verus! {

/// The index after the last byte that is not blank space.
pub open spec fn rstrip_ws(s: Seq<u8>) -> int
    decreases s.len(),
{
    if s.len() > 0 && is_ws_byte(s.last()) {
        rstrip_ws(s.drop_last())
    } else {
        s.len() as int
    }
}

/// First index in `[i, end)` that holds `-`, or `end`.
pub open spec fn find_dash(s: Seq<u8>, i: int, end: int) -> int
    decreases end - i,
{
    if 0 <= i < end <= s.len() {
        if s[i] == '-' as u8 {
            i
        } else {
            find_dash(s, i + 1, end)
        }
    } else {
        end
    }
}

/// What a run of bytes denotes as a `u64`: a number only when it is a
/// non-empty all-digit run that fits.
pub open spec fn parsed_u64(b: Seq<u8>) -> Option<u64> {
    if b.len() > 0 && all_digit_bytes(b) && bytes_value(b) <= u64::MAX {
        Some(bytes_value(b) as u64)
    } else {
        None
    }
}

/// Lower-cases one ASCII byte.
pub open spec fn lower_byte(b: u8) -> u8 {
    if 65 <= b <= 90 {
        (b + 32) as u8
    } else {
        b
    }
}

/// The byte range a request line offers for a file of `size` bytes: the
/// line must read `range:` (any case), then `bytes=`, then a start, a
/// dash and an optional end; a missing or oversized end means the last
/// byte of the file.
pub open spec fn range_of_line(line: Seq<u8>, size: u64) -> Option<(u64, u64)> {
    let va = skip_ws(line, 6);
    let vb = rstrip_ws(line);
    if line.len() >= 6 && lower_byte(line[0]) == 'r' as u8 && lower_byte(line[1]) == 'a' as u8
        && lower_byte(line[2]) == 'n' as u8 && lower_byte(line[3]) == 'g' as u8 && lower_byte(
        line[4],
    ) == 'e' as u8 && line[5] == ':' as u8 {
        if va + 6 <= vb && line[va] == 'b' as u8 && line[va + 1] == 'y' as u8 && line[va + 2]
            == 't' as u8 && line[va + 3] == 'e' as u8 && line[va + 4] == 's' as u8 && line[va + 5]
            == '=' as u8 {
            byte_range_of(line, va + 6, vb, size)
        } else {
            None
        }
    } else {
        None
    }
}

/// The byte range the span `[i, end)` of a `Range` header value denotes.
pub open spec fn byte_range_of(line: Seq<u8>, i: int, end: int, size: u64) -> Option<(u64, u64)> {
    let d = find_dash(line, i, end);
    let last = if size == 0 {
        0u64
    } else {
        (size - 1) as u64
    };
    match parsed_u64(line.subrange(i, d)) {
        Some(start) => {
            if d == end {
                Some((start, last))
            } else if d + 1 == end {
                Some((start, last))
            } else {
                match parsed_u64(line.subrange(d + 1, end)) {
                    Some(e) => Some(
                        (
                            start,
                            if e < last {
                                e
                            } else {
                                last
                            },
                        ),
                    ),
                    None => None,
                }
            }
        },
        None => None,
    }
}

/// The byte range offered by the first request line whose `Range` header
/// parses, scanning from line start `l`.
pub open spec fn find_range_from(s: Seq<u8>, l: int, size: u64) -> Option<(u64, u64)>
    decreases s.len() - l,
{
    if 0 <= l <= s.len() {
        let e = skip_to_nl(s, l);
        match range_of_line(line_at(s, l), size) {
            Some(r) => Some(r),
            None => {
                if e < s.len() {
                    proof {
                        lemma_skip_to_nl_bounds(s, l);
                    }
                    find_range_from(s, e + 1, size)
                } else {
                    None
                }
            },
        }
    } else {
        None
    }
}

/// The byte window actually served for the request: the offered range
/// when it lies inside the file, and nothing (the whole file) otherwise.
pub open spec fn effective_range(req: Seq<u8>, size: u64) -> Option<(u64, u64)> {
    match find_range_from(req, 0, size) {
        Some((s, e)) => {
            if s <= e && s < size {
                Some((s, e))
            } else {
                None
            }
        },
        None => None,
    }
}

/// Whatever range the request scan finds ends inside the file (at byte
/// zero for an empty file).
pub proof fn lemma_find_range_bounds(s: Seq<u8>, l: int, size: u64)
    requires
        0 <= l,
    ensures
        find_range_from(s, l, size) matches Some((a, b)) ==> b <= (if size == 0 {
            0u64
        } else {
            (size - 1) as u64
        }),
    decreases s.len() - l,
{
    if 0 <= l <= s.len() {
        lemma_skip_to_nl_bounds(s, l);
        let e = skip_to_nl(s, l);
        if range_of_line(line_at(s, l), size) is None && e < s.len() {
            lemma_find_range_bounds(s, e + 1, size);
        }
    }
}

/// Whether the request is a `HEAD` request: its first bytes.
pub open spec fn is_head_request(req: Seq<u8>) -> bool {
    &&& req.len() >= 5
    &&& req[0] == 'H' as u8
    &&& req[1] == 'E' as u8
    &&& req[2] == 'A' as u8
    &&& req[3] == 'D' as u8
    &&& req[4] == ' ' as u8
}

fn rstrip_ws_exec(line: &[u8]) -> (j: usize)
    ensures
        j as int == rstrip_ws(line@),
        j <= line@.len(),
{
    let mut j = line.len();
    proof {
        assert(line@.subrange(0, line@.len() as int) =~= line@);
    }
    while j > 0 && (line[j - 1] == 32 || line[j - 1] == 9)
        invariant
            0 <= j <= line@.len(),
            rstrip_ws(line@) == rstrip_ws(line@.subrange(0, j as int)),
        decreases j,
    {
        proof {
            assert(line@.subrange(0, j as int).drop_last() =~= line@.subrange(0, j - 1));
        }
        j = j - 1;
    }
    proof {
        if j > 0 {
            assert(line@.subrange(0, j as int).last() == line@[j - 1]);
        }
        assert(rstrip_ws(line@.subrange(0, j as int)) == j);
    }
    j
}

fn find_dash_exec(line: &[u8], i: usize, end: usize) -> (d: usize)
    requires
        i <= end <= line@.len(),
    ensures
        d as int == find_dash(line@, i as int, end as int),
        i <= d <= end,
{
    let mut j = i;
    while j < end && line[j] != 45
        invariant
            i <= j <= end <= line@.len(),
            find_dash(line@, i as int, end as int) == find_dash(line@, j as int, end as int),
        decreases end - j,
    {
        j = j + 1;
    }
    j
}

fn parse_range_line(line: &[u8], size: u64) -> (r: Option<(u64, u64)>)
    ensures
        r == range_of_line(line@, size),
{
    if line.len() < 6 {
        return None;
    }
    let b0 = line[0];
    let b1 = line[1];
    let b2 = line[2];
    let b3 = line[3];
    let b4 = line[4];
    if !((b0 == 'r' as u8 || b0 == 'R' as u8) && (b1 == 'a' as u8 || b1 == 'A' as u8) && (b2
        == 'n' as u8 || b2 == 'N' as u8) && (b3 == 'g' as u8 || b3 == 'G' as u8) && (b4
        == 'e' as u8 || b4 == 'E' as u8) && line[5] == ':' as u8) {
        return None;
    }
    let va = crate::lineparse::skip_ws_exec(line, 6);
    let vb = rstrip_ws_exec(line);
    if !(vb >= 6 && va <= vb - 6) {
        return None;
    }
    if !(line[va] == 'b' as u8 && line[va + 1] == 'y' as u8 && line[va + 2] == 't' as u8 && line[va
        + 3] == 'e' as u8 && line[va + 4] == 's' as u8 && line[va + 5] == '=' as u8) {
        return None;
    }
    let i = va + 6;
    let d = find_dash_exec(line, i, vb);
    let last: u64 = if size == 0 {
        0
    } else {
        size - 1
    };
    let start = match crate::text::parse_u64_bytes(&line[i..d]) {
        Some(v) => v,
        None => {
            return None;
        },
    };
    if d == vb || d + 1 == vb {
        return Some((start, last));
    }
    match crate::text::parse_u64_bytes(&line[d + 1..vb]) {
        Some(e) => Some(
            (
                start,
                if e < last {
                    e
                } else {
                    last
                },
            ),
        ),
        None => None,
    }
}

/// Finds the byte range the request offers, scanning its lines in order.
fn find_range(req: &[u8], size: u64) -> (r: Option<(u64, u64)>)
    ensures
        r == find_range_from(req@, 0, size),
{
    let n = req.len();
    let mut l: usize = 0;
    loop
        invariant
            0 <= l <= n,
            n == req@.len(),
            find_range_from(req@, 0, size) == find_range_from(req@, l as int, size),
        decreases n - l,
    {
        let e = skip_to_nl_exec(req, l);
        let le = if e > l && req[e - 1] == 13 {
            e - 1
        } else {
            e
        };
        proof {
            assert(req@.subrange(l as int, le as int) == line_at(req@, l as int));
        }
        match parse_range_line(&req[l..le], size) {
            Some(r) => {
                return Some(r);
            },
            None => {
                if e < n {
                    l = e + 1;
                } else {
                    return None;
                }
            },
        }
    }
}

/// Whether `a` and `b` hold the same characters up to ASCII case.
pub open spec fn eq_ascii_nocase(a: Seq<char>, b: Seq<char>) -> bool {
    a.len() == b.len() && forall|i: int|
        0 <= i < a.len() ==> lower_scalar(#[trigger] a[i]) == lower_scalar(b[i])
}

/// The Unicode scalar of a character, ASCII upper case folded to lower.
pub open spec fn lower_scalar(c: char) -> u32 {
    if 65 <= c as u32 <= 90 {
        (c as u32 + 32) as u32
    } else {
        c as u32
    }
}

fn eq_nocase(a: &str, b: &str) -> (r: bool)
    ensures
        r == eq_ascii_nocase(a@, b@),
{
    let na = a.unicode_len();
    let nb = b.unicode_len();
    if na != nb {
        return false;
    }
    let mut i: usize = 0;
    while i < na
        invariant
            na == a@.len(),
            nb == b@.len(),
            na == nb,
            0 <= i <= na,
            forall|k: int| 0 <= k < i ==> lower_scalar(#[trigger] a@[k]) == lower_scalar(b@[k]),
        decreases na - i,
    {
        let ca = a.get_char(i) as u32;
        let cb = b.get_char(i) as u32;
        let la = if 65 <= ca && ca <= 90 {
            ca + 32
        } else {
            ca
        };
        let lb = if 65 <= cb && cb <= 90 {
            cb + 32
        } else {
            cb
        };
        if la != lb {
            return false;
        }
        i = i + 1;
    }
    true
}

/// Index of the character after the last path separator.
pub open spec fn file_seg_start(s: Seq<char>) -> int
    decreases s.len(),
{
    if s.len() == 0 {
        0
    } else if s.last() == '/' || s.last() == '\\' {
        s.len() as int
    } else {
        file_seg_start(s.drop_last())
    }
}

/// Index of the last dot, or -1 when there is none.
pub open spec fn last_dot(s: Seq<char>) -> int
    decreases s.len(),
{
    if s.len() == 0 {
        -1
    } else if s.last() == '.' {
        s.len() - 1
    } else {
        last_dot(s.drop_last())
    }
}

/// The extension of a path: what follows the last dot of the file name,
/// when that dot is neither its first character nor absent.
pub open spec fn extension_spec(path: Seq<char>) -> Seq<char> {
    let st = file_seg_start(path);
    let seg = path.subrange(st, path.len() as int);
    let d = last_dot(seg);
    if d > 0 {
        seg.subrange(d + 1, seg.len() as int)
    } else {
        Seq::empty()
    }
}

proof fn lemma_file_seg_start_bounds(s: Seq<char>)
    ensures
        0 <= file_seg_start(s) <= s.len(),
    decreases s.len(),
{
    if s.len() > 0 && !(s.last() == '/' || s.last() == '\\') {
        lemma_file_seg_start_bounds(s.drop_last());
    }
}

proof fn lemma_last_dot_bounds(s: Seq<char>)
    ensures
        -1 <= last_dot(s) < s.len(),
    decreases s.len(),
{
    if s.len() > 0 && s.last() != '.' {
        lemma_last_dot_bounds(s.drop_last());
    }
}

/// The extension of a path.
#[verifier::rlimit(60)]
pub fn extension_of(path: &str) -> (r: &str)
    ensures
        r@ == extension_spec(path@),
{
    let n = path.unicode_len();
    let mut j = n;
    proof {
        assert(path@.subrange(0, n as int) =~= path@);
    }
    while j > 0 && path.get_char(j - 1) != '/' && path.get_char(j - 1) != '\\'
        invariant
            0 <= j <= n,
            n == path@.len(),
            file_seg_start(path@) == file_seg_start(path@.subrange(0, j as int)),
        decreases j,
    {
        proof {
            assert(path@.subrange(0, j as int).drop_last() =~= path@.subrange(0, j - 1));
        }
        j = j - 1;
    }
    proof {
        if j > 0 {
            assert(path@.subrange(0, j as int).last() == path@[j - 1]);
        }
        assert(file_seg_start(path@) == j);
        lemma_file_seg_start_bounds(path@);
    }
    let st = j;
    let ghost seg = path@.subrange(st as int, n as int);
    let mut k = n;
    proof {
        assert(seg.subrange(0, (n - st) as int) =~= seg);
    }
    while k > st && path.get_char(k - 1) != '.'
        invariant
            st <= k <= n,
            n == path@.len(),
            st as int == file_seg_start(path@),
            seg == path@.subrange(st as int, n as int),
            last_dot(seg) == last_dot(seg.subrange(0, k - st as int)),
        decreases k,
    {
        proof {
            assert(seg.subrange(0, k - st as int).drop_last() =~= seg.subrange(0, k - 1 - st as int));
        }
        k = k - 1;
    }
    proof {
        if k > st {
            assert(seg.subrange(0, k - st as int).last() == seg[k - 1 - st]);
            assert(seg[k - 1 - st] == path@[k - 1]);
            assert(last_dot(seg) == k - 1 - st);
        } else {
            assert(seg.subrange(0, 0) =~= Seq::<char>::empty());
            assert(last_dot(seg) == -1);
        }
    }
    if k > st && k - st > 1 {
        let r = path.substring_char(k, n);
        proof {
            assert(r@ =~= extension_spec(path@));
        }
        r
    } else {
        let r = "";
        proof {
            reveal_strlit("");
            assert(r@ =~= extension_spec(path@));
        }
        r
    }
}

/// The served content type for a file extension, case-insensitively: the
/// known video containers, and a generic binary type for the rest.
pub open spec fn media_type_spec(ext: Seq<char>) -> Seq<char> {
    if eq_ascii_nocase(ext, "mp4"@) || eq_ascii_nocase(ext, "m4v"@) {
        "video/mp4"@
    } else if eq_ascii_nocase(ext, "mkv"@) {
        "video/x-matroska"@
    } else if eq_ascii_nocase(ext, "avi"@) {
        "video/x-msvideo"@
    } else if eq_ascii_nocase(ext, "mov"@) {
        "video/quicktime"@
    } else if eq_ascii_nocase(ext, "webm"@) {
        "video/webm"@
    } else if eq_ascii_nocase(ext, "flv"@) {
        "video/x-flv"@
    } else if eq_ascii_nocase(ext, "wmv"@) {
        "video/x-ms-wmv"@
    } else {
        "application/octet-stream"@
    }
}

/// The served content type for a file extension.
pub fn media_type_for_ext(ext: &str) -> (r: &'static str)
    ensures
        r@ == media_type_spec(ext@),
{
    if eq_nocase(ext, "mp4") || eq_nocase(ext, "m4v") {
        "video/mp4"
    } else if eq_nocase(ext, "mkv") {
        "video/x-matroska"
    } else if eq_nocase(ext, "avi") {
        "video/x-msvideo"
    } else if eq_nocase(ext, "mov") {
        "video/quicktime"
    } else if eq_nocase(ext, "webm") {
        "video/webm"
    } else if eq_nocase(ext, "flv") {
        "video/x-flv"
    } else if eq_nocase(ext, "wmv") {
        "video/x-ms-wmv"
    } else {
        "application/octet-stream"
    }
}

/// The not-found response, headers only.
pub open spec fn header_404_spec() -> Seq<char> {
    "HTTP/1.1 404 Not Found\r\nContent-Length: 0\r\n\r\n"@
}

/// The headers of a partial-content response.
pub open spec fn header_206_spec(s: u64, e: u64, size: u64, ct: Seq<char>, len: u64) -> Seq<char> {
    "HTTP/1.1 206 Partial Content\r\nContent-Range: bytes "@ + dec_digits(s as nat) + "-"@
        + dec_digits(e as nat) + "/"@ + dec_digits(size as nat) + "\r\nContent-Type: "@ + ct
        + "\r\nContent-Length: "@ + dec_digits(len as nat)
        + "\r\nAccept-Ranges: bytes\r\nConnection: close\r\n\r\n"@
}

/// The headers of a whole-file response.
pub open spec fn header_200_spec(size: u64, ct: Seq<char>) -> Seq<char> {
    "HTTP/1.1 200 OK\r\nContent-Type: "@ + ct + "\r\nContent-Length: "@ + dec_digits(size as nat)
        + "\r\nAccept-Ranges: bytes\r\nConnection: close\r\n\r\n"@
}

/// Everything one response needs: the header text, the byte window of
/// the file to stream, and whether any body follows the headers.
pub struct ResponsePlan {
    /// 200, 206 or 404.
    pub status: u16,
    /// The full header text, up to and including the blank line.
    pub header: String,
    /// First file byte of the window.
    pub body_start: u64,
    /// Length of the window in bytes.
    pub body_len: u64,
    /// Whether the window is streamed at all: not for `HEAD` requests
    /// and not for a missing file.
    pub send_body: bool,
}

/// Decides one response from the raw request, the file's length (or its
/// absence), and the served file's path.
///
/// A missing file is a 404 with no body. A request whose offered range
/// lies inside the file gets 206 and exactly that window; every other
/// request gets 200 and the whole file. `HEAD` requests get the same
/// headers and no body.
pub fn plan_response(request: &[u8], file_size: Option<u64>, path: &str) -> (r: ResponsePlan)
    ensures
        file_size is None ==> {
            &&& r.status == 404
            &&& r.header@ == header_404_spec()
            &&& r.body_len == 0
            &&& !r.send_body
        },
        file_size matches Some(size) ==> {
            let ct = media_type_spec(extension_spec(path@));
            &&& r.send_body == !is_head_request(request@)
            &&& match effective_range(request@, size) {
                Some((s, e)) => {
                    &&& r.status == 206
                    &&& r.header@ == header_206_spec(s, e, size, ct, (e - s + 1) as u64)
                    &&& r.body_start == s
                    &&& r.body_len == e - s + 1
                },
                None => {
                    &&& r.status == 200
                    &&& r.header@ == header_200_spec(size, ct)
                    &&& r.body_start == 0
                    &&& r.body_len == size
                },
            }
        },
{
    let size = match file_size {
        Some(s) => s,
        None => {
            return ResponsePlan {
                status: 404,
                header: String::from_str("HTTP/1.1 404 Not Found\r\nContent-Length: 0\r\n\r\n"),
                body_start: 0,
                body_len: 0,
                send_body: false,
            };
        },
    };
    let head = request.len() >= 5 && request[0] == 'H' as u8 && request[1] == 'E' as u8
        && request[2] == 'A' as u8 && request[3] == 'D' as u8 && request[4] == ' ' as u8;
    let ct = media_type_for_ext(extension_of(path));
    let range = match find_range(request, size) {
        Some((s, e)) => {
            if s <= e && s < size {
                Some((s, e))
            } else {
                None
            }
        },
        None => None,
    };
    proof {
        lemma_find_range_bounds(request@, 0, size);
    }
    match range {
        Some((s, e)) => {
            let len = e - s + 1;
            let mut h = String::from_str("HTTP/1.1 206 Partial Content\r\nContent-Range: bytes ");
            h.append(u64_to_string(s).as_str());
            h.append("-");
            h.append(u64_to_string(e).as_str());
            h.append("/");
            h.append(u64_to_string(size).as_str());
            h.append("\r\nContent-Type: ");
            h.append(ct);
            h.append("\r\nContent-Length: ");
            h.append(u64_to_string(len).as_str());
            h.append("\r\nAccept-Ranges: bytes\r\nConnection: close\r\n\r\n");
            ResponsePlan {
                status: 206,
                header: h,
                body_start: s,
                body_len: len,
                send_body: !head,
            }
        },
        None => {
            let mut h = String::from_str("HTTP/1.1 200 OK\r\nContent-Type: ");
            h.append(ct);
            h.append("\r\nContent-Length: ");
            h.append(u64_to_string(size).as_str());
            h.append("\r\nAccept-Ranges: bytes\r\nConnection: close\r\n\r\n");
            ResponsePlan {
                status: 200,
                header: h,
                body_start: 0,
                body_len: size,
                send_body: !head,
            }
        },
    }
}

/// The loopback URL under which the served file is reachable.
pub open spec fn server_url_spec(port: u16) -> Seq<char> {
    "http://127.0.0.1:"@ + dec_digits(port as nat) + "/video"@
}

/// Renders the loopback URL for the server's port.
pub fn server_url(port: u16) -> (r: String)
    ensures
        r@ == server_url_spec(port),
{
    let mut s = String::from_str("http://127.0.0.1:");
    s.append(u64_to_string(port as u64).as_str());
    s.append("/video");
    s
}

/// The accept loop's switch: once stopped, no further connection is
/// accepted; stopping is idempotent and never an error.
pub struct ServerControl {
    pub stopped: bool,
}

impl ServerControl {
    /// A running server: connections are accepted.
    pub fn new() -> (r: Self)
        ensures
            !r.stopped,
    {
        ServerControl { stopped: false }
    }

    /// Stops accepting. Safe to call any number of times: every call
    /// leaves the control stopped and reports nothing.
    pub fn stop(&mut self)
        ensures
            final(self).stopped,
    {
        self.stopped = true;
    }

    /// Whether the accept loop may take another connection.
    pub fn should_accept(&self) -> (r: bool)
        ensures
            r == !self.stopped,
    {
        !self.stopped
    }
}

} // verus!
