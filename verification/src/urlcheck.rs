//! Only URLs that look like one of the supported video pages are handed
//! to the external tool: a guard against processing arbitrary URLs.

use vstd::prelude::*;
use crate::errors::AppError;
use crate::shim::{regex_is_match, str_trim, trim_spec, regex_accepts};

verus! {

/// Whether the trimmed URL matches one of the supported video-page
/// patterns.
pub open spec fn is_supported_url(url: Seq<char>) -> bool {
    let t = trim_spec(url);
    ||| regex_accepts(r"^https?://(www\.)?youtube\.com/watch\?v=[\w-]+"@, t)
    ||| regex_accepts(r"^https?://(www\.)?youtube\.com/shorts/[\w-]+"@, t)
    ||| regex_accepts(r"^https?://youtu\.be/[\w-]+"@, t)
    ||| regex_accepts(r"^https?://(www\.)?youtube\.com/embed/[\w-]+"@, t)
    ||| regex_accepts(r"^https?://m\.youtube\.com/watch\?v=[\w-]+"@, t)
}

/// Accepts exactly the URLs that match one of the supported video-page
/// patterns, ignoring surrounding whitespace; everything else is an
/// invalid-URL error.
pub fn validate_youtube_url(url: &str) -> (r: Result<(), AppError>)
    ensures
        r is Ok <==> is_supported_url(url@),
        r is Err ==> r matches Err(AppError::InvalidUrl),
{
    let t = str_trim(url);
    if regex_is_match(r"^https?://(www\.)?youtube\.com/watch\?v=[\w-]+", t) {
        Ok(())
    } else if regex_is_match(r"^https?://(www\.)?youtube\.com/shorts/[\w-]+", t) {
        Ok(())
    } else if regex_is_match(r"^https?://youtu\.be/[\w-]+", t) {
        Ok(())
    } else if regex_is_match(r"^https?://(www\.)?youtube\.com/embed/[\w-]+", t) {
        Ok(())
    } else if regex_is_match(r"^https?://m\.youtube\.com/watch\?v=[\w-]+", t) {
        Ok(())
    } else {
        Err(AppError::InvalidUrl)
    }
}

} // verus!
