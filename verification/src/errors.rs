//! The error conditions a job, a fetch or the file server can report.

use vstd::prelude::*;

verus! {

/// Everything that can go wrong, with a human-readable message for the
/// cases that carry detail.
#[derive(Debug, Clone)]
pub enum AppError {
    InvalidUrl,
    FetchError(String),
    DownloadError(String),
    CutError(String),
    InvalidTimestamp(String),
    YtDlpNotFound,
    FfmpegNotFound,
    DependencyError(String),
    Cancelled,
    Internal(String),
}

impl AppError {
    /// The user-facing message of this error. Internal detail is kept out
    /// of the message on purpose.
    pub open spec fn message_spec(&self) -> Seq<char> {
        match self {
            AppError::InvalidUrl => "Invalid YouTube URL"@,
            AppError::FetchError(s) => "Failed to fetch video information: "@ + s@,
            AppError::DownloadError(s) => "Download failed: "@ + s@,
            AppError::CutError(s) => "Failed to cut video: "@ + s@,
            AppError::InvalidTimestamp(s) => "Invalid timestamp: "@ + s@,
            AppError::YtDlpNotFound => "yt-dlp not found. Please ensure yt-dlp is installed and in PATH"@,
            AppError::FfmpegNotFound => "ffmpeg not found. Please ensure ffmpeg is installed and in PATH"@,
            AppError::DependencyError(s) => "Dependency error: "@ + s@,
            AppError::Cancelled => "Operation cancelled"@,
            AppError::Internal(_) => "Internal error"@,
        }
    }

    /// Renders the user-facing message.
    pub fn message(&self) -> (r: String)
        ensures
            r@ == self.message_spec(),
    {
        match self {
            AppError::InvalidUrl => String::from_str("Invalid YouTube URL"),
            AppError::FetchError(s) => {
                let mut m = String::from_str("Failed to fetch video information: ");
                m.append(s.as_str());
                m
            },
            AppError::DownloadError(s) => {
                let mut m = String::from_str("Download failed: ");
                m.append(s.as_str());
                m
            },
            AppError::CutError(s) => {
                let mut m = String::from_str("Failed to cut video: ");
                m.append(s.as_str());
                m
            },
            AppError::InvalidTimestamp(s) => {
                let mut m = String::from_str("Invalid timestamp: ");
                m.append(s.as_str());
                m
            },
            AppError::YtDlpNotFound => String::from_str(
                "yt-dlp not found. Please ensure yt-dlp is installed and in PATH",
            ),
            AppError::FfmpegNotFound => String::from_str(
                "ffmpeg not found. Please ensure ffmpeg is installed and in PATH",
            ),
            AppError::DependencyError(s) => {
                let mut m = String::from_str("Dependency error: ");
                m.append(s.as_str());
                m
            },
            AppError::Cancelled => String::from_str("Operation cancelled"),
            AppError::Internal(_) => String::from_str("Internal error"),
        }
    }
}

} // verus!
