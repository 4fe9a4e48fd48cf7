use dlcut::format::{format_bytes, format_duration};
use dlcut::media::extract_height;
use dlcut::paths::generate_filename;
use dlcut::timestamps::{parse_timestamp, validate_timestamps};
use dlcut::urlcheck::validate_youtube_url;
use dlcut::errors::AppError;

#[test]
fn test_format_bytes() {
    assert_eq!(format_bytes(500), "500 B");
    assert_eq!(format_bytes(1024), "1 KB");
    assert_eq!(format_bytes(1536), "2 KB");
    assert_eq!(format_bytes(1048576), "1.0 MB");
    assert_eq!(format_bytes(1073741824), "1.0 GB");
}

#[test]
fn test_extract_height() {
    assert_eq!(extract_height("1080p"), 1080);
    assert_eq!(extract_height("720p"), 720);
    assert_eq!(extract_height("480p"), 480);
    assert_eq!(extract_height("unknown"), 0);
}

#[test]
fn test_format_duration() {
    assert_eq!(format_duration(65), "01:05");
    assert_eq!(format_duration(3661), "01:01:01");
    assert_eq!(format_duration(0), "00:00");
}

#[test]
fn test_parse_timestamp() {
    assert_eq!(parse_timestamp("30"), Some(30));
    assert_eq!(parse_timestamp("1:30"), Some(90));
    assert_eq!(parse_timestamp("01:30"), Some(90));
    assert_eq!(parse_timestamp("1:00:00"), Some(3600));
    assert_eq!(parse_timestamp("invalid"), None);
}

#[test]
fn test_parse_timestamp_trims_whitespace() {
    assert_eq!(parse_timestamp("  30  "), Some(30));
    assert_eq!(parse_timestamp(""), None);
    assert_eq!(parse_timestamp("1:2:3:4"), None);
}

#[test]
fn test_validate_timestamps() {
    let result = validate_timestamps(Some("0:30".to_string()), Some("1:30".to_string()), 120);
    assert!(result.is_ok());
    let (start, end) = result.unwrap();
    assert_eq!(start, Some(30));
    assert_eq!(end, Some(90));

    let result = validate_timestamps(Some("".to_string()), Some("".to_string()), 120);
    assert!(result.is_ok());
    let (start, end) = result.unwrap();
    assert_eq!(start, None);
    assert_eq!(end, None);

    let result = validate_timestamps(Some("1:00".to_string()), Some("0:30".to_string()), 120);
    assert!(result.is_err());

    let result = validate_timestamps(Some("2:30".to_string()), None, 120);
    assert!(result.is_err());
}

#[test]
fn test_validate_timestamps_messages() {
    let e = validate_timestamps(Some("oops".to_string()), None, 120).unwrap_err();
    assert!(matches!(&e, AppError::InvalidTimestamp(m) if m == "Invalid start time: oops"));
    let e = validate_timestamps(None, Some("oops".to_string()), 120).unwrap_err();
    assert!(matches!(&e, AppError::InvalidTimestamp(m) if m == "Invalid end time: oops"));
    let e = validate_timestamps(None, Some("0:00".to_string()), 120).unwrap_err();
    assert!(matches!(&e, AppError::InvalidTimestamp(m) if m == "End time must be positive"));
    let e = validate_timestamps(None, Some("2:30".to_string()), 120).unwrap_err();
    assert!(matches!(&e, AppError::InvalidTimestamp(m) if m == "End time exceeds video duration"));
}

#[test]
fn test_validate_youtube_url() {
    assert!(validate_youtube_url("https://www.youtube.com/watch?v=dQw4w9WgXcQ").is_ok());
    assert!(validate_youtube_url("https://youtube.com/watch?v=dQw4w9WgXcQ").is_ok());
    assert!(validate_youtube_url("https://youtu.be/dQw4w9WgXcQ").is_ok());
    assert!(validate_youtube_url("https://www.youtube.com/shorts/abc123").is_ok());

    assert!(validate_youtube_url("https://example.com").is_err());
    assert!(validate_youtube_url("not a url").is_err());
    assert!(validate_youtube_url("").is_err());
    assert!(validate_youtube_url("https://vimeo.com/123456").is_err());
}

#[test]
fn test_validate_youtube_url_trims_whitespace() {
    assert!(validate_youtube_url("   https://youtu.be/dQw4w9WgXcQ   ").is_ok());
    assert!(matches!(
        validate_youtube_url("https://example.com"),
        Err(AppError::InvalidUrl)
    ));
}

#[test]
fn test_generate_filename() {
    assert_eq!(
        generate_filename("Test Video".to_string(), "mp4".to_string()),
        "Test Video.mp4"
    );
    assert_eq!(
        generate_filename("Test/Video:Name".to_string(), "mp4".to_string()),
        "Test_Video_Name.mp4"
    );
}

#[test]
fn test_generate_filename_truncates_and_trims() {
    let long = "a".repeat(300);
    let name = generate_filename(long, "mp4".to_string());
    assert_eq!(name.len(), 204);
    assert_eq!(generate_filename("  spaced  ".to_string(), "mp3".to_string()), "spaced.mp3");
}

#[test]
fn test_error_messages() {
    assert_eq!(AppError::InvalidUrl.message(), "Invalid YouTube URL");
    assert_eq!(
        AppError::FetchError("boom".to_string()).message(),
        "Failed to fetch video information: boom"
    );
    assert_eq!(
        AppError::DownloadError("boom".to_string()).message(),
        "Download failed: boom"
    );
    assert_eq!(AppError::CutError("boom".to_string()).message(), "Failed to cut video: boom");
    assert_eq!(
        AppError::InvalidTimestamp("boom".to_string()).message(),
        "Invalid timestamp: boom"
    );
    assert_eq!(
        AppError::YtDlpNotFound.message(),
        "yt-dlp not found. Please ensure yt-dlp is installed and in PATH"
    );
    assert_eq!(
        AppError::FfmpegNotFound.message(),
        "ffmpeg not found. Please ensure ffmpeg is installed and in PATH"
    );
    assert_eq!(
        AppError::DependencyError("boom".to_string()).message(),
        "Dependency error: boom"
    );
    assert_eq!(AppError::Cancelled.message(), "Operation cancelled");
    assert_eq!(AppError::Internal("secret detail".to_string()).message(), "Internal error");
}
