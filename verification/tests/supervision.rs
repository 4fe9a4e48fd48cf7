use dlcut::errors::AppError;
use dlcut::jobs::{
    error_update, fetch_args, fetch_error_from_stderr, ActiveJobSlot, CutAttempt, CutDecision,
    CutJob, DownloadJob,
};
use dlcut::media::DownloadMode;
use dlcut::progress::ProgressStage;

#[test]
fn second_job_is_refused_and_first_keeps_running() {
    let mut slot = ActiveJobSlot::new();
    assert!(!slot.is_active());
    assert!(slot.try_start(1).is_ok());
    let err = slot.try_start(2).unwrap_err();
    assert!(matches!(&err, AppError::DownloadError(m) if m == "A download is already in progress"));
    assert!(slot.is_active());
    assert!(slot.should_forward(1));
    assert!(!slot.should_forward(2));
}

#[test]
fn cancel_with_nothing_running_is_refused() {
    let mut slot = ActiveJobSlot::new();
    let err = slot.cancel().unwrap_err();
    assert!(matches!(err, AppError::Cancelled));
    assert!(!slot.is_active());
}

#[test]
fn cancel_clears_the_slot_and_stops_forwarding() {
    let mut slot = ActiveJobSlot::new();
    slot.try_start(7).unwrap();
    assert!(slot.should_forward(7));
    assert_eq!(slot.cancel().unwrap(), 7);
    assert!(!slot.is_active());
    assert!(!slot.should_forward(7));
}

#[test]
fn finished_job_clears_the_slot() {
    let mut slot = ActiveJobSlot::new();
    slot.try_start(3).unwrap();
    slot.clear();
    assert!(!slot.is_active());
    assert!(slot.try_start(4).is_ok());
}

#[test]
fn cut_job_retries_through_fallback_exactly_once() {
    let mut job = CutJob::new("in.mp4".to_string(), "out.mp4".to_string(), 10, 40);
    assert!(matches!(job.attempt, CutAttempt::Primary));
    assert!(matches!(job.on_exit(false), CutDecision::RunFallback));
    assert!(matches!(job.attempt, CutAttempt::Fallback));
    assert!(matches!(job.on_exit(false), CutDecision::Failed));
    assert!(matches!(job.attempt, CutAttempt::Done));
    let err = job.failure_error();
    assert!(matches!(&err, AppError::CutError(m) if m == "ffmpeg encoding failed"));
}

#[test]
fn cut_job_success_is_terminal() {
    let mut job = CutJob::new("in.mp4".to_string(), "out.mp4".to_string(), 0, 5);
    assert!(matches!(job.on_exit(true), CutDecision::Finished));
    assert!(matches!(job.attempt, CutAttempt::Done));
}

#[test]
fn cut_job_progress_lines() {
    let job = CutJob::new("in.mp4".to_string(), "out.mp4".to_string(), 0, 10);
    assert_eq!(job.duration_us(), 10_000_000);
    let u = job.on_line(b"out_time_ms=5000000").unwrap();
    assert!(matches!(u.stage, ProgressStage::Cutting));
    assert_eq!(u.percent_centi, 5000);
    assert_eq!(u.message, "Cutting video... 50%");
    assert_eq!(u.speed, None);
    assert!(job.on_line(b"speed=1.2x").is_none());
}

#[test]
fn cut_job_fallback_message() {
    let mut job = CutJob::new("in.mp4".to_string(), "out.mp4".to_string(), 0, 10);
    job.on_exit(false);
    let u = job.on_line(b"out_time_ms=2500000").unwrap();
    assert_eq!(u.message, "Re-encoding... 25%");
}

#[test]
fn cut_job_argument_lists() {
    let job = CutJob::new("in.mp4".to_string(), "out.mp4".to_string(), 30, 90);
    assert_eq!(
        job.primary_args(),
        vec![
            "-y", "-ss", "30.000", "-i", "in.mp4", "-t", "60.000", "-c", "copy",
            "-avoid_negative_ts", "make_zero", "-progress", "pipe:1", "out.mp4",
        ]
    );
    assert_eq!(
        job.fallback_args(),
        vec![
            "-y", "-ss", "30.000", "-i", "in.mp4", "-t", "60.000", "-c:v", "libx264", "-preset",
            "fast", "-crf", "23", "-c:a", "aac", "-b:a", "128k", "-progress", "pipe:1", "out.mp4",
        ]
    );
}

#[test]
fn cut_job_updates() {
    let job = CutJob::new("a".to_string(), "b".to_string(), 0, 1);
    let u = job.start_update();
    assert!(matches!(u.stage, ProgressStage::Cutting));
    assert_eq!((u.percent_centi, u.message.as_str()), (0, "Starting video cut..."));
    let u = job.fallback_start_update();
    assert_eq!(u.message, "Re-encoding video (this may take longer)...");
    let u = job.complete_update();
    assert!(matches!(u.stage, ProgressStage::Complete));
    assert_eq!((u.percent_centi, u.message.as_str()), (10000, "Cut complete!"));
}

fn video_job(quality: &str, start: Option<u64>, end: Option<u64>) -> DownloadJob {
    DownloadJob {
        url: "https://youtu.be/abc".to_string(),
        mode: DownloadMode::VideoWithAudio,
        quality: quality.to_string(),
        output_path: "out.mp4".to_string(),
        start_secs: start,
        end_secs: end,
    }
}

#[test]
fn download_args_video_with_cut_section() {
    let job = video_job("720", Some(30), Some(90));
    assert_eq!(
        job.args(),
        vec![
            "--newline",
            "--no-warnings",
            "--no-playlist",
            "-f",
            "bestvideo[height<=720]+bestaudio/best[height<=720]",
            "--merge-output-format",
            "mp4",
            "-o",
            "out.mp4",
            "--download-sections",
            "*30.00-90.00",
            "--force-keyframes-at-cuts",
            "https://youtu.be/abc",
        ]
    );
}

#[test]
fn download_args_default_height_and_open_sections() {
    let job = video_job("oops", Some(30), None);
    let args = job.args();
    assert!(args.contains(&"bestvideo[height<=1080]+bestaudio/best[height<=1080]".to_string()));
    assert!(args.contains(&"*30.00-inf".to_string()));
    let job = video_job("480", None, Some(90));
    assert!(job.args().contains(&"*0-90.00".to_string()));
    let job = video_job("480", None, None);
    assert!(!job.args().contains(&"--download-sections".to_string()));
}

#[test]
fn download_args_audio_only() {
    let job = DownloadJob {
        url: "https://youtu.be/abc".to_string(),
        mode: DownloadMode::AudioOnly,
        quality: "medium".to_string(),
        output_path: "out.mp3".to_string(),
        start_secs: None,
        end_secs: None,
    };
    assert_eq!(
        job.args(),
        vec![
            "--newline",
            "--no-warnings",
            "--no-playlist",
            "-f",
            "bestaudio/best",
            "-x",
            "--audio-format",
            "mp3",
            "--audio-quality",
            "5",
            "-o",
            "out.mp3",
            "https://youtu.be/abc",
        ]
    );
}

#[test]
fn download_job_exit_and_updates() {
    let job = video_job("720", None, None);
    assert_eq!(job.on_exit(true).unwrap(), "out.mp4");
    let err = job.on_exit(false).unwrap_err();
    assert!(matches!(&err, AppError::DownloadError(m) if m == "Download failed"));
    let u = job.starting_update();
    assert!(matches!(u.stage, ProgressStage::Downloading));
    assert_eq!((u.percent_centi, u.message.as_str()), (0, "Starting download..."));
    let u = job.complete_update();
    assert_eq!((u.percent_centi, u.message.as_str()), (10000, "Download complete!"));
}

#[test]
fn error_updates_carry_the_message() {
    let u = error_update(&AppError::DownloadError("Download failed".to_string()));
    assert!(matches!(u.stage, ProgressStage::Error));
    assert_eq!(u.percent_centi, 0);
    assert_eq!(u.message, "Download failed: Download failed");
}

#[test]
fn fetch_invocation_and_failure() {
    assert_eq!(
        fetch_args("https://youtu.be/abc"),
        vec![
            "--dump-json",
            "--no-download",
            "--no-warnings",
            "--no-playlist",
            "--flat-playlist",
            "https://youtu.be/abc",
        ]
    );
    let e = fetch_error_from_stderr(b"ERROR: bad url\nmore detail\n");
    assert!(matches!(&e, AppError::FetchError(m) if m == "yt-dlp error: ERROR: bad url"));
    let e = fetch_error_from_stderr(b"");
    assert!(matches!(&e, AppError::FetchError(m) if m == "yt-dlp error: Unknown error"));
}
