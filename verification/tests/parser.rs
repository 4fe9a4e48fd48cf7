use dlcut::lineparse::{parse_cut_line, parse_download_line, strip_line_ending};
use dlcut::progress::ProgressStage;

#[test]
fn download_line_with_speed_and_eta() {
    let line = b"[download]  42.5% of 10.00MiB at 1.20MiB/s ETA 00:05";
    let u = parse_download_line(line).unwrap();
    assert!(matches!(u.stage, ProgressStage::Downloading));
    assert_eq!(u.percent_centi, 4250);
    assert_eq!(u.message, "Downloading... 42.5%");
    assert_eq!(u.speed.as_deref(), Some("1.20MiB/s"));
    assert_eq!(u.eta.as_deref(), Some("00:05"));
}

#[test]
fn download_line_without_percentage_gives_no_update() {
    assert!(parse_download_line(b"random output line").is_none());
    assert!(parse_download_line(b"[download] Destination: video.mp4").is_none());
    assert!(parse_download_line(b"").is_none());
}

#[test]
fn download_line_whole_percent() {
    let u = parse_download_line(b"[download] 100% of 3.00MiB in 00:01\n").unwrap();
    assert_eq!(u.percent_centi, 10000);
    assert_eq!(u.message, "Downloading... 100.0%");
    assert_eq!(u.speed, None);
    assert_eq!(u.eta, None);
}

#[test]
fn download_line_percent_is_clamped() {
    let u = parse_download_line(b"[download] 250.5%").unwrap();
    assert_eq!(u.percent_centi, 10000);
    let u = parse_download_line(b"[download] 99999999999999999999999%").unwrap();
    assert_eq!(u.percent_centi, 10000);
}

#[test]
fn download_line_strips_terminator() {
    let u = parse_download_line(b"[download]  7.0% done ETA 00:42\r\n").unwrap();
    assert_eq!(u.percent_centi, 700);
    assert_eq!(u.eta.as_deref(), Some("00:42"));
}

#[test]
fn download_line_decodes_tokens_lossily() {
    let mut line: Vec<u8> = Vec::new();
    line.extend_from_slice(b"[download] 10% ETA ");
    line.extend_from_slice(&[0xff, 0x61, 0x62]);
    let u = parse_download_line(&line).unwrap();
    assert_eq!(u.eta.as_deref(), Some("\u{fffd}ab"));
}

#[test]
fn cut_line_halfway() {
    assert_eq!(parse_cut_line(b"out_time_ms=5000000", 10000000), Some(5000));
}

#[test]
fn cut_line_clamped_and_degenerate() {
    assert_eq!(parse_cut_line(b"out_time_ms=20000000\n", 10000000), Some(10000));
    assert_eq!(parse_cut_line(b"out_time_ms=5000000", 0), Some(0));
    assert_eq!(parse_cut_line(b"frame=100", 10000000), None);
    assert_eq!(parse_cut_line(b"", 10000000), None);
}

#[test]
fn cut_line_rejects_oversized_elapsed() {
    assert_eq!(parse_cut_line(b"out_time_ms=99999999999999999999999", 10000000), None);
}

#[test]
fn line_ending_stripping() {
    assert_eq!(strip_line_ending(b"abc\r\n"), b"abc");
    assert_eq!(strip_line_ending(b"abc\n\n"), b"abc");
    assert_eq!(strip_line_ending(b"abc"), b"abc");
    assert_eq!(strip_line_ending(b""), b"");
}
