use dlcut::media::{
    convert_format, default_audio_qualities, extract_video_qualities, filter_formats,
    DownloadMode, Platform, RawFormat, VideoFormat, VideoInfo,
};
use dlcut::format::format_duration;
use dlcut::paths::{get_ffmpeg_path, get_ytdlp_path, DepsStatus};

fn raw(id: &str, vcodec: Option<&str>, height: Option<u32>, filesize: Option<u64>) -> RawFormat {
    RawFormat {
        format_id: id.to_string(),
        ext: "mp4".to_string(),
        resolution: None,
        fps: Some(30),
        vcodec: vcodec.map(|v| v.to_string()),
        acodec: Some("none".to_string()),
        filesize,
        filesize_approx: None,
        format_note: None,
        height,
        width: height.map(|h| h * 16 / 9),
    }
}

#[test]
fn convert_format_drops_audio_only_formats() {
    assert!(convert_format(&raw("1", Some("none"), Some(720), None)).is_none());
    assert!(convert_format(&raw("1", None, Some(720), None)).is_none());
}

#[test]
fn convert_format_shapes_fields() {
    let f = convert_format(&raw("22", Some("avc1"), Some(720), Some(1048576))).unwrap();
    assert_eq!(f.format_id, "22");
    assert_eq!(f.ext, "mp4");
    assert_eq!(f.resolution, "1280x720");
    assert_eq!(f.quality, "720p");
    assert_eq!(f.filesize, Some(1048576));
    assert_eq!(f.filesize_approx.as_deref(), Some("1.0 MB"));
    assert!(f.has_video);
    assert!(!f.has_audio);

    let mut noted = raw("23", Some("avc1"), None, None);
    noted.format_note = Some("tiny".to_string());
    noted.width = None;
    let f = convert_format(&noted).unwrap();
    assert_eq!(f.resolution, "unknown");
    assert_eq!(f.quality, "tiny");
    assert_eq!(f.filesize_approx, None);
}

#[test]
fn format_label_lists_quality_codec_and_size() {
    let f = convert_format(&raw("22", Some("avc1"), Some(1080), Some(1073741824))).unwrap();
    assert_eq!(f.label(), "1080p • avc1 • ~1.0 GB");
    let f = convert_format(&raw("22", Some("none2"), Some(720), None)).unwrap();
    let plain = VideoFormat { vcodec: None, ..f };
    assert_eq!(plain.label(), "720p");
}

#[test]
fn filter_formats_dedups_and_sorts_by_height() {
    let a = convert_format(&raw("a", Some("avc1"), Some(720), Some(1))).unwrap();
    let b = convert_format(&raw("b", Some("avc1"), Some(1080), Some(2))).unwrap();
    let c = convert_format(&raw("c", Some("avc1"), Some(720), Some(3))).unwrap();
    let kept = filter_formats(vec![a, b, c]);
    assert_eq!(kept.len(), 2);
    assert_eq!(kept[0].quality, "1080p");
    assert_eq!(kept[0].format_id, "b");
    assert_eq!(kept[1].quality, "720p");
    assert_eq!(kept[1].format_id, "a");
}

#[test]
fn filter_formats_keeps_at_most_eight() {
    let formats: Vec<VideoFormat> = (1..=12u32)
        .map(|h| convert_format(&raw(&h.to_string(), Some("avc1"), Some(h * 100), None)).unwrap())
        .collect();
    let kept = filter_formats(formats);
    assert_eq!(kept.len(), 8);
    assert_eq!(kept[0].quality, "1200p");
    assert_eq!(kept[7].quality, "500p");
}

#[test]
fn video_qualities_come_from_first_format_per_height() {
    let list = vec![
        raw("a", Some("avc1"), Some(720), Some(1048576)),
        raw("b", Some("avc1"), Some(1080), Some(2097152)),
        raw("c", Some("avc1"), Some(720), Some(999)),
        raw("d", Some("none"), Some(2160), Some(1)),
        raw("e", Some("avc1"), None, Some(1)),
    ];
    let qualities = extract_video_qualities(&list);
    assert_eq!(qualities.len(), 2);
    assert_eq!(qualities[0].height, 1080);
    assert_eq!(qualities[0].label, "1080p");
    assert_eq!(qualities[0].filesize_approx.as_deref(), Some("2.0 MB"));
    assert_eq!(qualities[1].height, 720);
    assert_eq!(qualities[1].filesize_approx.as_deref(), Some("1.0 MB"));
}

#[test]
fn audio_quality_defaults() {
    let list = default_audio_qualities();
    assert_eq!(list.len(), 3);
    assert_eq!(
        (list[0].quality_id.as_str(), list[0].label.as_str(), list[0].bitrate),
        ("high", "High Quality (320kbps)", 320)
    );
    assert_eq!(
        (list[1].quality_id.as_str(), list[1].bitrate),
        ("medium", 192)
    );
    assert_eq!((list[2].quality_id.as_str(), list[2].bitrate), ("low", 128));
}

#[test]
fn platform_video_support() {
    assert!(Platform::YouTube.supports_video());
    assert!(Platform::TikTok.supports_video());
    assert!(!Platform::SoundCloud.supports_video());
}

#[test]
fn tool_paths_join_the_dependency_directory() {
    assert_eq!(get_ytdlp_path("/home/u/.local/share/bin"), "/home/u/.local/share/bin/yt-dlp");
    assert_eq!(get_ffmpeg_path("/opt/tools"), "/opt/tools/ffmpeg");
}

#[test]
fn deps_status_is_ready_only_with_both_tools() {
    let s = DepsStatus::from_flags(true, true);
    assert!(s.ytdlp_installed && s.ffmpeg_installed && s.ready);
    assert!(!DepsStatus::from_flags(true, false).ready);
    assert!(!DepsStatus::from_flags(false, true).ready);
    assert!(!DepsStatus::from_flags(false, false).ready);
}

#[test]
fn video_info_assembles_from_shaped_pieces() {
    let raws = vec![raw("a", Some("avc1"), Some(720), Some(1048576))];
    let formats = filter_formats(raws.iter().filter_map(convert_format).collect());
    let info = VideoInfo {
        id: "abc".to_string(),
        title: "A clip".to_string(),
        duration: 65,
        duration_string: format_duration(65),
        thumbnail: None,
        uploader: Some("someone".to_string()),
        formats,
        video_qualities: extract_video_qualities(&raws),
        audio_qualities: default_audio_qualities(),
        platform: Platform::YouTube,
    };
    assert_eq!(info.duration_string, "01:05");
    assert_eq!(info.formats.len(), 1);
    assert_eq!(info.video_qualities[0].height, 720);
    let _mode = DownloadMode::VideoWithAudio;
}
