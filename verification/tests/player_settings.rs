use custom_yt::player::{ffplay_args, subtitle_filter};
use custom_yt::quality::{format_filter_for_quality, PlaybackSettings};
use custom_yt::setup::{install_hint_for_current_os, TargetOs};
use custom_yt::title::sanitize_window_title;

#[test]
fn test_sanitize_window_title() {
    assert_eq!(sanitize_window_title(""), "YouTube Playback");
    assert_eq!(sanitize_window_title("Hello\nWorld"), "Hello World");
    assert_eq!(sanitize_window_title("Hello\rWorld"), "Hello World");
    assert_eq!(sanitize_window_title("Hello\r\nWorld"), "Hello  World");
    assert_eq!(sanitize_window_title("Regular Title"), "Regular Title");
}

#[test]
fn test_format_filter_for_quality() {
    assert_eq!(
        format_filter_for_quality(1),
        "best[height<=360][vcodec^=avc1][acodec!=none]/best[height<=360]"
    );
    assert_eq!(
        format_filter_for_quality(2),
        "best[height<=480][vcodec^=avc1][acodec!=none]/best[height<=480]"
    );
    assert_eq!(
        format_filter_for_quality(3),
        "best[height<=720][fps<=30][vcodec^=avc1][acodec!=none]/best[height<=720][fps<=30]"
    );
    assert_eq!(
        format_filter_for_quality(4),
        "bestvideo[height<=1080]+bestaudio/best[height<=1080]"
    );
    assert_eq!(
        format_filter_for_quality(5), // fallback
        "best[height<=720][fps<=30][vcodec^=avc1][acodec!=none]/best[height<=720][fps<=30]"
    );
}

#[test]
fn test_playback_settings_format_filter() {
    let settings = PlaybackSettings {
        quality: 2,
        subtitles: false,
    };
    assert_eq!(settings.format_filter(), format_filter_for_quality(2));
}

#[test]
fn test_install_hint_for_current_os() {
    let windows = install_hint_for_current_os(TargetOs::Windows);
    assert!(!windows.is_empty());
    assert!(windows.contains("winget install"));
    let macos = install_hint_for_current_os(TargetOs::MacOs);
    assert!(!macos.is_empty());
    assert!(macos.contains("brew install"));
    let other = install_hint_for_current_os(TargetOs::Other);
    assert!(!other.is_empty());
    assert!(other.contains("apt install"));
}

#[test]
fn install_hints_are_exact() {
    assert_eq!(
        install_hint_for_current_os(TargetOs::MacOs),
        "Install them on macOS with:\n\n  brew install ffmpeg yt-dlp\n\nThen confirm they're resolvable with:\n\n  which ffplay\n  which yt-dlp"
    );
    assert_eq!(
        install_hint_for_current_os(TargetOs::Other),
        "Install them on Debian/antiX/Ubuntu with:\n\n  sudo apt update && sudo apt install -y ffmpeg yt-dlp\n\nThen confirm they're resolvable with:\n\n  which ffplay\n  which yt-dlp"
    );
}

#[test]
fn window_title_is_idempotent_on_examples() {
    for t in ["", "a\nb", "x\r\ny", "plain", "\n"] {
        let once = sanitize_window_title(t);
        assert_eq!(sanitize_window_title(&once), once);
        assert!(!once.contains('\n') && !once.contains('\r'));
        assert!(!once.is_empty());
    }
    assert_eq!(sanitize_window_title("\n"), " ");
}

#[test]
fn unknown_quality_falls_back_to_720p() {
    assert_eq!(format_filter_for_quality(0), format_filter_for_quality(3));
    assert_eq!(format_filter_for_quality(99), format_filter_for_quality(3));
}

#[test]
fn settings_from_choices_reads_subtitle_mode() {
    let s = PlaybackSettings::from_choices(4, 2);
    assert_eq!(s.quality, 4);
    assert!(s.subtitles);
    let s = PlaybackSettings::from_choices(1, 1);
    assert!(!s.subtitles);
    assert_eq!(s.format_filter(), format_filter_for_quality(1));
}

#[test]
fn subtitle_filter_escapes_windows_paths() {
    assert_eq!(
        subtitle_filter("C:\\Temp\\sub.en.vtt"),
        "subtitles='C\\:/Temp/sub.en.vtt'"
    );
    assert_eq!(subtitle_filter("/tmp/a.vtt"), "subtitles='/tmp/a.vtt'");
}

#[test]
fn ffplay_args_without_loop() {
    let args = ffplay_args("http://v", Some("http://a"), "My\nTitle", Some("/tmp/s.vtt"), false);
    assert_eq!(
        args,
        vec![
            "-autoexit",
            "-loglevel",
            "error",
            "-window_title",
            "My Title",
            "-i",
            "http://v",
            "-i",
            "http://a",
            "-vf",
            "subtitles='/tmp/s.vtt'",
        ]
    );
}

#[test]
fn ffplay_args_looping_video_only() {
    let args = ffplay_args("http://v", None, "", None, true);
    assert_eq!(
        args,
        vec!["-loop", "0", "-loglevel", "error", "-window_title", "YouTube Playback", "-i", "http://v"]
    );
}
