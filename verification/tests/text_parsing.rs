use custom_yt::prompt::{
    accept_nonempty, menu_action, parse_choice, parse_choice_with_default, search_mode_for_choice,
    session_step, MenuAction, SearchMode, SessionStep,
};
use custom_yt::setup::{banner_line, missing_binaries_report, required_binaries, select_missing};
use custom_yt::text::{chars_of, lines_of, parse_usize_chars, trim_str, usize_to_decimal};
use custom_yt::ytdlp::{
    decimal_string, is_subtitle_file, parse_playlist_listing, parse_stream_urls,
    parse_video_listing, playlist_search_args, playlist_videos_args, search_term,
    stream_url_args, subtitle_args, subtitle_stem, video_search_args, watch_url,
};

fn parse(s: &str) -> Option<usize> {
    parse_usize_chars(&chars_of(s))
}

#[test]
fn usize_parsing_follows_std() {
    for s in ["0", "7", "+12", "007", "", "+", "-1", "1a", " 1", "18446744073709551615", "18446744073709551616", "99999999999999999999999"] {
        assert_eq!(parse(s), s.parse::<usize>().ok(), "input {s:?}");
    }
}

#[test]
fn decimal_round_trips() {
    for n in [0usize, 5, 10, 123456, usize::MAX] {
        let d: String = usize_to_decimal(n).into_iter().collect();
        assert_eq!(d, n.to_string());
        assert_eq!(decimal_string(n), n.to_string());
        assert_eq!(parse(&d), Some(n));
    }
}

#[test]
fn trimming_matches_std() {
    for s in ["", "  ", " a b ", "\t\nx\r\n", "\u{3000}y\u{a0}", "z"] {
        assert_eq!(trim_str(s), s.trim());
        assert_eq!(trim_str(&trim_str(s)), trim_str(s));
    }
}

#[test]
fn lines_match_std() {
    for s in ["", "a", "a\n", "a\r\nb", "a\n\nb\n", "\n", "x\r", "a\rb\n"] {
        let ours: Vec<String> = lines_of(&chars_of(s))
            .into_iter()
            .map(|l| l.into_iter().collect())
            .collect();
        let std_lines: Vec<String> = s.lines().map(|l| l.to_string()).collect();
        assert_eq!(ours, std_lines, "input {s:?}");
    }
}

#[test]
fn prompts() {
    assert_eq!(accept_nonempty("  hello \n"), Some("hello".to_string()));
    assert_eq!(accept_nonempty(" \n"), None);
    assert_eq!(parse_choice(" 3\n", 1, 4), Some(3));
    assert_eq!(parse_choice("5\n", 1, 4), None);
    assert_eq!(parse_choice("x\n", 1, 4), None);
    assert_eq!(parse_choice_with_default("\n", 1, 4, 3), Some(3));
    assert_eq!(parse_choice_with_default(" 2 \n", 1, 4, 3), Some(2));
    assert_eq!(parse_choice_with_default("9\n", 1, 4, 3), None);
    assert_eq!(search_mode_for_choice(1), SearchMode::Video);
    assert_eq!(search_mode_for_choice(2), SearchMode::Playlist);
}

#[test]
fn menu_actions() {
    assert_eq!(menu_action("n"), MenuAction::Next);
    assert_eq!(menu_action("R"), MenuAction::Replay);
    assert_eq!(menu_action("c"), MenuAction::ChangeSettings);
    assert_eq!(menu_action("L"), MenuAction::ToggleLoop);
    assert_eq!(menu_action("s"), MenuAction::NewSearch);
    assert_eq!(menu_action("Q"), MenuAction::Quit);
    assert_eq!(menu_action("next"), MenuAction::Unknown);
}

#[test]
fn video_listing_is_parsed() {
    let out = "First video ||| abc123\nno separator here\nTitle ||| with ||| bars ||| xyz\r\n  spaced  |||  id9  \n";
    let results = parse_video_listing(out);
    assert_eq!(results.len(), 3);
    assert_eq!(results[0].title, "First video");
    assert_eq!(results[0].id, "abc123");
    assert_eq!(results[1].title, "Title ||| with ||| bars");
    assert_eq!(results[1].id, "xyz");
    assert_eq!(results[2].title, "spaced");
    assert_eq!(results[2].id, "id9");
    assert!(parse_video_listing("").is_empty());
}

#[test]
fn listing_line_round_trips() {
    let line = format!("{} ||| {}", "A ||| B", "dQw4w9WgXcQ");
    let results = parse_video_listing(&line);
    assert_eq!(results.len(), 1);
    assert_eq!(results[0].title, "A ||| B");
    assert_eq!(results[0].id, "dQw4w9WgXcQ");
}

#[test]
fn playlist_listing_keeps_lists_up_to_limit() {
    let out = "Mix ||| https://y/watch?v=1\nP1 ||| https://y/playlist?list=A\nP2 ||| https://y/playlist?list=B\nP3 ||| https://y/playlist?list=C\n";
    let two = parse_playlist_listing(out, 2);
    assert_eq!(two.len(), 2);
    assert_eq!(two[0].title, "P1");
    assert_eq!(two[0].url, "https://y/playlist?list=A");
    assert_eq!(two[1].title, "P2");
    let all = parse_playlist_listing(out, 5);
    assert_eq!(all.len(), 3);
    let zero = parse_playlist_listing(out, 0);
    assert_eq!(zero.len(), 1);
    assert!(parse_playlist_listing("Mix ||| https://y/watch?v=1\n", 5).is_empty());
}

#[test]
fn stream_urls_are_parsed() {
    assert_eq!(
        parse_stream_urls("https://video\n\n  https://audio \n"),
        Some(("https://video".to_string(), Some("https://audio".to_string())))
    );
    assert_eq!(
        parse_stream_urls("\n https://only\n"),
        Some(("https://only".to_string(), None))
    );
    assert_eq!(parse_stream_urls("\n  \n"), None);
}

#[test]
fn yt_dlp_arguments() {
    assert_eq!(search_term("cats", 10), "ytsearch10:cats");
    assert_eq!(
        video_search_args("cats", 20),
        vec!["--flat-playlist", "--print", "%(title)s ||| %(id)s", "ytsearch20:cats"]
    );
    assert_eq!(
        playlist_search_args("lofi", 5),
        vec!["--flat-playlist", "--print", "%(title)s ||| %(url)s", "ytsearch20:lofi playlist"]
    );
    assert_eq!(
        playlist_videos_args("https://p", 16, 30),
        vec![
            "--flat-playlist",
            "--playlist-start",
            "16",
            "--playlist-end",
            "30",
            "--print",
            "%(title)s ||| %(id)s",
            "https://p"
        ]
    );
    let url = watch_url("abc");
    assert_eq!(url, "https://www.youtube.com/watch?v=abc");
    assert_eq!(stream_url_args("best", &url), vec!["-g", "-f", "best", url.as_str()]);
    assert_eq!(
        subtitle_args(&url, "en", "/tmp/custom_yt_sub_abc"),
        vec![
            "--skip-download",
            "--write-sub",
            "--write-auto-sub",
            "--sub-langs",
            "en",
            "--sub-format",
            "vtt",
            "-o",
            "/tmp/custom_yt_sub_abc",
            url.as_str()
        ]
    );
}

#[test]
fn subtitle_files_are_recognised() {
    let stem = subtitle_stem("abc");
    assert_eq!(stem, "custom_yt_sub_abc");
    assert!(is_subtitle_file("custom_yt_sub_abc.en.vtt", &stem));
    assert!(!is_subtitle_file("custom_yt_sub_abc.en.srt", &stem));
    assert!(!is_subtitle_file("other.en.vtt", &stem));
}

#[test]
fn missing_binaries() {
    let required = required_binaries();
    assert_eq!(required, vec!["yt-dlp", "ffplay"]);
    let missing = select_missing(&required, &[false, true]);
    assert_eq!(missing, vec!["yt-dlp".to_string()]);
    assert_eq!(
        missing_binaries_report(&missing),
        Some("Missing or unreachable required binaries: yt-dlp".to_string())
    );
    let both = select_missing(&required, &[false, false]);
    assert_eq!(
        missing_binaries_report(&both),
        Some("Missing or unreachable required binaries: yt-dlp, ffplay".to_string())
    );
    assert_eq!(missing_binaries_report(&select_missing(&required, &[true, true])), None);
}

#[test]
fn banner_lines_are_padded() {
    assert_eq!(banner_line("ab", 3), "   ab");
    assert_eq!(banner_line("ab", 0), "ab");
}

#[test]
fn session_steps() {
    assert_eq!(session_step(false, MenuAction::ToggleLoop), (true, SessionStep::Replay));
    assert_eq!(session_step(true, MenuAction::ToggleLoop), (false, SessionStep::Replay));
    assert_eq!(session_step(true, MenuAction::Next), (true, SessionStep::PlayNext));
    assert_eq!(session_step(false, MenuAction::ChangeSettings), (false, SessionStep::ChangeSettings));
    assert_eq!(session_step(false, MenuAction::NewSearch), (false, SessionStep::NewSearch));
    assert_eq!(session_step(false, MenuAction::Quit), (false, SessionStep::Quit));
    assert_eq!(session_step(true, MenuAction::Unknown), (true, SessionStep::AskAgain));
}
