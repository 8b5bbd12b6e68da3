//! The command line that starts `ffplay` on a video.

use vstd::prelude::*;
use crate::title::{sanitize_window_title, window_title};
use crate::text::chars_of;
use crate::ytdlp::{push_arg, push_owned_arg, string_views};

verus! {

/// The characters of an optional string slice.
pub open spec fn opt_str_view(o: Option<&str>) -> Option<Seq<char>> {
    match o {
        Some(s) => Some(s@),
        None => None,
    }
}

/// How one character of a path is written in an `ffplay` filter: a
/// backslash becomes `/`, a colon is escaped with a backslash.
pub open spec fn escape_path_char(c: char) -> Seq<char> {
    if c == '\\' {
        seq!['/']
    } else if c == ':' {
        seq!['\\', ':']
    } else {
        seq![c]
    }
}

/// The path `p` as written in an `ffplay` filter.
pub open spec fn escape_filter_path(p: Seq<char>) -> Seq<char>
    decreases p.len(),
{
    if p.len() == 0 {
        Seq::empty()
    } else {
        escape_filter_path(p.drop_last()) + escape_path_char(p.last())
    }
}

/// The filter that overlays the subtitles of the file at `path`.
pub open spec fn subtitle_filter_spec(path: Seq<char>) -> Seq<char> {
    "subtitles='"@ + escape_filter_path(path) + "'"@
}

/// The arguments that start `ffplay` on the stream `video` (with the
/// separate audio stream `audio`, if any), titled after `title`, with the
/// subtitles in the file at `subtitle`, if any; looping forever, or else
/// exiting when the stream ends.
pub open spec fn ffplay_args_spec(
    video: Seq<char>,
    audio: Option<Seq<char>>,
    title: Seq<char>,
    subtitle: Option<Seq<char>>,
    loop_video: bool,
) -> Seq<Seq<char>> {
    let head = if loop_video {
        seq!["-loop"@, "0"@]
    } else {
        seq!["-autoexit"@]
    };
    let main = seq!["-loglevel"@, "error"@, "-window_title"@, window_title(title), "-i"@, video];
    let audio_args = match audio {
        Some(u) => seq!["-i"@, u],
        None => Seq::empty(),
    };
    let subtitle_args = match subtitle {
        Some(p) => seq!["-vf"@, subtitle_filter_spec(p)],
        None => Seq::empty(),
    };
    head + main + audio_args + subtitle_args
}

/// The filter that overlays the subtitles of the file at `path`.
pub fn subtitle_filter(path: &str) -> (s: String)
    ensures
        s@ == subtitle_filter_spec(path@),
{
    let cs = chars_of(path);
    let mut out: Vec<char> = chars_of("subtitles='");
    let ghost prefix = out@;
    let mut i: usize = 0;
    while i < cs.len()
        invariant
            i <= cs@.len(),
            prefix == "subtitles='"@,
            out@ == prefix + escape_filter_path(cs@.take(i as int)),
        decreases cs@.len() - i,
    {
        let c = cs[i];
        assert(cs@.take(i + 1).drop_last() == cs@.take(i as int));
        if c == '\\' {
            out.push('/');
        } else if c == ':' {
            out.push('\\');
            out.push(':');
        } else {
            out.push(c);
        }
        i = i + 1;
        assert(out@ =~= prefix + escape_filter_path(cs@.take(i as int)));
    }
    assert(cs@.take(cs@.len() as int) == cs@);
    out.push('\'');
    let s = crate::text::string_from_chars(out.as_slice());
    proof {
        reveal_strlit("'");
    }
    assert(s@ =~= subtitle_filter_spec(path@));
    s
}

/// The arguments that start `ffplay` on a video.
pub fn ffplay_args(
    video_url: &str,
    audio_url: Option<&str>,
    title: &str,
    subtitle_path: Option<&str>,
    loop_video: bool,
) -> (args: Vec<String>)
    ensures
        string_views(args@) == ffplay_args_spec(
            video_url@,
            opt_str_view(audio_url),
            title@,
            opt_str_view(subtitle_path),
            loop_video,
        ),
{
    let mut args: Vec<String> = Vec::new();
    if loop_video {
        push_arg(&mut args, "-loop");
        push_arg(&mut args, "0");
    } else {
        push_arg(&mut args, "-autoexit");
    }
    push_arg(&mut args, "-loglevel");
    push_arg(&mut args, "error");
    push_arg(&mut args, "-window_title");
    push_owned_arg(&mut args, sanitize_window_title(title));
    push_arg(&mut args, "-i");
    push_arg(&mut args, video_url);
    match audio_url {
        Some(audio) => {
            push_arg(&mut args, "-i");
            push_arg(&mut args, audio);
        },
        None => {},
    }
    match subtitle_path {
        Some(path) => {
            push_arg(&mut args, "-vf");
            push_owned_arg(&mut args, subtitle_filter(path));
        },
        None => {},
    }
    assert(string_views(args@) =~= ffplay_args_spec(
        video_url@,
        opt_str_view(audio_url),
        title@,
        opt_str_view(subtitle_path),
        loop_video,
    ));
    args
}

/// An escaped path holds no backslash but those that escape a colon, so
/// the filter reads back every colon of the path as part of the name.
pub proof fn lemma_escaped_backslash_precedes_colon(p: Seq<char>, i: int)
    requires
        0 <= i < escape_filter_path(p).len(),
        escape_filter_path(p)[i] == '\\',
    ensures
        i + 1 < escape_filter_path(p).len(),
        escape_filter_path(p)[i + 1] == ':',
    decreases p.len(),
{
    let init = escape_filter_path(p.drop_last());
    if i < init.len() {
        assert(escape_filter_path(p)[i] == init[i]);
        lemma_escaped_backslash_precedes_colon(p.drop_last(), i);
        assert(escape_filter_path(p)[i + 1] == init[i + 1]);
    } else {
        assert(escape_path_char(p.last())[i - init.len()] == '\\');
    }
}

} // verus!
