//! What is handed to `yt-dlp`, and what is read back from what it prints.

use vstd::prelude::*;
use crate::queue::{PlaylistResult, SearchResult};
use crate::text::{
    chars_of, contains_chars, occurs_at, lemma_last_occurrence_is, contains_seq, copy_range, decimal, lemma_last_occurrence_occurs,
    last_occurrence_below, lines_of, rfind, rsplit_once, string_from_chars, text_lines, trim,
    trim_chars, usize_to_decimal, views_of, starts_with, ends_with, starts_with_chars,
    ends_with_chars,
};

verus! {

/// The characters of each string of `v`.
pub open spec fn string_views(v: Seq<String>) -> Seq<Seq<char>> {
    v.map_values(|s: String| s@)
}

/// The characters of an optional string.
pub open spec fn opt_view(o: Option<String>) -> Option<Seq<char>> {
    match o {
        Some(s) => Some(s@),
        None => None,
    }
}

/// The template that makes `yt-dlp` print one entry per line: its title,
/// the separator `" ||| "`, then its id.
pub open spec fn video_print_template() -> Seq<char> {
    "%(title)s ||| %(id)s"@
}

/// The template that makes `yt-dlp` print one entry per line: its title,
/// the separator `" ||| "`, then its URL.
pub open spec fn playlist_print_template() -> Seq<char> {
    "%(title)s ||| %(url)s"@
}

/// The title and the id (or URL) on one line of a listing: the text before
/// and after the last `" ||| "`, each trimmed; `None` for a line without it.
pub open spec fn parse_entry_line(line: Seq<char>) -> Option<(Seq<char>, Seq<char>)> {
    match rsplit_once(line, " ||| "@) {
        Some(parts) => Some((trim(parts.0), trim(parts.1))),
        None => None,
    }
}

/// The entries on the lines `lines`, in order, skipping lines that hold none.
pub open spec fn listing_entries(lines: Seq<Seq<char>>) -> Seq<(Seq<char>, Seq<char>)>
    decreases lines.len(),
{
    if lines.len() == 0 {
        Seq::empty()
    } else {
        let init = listing_entries(lines.drop_last());
        match parse_entry_line(lines.last()) {
            Some(e) => init.push(e),
            None => init,
        }
    }
}

/// The entries on the lines `lines` whose URL holds `"list="`, in order.
pub open spec fn playlist_candidates(lines: Seq<Seq<char>>) -> Seq<(Seq<char>, Seq<char>)>
    decreases lines.len(),
{
    if lines.len() == 0 {
        Seq::empty()
    } else {
        let init = playlist_candidates(lines.drop_last());
        match parse_entry_line(lines.last()) {
            Some(e) => if contains_seq(e.1, "list="@) {
                init.push(e)
            } else {
                init
            },
            None => init,
        }
    }
}

/// How many playlists a listing is cut to: `limit`, but the first playlist
/// found is always kept.
pub open spec fn playlist_cap(limit: usize) -> nat {
    if limit == 0 {
        1
    } else {
        limit as nat
    }
}

/// The playlists that a playlist search printing `stdout` yields, at most
/// `limit` of them (at least one, when there is one).
pub open spec fn playlist_listing(stdout: Seq<char>, limit: usize) -> Seq<(Seq<char>, Seq<char>)> {
    let c = playlist_candidates(text_lines(stdout));
    if c.len() <= playlist_cap(limit) {
        c
    } else {
        c.take(playlist_cap(limit) as int)
    }
}

/// The title and id of each video.
pub open spec fn video_views(v: Seq<SearchResult>) -> Seq<(Seq<char>, Seq<char>)> {
    v.map_values(|r: SearchResult| (r.title@, r.id@))
}

/// The title and URL of each playlist.
pub open spec fn playlist_views(v: Seq<PlaylistResult>) -> Seq<(Seq<char>, Seq<char>)> {
    v.map_values(|r: PlaylistResult| (r.title@, r.url@))
}

/// The title and the id (or URL) on the line `line`, if it holds an entry.
pub fn parse_entry(line: &[char]) -> (r: Option<(String, String)>)
    ensures
        match r {
            Some(e) => parse_entry_line(line@) == Some((e.0@, e.1@)),
            None => parse_entry_line(line@) is None,
        },
{
    let sep = chars_of(" ||| ");
    proof {
        lemma_last_occurrence_occurs(line@, sep@, (line@.len() + 1) as int);
    }
    match rfind(line, sep.as_slice()) {
        Some(i) => {
            assert(occurs_at(line@, sep@, i as int));
            let title = copy_range(line, 0, i);
            let n = line.len();
            let rest = copy_range(line, i + sep.len(), n);
            assert(title@ == line@.take(i as int));
            assert(rest@ == line@.skip(i + sep@.len()));
            let t = trim_chars(title.as_slice());
            let u = trim_chars(rest.as_slice());
            Some((string_from_chars(t.as_slice()), string_from_chars(u.as_slice())))
        },
        None => None,
    }
}

/// The videos listed in `stdout`, what `yt-dlp` printed with
/// `video_print_template`.
pub fn parse_video_listing(stdout: &str) -> (r: Vec<SearchResult>)
    ensures
        video_views(r@) == listing_entries(text_lines(stdout@)),
{
    let cs = chars_of(stdout);
    let lines = lines_of(cs.as_slice());
    let ghost ls = text_lines(stdout@);
    let mut results: Vec<SearchResult> = Vec::new();
    let mut i: usize = 0;
    while i < lines.len()
        invariant
            i <= lines@.len(),
            views_of(lines@) == ls,
            video_views(results@) == listing_entries(ls.take(i as int)),
        decreases lines@.len() - i,
    {
        assert(ls.take(i + 1).drop_last() == ls.take(i as int));
        assert(ls.take(i + 1).last() == lines@[i as int]@);
        match parse_entry(lines[i].as_slice()) {
            Some(e) => {
                let (title, id) = e;
                results.push(SearchResult { title, id });
                assert(video_views(results@) =~= listing_entries(ls.take(i + 1)));
            },
            None => {
            },
        }
        i = i + 1;
    }
    assert(ls.take(lines@.len() as int) == ls);
    results
}

proof fn lemma_candidates_prefix(lines: Seq<Seq<char>>, j: int)
    requires
        0 <= j <= lines.len(),
    ensures
        playlist_candidates(lines.take(j)).len() <= playlist_candidates(lines).len(),
        playlist_candidates(lines.take(j)) == playlist_candidates(lines).take(
            playlist_candidates(lines.take(j)).len() as int,
        ),
    decreases lines.len(),
{
    let c = playlist_candidates(lines);
    if j == lines.len() {
        assert(lines.take(j) == lines);
        assert(c.take(c.len() as int) == c);
    } else {
        let d = lines.drop_last();
        assert(d.take(j) == lines.take(j));
        lemma_candidates_prefix(d, j);
        let p = playlist_candidates(lines.take(j));
        let cd = playlist_candidates(d);
        assert(c.take(p.len() as int) =~= cd.take(p.len() as int));
    }
}

/// The playlists listed in `stdout`, what `yt-dlp` printed with
/// `playlist_print_template`: the entries whose URL holds `"list="`,
/// stopping once `limit` have been found.
pub fn parse_playlist_listing(stdout: &str, limit: usize) -> (r: Vec<PlaylistResult>)
    ensures
        playlist_views(r@) == playlist_listing(stdout@, limit),
{
    let cs = chars_of(stdout);
    let lines = lines_of(cs.as_slice());
    let marker = chars_of("list=");
    let ghost ls = text_lines(stdout@);
    let ghost cap = playlist_cap(limit);
    let mut results: Vec<PlaylistResult> = Vec::new();
    let mut i: usize = 0;
    while i < lines.len()
        invariant
            i <= lines@.len(),
            views_of(lines@) == ls,
            marker@ == "list="@,
            ls == text_lines(stdout@),
            cap == playlist_cap(limit),
            playlist_views(results@) == playlist_candidates(ls.take(i as int)),
            results@.len() < cap,
        decreases lines@.len() - i,
    {
        assert(ls.take(i + 1).drop_last() == ls.take(i as int));
        assert(ls.take(i + 1).last() == lines@[i as int]@);
        match parse_entry(lines[i].as_slice()) {
            Some(e) => {
                let (title, url) = e;
                let url_chars = chars_of(url.as_str());
                if contains_chars(url_chars.as_slice(), marker.as_slice()) {
                    results.push(PlaylistResult { title, url });
                    assert(playlist_views(results@) =~= playlist_candidates(ls.take(i + 1)));
                    if results.len() >= limit {
                        proof {
                            lemma_candidates_prefix(ls, i + 1);
                            assert(results@.len() == cap);
                            let c = playlist_candidates(ls);
                            assert(playlist_candidates(ls.take(i + 1)) == c.take(cap as int));
                            if c.len() == cap {
                                assert(c.take(cap as int) == c);
                            }
                        }
                        return results;
                    }
                }
            },
            None => {
            },
        }
        i = i + 1;
    }
    assert(ls.take(lines@.len() as int) == ls);
    results
}

/// The trimmed lines of `lines` that are not empty.
pub open spec fn nonempty_trimmed(lines: Seq<Seq<char>>) -> Seq<Seq<char>>
    decreases lines.len(),
{
    if lines.len() == 0 {
        Seq::empty()
    } else {
        let init = nonempty_trimmed(lines.drop_last());
        if trim(lines.last()).len() > 0 {
            init.push(trim(lines.last()))
        } else {
            init
        }
    }
}

/// The stream URLs that `yt-dlp -g` printed as `stdout`: the first
/// non-empty line is the video stream, the second, if any, the audio
/// stream; `None` when there is none.
pub open spec fn stream_urls_spec(stdout: Seq<char>) -> Option<(Seq<char>, Option<Seq<char>>)> {
    let urls = nonempty_trimmed(text_lines(stdout));
    if urls.len() == 0 {
        None
    } else if urls.len() == 1 {
        Some((urls[0], None))
    } else {
        Some((urls[0], Some(urls[1])))
    }
}

/// The video stream URL and the audio stream URL, if any, in `stdout`.
pub fn parse_stream_urls(stdout: &str) -> (r: Option<(String, Option<String>)>)
    ensures
        match r {
            Some(u) => stream_urls_spec(stdout@) == Some((u.0@, opt_view(u.1))),
            None => stream_urls_spec(stdout@) is None,
        },
{
    let cs = chars_of(stdout);
    let lines = lines_of(cs.as_slice());
    let ghost ls = text_lines(stdout@);
    let mut urls: Vec<Vec<char>> = Vec::new();
    let mut i: usize = 0;
    while i < lines.len()
        invariant
            i <= lines@.len(),
            views_of(lines@) == ls,
            views_of(urls@) == nonempty_trimmed(ls.take(i as int)),
        decreases lines@.len() - i,
    {
        assert(ls.take(i + 1).drop_last() == ls.take(i as int));
        assert(ls.take(i + 1).last() == lines@[i as int]@);
        let t = trim_chars(lines[i].as_slice());
        if t.len() > 0 {
            urls.push(t);
            assert(views_of(urls@) =~= nonempty_trimmed(ls.take(i + 1)));
        }
        i = i + 1;
    }
    assert(ls.take(lines@.len() as int) == ls);
    if urls.len() == 0 {
        return None;
    }
    let video = string_from_chars(urls[0].as_slice());
    if urls.len() == 1 {
        Some((video, None))
    } else {
        Some((video, Some(string_from_chars(urls[1].as_slice()))))
    }
}


/// Appends the string `s` to the argument list `args`.
pub(crate) fn push_arg(args: &mut Vec<String>, s: &str)
    ensures
        string_views(final(args)@) == string_views(old(args)@).push(s@),
{
    args.push(s.to_string());
    assert(string_views(args@) =~= string_views(old(args)@).push(s@));
}

/// Appends the string `s` to the argument list `args`.
pub(crate) fn push_owned_arg(args: &mut Vec<String>, s: String)
    ensures
        string_views(final(args)@) == string_views(old(args)@).push(s@),
{
    let ghost v = s@;
    args.push(s);
    assert(string_views(args@) =~= string_views(old(args)@).push(v));
}

/// The decimal representation of `n`, as a `String`.
pub fn decimal_string(n: usize) -> (s: String)
    ensures
        s@ == decimal(n as nat),
{
    let d = usize_to_decimal(n);
    string_from_chars(d.as_slice())
}

/// The search term for the first `limit` videos found for `query`.
pub fn search_term(query: &str, limit: usize) -> (s: String)
    ensures
        s@ == "ytsearch"@ + decimal(limit as nat) + ":"@ + query@,
{
    let mut s = "ytsearch".to_string();
    let d = decimal_string(limit);
    s.append(d.as_str());
    s.append(":");
    s.append(query);
    s
}

/// The search term for playlists about `query`: four times `limit`
/// results are asked for, since only some of them are playlists.
pub fn playlist_search_term(query: &str, limit: usize) -> (s: String)
    requires
        limit * 4 <= usize::MAX,
    ensures
        s@ == "ytsearch"@ + decimal((limit * 4) as nat) + ":"@ + query@ + " playlist"@,
{
    let mut s = "ytsearch".to_string();
    let d = decimal_string(limit * 4);
    s.append(d.as_str());
    s.append(":");
    s.append(query);
    s.append(" playlist");
    s
}

/// The arguments of `yt-dlp` that list the first `limit` videos found for `query`.
pub fn video_search_args(query: &str, limit: usize) -> (args: Vec<String>)
    ensures
        string_views(args@) == seq![
            "--flat-playlist"@,
            "--print"@,
            video_print_template(),
            "ytsearch"@ + decimal(limit as nat) + ":"@ + query@,
        ],
{
    let mut args: Vec<String> = Vec::new();
    push_arg(&mut args, "--flat-playlist");
    push_arg(&mut args, "--print");
    push_arg(&mut args, "%(title)s ||| %(id)s");
    push_owned_arg(&mut args, search_term(query, limit));
    assert(string_views(args@) =~= seq![
        "--flat-playlist"@,
        "--print"@,
        video_print_template(),
        "ytsearch"@ + decimal(limit as nat) + ":"@ + query@,
    ]);
    args
}

/// The arguments of `yt-dlp` that list playlists found for `query`.
pub fn playlist_search_args(query: &str, limit: usize) -> (args: Vec<String>)
    requires
        limit * 4 <= usize::MAX,
    ensures
        string_views(args@) == seq![
            "--flat-playlist"@,
            "--print"@,
            playlist_print_template(),
            "ytsearch"@ + decimal((limit * 4) as nat) + ":"@ + query@ + " playlist"@,
        ],
{
    let mut args: Vec<String> = Vec::new();
    push_arg(&mut args, "--flat-playlist");
    push_arg(&mut args, "--print");
    push_arg(&mut args, "%(title)s ||| %(url)s");
    push_owned_arg(&mut args, playlist_search_term(query, limit));
    assert(string_views(args@) =~= seq![
        "--flat-playlist"@,
        "--print"@,
        playlist_print_template(),
        "ytsearch"@ + decimal((limit * 4) as nat) + ":"@ + query@ + " playlist"@,
    ]);
    args
}

/// The arguments of `yt-dlp` that list entries `start` to `end` (counted
/// from 1, both included) of the playlist at `playlist_url`.
pub fn playlist_videos_args(playlist_url: &str, start: usize, end: usize) -> (args: Vec<String>)
    ensures
        string_views(args@) == seq![
            "--flat-playlist"@,
            "--playlist-start"@,
            decimal(start as nat),
            "--playlist-end"@,
            decimal(end as nat),
            "--print"@,
            video_print_template(),
            playlist_url@,
        ],
{
    let mut args: Vec<String> = Vec::new();
    push_arg(&mut args, "--flat-playlist");
    push_arg(&mut args, "--playlist-start");
    push_owned_arg(&mut args, decimal_string(start));
    push_arg(&mut args, "--playlist-end");
    push_owned_arg(&mut args, decimal_string(end));
    push_arg(&mut args, "--print");
    push_arg(&mut args, "%(title)s ||| %(id)s");
    push_arg(&mut args, playlist_url);
    assert(string_views(args@) =~= seq![
        "--flat-playlist"@,
        "--playlist-start"@,
        decimal(start as nat),
        "--playlist-end"@,
        decimal(end as nat),
        "--print"@,
        video_print_template(),
        playlist_url@,
    ]);
    args
}

/// The page of a video on YouTube.
pub fn watch_url(video_id: &str) -> (s: String)
    ensures
        s@ == "https://www.youtube.com/watch?v="@ + video_id@,
{
    let mut s = "https://www.youtube.com/watch?v=".to_string();
    s.append(video_id);
    s
}

/// The arguments of `yt-dlp` that print the direct stream URLs of the
/// video at `watch_url` in the format that `format_filter` selects.
pub fn stream_url_args(format_filter: &str, watch_url: &str) -> (args: Vec<String>)
    ensures
        string_views(args@) == seq!["-g"@, "-f"@, format_filter@, watch_url@],
{
    let mut args: Vec<String> = Vec::new();
    push_arg(&mut args, "-g");
    push_arg(&mut args, "-f");
    push_arg(&mut args, format_filter);
    push_arg(&mut args, watch_url);
    assert(string_views(args@) =~= seq!["-g"@, "-f"@, format_filter@, watch_url@]);
    args
}

/// The name, without directory, that subtitle files of the video `video_id` begin with.
pub fn subtitle_stem(video_id: &str) -> (s: String)
    ensures
        s@ == "custom_yt_sub_"@ + video_id@,
{
    let mut s = "custom_yt_sub_".to_string();
    s.append(video_id);
    s
}

/// The arguments of `yt-dlp` that write the `language` subtitles (manual
/// or automatic) of the video at `watch_url` as WebVTT to files named
/// after `output_template`, without the video.
pub fn subtitle_args(watch_url: &str, language: &str, output_template: &str) -> (args: Vec<String>)
    ensures
        string_views(args@) == seq![
            "--skip-download"@,
            "--write-sub"@,
            "--write-auto-sub"@,
            "--sub-langs"@,
            language@,
            "--sub-format"@,
            "vtt"@,
            "-o"@,
            output_template@,
            watch_url@,
        ],
{
    let mut args: Vec<String> = Vec::new();
    push_arg(&mut args, "--skip-download");
    push_arg(&mut args, "--write-sub");
    push_arg(&mut args, "--write-auto-sub");
    push_arg(&mut args, "--sub-langs");
    push_arg(&mut args, language);
    push_arg(&mut args, "--sub-format");
    push_arg(&mut args, "vtt");
    push_arg(&mut args, "-o");
    push_arg(&mut args, output_template);
    push_arg(&mut args, watch_url);
    assert(string_views(args@) =~= seq![
        "--skip-download"@,
        "--write-sub"@,
        "--write-auto-sub"@,
        "--sub-langs"@,
        language@,
        "--sub-format"@,
        "vtt"@,
        "-o"@,
        output_template@,
        watch_url@,
    ]);
    args
}

/// Whether the file named `file_name` is a subtitle file written for the
/// stem `stem`: its name begins with the stem and ends with `.vtt`.
pub fn is_subtitle_file(file_name: &str, stem: &str) -> (r: bool)
    ensures
        r == (starts_with(file_name@, stem@) && ends_with(file_name@, ".vtt"@)),
{
    let name = chars_of(file_name);
    let st = chars_of(stem);
    let ext = chars_of(".vtt");
    starts_with_chars(name.as_slice(), st.as_slice()) && ends_with_chars(name.as_slice(), ext.as_slice())
}


/// A line printed with a listing template is read back as the title and
/// the id (or URL) it was printed from, when both are trimmed and the id
/// holds no `'|'`; the title may itself hold the separator.
pub proof fn lemma_listing_line_roundtrip(title: Seq<char>, id: Seq<char>)
    requires
        trim(title) == title,
        trim(id) == id,
        forall|i: int| 0 <= i < id.len() ==> #[trigger] id[i] != '|',
    ensures
        parse_entry_line(title + " ||| "@ + id) == Some((title, id)),
{
    reveal_strlit(" ||| ");
    let sep = " ||| "@;
    let s = title + sep + id;
    let t = title.len() as int;
    assert(s.subrange(t, t + 5) =~= sep);
    assert forall|j: int| t < j < s.len() + 1 implies !occurs_at(s, sep, j) by {
        if occurs_at(s, sep, j) {
            assert(s.subrange(j, j + 5)[1] == sep[1]);
            assert(s[j + 1] == '|');
            if j + 1 >= t + 5 {
                assert(s[j + 1] == id[j + 1 - t - 5]);
            } else if j == t + 4 {
                assert(false);
            } else {
                assert(s.subrange(j, j + 5)[0] == sep[0]);
                assert(s[j] == sep[j - t]);
            }
        }
    }
    lemma_last_occurrence_is(s, sep, t, (s.len() + 1) as int);
    assert(s.take(t) =~= title);
    assert(s.skip(t + 5) =~= id);
}

} // verus!
