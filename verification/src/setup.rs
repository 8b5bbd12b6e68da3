//! What the program checks and shows before it starts: the tools it needs,
//! how to install them, and the banner.

use vstd::prelude::*;
use crate::ytdlp::string_views;

verus! {

/// The operating systems that installation hints are written for.
#[derive(PartialEq, Eq, Structural, Debug, Clone, Copy)]
pub enum TargetOs {
    Windows,
    MacOs,
    /// Linux and every other system: Debian-style hints.
    Other,
}

/// The installation hint for `yt-dlp` and `ffplay` on `os`.
pub open spec fn install_hint_spec(os: TargetOs) -> Seq<char> {
    match os {
        TargetOs::Windows => "Install them on Windows with one of:\n\n  winget install yt-dlp.yt-dlp\n  winget install Gyan.FFmpeg\n\nThen confirm they're resolvable with:\n\n  where.exe ffplay\n  where.exe yt-dlp"@,
        TargetOs::MacOs => "Install them on macOS with:\n\n  brew install ffmpeg yt-dlp\n\nThen confirm they're resolvable with:\n\n  which ffplay\n  which yt-dlp"@,
        TargetOs::Other => "Install them on Debian/antiX/Ubuntu with:\n\n  sudo apt update && sudo apt install -y ffmpeg yt-dlp\n\nThen confirm they're resolvable with:\n\n  which ffplay\n  which yt-dlp"@,
    }
}

/// The installation hint for the operating system `os` that the program
/// runs on.
pub fn install_hint_for_current_os(os: TargetOs) -> (r: &'static str)
    ensures
        r@ == install_hint_spec(os),
{
    match os {
        TargetOs::Windows => "Install them on Windows with one of:\n\n  winget install yt-dlp.yt-dlp\n  winget install Gyan.FFmpeg\n\nThen confirm they're resolvable with:\n\n  where.exe ffplay\n  where.exe yt-dlp",
        TargetOs::MacOs => "Install them on macOS with:\n\n  brew install ffmpeg yt-dlp\n\nThen confirm they're resolvable with:\n\n  which ffplay\n  which yt-dlp",
        TargetOs::Other => "Install them on Debian/antiX/Ubuntu with:\n\n  sudo apt update && sudo apt install -y ffmpeg yt-dlp\n\nThen confirm they're resolvable with:\n\n  which ffplay\n  which yt-dlp",
    }
}

/// The external programs that playback needs.
pub fn required_binaries() -> (r: Vec<&'static str>)
    ensures
        r@.len() == 2,
        r@[0]@ == "yt-dlp"@,
        r@[1]@ == "ffplay"@,
{
    let mut r: Vec<&'static str> = Vec::new();
    r.push("yt-dlp");
    r.push("ffplay");
    r
}

/// The names of `names` whose program could not be run, in order.
pub open spec fn missing_names(names: Seq<&str>, runnable: Seq<bool>) -> Seq<Seq<char>>
    decreases names.len(),
{
    if names.len() == 0 {
        Seq::empty()
    } else {
        let init = missing_names(names.drop_last(), runnable);
        if runnable[names.len() - 1] {
            init
        } else {
            init.push(names.last()@)
        }
    }
}

/// The names of `names` whose program could not be run, where
/// `runnable[i]` tells whether `names[i]` could.
pub fn select_missing(names: &[&str], runnable: &[bool]) -> (r: Vec<String>)
    requires
        names@.len() == runnable@.len(),
    ensures
        string_views(r@) == missing_names(names@, runnable@),
{
    let mut r: Vec<String> = Vec::new();
    let mut i: usize = 0;
    while i < names.len()
        invariant
            i <= names@.len() == runnable@.len(),
            string_views(r@) == missing_names(names@.take(i as int), runnable@),
        decreases names@.len() - i,
    {
        assert(names@.take(i + 1).drop_last() == names@.take(i as int));
        if !runnable[i] {
            r.push(names[i].to_string());
        }
        i = i + 1;
        assert(string_views(r@) =~= missing_names(names@.take(i as int), runnable@));
    }
    assert(names@.take(names@.len() as int) == names@);
    r
}

/// `parts` joined with `sep` between each two of them.
pub open spec fn join_with(parts: Seq<Seq<char>>, sep: Seq<char>) -> Seq<char>
    decreases parts.len(),
{
    if parts.len() == 0 {
        Seq::empty()
    } else if parts.len() == 1 {
        parts[0]
    } else {
        join_with(parts.drop_last(), sep) + sep + parts.last()
    }
}

/// The report on the programs in `missing` that could not be run, or
/// `None` when none is missing.
pub fn missing_binaries_report(missing: &[String]) -> (r: Option<String>)
    ensures
        match r {
            Some(s) => missing@.len() > 0 && s@ == "Missing or unreachable required binaries: "@
                + join_with(string_views(missing@), ", "@),
            None => missing@.len() == 0,
        },
{
    if missing.len() == 0 {
        return None;
    }
    let mut s = "Missing or unreachable required binaries: ".to_string();
    let ghost prefix = s@;
    let ghost parts = string_views(missing@);
    let mut i: usize = 0;
    while i < missing.len()
        invariant
            i <= missing@.len(),
            parts == string_views(missing@),
            prefix == "Missing or unreachable required binaries: "@,
            s@ == prefix + join_with(parts.take(i as int), ", "@),
        decreases missing@.len() - i,
    {
        assert(parts.take(i + 1).drop_last() == parts.take(i as int));
        if i > 0 {
            s.append(", ");
        }
        s.append(missing[i].as_str());
        i = i + 1;
        proof {
            if i == 1 {
                assert(join_with(parts.take(0), ", "@) == Seq::<char>::empty());
                assert(s@ =~= prefix + join_with(parts.take(i as int), ", "@));
            } else {
                assert(s@ =~= prefix + join_with(parts.take(i as int), ", "@));
            }
        }
    }
    assert(parts.take(missing@.len() as int) == parts);
    Some(s)
}

/// `line` moved right by `offset` spaces, as one frame of the banner's
/// animation shows it.
pub fn banner_line(line: &str, offset: usize) -> (s: String)
    ensures
        s@ == Seq::new(offset as nat, |i: int| ' ') + line@,
{
    let mut out: Vec<char> = Vec::new();
    let mut i: usize = 0;
    while i < offset
        invariant
            i <= offset,
            out@ == Seq::new(i as nat, |k: int| ' '),
        decreases offset - i,
    {
        out.push(' ');
        i = i + 1;
        assert(out@ =~= Seq::new(i as nat, |k: int| ' '));
    }
    let mut s = crate::text::string_from_chars(out.as_slice());
    s.append(line);
    s
}

/// A name is reported missing exactly when its program could not be run:
/// every name whose program could not be run is in the report, every
/// reported name is one of those, the report is never longer than the list
/// of names, and it is empty when every program runs.
pub proof fn lemma_missing_names_are_exactly_the_unrunnable(names: Seq<&str>, runnable: Seq<bool>)
    requires
        names.len() == runnable.len(),
    ensures
        forall|i: int| 0 <= i < names.len() && !runnable[i] ==> missing_names(names, runnable).contains(
            #[trigger] names[i]@,
        ),
        forall|x: Seq<char>|
            #[trigger] missing_names(names, runnable).contains(x) ==> exists|i: int|
                0 <= i < names.len() && !runnable[i] && names[i]@ == x,
        missing_names(names, runnable).len() <= names.len(),
        (forall|i: int| 0 <= i < names.len() ==> runnable[i]) ==> missing_names(names, runnable).len()
            == 0,
        (forall|i: int| 0 <= i < names.len() ==> !runnable[i]) ==> missing_names(names, runnable).len()
            == names.len(),
    decreases names.len(),
{
    lemma_missing_names_general(names, runnable);
}

proof fn lemma_missing_names_general(names: Seq<&str>, runnable: Seq<bool>)
    requires
        names.len() <= runnable.len(),
    ensures
        forall|i: int| 0 <= i < names.len() && !runnable[i] ==> missing_names(names, runnable).contains(
            #[trigger] names[i]@,
        ),
        forall|x: Seq<char>|
            #[trigger] missing_names(names, runnable).contains(x) ==> exists|i: int|
                0 <= i < names.len() && !runnable[i] && names[i]@ == x,
        missing_names(names, runnable).len() <= names.len(),
        (forall|i: int| 0 <= i < names.len() ==> runnable[i]) ==> missing_names(names, runnable).len()
            == 0,
        (forall|i: int| 0 <= i < names.len() ==> !runnable[i]) ==> missing_names(names, runnable).len()
            == names.len(),
    decreases names.len(),
{
    if names.len() > 0 {
        let init_names = names.drop_last();
        lemma_missing_names_general(init_names, runnable);
        let init = missing_names(init_names, runnable);
        let r = missing_names(names, runnable);
        let last = names.len() - 1;
        assert forall|i: int| 0 <= i < names.len() && !runnable[i] implies r.contains(
            #[trigger] names[i]@,
        ) by {
            if i < last {
                assert(init_names[i] == names[i]);
                assert(init.contains(init_names[i]@));
                let j = choose|j: int| 0 <= j < init.len() && init[j] == init_names[i]@;
                assert(r[j] == init[j]);
            } else {
                assert(r[r.len() - 1] == names[i]@);
            }
        }
        assert forall|x: Seq<char>| #[trigger] r.contains(x) implies exists|i: int|
            0 <= i < names.len() && !runnable[i] && names[i]@ == x by {
            let j = choose|j: int| 0 <= j < r.len() && r[j] == x;
            if j < init.len() {
                assert(init[j] == x);
                assert(init.contains(x));
                let i = choose|i: int| 0 <= i < init_names.len() && !runnable[i] && init_names[i]@ == x;
                assert(names[i] == init_names[i]);
            } else {
                assert(!runnable[last] && names[last]@ == x);
            }
        }
        if forall|i: int| 0 <= i < names.len() ==> runnable[i] {
            assert forall|i: int| 0 <= i < init_names.len() implies runnable[i] by {
                assert(runnable[i]);
            }
            assert(runnable[last]);
        }
        if forall|i: int| 0 <= i < names.len() ==> !runnable[i] {
            assert forall|i: int| 0 <= i < init_names.len() implies !runnable[i] by {
                assert(!runnable[i]);
            }
            assert(!runnable[last]);
        }
    }
}

} // verus!
