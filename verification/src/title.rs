//! The title shown on the player's window.

use vstd::prelude::*;
use crate::text::{chars_of, string_from_chars};

verus! {

/// Whether `c` ends a line (`'\n'` or `'\r'`).
pub open spec fn is_line_break(c: char) -> bool {
    c == '\n' || c == '\r'
}

/// `s` with each `'\n'` and `'\r'` replaced by a space.
pub open spec fn without_line_breaks(s: Seq<char>) -> Seq<char> {
    s.map_values(|c: char|
        if is_line_break(c) {
            ' '
        } else {
            c
        })
}

/// The window title for a video titled `title`: its line breaks become
/// spaces, and an empty title is shown as `"YouTube Playback"`.
pub open spec fn window_title(title: Seq<char>) -> Seq<char> {
    if title.len() == 0 {
        "YouTube Playback"@
    } else {
        without_line_breaks(title)
    }
}

/// The window title for a video titled `title`.
pub fn sanitize_window_title(title: &str) -> (r: String)
    ensures
        r@ == window_title(title@),
{
    let cs = chars_of(title);
    if cs.len() == 0 {
        return "YouTube Playback".to_string();
    }
    let mut out: Vec<char> = Vec::new();
    let mut i: usize = 0;
    while i < cs.len()
        invariant
            i <= cs@.len(),
            out@ == without_line_breaks(cs@.take(i as int)),
        decreases cs@.len() - i,
    {
        let c = cs[i];
        if c == '\n' || c == '\r' {
            out.push(' ');
        } else {
            out.push(c);
        }
        i = i + 1;
        assert(out@ =~= without_line_breaks(cs@.take(i as int)));
    }
    assert(cs@.take(cs@.len() as int) == cs@);
    string_from_chars(out.as_slice())
}

/// A window title never holds a line break.
pub proof fn lemma_window_title_has_no_line_breaks(title: Seq<char>)
    ensures
        forall|i: int| 0 <= i < window_title(title).len() ==> !is_line_break(#[trigger] window_title(title)[i]),
{
    reveal_strlit("YouTube Playback");
}

/// A window title is never empty.
pub proof fn lemma_window_title_nonempty(title: Seq<char>)
    ensures
        window_title(title).len() > 0,
{
    reveal_strlit("YouTube Playback");
}

/// A title that is already fit for the window is kept as it is; so making a
/// window title twice gives the same as making it once.
pub proof fn lemma_window_title_idempotent(title: Seq<char>)
    ensures
        window_title(window_title(title)) == window_title(title),
{
    reveal_strlit("YouTube Playback");
    let w = window_title(title);
    assert(without_line_breaks(w) =~= w);
}

} // verus!
