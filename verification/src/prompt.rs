//! Reading the user's answers to the program's prompts.

use vstd::prelude::*;
use crate::text::{
    chars_eq_ignore_ascii_case, chars_of, decimal, is_ascii_digit, lemma_decimal_digits, eq_ignore_ascii_case, is_white_space,
    lemma_parse_decimal_roundtrip, lemma_trim_all_white, lemma_trim_around, parse_usize, parse_usize_chars, trim,
    trim_chars, trim_str,
};

verus! {

/// The answer typed as `input`, without surrounding white space, when it is
/// not empty.
pub open spec fn nonempty_answer(input: Seq<char>) -> Option<Seq<char>> {
    if trim(input).len() > 0 {
        Some(trim(input))
    } else {
        None
    }
}

/// The number typed as `input`, when it is a number from `min` to `max`.
pub open spec fn choice_in_range(input: Seq<char>, min: usize, max: usize) -> Option<usize> {
    match parse_usize(trim(input)) {
        Some(v) => if min <= v <= max {
            Some(v)
        } else {
            None
        },
        None => None,
    }
}

/// The number typed as `input`, or `default` when nothing but white space
/// was typed; `None` when the answer must be asked again.
pub open spec fn choice_with_default(input: Seq<char>, min: usize, max: usize, default: usize) -> Option<
    usize,
> {
    if trim(input).len() == 0 {
        Some(default)
    } else {
        choice_in_range(input, min, max)
    }
}

/// The answer typed as `input`, trimmed, or `None` when it is empty and the
/// question is to be asked again.
pub fn accept_nonempty(input: &str) -> (r: Option<String>)
    ensures
        match r {
            Some(s) => nonempty_answer(input@) == Some(s@),
            None => nonempty_answer(input@) is None,
        },
{
    let t = trim_str(input);
    if t.as_str().is_empty() {
        None
    } else {
        Some(t)
    }
}

fn parse_trimmed(input: &str) -> (r: Option<usize>)
    ensures
        r == parse_usize(trim(input@)),
{
    let cs = chars_of(input);
    let t = trim_chars(cs.as_slice());
    parse_usize_chars(t.as_slice())
}

/// The number from `min` to `max` typed as `input`, or `None` when the
/// question is to be asked again.
pub fn parse_choice(input: &str, min: usize, max: usize) -> (r: Option<usize>)
    ensures
        r == choice_in_range(input@, min, max),
{
    match parse_trimmed(input) {
        Some(v) => if min <= v && v <= max {
            Some(v)
        } else {
            None
        },
        None => None,
    }
}

/// The number from `min` to `max` typed as `input`, `default` for an empty
/// answer, or `None` when the question is to be asked again.
pub fn parse_choice_with_default(input: &str, min: usize, max: usize, default: usize) -> (r: Option<usize>)
    ensures
        r == choice_with_default(input@, min, max, default),
{
    let cs = chars_of(input);
    let t = trim_chars(cs.as_slice());
    if t.len() == 0 {
        return Some(default);
    }
    parse_choice(input, min, max)
}

/// What to do once a video has finished.
#[derive(PartialEq, Eq, Structural, Debug, Clone, Copy)]
pub enum MenuAction {
    /// `n`: the next video of the queue.
    Next,
    /// `r`: the same video again.
    Replay,
    /// `c`: choose quality and subtitles again, then replay.
    ChangeSettings,
    /// `l`: switch looping on or off, then replay.
    ToggleLoop,
    /// `s`: a new search.
    NewSearch,
    /// `q`: quit.
    Quit,
    /// Anything else: ask again.
    Unknown,
}

/// The action named by the (trimmed) answer `answer`, whatever its ASCII case.
pub open spec fn menu_action_spec(answer: Seq<char>) -> MenuAction {
    if eq_ignore_ascii_case(answer, "n"@) {
        MenuAction::Next
    } else if eq_ignore_ascii_case(answer, "r"@) {
        MenuAction::Replay
    } else if eq_ignore_ascii_case(answer, "c"@) {
        MenuAction::ChangeSettings
    } else if eq_ignore_ascii_case(answer, "l"@) {
        MenuAction::ToggleLoop
    } else if eq_ignore_ascii_case(answer, "s"@) {
        MenuAction::NewSearch
    } else if eq_ignore_ascii_case(answer, "q"@) {
        MenuAction::Quit
    } else {
        MenuAction::Unknown
    }
}

/// Whether `answer` is `word`, ignoring ASCII case.
pub fn answer_is(answer: &str, word: &str) -> (r: bool)
    ensures
        r == eq_ignore_ascii_case(answer@, word@),
{
    let a = chars_of(answer);
    let w = chars_of(word);
    chars_eq_ignore_ascii_case(a.as_slice(), w.as_slice())
}

/// The action named by the answer `answer` to the menu shown after a video.
pub fn menu_action(answer: &str) -> (r: MenuAction)
    ensures
        r == menu_action_spec(answer@),
{
    if answer_is(answer, "n") {
        MenuAction::Next
    } else if answer_is(answer, "r") {
        MenuAction::Replay
    } else if answer_is(answer, "c") {
        MenuAction::ChangeSettings
    } else if answer_is(answer, "l") {
        MenuAction::ToggleLoop
    } else if answer_is(answer, "s") {
        MenuAction::NewSearch
    } else if answer_is(answer, "q") {
        MenuAction::Quit
    } else {
        MenuAction::Unknown
    }
}

/// What the session does after an answer to the menu shown after a video.
#[derive(PartialEq, Eq, Structural, Debug, Clone, Copy)]
pub enum SessionStep {
    /// Move the queue on and play its next video.
    PlayNext,
    /// Play the current video again.
    Replay,
    /// Ask for quality and subtitles again, then play the current video again.
    ChangeSettings,
    /// Start a new search.
    NewSearch,
    /// End the program.
    Quit,
    /// Show the menu again.
    AskAgain,
}

/// The session's next step after `action`, with whether videos loop from
/// then on (`loop_video` is whether they loop now): only `ToggleLoop`
/// changes that, and it replays the current video.
pub open spec fn session_step_spec(loop_video: bool, action: MenuAction) -> (bool, SessionStep) {
    match action {
        MenuAction::Next => (loop_video, SessionStep::PlayNext),
        MenuAction::Replay => (loop_video, SessionStep::Replay),
        MenuAction::ChangeSettings => (loop_video, SessionStep::ChangeSettings),
        MenuAction::ToggleLoop => (!loop_video, SessionStep::Replay),
        MenuAction::NewSearch => (loop_video, SessionStep::NewSearch),
        MenuAction::Quit => (loop_video, SessionStep::Quit),
        MenuAction::Unknown => (loop_video, SessionStep::AskAgain),
    }
}

/// The session's next step after `action`, and whether videos loop from then on.
pub fn session_step(loop_video: bool, action: MenuAction) -> (r: (bool, SessionStep))
    ensures
        r == session_step_spec(loop_video, action),
{
    match action {
        MenuAction::Next => (loop_video, SessionStep::PlayNext),
        MenuAction::Replay => (loop_video, SessionStep::Replay),
        MenuAction::ChangeSettings => (loop_video, SessionStep::ChangeSettings),
        MenuAction::ToggleLoop => (!loop_video, SessionStep::Replay),
        MenuAction::NewSearch => (loop_video, SessionStep::NewSearch),
        MenuAction::Quit => (loop_video, SessionStep::Quit),
        MenuAction::Unknown => (loop_video, SessionStep::AskAgain),
    }
}

/// Toggling looping twice leaves it as it was.
pub proof fn lemma_toggle_loop_twice(loop_video: bool)
    ensures
        session_step_spec(session_step_spec(loop_video, MenuAction::ToggleLoop).0, MenuAction::ToggleLoop).0
            == loop_video,
{
}

/// The two ways of finding videos.
#[derive(PartialEq, Eq, Structural, Debug, Clone, Copy)]
pub enum SearchMode {
    Video,
    Playlist,
}

/// The search mode for menu choice `choice`: 1 is a video search, anything
/// else a playlist search.
pub fn search_mode_for_choice(choice: usize) -> (m: SearchMode)
    ensures
        m == (if choice == 1 {
            SearchMode::Video
        } else {
            SearchMode::Playlist
        }),
{
    if choice == 1 {
        SearchMode::Video
    } else {
        SearchMode::Playlist
    }
}

/// A number in range, typed in decimal with surrounding white space, is
/// read back as itself.
pub proof fn lemma_choice_reads_decimal(n: usize, min: usize, max: usize, pre: Seq<char>, post: Seq<char>)
    requires
        min <= n <= max,
        forall|i: int| 0 <= i < pre.len() ==> is_white_space(#[trigger] pre[i]),
        forall|i: int| 0 <= i < post.len() ==> is_white_space(#[trigger] post[i]),
    ensures
        choice_in_range(pre + decimal(n as nat) + post, min, max) == Some(n),
{
    let d = decimal(n as nat);
    lemma_decimal_digits(n as nat);
    assert(is_ascii_digit(d[0]));
    assert(is_ascii_digit(d[d.len() - 1]));
    lemma_trim_around(pre, d, post);
    lemma_parse_decimal_roundtrip(n);
}

/// At a prompt with a default, an empty answer gives the default, and every
/// number from `min` to `max`, typed in decimal with surrounding white
/// space, is read as itself.
pub proof fn lemma_choice_with_default_reads_decimal(
    n: usize,
    min: usize,
    max: usize,
    default: usize,
    pre: Seq<char>,
    post: Seq<char>,
)
    requires
        min <= n <= max,
        forall|i: int| 0 <= i < pre.len() ==> is_white_space(#[trigger] pre[i]),
        forall|i: int| 0 <= i < post.len() ==> is_white_space(#[trigger] post[i]),
    ensures
        choice_with_default(pre + decimal(n as nat) + post, min, max, default) == Some(n),
        choice_with_default(pre, min, max, default) == Some(default),
{
    let d = decimal(n as nat);
    lemma_decimal_digits(n as nat);
    assert(is_ascii_digit(d[0]));
    assert(is_ascii_digit(d[d.len() - 1]));
    lemma_trim_around(pre, d, post);
    lemma_choice_reads_decimal(n, min, max, pre, post);
    lemma_trim_all_white(pre);
}

/// A number that a prompt accepts always lies from `min` to `max`, and a
/// number there typed alone is always accepted.
pub proof fn lemma_choice_accepts_exactly_the_range(input: Seq<char>, min: usize, max: usize, default: usize)
    ensures
        choice_in_range(input, min, max) matches Some(v) ==> min <= v <= max,
        trim(input).len() > 0 ==> (choice_with_default(input, min, max, default) matches Some(v) ==> min
            <= v <= max),
        parse_usize(trim(input)) matches Some(v) ==> (min <= v <= max <==> choice_in_range(
            input,
            min,
            max,
        ) == Some(v)),
        trim(input).len() > 0 && parse_usize(trim(input)) is None ==> choice_with_default(
            input,
            min,
            max,
            default,
        ) is None,
        trim(input).len() > 0 && (parse_usize(trim(input)) matches Some(v) && !(min <= v <= max))
            ==> choice_with_default(input, min, max, default) is None,
        trim(input).len() > 0 && (parse_usize(trim(input)) matches Some(v) && min <= v <= max)
            ==> choice_with_default(input, min, max, default) == parse_usize(trim(input)),
{
}

/// After a video, only `n` moves the queue on; `r` and `l` replay the same
/// video; only `l` changes whether videos loop; each other answer leads to
/// its own step.
pub proof fn lemma_session_steps(loop_video: bool, action: MenuAction)
    ensures
        (session_step_spec(loop_video, action).1 == SessionStep::PlayNext) <==> action == MenuAction::Next,
        (session_step_spec(loop_video, action).1 == SessionStep::Replay) <==> (action == MenuAction::Replay
            || action == MenuAction::ToggleLoop),
        (session_step_spec(loop_video, action).1 == SessionStep::ChangeSettings) <==> action
            == MenuAction::ChangeSettings,
        (session_step_spec(loop_video, action).1 == SessionStep::NewSearch) <==> action
            == MenuAction::NewSearch,
        (session_step_spec(loop_video, action).1 == SessionStep::Quit) <==> action == MenuAction::Quit,
        (session_step_spec(loop_video, action).1 == SessionStep::AskAgain) <==> action
            == MenuAction::Unknown,
        (session_step_spec(loop_video, action).0 != loop_video) <==> action == MenuAction::ToggleLoop,
{
}

} // verus!
