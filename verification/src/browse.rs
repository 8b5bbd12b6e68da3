//! Choosing a video or a playlist from the results: paging through video
//! search results and reading the user's selection.

use vstd::prelude::*;
use crate::prompt::answer_is;
use crate::queue::SearchResult;
use crate::text::{chars_of, eq_ignore_ascii_case, parse_usize, parse_usize_chars};

verus! {

/// What to do with the results fetched for a page of a video search.
#[derive(PartialEq, Eq, Structural, Debug, Clone, Copy)]
pub enum PageOutcome {
    /// The first page is empty: the search found nothing.
    NoResults,
    /// A later page is empty: go back to page `page`.
    BackTo { page: usize },
    /// Show the results.
    Show,
}

/// What to do with `count` results fetched for page `page` (counted from 1).
pub fn page_outcome(page: usize, count: usize) -> (r: PageOutcome)
    requires
        page >= 1,
    ensures
        count > 0 ==> r == PageOutcome::Show,
        count == 0 && page == 1 ==> r == PageOutcome::NoResults,
        count == 0 && page > 1 ==> r == (PageOutcome::BackTo { page: (page - 1) as usize }),
{
    if count == 0 {
        if page == 1 {
            PageOutcome::NoResults
        } else {
            PageOutcome::BackTo { page: page - 1 }
        }
    } else {
        PageOutcome::Show
    }
}

/// The overall numbers (counted from 1) of the first and last of `count`
/// results shown on page `page` of `page_size` results.
pub fn result_range(page: usize, page_size: usize, count: usize) -> (r: (usize, usize))
    requires
        page >= 1,
        count >= 1,
        (page - 1) * page_size + count <= usize::MAX,
    ensures
        r.0 == (page - 1) * page_size + 1,
        r.1 == (page - 1) * page_size + count,
{
    let before = (page - 1) * page_size;
    let start = before + 1;
    (start, before + count)
}

/// The user's answer while a page of video results is shown.
#[derive(PartialEq, Eq, Structural, Debug, Clone, Copy)]
pub enum SearchChoice {
    /// `n`: the next page.
    NextPage,
    /// `p` on a page after the first: the previous page.
    PreviousPage,
    /// `p` on the first page: stay there.
    AlreadyFirstPage,
    /// `q`: back out of the search.
    Quit,
    /// A result's number: play from that result (counted from 0 here).
    Select(usize),
    /// Anything else: ask again.
    Invalid,
}

/// The choice that the (trimmed) answer `action` makes on page `page`
/// showing `count` results: the letters are read whatever their ASCII case,
/// and a number must be one of the results shown.
pub open spec fn search_choice_spec(action: Seq<char>, page: usize, count: usize) -> SearchChoice {
    if eq_ignore_ascii_case(action, "n"@) {
        SearchChoice::NextPage
    } else if eq_ignore_ascii_case(action, "p"@) {
        if page > 1 {
            SearchChoice::PreviousPage
        } else {
            SearchChoice::AlreadyFirstPage
        }
    } else if eq_ignore_ascii_case(action, "q"@) {
        SearchChoice::Quit
    } else {
        match parse_usize(action) {
            Some(v) => if 1 <= v <= count {
                SearchChoice::Select((v - 1) as usize)
            } else {
                SearchChoice::Invalid
            },
            None => SearchChoice::Invalid,
        }
    }
}

/// Reads the answer `action` given on page `page` showing `count` results.
pub fn search_choice(action: &str, page: usize, count: usize) -> (r: SearchChoice)
    ensures
        r == search_choice_spec(action@, page, count),
{
    if answer_is(action, "n") {
        return SearchChoice::NextPage;
    }
    if answer_is(action, "p") {
        if page > 1 {
            return SearchChoice::PreviousPage;
        } else {
            return SearchChoice::AlreadyFirstPage;
        }
    }
    if answer_is(action, "q") {
        return SearchChoice::Quit;
    }
    let cs = chars_of(action);
    match parse_usize_chars(cs.as_slice()) {
        Some(v) => if 1 <= v && v <= count {
            SearchChoice::Select(v - 1)
        } else {
            SearchChoice::Invalid
        },
        None => SearchChoice::Invalid,
    }
}

/// The page shown after `choice` was made on page `page`.
pub fn page_after_choice(page: usize, choice: SearchChoice) -> (r: usize)
    requires
        choice == SearchChoice::NextPage ==> page < usize::MAX,
        choice == SearchChoice::PreviousPage ==> page > 1,
    ensures
        r == (match choice {
            SearchChoice::NextPage => page + 1,
            SearchChoice::PreviousPage => page - 1,
            _ => page as int,
        }),
{
    match choice {
        SearchChoice::NextPage => page + 1,
        SearchChoice::PreviousPage => page - 1,
        _ => page,
    }
}

/// How many results to ask the search for so that page `page` of
/// `page_size` results is among them; `None` when that overflows.
pub fn search_page_limit(page: usize, page_size: usize) -> (r: Option<usize>)
    ensures
        match r {
            Some(limit) => limit == page * page_size,
            None => page * page_size > usize::MAX,
        },
{
    page.checked_mul(page_size)
}

/// Page `page` (counted from 1) of `page_size` results, cut from `all`,
/// the results of the search up to that page.
pub open spec fn page_of_spec(all: Seq<SearchResult>, page: nat, page_size: nat) -> Seq<SearchResult> {
    let start = (page - 1) * page_size;
    if start >= all.len() {
        Seq::empty()
    } else if start + page_size <= all.len() {
        all.subrange(start, start + page_size)
    } else {
        all.subrange(start, all.len() as int)
    }
}

/// Cuts page `page` of `page_size` results out of `all`.
pub fn page_of_results(all: Vec<SearchResult>, page: usize, page_size: usize) -> (r: Vec<SearchResult>)
    requires
        page >= 1,
        page * page_size <= usize::MAX,
    ensures
        r@ == page_of_spec(all@, page as nat, page_size as nat),
{
    assert((page - 1) * page_size <= page * page_size) by (nonlinear_arith)
        requires
            page >= 1,
    {
    }
    let start = (page - 1) * page_size;
    if start >= all.len() {
        return Vec::new();
    }
    let mut all = all;
    let mut rest = all.split_off(start);
    if page_size < rest.len() {
        rest.truncate(page_size);
    }
    rest
}

/// The user's answer to the list of playlists.
#[derive(PartialEq, Eq, Structural, Debug, Clone, Copy)]
pub enum PlaylistSelection {
    /// `q`: back out of the search.
    Quit,
    /// A playlist's number: that playlist (counted from 0 here).
    Chosen(usize),
    /// Anything else: the selection is refused.
    Invalid,
}

/// The selection that the (trimmed) answer `action` makes among `count` playlists.
pub open spec fn playlist_selection_spec(action: Seq<char>, count: usize) -> PlaylistSelection {
    if eq_ignore_ascii_case(action, "q"@) {
        PlaylistSelection::Quit
    } else {
        match parse_usize(action) {
            Some(v) => if 1 <= v <= count {
                PlaylistSelection::Chosen((v - 1) as usize)
            } else {
                PlaylistSelection::Invalid
            },
            None => PlaylistSelection::Invalid,
        }
    }
}

/// Reads the answer `action` to the list of `count` playlists.
pub fn playlist_selection(action: &str, count: usize) -> (r: PlaylistSelection)
    ensures
        r == playlist_selection_spec(action@, count),
{
    if answer_is(action, "q") {
        return PlaylistSelection::Quit;
    }
    let cs = chars_of(action);
    match parse_usize_chars(cs.as_slice()) {
        Some(v) => if 1 <= v && v <= count {
            PlaylistSelection::Chosen(v - 1)
        } else {
            PlaylistSelection::Invalid
        },
        None => PlaylistSelection::Invalid,
    }
}

/// A selection always points at a result that is shown.
pub proof fn lemma_selection_in_range(action: Seq<char>, page: usize, count: usize)
    ensures
        search_choice_spec(action, page, count) matches SearchChoice::Select(i) ==> i < count,
        playlist_selection_spec(action, count) matches PlaylistSelection::Chosen(i) ==> i < count,
{
}

/// The pages of a search are consecutive: page `p` holds the results
/// numbered `(p - 1) * page_size + 1` onwards, at most `page_size` of them.
pub proof fn lemma_page_holds_its_results(all: Seq<SearchResult>, page: nat, page_size: nat, k: int)
    requires
        page >= 1,
        0 <= k < page_of_spec(all, page, page_size).len(),
    ensures
        page_of_spec(all, page, page_size).len() <= page_size,
        (page - 1) * page_size + k < all.len(),
        page_of_spec(all, page, page_size)[k] == all[(page - 1) * page_size + k],
{
}

/// A page holds every result left after the earlier pages, up to
/// `page_size` of them: `min(page_size, all.len() - start)` results from
/// `start = (page - 1) * page_size` on, and none once the results run out.
pub proof fn lemma_page_size_is_what_is_left(all: Seq<SearchResult>, page: nat, page_size: nat)
    requires
        page >= 1,
    ensures
        ({
            let start = (page - 1) * page_size;
            let p = page_of_spec(all, page, page_size);
            &&& start < all.len() ==> p.len() == (if page_size <= all.len() - start {
                page_size as int
            } else {
                all.len() - start
            })
            &&& start >= all.len() ==> p.len() == 0
            &&& forall|k: int| 0 <= k < p.len() ==> #[trigger] p[k] == all[start + k]
        }),
{
}

/// A full set of `page * page_size` results, as the search is asked for,
/// shows exactly `page_size` results on page `page`.
pub proof fn lemma_full_page(all: Seq<SearchResult>, page: nat, page_size: nat)
    requires
        page >= 1,
        all.len() == page * page_size,
    ensures
        page_of_spec(all, page, page_size).len() == page_size,
{
    assert((page - 1) * page_size + page_size == page * page_size) by (nonlinear_arith)
        requires
            page >= 1,
    {
    }
    lemma_page_size_is_what_is_left(all, page, page_size);
}

} // verus!
