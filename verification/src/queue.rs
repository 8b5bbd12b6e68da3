//! The playback queue: the videos found so far, which one is playing, and
//! where more of them come from once the loaded ones run out.

use vstd::prelude::*;

verus! {

/// One video: its title and its YouTube id.
pub struct SearchResult {
    pub title: String,
    pub id: String,
}

/// One playlist: its title and its URL.
pub struct PlaylistResult {
    pub title: String,
    pub url: String,
}

/// Where a queue's videos came from, with what is needed to fetch more.
pub enum QueueSource {
    /// A video search, fetched page by page.
    Search { query: String, page: usize, page_size: usize },
    /// A playlist, fetched in batches of `batch_size` entries.
    Playlist { url: String, batch_size: usize },
}

/// What the queue asks to have fetched when its loaded videos run out.
pub enum FetchRequest {
    /// Page `page` (counted from 1) of `page_size` results of a video search.
    SearchPage { query: String, page: usize, page_size: usize },
    /// Entries `start` to `end` (counted from 1, both included) of a playlist.
    PlaylistRange { url: String, start: usize, end: usize },
}

/// The outcome of the first half of advancing a queue.
pub enum AdvanceStep {
    /// The next video was already loaded and is now the current one.
    Advanced,
    /// No video is loaded after the current one: this is what to fetch.
    Fetch(FetchRequest),
}

/// The abstract state of a queue.
pub struct QueueModel {
    pub items: Seq<SearchResult>,
    pub index: nat,
    pub source: QueueSource,
}

impl QueueModel {
    /// The cursor points at a loaded video.
    pub open spec fn well_formed(self) -> bool {
        self.index < self.items.len()
    }

    /// A video after the current one is already loaded.
    pub open spec fn has_next_loaded(self) -> bool {
        self.index + 1 < self.items.len()
    }

    /// What to fetch once the loaded videos have run out: the search page
    /// after the last one fetched, or the next `batch_size` playlist
    /// entries after those already loaded.
    pub open spec fn next_request(self) -> FetchRequest {
        match self.source {
            QueueSource::Search { query, page, page_size } => FetchRequest::SearchPage {
                query,
                page: (page + 1) as usize,
                page_size,
            },
            QueueSource::Playlist { url, batch_size } => FetchRequest::PlaylistRange {
                url,
                start: (self.items.len() + 1) as usize,
                end: (self.items.len() + batch_size) as usize,
            },
        }
    }

    /// The numbers in `next_request` fit in a `usize`.
    pub open spec fn request_fits(self) -> bool {
        match self.source {
            QueueSource::Search { page, .. } => page + 1 <= usize::MAX,
            QueueSource::Playlist { batch_size, .. } => {
                &&& self.items.len() + 1 <= usize::MAX
                &&& self.items.len() + batch_size <= usize::MAX
            },
        }
    }

    /// The source once the requested videos have been added: a search
    /// remembers the page it has reached.
    pub open spec fn source_after_fetch(self) -> QueueSource {
        match self.source {
            QueueSource::Search { query, page, page_size } => QueueSource::Search {
                query,
                page: (page + 1) as usize,
                page_size,
            },
            QueueSource::Playlist { url, batch_size } => QueueSource::Playlist { url, batch_size },
        }
    }

    /// Moving to the next video, where `fetched` is what a fetch of
    /// `next_request` gave (it is not used while a next video is loaded).
    /// The result tells whether the queue moved on; it is `false` only when
    /// nothing is left.
    pub open spec fn advance(self, fetched: Seq<SearchResult>) -> (bool, QueueModel) {
        if self.has_next_loaded() {
            (true, QueueModel { index: self.index + 1, ..self })
        } else if fetched.len() == 0 {
            (false, self)
        } else {
            (
                true,
                QueueModel {
                    items: self.items + fetched,
                    index: self.index + 1,
                    source: self.source_after_fetch(),
                },
            )
        }
    }
}

/// A resolved, ordered list of videos with a cursor into it, and how to
/// fetch more of them.
pub struct PlaybackQueue {
    pub items: Vec<SearchResult>,
    pub index: usize,
    pub source: QueueSource,
}

impl View for PlaybackQueue {
    type V = QueueModel;

    open spec fn view(&self) -> QueueModel {
        QueueModel { items: self.items@, index: self.index as nat, source: self.source }
    }
}

impl PlaybackQueue {
    /// A queue of the search results `results` of page `page`, starting at
    /// result `selected` (counted from 0).
    pub fn from_search(
        results: Vec<SearchResult>,
        selected: usize,
        query: String,
        page: usize,
        page_size: usize,
    ) -> (q: PlaybackQueue)
        requires
            selected < results@.len(),
        ensures
            q@ == (QueueModel {
                items: results@,
                index: selected as nat,
                source: QueueSource::Search { query, page, page_size },
            }),
            q@.well_formed(),
    {
        PlaybackQueue {
            items: results,
            index: selected,
            source: QueueSource::Search { query, page, page_size },
        }
    }

    /// A queue of the playlist entries `videos` of the playlist at `url`,
    /// starting at entry `selected` (counted from 0); more entries are
    /// fetched `batch_size` at a time.
    pub fn from_playlist(videos: Vec<SearchResult>, selected: usize, url: String, batch_size: usize) -> (q:
        PlaybackQueue)
        requires
            selected < videos@.len(),
        ensures
            q@ == (QueueModel {
                items: videos@,
                index: selected as nat,
                source: QueueSource::Playlist { url, batch_size },
            }),
            q@.well_formed(),
    {
        PlaybackQueue { items: videos, index: selected, source: QueueSource::Playlist { url, batch_size } }
    }

    /// The video under the cursor.
    pub fn current(&self) -> (r: &SearchResult)
        requires
            self@.well_formed(),
        ensures
            *r == self@.items[self@.index as int],
    {
        &self.items[self.index]
    }

    /// The first half of moving to the next video: moves on if the next
    /// video is loaded, and otherwise says what to fetch, leaving the queue
    /// as it was.
    pub fn advance_loaded(&mut self) -> (r: AdvanceStep)
        requires
            old(self)@.well_formed(),
            !old(self)@.has_next_loaded() ==> old(self)@.request_fits(),
        ensures
            final(self)@.well_formed(),
            old(self)@.has_next_loaded() ==> {
                &&& r is Advanced
                &&& final(self)@ == old(self)@.advance(Seq::empty()).1
            },
            !old(self)@.has_next_loaded() ==> {
                &&& r == AdvanceStep::Fetch(old(self)@.next_request())
                &&& final(self)@ == old(self)@
            },
    {
        let n = self.items.len();
        if self.index + 1 < n {
            self.index = self.index + 1;
            return AdvanceStep::Advanced;
        }
        let request = match &self.source {
            QueueSource::Search { query, page, page_size } => FetchRequest::SearchPage {
                query: query.clone(),
                page: *page + 1,
                page_size: *page_size,
            },
            QueueSource::Playlist { url, batch_size } => FetchRequest::PlaylistRange {
                url: url.clone(),
                start: self.items.len() + 1,
                end: self.items.len() + *batch_size,
            },
        };
        AdvanceStep::Fetch(request)
    }

    /// The second half of moving to the next video: takes what the fetch
    /// asked for by `advance_loaded` gave, and moves on to the first of
    /// those videos, if there is one.
    pub fn accept_fetched(&mut self, more: Vec<SearchResult>) -> (r: bool)
        requires
            old(self)@.well_formed(),
            !old(self)@.has_next_loaded(),
            old(self)@.request_fits(),
        ensures
            (r, final(self)@) == old(self)@.advance(more@),
            final(self)@.well_formed(),
    {
        if more.len() == 0 {
            return false;
        }
        let mut more = more;
        self.items.append(&mut more);
        let next_source = match &self.source {
            QueueSource::Search { query, page, page_size } => QueueSource::Search {
                query: query.clone(),
                page: *page + 1,
                page_size: *page_size,
            },
            QueueSource::Playlist { url, batch_size } => QueueSource::Playlist {
                url: url.clone(),
                batch_size: *batch_size,
            },
        };
        self.source = next_source;
        let n = self.items.len();
        assert(self.index < n);
        self.index = self.index + 1;
        true
    }
}

/// Moving on keeps the queue well formed, keeps every loaded video where it
/// was, and moves the cursor forward by exactly one video, or not at all
/// when nothing is left; what the cursor then points at is the video after
/// the one that was playing.
pub proof fn lemma_advance_moves_one_forward(q: QueueModel, fetched: Seq<SearchResult>)
    requires
        q.well_formed(),
    ensures
        q.advance(fetched).1.well_formed(),
        q.advance(fetched).1.items.len() >= q.items.len(),
        q.advance(fetched).1.items.take(q.items.len() as int) == q.items,
        q.advance(fetched).0 ==> q.advance(fetched).1.index == q.index + 1,
        !q.advance(fetched).0 ==> q.advance(fetched).1 == q,
        q.has_next_loaded() ==> q.advance(fetched).0 && q.advance(fetched).1.items == q.items
            && q.advance(fetched).1.source == q.source,
        q.advance(fetched).0 ==> q.advance(fetched).1.items[q.index + 1 as int] == (q.items + fetched)[q.index + 1 as int],
{
    let r = q.advance(fetched);
    assert(r.1.items.take(q.items.len() as int) =~= q.items);
}

/// Moving on reports `false` exactly when no next video is loaded and the
/// fetch gave nothing.
pub proof fn lemma_advance_fails_only_when_exhausted(q: QueueModel, fetched: Seq<SearchResult>)
    ensures
        !q.advance(fetched).0 <==> (!q.has_next_loaded() && fetched.len() == 0),
{
}


/// A playlist queue asks for the `batch_size` entries that come right after
/// those already loaded (1-indexed, both ends included).
pub proof fn lemma_playlist_request_is_next_batch(q: QueueModel)
    requires
        q.source is Playlist,
        q.request_fits(),
    ensures
        q.next_request() matches FetchRequest::PlaylistRange { start, end, .. } ==> {
            &&& start == q.items.len() + 1
            &&& end - start + 1 == q.source->batch_size
        },
{
}

/// A search queue asks for the page after the last one it fetched, and
/// remembers that page once it has been added.
pub proof fn lemma_search_request_is_next_page(q: QueueModel, fetched: Seq<SearchResult>)
    requires
        q.source is Search,
        q.request_fits(),
        !q.has_next_loaded(),
        fetched.len() > 0,
    ensures
        q.next_request() matches FetchRequest::SearchPage { page, .. } ==> {
            &&& page == q.source->page + 1
            &&& q.advance(fetched).1.source->page == page
        },
{
}

/// Once the loaded videos have run out, a non-empty fetch adds every
/// fetched video after the loaded ones, in order, and the first fetched
/// video becomes the current one; when more than one was fetched, the next
/// advance plays the second fetched video without fetching again.
pub proof fn lemma_fetch_keeps_every_fetched_video(q: QueueModel, fetched: Seq<SearchResult>)
    requires
        q.well_formed(),
        !q.has_next_loaded(),
        fetched.len() > 0,
    ensures
        q.advance(fetched).0,
        q.advance(fetched).1.items == q.items + fetched,
        q.advance(fetched).1.items.len() == q.items.len() + fetched.len(),
        q.advance(fetched).1.index == q.items.len(),
        q.advance(fetched).1.items[q.advance(fetched).1.index as int] == fetched[0],
        fetched.len() > 1 ==> {
            let after = q.advance(fetched).1;
            &&& after.has_next_loaded()
            &&& after.advance(Seq::empty()).0
            &&& after.advance(Seq::empty()).1.items == after.items
            &&& after.advance(Seq::empty()).1.items[after.advance(Seq::empty()).1.index as int]
                == fetched[1]
        },
{
    let after = q.advance(fetched).1;
    assert(after.items[q.items.len() as int] == fetched[0]);
    if fetched.len() > 1 {
        assert(after.items[q.items.len() + 1 as int] == fetched[1]);
    }
}

} // verus!
