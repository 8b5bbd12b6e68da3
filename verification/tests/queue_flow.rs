use custom_yt::browse::{
    page_after_choice, page_of_results, page_outcome, playlist_selection, result_range,
    search_choice, search_page_limit, PageOutcome, PlaylistSelection, SearchChoice,
};
use custom_yt::queue::{AdvanceStep, FetchRequest, PlaybackQueue, QueueSource, SearchResult};

fn video(title: &str, id: &str) -> SearchResult {
    SearchResult {
        title: title.to_string(),
        id: id.to_string(),
    }
}

#[test]
fn test_playback_queue_current() {
    let items = vec![
        SearchResult {
            title: "Video 1".to_string(),
            id: "id1".to_string(),
        },
        SearchResult {
            title: "Video 2".to_string(),
            id: "id2".to_string(),
        },
    ];
    let queue = PlaybackQueue {
        items,
        index: 0,
        source: QueueSource::Search {
            query: "test".to_string(),
            page: 1,
            page_size: 10,
        },
    };
    assert_eq!(queue.current().title, "Video 1");
    assert_eq!(queue.current().id, "id1");
}

#[test]
fn test_playback_queue_try_advance_in_memory() {
    let items = vec![
        SearchResult {
            title: "Video 1".to_string(),
            id: "id1".to_string(),
        },
        SearchResult {
            title: "Video 2".to_string(),
            id: "id2".to_string(),
        },
    ];
    let mut queue = PlaybackQueue {
        items,
        index: 0,
        source: QueueSource::Search {
            query: "test".to_string(),
            page: 1,
            page_size: 10,
        },
    };

    // The next video is loaded, so nothing is fetched.
    let advanced = matches!(queue.advance_loaded(), AdvanceStep::Advanced);
    assert!(advanced);
    assert_eq!(queue.index, 1);
    assert_eq!(queue.current().title, "Video 2");
}

#[test]
fn exhausted_search_queue_asks_for_next_page() {
    let mut queue = PlaybackQueue::from_search(
        vec![video("A", "a"), video("B", "b")],
        1,
        "cats".to_string(),
        3,
        10,
    );
    match queue.advance_loaded() {
        AdvanceStep::Fetch(FetchRequest::SearchPage { query, page, page_size }) => {
            assert_eq!(query, "cats");
            assert_eq!(page, 4);
            assert_eq!(page_size, 10);
        }
        _ => panic!("expected a search page request"),
    }
    assert_eq!(queue.index, 1);
    assert!(queue.accept_fetched(vec![video("C", "c")]));
    assert_eq!(queue.index, 2);
    assert_eq!(queue.items.len(), 3);
    assert_eq!(queue.current().id, "c");
    match &queue.source {
        QueueSource::Search { page, .. } => assert_eq!(*page, 4),
        _ => panic!("source changed kind"),
    }
}

#[test]
fn exhausted_queue_with_nothing_more_stays() {
    let mut queue = PlaybackQueue::from_search(vec![video("A", "a")], 0, "q".to_string(), 1, 10);
    assert!(matches!(queue.advance_loaded(), AdvanceStep::Fetch(_)));
    assert!(!queue.accept_fetched(Vec::new()));
    assert_eq!(queue.index, 0);
    assert_eq!(queue.items.len(), 1);
    match &queue.source {
        QueueSource::Search { page, .. } => assert_eq!(*page, 1),
        _ => panic!("source changed kind"),
    }
}

#[test]
fn exhausted_playlist_queue_asks_for_next_batch() {
    let items: Vec<SearchResult> = (0..15).map(|i| video("t", &format!("id{i}"))).collect();
    let mut queue = PlaybackQueue::from_playlist(items, 14, "https://x/list=1".to_string(), 15);
    match queue.advance_loaded() {
        AdvanceStep::Fetch(FetchRequest::PlaylistRange { url, start, end }) => {
            assert_eq!(url, "https://x/list=1");
            assert_eq!(start, 16);
            assert_eq!(end, 30);
        }
        _ => panic!("expected a playlist range request"),
    }
    assert!(queue.accept_fetched(vec![video("n", "id15")]));
    assert_eq!(queue.current().id, "id15");
    assert_eq!(queue.items[0].id, "id0");
}

#[test]
fn page_outcomes() {
    assert_eq!(page_outcome(1, 0), PageOutcome::NoResults);
    assert_eq!(page_outcome(3, 0), PageOutcome::BackTo { page: 2 });
    assert_eq!(page_outcome(3, 5), PageOutcome::Show);
}

#[test]
fn result_numbers_of_a_page() {
    assert_eq!(result_range(1, 10, 10), (1, 10));
    assert_eq!(result_range(3, 10, 4), (21, 24));
}

#[test]
fn search_choices() {
    assert_eq!(search_choice("n", 1, 10), SearchChoice::NextPage);
    assert_eq!(search_choice("N", 1, 10), SearchChoice::NextPage);
    assert_eq!(search_choice("p", 1, 10), SearchChoice::AlreadyFirstPage);
    assert_eq!(search_choice("P", 2, 10), SearchChoice::PreviousPage);
    assert_eq!(search_choice("q", 2, 10), SearchChoice::Quit);
    assert_eq!(search_choice("3", 2, 10), SearchChoice::Select(2));
    assert_eq!(search_choice("+10", 2, 10), SearchChoice::Select(9));
    assert_eq!(search_choice("11", 2, 10), SearchChoice::Invalid);
    assert_eq!(search_choice("0", 2, 10), SearchChoice::Invalid);
    assert_eq!(search_choice("nn", 2, 10), SearchChoice::Invalid);
    assert_eq!(page_after_choice(2, SearchChoice::NextPage), 3);
    assert_eq!(page_after_choice(2, SearchChoice::PreviousPage), 1);
    assert_eq!(page_after_choice(2, SearchChoice::Invalid), 2);
}

#[test]
fn playlist_selections() {
    assert_eq!(playlist_selection("Q", 5), PlaylistSelection::Quit);
    assert_eq!(playlist_selection("1", 5), PlaylistSelection::Chosen(0));
    assert_eq!(playlist_selection("5", 5), PlaylistSelection::Chosen(4));
    assert_eq!(playlist_selection("6", 5), PlaylistSelection::Invalid);
    assert_eq!(playlist_selection("x", 5), PlaylistSelection::Invalid);
}

#[test]
fn search_page_limits() {
    assert_eq!(search_page_limit(3, 10), Some(30));
    assert_eq!(search_page_limit(usize::MAX, 2), None);
}

#[test]
fn pages_are_cut_from_all_results() {
    let all: Vec<SearchResult> = (0..25).map(|i| video("t", &format!("{i}"))).collect();
    let p3 = page_of_results(all, 3, 10);
    assert_eq!(p3.len(), 5);
    assert_eq!(p3[0].id, "20");
    assert_eq!(p3[4].id, "24");
    let all: Vec<SearchResult> = (0..25).map(|i| video("t", &format!("{i}"))).collect();
    let p2 = page_of_results(all, 2, 10);
    assert_eq!(p2.len(), 10);
    assert_eq!(p2[0].id, "10");
    let all: Vec<SearchResult> = (0..20).map(|i| video("t", &format!("{i}"))).collect();
    assert!(page_of_results(all, 3, 10).is_empty());
}
