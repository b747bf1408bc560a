use web_crawler::constants::{initial_url_list, MAX_URLS_TO_PROCESS, THREAD_COUNT};
use web_crawler::entities_system::app_global_state::{
    wrapping_increment, GlobalState, GlobalStateChannelData, UrlData,
};

fn sorted_entries(gs: &GlobalState) -> Vec<(String, bool)> {
    let mut entries = gs.url_entries();
    entries.sort();
    entries
}

#[test]
fn initial_urls_are_the_five_starting_pages() {
    let urls = initial_url_list();
    assert_eq!(
        urls,
        vec![
            "https://www.example.com".to_string(),
            "https://www.rust-lang.org".to_string(),
            "https://www.wikipedia.org".to_string(),
            "https://www.github.com".to_string(),
            "https://www.stackoverflow.com".to_string(),
        ]
    );
}

#[test]
fn new_state_knows_starting_urls_unvisited() {
    let gs = GlobalState::new();
    assert_eq!(gs.visited_count(), 0);
    let entries = sorted_entries(&gs);
    assert_eq!(entries.len(), 5);
    for (url, visited) in &entries {
        assert!(!visited);
        assert!(initial_url_list().contains(url));
    }
    assert!(!gs.is_all_urls_visiting_done());
}

#[test]
fn new_state_prepares_one_receiver_per_thread() {
    let mut gs = GlobalState::new();
    let mut receivers = Vec::new();
    while let Some(rx) = gs.take_receiver() {
        receivers.push(rx);
    }
    assert_eq!(receivers.len() as isize, THREAD_COUNT);
    // Every prepared receiver reads the coordinator's own channel.
    for _ in 0..THREAD_COUNT {
        assert!(gs.send_end_process_signal().is_ok());
    }
    for rx in &receivers {
        assert!(matches!(rx.receiver().try_recv(), Ok(GlobalStateChannelData::EndProcessing)));
    }
}

#[test]
fn send_data_to_producer_hands_out_starting_urls_in_order() {
    let mut gs = GlobalState::new();
    let rx = gs.take_receiver().unwrap();
    assert!(gs.send_data_to_producer().is_ok());
    let mut got = Vec::new();
    while let Ok(msg) = rx.receiver().try_recv() {
        match msg {
            GlobalStateChannelData::ContinueProcessing(data) => got.push(data.0),
            GlobalStateChannelData::EndProcessing => panic!("unexpected end signal"),
        }
    }
    assert_eq!(got, initial_url_list());
    // Nothing is left to hand out a second time.
    assert!(gs.send_data_to_producer().is_ok());
    assert!(rx.receiver().try_recv().is_err());
    // The record itself is unchanged.
    assert_eq!(sorted_entries(&gs).len(), 5);
}

#[test]
fn end_signal_is_delivered_while_a_producer_listens() {
    let mut gs = GlobalState::new();
    let rx = gs.take_receiver().unwrap();
    assert!(gs.send_end_process_signal().is_ok());
    assert!(matches!(rx.receiver().try_recv(), Ok(GlobalStateChannelData::EndProcessing)));
}

#[test]
fn end_signal_comes_back_when_no_producer_listens() {
    let mut gs = GlobalState::new();
    while let Some(rx) = gs.take_receiver() {
        drop(rx);
    }
    let r = gs.send_end_process_signal();
    assert!(matches!(r, Err(GlobalStateChannelData::EndProcessing)));
}

#[test]
fn visiting_done_needs_enough_visits_and_all_visited() {
    let mut gs = GlobalState::new();
    for url in initial_url_list() {
        gs.set_url_data(url, UrlData { visited: true });
    }
    // All visited, but the counter is still 0.
    assert!(!gs.is_all_urls_visiting_done());
    for _ in 0..MAX_URLS_TO_PROCESS - 1 {
        gs.count_visit();
    }
    assert_eq!(gs.visited_count(), MAX_URLS_TO_PROCESS - 1);
    assert!(!gs.is_all_urls_visiting_done());
    gs.count_visit();
    assert!(gs.is_all_urls_visiting_done());
    // A newly known, unvisited URL makes it not done again.
    gs.set_url_data("https://new.example".to_string(), UrlData { visited: false });
    assert!(!gs.is_all_urls_visiting_done());
}

#[test]
fn counter_wraps_like_an_atomic() {
    assert_eq!(wrapping_increment(isize::MAX), isize::MIN);
    assert_eq!(wrapping_increment(5), 6);
    let mut gs = GlobalState::new();
    gs.count_visit();
    assert_eq!(gs.visited_count(), 1);
}

#[test]
fn url_data_reports_known_urls() {
    let mut gs = GlobalState::new();
    assert_eq!(
        gs.url_data(&"https://www.github.com".to_string()),
        Some(UrlData { visited: false })
    );
    assert_eq!(gs.url_data(&"https://nowhere".to_string()), None);
    gs.set_url_data("https://www.github.com".to_string(), UrlData { visited: true });
    assert_eq!(
        gs.url_data(&"https://www.github.com".to_string()),
        Some(UrlData { visited: true })
    );
    assert_eq!(gs.url_entries().len(), 5);
}
