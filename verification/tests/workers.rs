use web_crawler::channel::open_channel;
use web_crawler::entities_system::app_global_state::{
    GlobalState, GlobalStateChannelData, GuardedUrlDataType, UrlData,
};
use web_crawler::entities_system::consumer::consumer_task::ConsumerTask;
use web_crawler::entities_system::producer::producer_task::{settle_report, ProducerStep, ProducerTask};
use web_crawler::entities_system::producer::{
    decimal_string, producer_thread_name, Message, NewUrls, ProducerChannelData, ProducerErr, UrlPool,
};

fn pool_contents(pool: &mut UrlPool) -> Vec<String> {
    // Drains a pool, returning its URLs from first to last.
    let mut out = Vec::new();
    loop {
        let found = pool.get_new_urls_two_values();
        if found.urls1.is_none() {
            assert!(found.urls2.is_none());
            break;
        }
        out.push(found.urls1.unwrap());
        if let Some(u) = found.urls2 {
            out.push(u);
        }
    }
    out.reverse();
    out
}

fn report(urls1: Option<&str>, urls2: Option<&str>, url: &str, words: usize) -> ProducerChannelData {
    ProducerChannelData::ContinueProcessing(
        NewUrls { urls1: urls1.map(|s| s.to_string()), urls2: urls2.map(|s| s.to_string()) },
        Message { url: url.to_string(), words },
    )
}

#[test]
fn thread_names_are_numbered() {
    assert_eq!(producer_thread_name(0), "Producer thread 0");
    assert_eq!(producer_thread_name(3), "Producer thread 3");
    assert_eq!(producer_thread_name(42), "Producer thread 42");
    assert_eq!(decimal_string(1907), "1907");
}

#[test]
fn pool_starts_with_fifteen_urls() {
    let mut pool = UrlPool::new();
    assert_eq!(pool.len(), 15);
    let urls = pool_contents(&mut pool);
    assert_eq!(urls.len(), 15);
    assert_eq!(urls[0], "https://www.example2.com");
    assert_eq!(urls[14], "https://www.stackoverflow4.com");
}

#[test]
fn taking_two_takes_from_the_end() {
    let mut pool = UrlPool::new();
    let found = pool.get_new_urls_two_values();
    assert_eq!(found.urls1.as_deref(), Some("https://www.stackoverflow4.com"));
    assert_eq!(found.urls2.as_deref(), Some("https://www.github4.com"));
    assert_eq!(pool.len(), 13);
}

#[test]
fn taking_from_a_single_url_pool() {
    let mut pool = UrlPool::new();
    let _ = pool_contents(&mut pool);
    pool.new_urls_add(vec!["https://only".to_string()]);
    let found = pool.get_new_urls_two_values();
    assert_eq!(found.urls1.as_deref(), Some("https://only"));
    assert_eq!(found.urls2, None);
    let found = pool.get_new_urls_two_values();
    assert!(found.urls1.is_none() && found.urls2.is_none());
    assert_eq!(pool.len(), 0);
}

#[test]
fn new_urls_add_appends_in_order() {
    let mut pool = UrlPool::new();
    let _ = pool_contents(&mut pool);
    pool.new_urls_add(vec!["a".to_string(), "b".to_string(), "c".to_string()]);
    assert_eq!(pool_contents(&mut pool), vec!["a", "b", "c"]);
}

#[test]
fn producer_tasks_limited_by_receivers() {
    let mut gs = GlobalState::new();
    let (tx, _rx) = open_channel::<ProducerChannelData>();
    for i in 0..4 {
        let task = ProducerTask::new(&mut gs, tx.duplicate(), producer_thread_name(i));
        assert!(task.is_ok());
        assert_eq!(task.unwrap().name(), &format!("Producer thread {}", i));
    }
    let fifth = ProducerTask::new(&mut gs, tx.duplicate(), producer_thread_name(4));
    assert!(matches!(fifth, Err(ProducerErr::GlobalStateRxNoneErr)));
}

#[test]
fn producer_task_reads_the_coordinators_channel() {
    let mut gs = GlobalState::new();
    let (tx, _rx) = open_channel::<ProducerChannelData>();
    let task = ProducerTask::new(&mut gs, tx, "p".to_string()).unwrap();
    assert!(gs.send_data_to_producer().is_ok());
    match task.receiver().receiver().try_recv() {
        Ok(GlobalStateChannelData::ContinueProcessing(data)) => assert_eq!(data.0, "https://www.example.com"),
        _ => panic!("expected the first starting URL"),
    }
}

#[test]
fn successful_crawl_marks_url_once_and_reports_page() {
    let mut gs = GlobalState::new();
    let (tx, rx) = open_channel::<ProducerChannelData>();
    let mut task = ProducerTask::new(&mut gs, tx, "p".to_string()).unwrap();
    let mut pool = UrlPool::new();
    let url = "https://www.example.com".to_string();

    let r = task.update_received_data(&mut gs, &mut pool, GuardedUrlDataType(url.clone()));
    assert_eq!(r, Ok(()));
    assert_eq!(gs.url_data(&url), Some(UrlData { visited: true }));
    assert_eq!(gs.visited_count(), 1);
    assert_eq!(pool.len(), 13);
    match rx.receiver().try_recv() {
        Ok(ProducerChannelData::ContinueProcessing(found, page)) => {
            assert_eq!(found.urls1.as_deref(), Some("https://www.stackoverflow4.com"));
            assert_eq!(found.urls2.as_deref(), Some("https://www.github4.com"));
            assert_eq!(page.url, url);
            assert_eq!(page.words, url.chars().count());
        }
        _ => panic!("expected a report"),
    }

    // Crawling the same URL again does not count it again.
    let r = task.update_received_data(&mut gs, &mut pool, GuardedUrlDataType(url.clone()));
    assert_eq!(r, Ok(()));
    assert_eq!(gs.visited_count(), 1);
    assert_eq!(pool.len(), 11);

    // An unknown URL is not recorded and not counted.
    let unknown = "https://unknown".to_string();
    let r = task.update_received_data(&mut gs, &mut pool, GuardedUrlDataType(unknown.clone()));
    assert_eq!(r, Ok(()));
    assert_eq!(gs.url_data(&unknown), None);
    assert_eq!(gs.visited_count(), 1);
}

#[test]
fn refused_report_puts_urls_back_and_counts_nothing() {
    let mut gs = GlobalState::new();
    let (tx, rx) = open_channel::<ProducerChannelData>();
    drop(rx);
    let mut task = ProducerTask::new(&mut gs, tx, "p".to_string()).unwrap();
    let mut pool = UrlPool::new();
    let url = "https://www.example.com".to_string();

    let r = task.update_received_data(&mut gs, &mut pool, GuardedUrlDataType(url.clone()));
    assert_eq!(r, Err("Fail to send producer value".to_string()));
    assert_eq!(gs.visited_count(), 0);
    assert_eq!(gs.url_data(&url), Some(UrlData { visited: false }));
    let urls = pool_contents(&mut pool);
    assert_eq!(urls.len(), 15);
    // The two taken URLs come back, the first taken first.
    assert_eq!(urls[13], "https://www.stackoverflow4.com");
    assert_eq!(urls[14], "https://www.github4.com");
}

#[test]
fn empty_pool_discovers_fake_pages() {
    let mut gs = GlobalState::new();
    let (tx, rx) = open_channel::<ProducerChannelData>();
    let mut task = ProducerTask::new(&mut gs, tx, "p".to_string()).unwrap();
    let mut pool = UrlPool::new();
    let _ = pool_contents(&mut pool);
    let url = "https://www.github.com".to_string();
    let r = task.update_received_data(&mut gs, &mut pool, GuardedUrlDataType(url.clone()));
    assert_eq!(r, Ok(()));
    match rx.receiver().try_recv() {
        Ok(ProducerChannelData::ContinueProcessing(found, page)) => {
            assert_eq!(found.urls1.as_deref(), Some("https://www.github.com/page1"));
            assert_eq!(found.urls2.as_deref(), Some("https://www.github.com/page2"));
            assert_eq!(page.url, url);
        }
        _ => panic!("expected a report"),
    }
    assert_eq!(gs.url_data(&url), Some(UrlData { visited: true }));
    assert_eq!(gs.visited_count(), 1);
    assert_eq!(pool.len(), 0);
}

#[test]
fn refused_fake_pages_go_to_the_pool() {
    let mut gs = GlobalState::new();
    let (tx, rx) = open_channel::<ProducerChannelData>();
    drop(rx);
    let mut task = ProducerTask::new(&mut gs, tx, "p".to_string()).unwrap();
    let mut pool = UrlPool::new();
    let _ = pool_contents(&mut pool);
    let r = task.update_received_data(&mut gs, &mut pool, GuardedUrlDataType("https://x".to_string()));
    assert_eq!(r, Err("Fail to send producer value".to_string()));
    assert_eq!(pool_contents(&mut pool), vec!["https://x/page1", "https://x/page2"]);
}

#[test]
fn no_fake_pages_once_enough_urls_are_known() {
    let mut gs = GlobalState::new();
    for i in 0..45 {
        gs.set_url_data(format!("https://known/{}", i), UrlData { visited: false });
    }
    assert_eq!(gs.known_url_count(), 50);
    let (tx, rx) = open_channel::<ProducerChannelData>();
    let mut task = ProducerTask::new(&mut gs, tx, "p".to_string()).unwrap();
    let mut pool = UrlPool::new();
    let _ = pool_contents(&mut pool);
    let r = task.update_received_data(
        &mut gs,
        &mut pool,
        GuardedUrlDataType("https://www.github.com".to_string()),
    );
    assert_eq!(r, Ok(()));
    match rx.receiver().try_recv() {
        Ok(ProducerChannelData::ContinueProcessing(found, _)) => {
            assert_eq!(found.urls1, None);
            assert_eq!(found.urls2, None);
        }
        _ => panic!("expected a report"),
    }
}

#[test]
fn producer_handle_message_end_and_work() {
    let mut gs = GlobalState::new();
    let (tx, _rx) = open_channel::<ProducerChannelData>();
    let mut task = ProducerTask::new(&mut gs, tx, "p".to_string()).unwrap();
    let mut pool = UrlPool::new();
    let step = task.handle_message(&mut gs, &mut pool, GlobalStateChannelData::EndProcessing);
    assert!(matches!(step, ProducerStep::Finished));
    assert_eq!(pool.len(), 15);
    let step = task.handle_message(
        &mut gs,
        &mut pool,
        GlobalStateChannelData::ContinueProcessing(GuardedUrlDataType("https://www.github.com".to_string())),
    );
    assert!(matches!(step, ProducerStep::Processed(Ok(()))));
    assert_eq!(gs.visited_count(), 1);
}

#[test]
fn consumer_registers_new_urls_queues_them_and_counts_words() {
    let mut gs = GlobalState::new();
    let rx = gs.take_receiver().unwrap();
    let (_ptx, prx) = open_channel::<ProducerChannelData>();
    let mut task = ConsumerTask::new(&gs, prx).unwrap();
    assert_eq!(task.total_words(), 0);

    let keep = task.handle_message(&mut gs, report(Some("https://a"), Some("https://www.github.com"), "https://p", 7));
    assert!(keep);
    assert_eq!(task.total_words(), 7);
    assert_eq!(gs.url_data(&"https://a".to_string()), Some(UrlData { visited: false }));
    assert_eq!(gs.url_entries().len(), 6);
    // Only the new URL is queued for the producers.
    match rx.receiver().try_recv() {
        Ok(GlobalStateChannelData::ContinueProcessing(data)) => assert_eq!(data.0, "https://a"),
        _ => panic!("expected the new URL"),
    }
    assert!(rx.receiver().try_recv().is_err());

    let keep = task.handle_message(&mut gs, report(None, None, "https://q", 5));
    assert!(keep);
    assert_eq!(task.total_words(), 12);
}

#[test]
fn consumer_word_total_saturates() {
    let mut gs = GlobalState::new();
    let (_ptx, prx) = open_channel::<ProducerChannelData>();
    let mut task = ConsumerTask::new(&gs, prx).unwrap();
    task.handle_message(&mut gs, report(None, None, "https://p", usize::MAX - 1));
    task.handle_message(&mut gs, report(None, None, "https://q", 5));
    assert_eq!(task.total_words(), usize::MAX);
}

#[test]
fn consumer_does_not_reset_visited_urls() {
    let mut gs = GlobalState::new();
    let (_ptx, prx) = open_channel::<ProducerChannelData>();
    let mut task = ConsumerTask::new(&gs, prx).unwrap();
    let url = "https://www.github.com".to_string();
    gs.set_url_data(url.clone(), UrlData { visited: true });
    assert!(!task.insert_new_value(&mut gs, url.clone()));
    assert_eq!(gs.url_data(&url), Some(UrlData { visited: true }));
    assert!(task.insert_new_value(&mut gs, "https://b".to_string()));
    assert!(!task.insert_new_value(&mut gs, "https://b".to_string()));
    assert_eq!(gs.url_entries().len(), 6);
}

#[test]
fn consumer_queues_a_repeated_url_once() {
    let mut gs = GlobalState::new();
    let rx = gs.take_receiver().unwrap();
    let (_ptx, prx) = open_channel::<ProducerChannelData>();
    let mut task = ConsumerTask::new(&gs, prx).unwrap();
    task.handle_message(&mut gs, report(Some("https://c"), Some("https://c"), "https://p", 1));
    task.handle_message(&mut gs, report(Some("https://c"), None, "https://p", 1));
    let mut queued = Vec::new();
    while let Ok(GlobalStateChannelData::ContinueProcessing(data)) = rx.receiver().try_recv() {
        queued.push(data.0);
    }
    assert_eq!(queued, vec!["https://c".to_string()]);
}

#[test]
fn consumer_stops_on_end_signal() {
    let mut gs = GlobalState::new();
    let (_ptx, prx) = open_channel::<ProducerChannelData>();
    let mut task = ConsumerTask::new(&gs, prx).unwrap();
    assert!(!task.handle_message(&mut gs, ProducerChannelData::EndProcessing));
    assert_eq!(task.total_words(), 0);
    assert_eq!(gs.url_entries().len(), 5);
}

#[test]
fn counter_matches_visited_urls_after_crawls() {
    let mut gs = GlobalState::new();
    let (tx, _rx) = open_channel::<ProducerChannelData>();
    let mut task = ProducerTask::new(&mut gs, tx, "p".to_string()).unwrap();
    let mut pool = UrlPool::new();
    for url in ["https://www.example.com", "https://www.github.com", "https://www.example.com"] {
        let r = task.update_received_data(&mut gs, &mut pool, GuardedUrlDataType(url.to_string()));
        assert_eq!(r, Ok(()));
    }
    let visited = gs.url_entries().iter().filter(|(_, v)| *v).count();
    assert_eq!(visited, 2);
    assert_eq!(gs.visited_count(), 2);
}

#[test]
fn settle_report_refills_pool_only_on_refusal() {
    let mut pool = UrlPool::new();
    let _ = pool_contents(&mut pool);
    assert_eq!(settle_report(&mut pool, Ok(())), Ok(()));
    assert_eq!(pool.len(), 0);
    let r = settle_report(&mut pool, Err(report(Some("https://a"), Some("https://b"), "https://p", 3)));
    assert_eq!(r, Err("Fail to send producer value".to_string()));
    let r = settle_report(&mut pool, Err(report(None, Some("https://c"), "https://p", 3)));
    assert!(r.is_err());
    let r = settle_report(&mut pool, Err(ProducerChannelData::EndProcessing));
    assert!(r.is_err());
    assert_eq!(pool_contents(&mut pool), vec!["https://a", "https://b", "https://c"]);
}
