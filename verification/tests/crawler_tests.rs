use lute::crawler::crawler::{
    CrawlJobPayload, claim_ttl_seconds, claimed_item_from_job, crawl_job_id, page_url,
    remaining_window_requests, should_throttle,
};
use lute::crawler::crawler_state_repository::{
    CrawlerStateRepository, CrawlerStatus, InvalidStatusValue, throttled_or_default,
    window_request_count_or_default,
};
use lute::crawler::crawler_worker::{
    RETRY_LIMIT, WorkerEvent, WorkerOutcome, WorkerStep, failed_item, worker_next,
};
use lute::crawler::priority_queue::{ItemKey, QueuePushParameters};
use lute::crawler::redis_priority_queue::{
    ItemKeyError, PushDecision, QueueFull, RedisPriorityQueue, ScanStep, deduplication_key,
    item_key_from_parts, parse_item_key_parts, remove_all, scan_step,
};
use lute::file_name::FileName;
use lute::priority::{Priority, get_crawl_priority};

fn params(file: &str, dedup: Option<&str>, priority: Option<Priority>) -> QueuePushParameters {
    QueuePushParameters {
        file_name: FileName(file.to_string()),
        priority,
        deduplication_key: dedup.map(|d| d.to_string()),
        correlation_id: Some("corr".to_string()),
        metadata: None,
    }
}

#[test]
fn status_text_roundtrip() {
    for status in [CrawlerStatus::Paused, CrawlerStatus::Running, CrawlerStatus::Throttled] {
        let text = status.to_string();
        assert!(CrawlerStatus::from_str(text.as_str()) == Ok(status));
    }
    assert_eq!(CrawlerStatus::Running.to_string(), "running");
    assert_eq!(CrawlerStatus::Paused.to_string(), "paused");
    assert_eq!(CrawlerStatus::Throttled.to_string(), "throttled");
}

#[test]
fn status_from_unknown_text_is_refused() {
    assert!(CrawlerStatus::from_str("Running") == Err(InvalidStatusValue));
    assert!(CrawlerStatus::from_str("") == Err(InvalidStatusValue));
    assert!(CrawlerStatus::from_str("draining") == Err(InvalidStatusValue));
}

#[test]
fn stored_state_defaults() {
    assert!(!throttled_or_default(None));
    assert!(throttled_or_default(Some(true)));
    assert!(!throttled_or_default(Some(false)));
    assert_eq!(window_request_count_or_default(None), 0);
    assert_eq!(window_request_count_or_default(Some(7)), 7);
    let repo = CrawlerStateRepository::new(3u8);
    assert_eq!(repo.kv, 3u8);
}

#[test]
fn item_key_text_and_back() {
    let key = ItemKey { enqueue_time: 1431648000, deduplication_key: "release/album/a/b/".to_string() };
    let text = key.to_string();
    assert_eq!(text, "1431648000:DELIMETER:release/album/a/b/");
    let back = ItemKey::from_str(text.as_str()).ok().unwrap();
    assert_eq!(back.enqueue_time, 1431648000);
    assert_eq!(back.deduplication_key, "release/album/a/b/");
    let negative = ItemKey { enqueue_time: -5, deduplication_key: "k".to_string() };
    assert_eq!(negative.to_string(), "-5:DELIMETER:k");
    let back = ItemKey::from_str("-5:DELIMETER:k").ok().unwrap();
    assert_eq!(back.enqueue_time, -5);
}

#[test]
fn item_key_errors() {
    assert!(matches!(ItemKey::from_str("no delimiter"), Err(ItemKeyError::InvalidMember)));
    assert!(matches!(ItemKey::from_str("1:DELIMETER:a:DELIMETER:b"), Err(ItemKeyError::InvalidMember)));
    assert!(matches!(ItemKey::from_str("x:DELIMETER:a"), Err(ItemKeyError::InvalidNumber)));
    assert!(matches!(ItemKey::from_str(":DELIMETER:a"), Err(ItemKeyError::InvalidNumber)));
    // Far outside chrono's calendar.
    assert!(matches!(
        ItemKey::from_str("9223372036854775807:DELIMETER:a"),
        Err(ItemKeyError::InvalidMember)
    ));
    assert!(matches!(parse_item_key_parts("9223372036854775807:DELIMETER:a"), Ok((9223372036854775807, _))));
    assert!(matches!(item_key_from_parts(1, "a".to_string(), false), Err(ItemKeyError::InvalidMember)));
    assert!(matches!(item_key_from_parts(1, "a".to_string(), true), Ok(ItemKey { enqueue_time: 1, .. })));
}

#[test]
fn item_key_times_within_chronos_calendar() {
    assert!(ItemKey::from_str("-8334601228800:DELIMETER:a").is_ok());
    assert!(matches!(ItemKey::from_str("-8334601228801:DELIMETER:a"), Err(ItemKeyError::InvalidMember)));
    assert!(ItemKey::from_str("8210266876799:DELIMETER:a").is_ok());
    assert!(matches!(ItemKey::from_str("8210266876800:DELIMETER:a"), Err(ItemKeyError::InvalidMember)));
    assert!(chrono::DateTime::from_timestamp(-8334601228800, 0).is_some());
    assert!(chrono::DateTime::from_timestamp(-8334601228801, 0).is_none());
    assert!(chrono::DateTime::from_timestamp(8210266876799, 0).is_some());
    assert!(chrono::DateTime::from_timestamp(8210266876800, 0).is_none());
}

#[test]
fn queue_keys() {
    let queue = RedisPriorityQueue::new((), 10, 60);
    assert_eq!(queue.redis_key(), "crawler:queue");
    assert_eq!(queue.item_set_key(), "crawler:queue:items");
    assert_eq!(queue.claimed_item_key_str("k"), "crawler:queue:claimed:k");
    let key = ItemKey { enqueue_time: 12, deduplication_key: "d".to_string() };
    assert_eq!(queue.claimed_item_key(&key), "crawler:queue:claimed:12:DELIMETER:d");
    assert_eq!(queue.claimed_member("crawler:queue:claimed:12:DELIMETER:d"), "12:DELIMETER:d");
    assert_eq!(remove_all("abcabcx", "abc"), "abcabcx".replace("abc", ""));
    assert_eq!(remove_all("aaa", "aa"), "aaa".replace("aa", ""));
}

#[test]
fn deduplication_key_defaults_to_page_name() {
    assert_eq!(deduplication_key(&params("release/album/x/", None, None)), "release/album/x/");
    assert_eq!(deduplication_key(&params("release/album/x/", Some("dedup"), None)), "dedup");
}

#[test]
fn push_decisions() {
    let queue = RedisPriorityQueue::new((), 2, 60);
    assert!(matches!(queue.decide_push(params("a", None, None), true, 5, 0), Ok(PushDecision::AlreadyQueued)));
    assert!(matches!(queue.decide_push(params("a", None, None), false, 2, 0), Err(QueueFull)));
    match queue.decide_push(params("a", Some("k"), None), false, 1, 99) {
        Ok(PushDecision::Enqueue { member, priority, record }) => {
            assert_eq!(member.enqueue_time, 99);
            assert_eq!(member.deduplication_key, "k");
            assert!(priority == Priority::Standard);
            assert_eq!(record.file_name.0, "a");
            assert_eq!(record.correlation_id, Some("corr".to_string()));
        }
        _ => panic!("expected an enqueue"),
    }
    match queue.decide_push(params("a", None, Some(Priority::Express)), false, 0, 1) {
        Ok(PushDecision::Enqueue { priority, .. }) => assert!(priority == Priority::Express),
        _ => panic!("expected an enqueue"),
    }
}

#[test]
fn scan_steps() {
    assert!(scan_step(0, false, false) == ScanStep::Exhausted);
    assert!(scan_step(0, true, false) == ScanStep::Take);
    assert!(scan_step(3, true, true) == ScanStep::Next(4));
}

#[test]
fn rate_limit_arithmetic() {
    assert_eq!(remaining_window_requests(10, 3), 7);
    assert_eq!(remaining_window_requests(10, 10), 0);
    assert_eq!(remaining_window_requests(10, 12), 0);
    assert!(should_throttle(CrawlerStatus::Running, 8, 2, 10));
    assert!(!should_throttle(CrawlerStatus::Running, 8, 1, 10));
    assert!(!should_throttle(CrawlerStatus::Throttled, 100, 100, 10));
    assert!(should_throttle(CrawlerStatus::Paused, 10, 0, 10));
}

#[test]
fn crawl_jobs() {
    let f = FileName("release/album/x/y/".to_string());
    assert_eq!(page_url(&f), "https://rateyourmusic.com/release/album/x/y/");
    assert_eq!(crawl_job_id(&f), "crawl:release/album/x/y/");
    let job = params("release/album/x/y/", None, None).to_job_parameters();
    assert_eq!(job.id, "crawl:release/album/x/y/");
    assert!(job.priority == Priority::Standard);
    assert!(!job.overwrite_existing);
    assert_eq!(job.payload.correlation_id, Some("corr".to_string()));
    assert_eq!(claim_ttl_seconds(100, Some(160)), 60);
    assert_eq!(claim_ttl_seconds(100, None), 0);
    assert_eq!(claim_ttl_seconds(100, Some(99)), u32::MAX);
    let claimed = claimed_item_from_job(
        "crawl:x".to_string(),
        50,
        Some(80),
        Priority::Low,
        CrawlJobPayload { file_name: FileName("x".to_string()), correlation_id: None },
    );
    assert_eq!(claimed.claim_ttl_seconds, 30);
    assert_eq!(claimed.item.item_key.deduplication_key, "crawl:x");
    assert_eq!(claimed.item.item_key.enqueue_time, 50);
    assert!(claimed.item.metadata.is_none());
}

#[test]
fn crawl_priority_of_correlation() {
    assert!(get_crawl_priority(Some("crawl_similar_albums:abc".to_string())) == Priority::Low);
    assert!(get_crawl_priority(Some("crawl_chart_albums:abc".to_string())) == Priority::Standard);
    assert!(get_crawl_priority(None) == Priority::Standard);
    assert!(Priority::default() == Priority::Standard);
}

fn run(events: Vec<WorkerEvent>) -> WorkerStep {
    let mut step = WorkerStep::EnforceThrottle;
    for e in events {
        step = worker_next(step, e);
    }
    step
}

#[test]
fn worker_paths() {
    let key = || ItemKey { enqueue_time: 1, deduplication_key: "k".to_string() };
    let done = run(vec![
        WorkerEvent::Succeeded,
        WorkerEvent::Status(CrawlerStatus::Running),
        WorkerEvent::Claimed(Some(key())),
        WorkerEvent::Succeeded,
        WorkerEvent::Succeeded,
        WorkerEvent::Succeeded,
    ]);
    assert!(matches!(done, WorkerStep::Finished(WorkerOutcome::Crawled)));
    let paused = run(vec![WorkerEvent::Succeeded, WorkerEvent::Status(CrawlerStatus::Paused)]);
    assert!(matches!(paused, WorkerStep::Finished(WorkerOutcome::Idle)));
    let empty = run(vec![WorkerEvent::Succeeded, WorkerEvent::Status(CrawlerStatus::Running), WorkerEvent::Claimed(None)]);
    assert!(matches!(empty, WorkerStep::Finished(WorkerOutcome::Idle)));
    let retrying = run(claimed_then(&[(false, 5)]));
    assert!(matches!(retrying, WorkerStep::FetchContent(_, 5)));
    let failed = run(claimed_then(&[(false, 6)]));
    match failed {
        WorkerStep::Finished(outcome) => {
            let k = failed_item(outcome).unwrap();
            assert_eq!(k.deduplication_key, "k");
        }
        _ => panic!("expected the attempt to end"),
    }
    let throttle_failed = run(vec![WorkerEvent::Failed]);
    assert!(matches!(throttle_failed, WorkerStep::Finished(WorkerOutcome::Failed(None))));
}

/// The events of an attempt that claims an item, then reports, run by run,
/// `count` successes (`true`) or failures (`false`).
fn claimed_then(runs: &[(bool, usize)]) -> Vec<WorkerEvent> {
    let mut events = vec![
        WorkerEvent::Succeeded,
        WorkerEvent::Status(CrawlerStatus::Running),
        WorkerEvent::Claimed(Some(ItemKey { enqueue_time: 1, deduplication_key: "k".to_string() })),
    ];
    for (ok, count) in runs {
        for _ in 0..*count {
            events.push(if *ok { WorkerEvent::Succeeded } else { WorkerEvent::Failed });
        }
    }
    events
}

#[test]
fn worker_retries_fetch_and_store_five_times() {
    assert!(matches!(run(claimed_then(&[(false, 2), (true, 1)])), WorkerStep::PutFile(_, 0)));
    assert!(matches!(
        run(claimed_then(&[(false, 2), (true, 1), (false, 5), (true, 1)])),
        WorkerStep::DeleteItem(_)
    ));
    assert!(matches!(
        run(claimed_then(&[(false, 5), (true, 1), (false, 5), (true, 2)])),
        WorkerStep::Finished(WorkerOutcome::Crawled)
    ));
    assert!(matches!(
        run(claimed_then(&[(true, 1), (false, 6)])),
        WorkerStep::Finished(WorkerOutcome::Failed(Some(_)))
    ));
    assert_eq!(RETRY_LIMIT, 5);
}

#[test]
fn claims_read_back_as_item_keys() {
    let queue = RedisPriorityQueue::new((), 10, 60);
    let claims = vec![
        "crawler:queue:claimed:10:DELIMETER:a".to_string(),
        "crawler:queue:claimed:-3:DELIMETER:b".to_string(),
    ];
    let keys = queue.claimed_item_keys(&claims).ok().unwrap();
    assert_eq!(keys.len(), 2);
    assert_eq!((keys[0].enqueue_time, keys[0].deduplication_key.as_str()), (10, "a"));
    assert_eq!((keys[1].enqueue_time, keys[1].deduplication_key.as_str()), (-3, "b"));
    let bad = vec![
        "crawler:queue:claimed:10:DELIMETER:a".to_string(),
        "crawler:queue:claimed:ten:DELIMETER:b".to_string(),
    ];
    assert!(matches!(queue.claimed_item_keys(&bad), Err(ItemKeyError::InvalidNumber)));
}

#[test]
fn crawls_of_listed_albums() {
    let chart = FileName("charts/top/album/2001/".to_string());
    let p = lute::albums::album_event_subscribers::chart_album_crawl(
        FileName("release/album/a/".to_string()),
        &chart,
        Some("crawl_similar_albums:x".to_string()),
    );
    assert_eq!(p.file_name.0, "release/album/a/");
    assert!(p.priority == Some(Priority::Low));
    assert_eq!(p.correlation_id, Some("crawl_chart_albums:charts/top/album/2001/".to_string()));
    assert!(p.deduplication_key.is_none() && p.metadata.is_none());
    let artist = FileName("artist/x/".to_string());
    let p = lute::albums::album_event_subscribers::artist_album_crawl(FileName("release/album/b/".to_string()), &artist, None);
    assert!(p.priority == Some(Priority::Standard));
    assert_eq!(p.correlation_id, Some("crawl_artist_albums:artist/x/".to_string()));
    assert_eq!(
        lute::embedding_provider::embedding_provider_event_subscribers::migration_embedding_job_id("openai-default", &artist),
        "migrate_album_embedding:openai-default:artist/x/"
    );
}
