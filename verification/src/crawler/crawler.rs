//! The crawler's rate limiting and the jobs through which it crawls.
use crate::crawler::crawler_state_repository::CrawlerStatus;
use crate::crawler::priority_queue::{ClaimedQueueItem, ItemKey, QueueItem, QueuePushParameters};
use crate::file_name::FileName;
use crate::priority::Priority;
use crate::text::push_str;
use vstd::prelude::*;

verus! {

/// What a crawl job carries: the page and the work it belongs to.
pub struct CrawlJobPayload {
    pub file_name: FileName,
    pub correlation_id: Option<String>,
}

/// How to schedule the crawl of a page: the job's id, its payload, its
/// priority and whether an existing job of that id is replaced.
pub struct CrawlJobParameters {
    pub id: String,
    pub payload: CrawlJobPayload,
    pub priority: Priority,
    pub overwrite_existing: bool,
}

/// What the crawler reports of itself.
pub struct CrawlerMonitor {
    pub status: CrawlerStatus,
    pub size: u32,
    pub claimed_item_count: u32,
    pub claimed_items: Vec<ClaimedQueueItem>,
    pub remaining_window_requests: u32,
    pub window_request_count: u32,
}

/// The site whose pages are crawled.
pub const SITE_URL: &'static str = "https://rateyourmusic.com/";

/// What precedes a page name in the id of its crawl job.
pub const CRAWL_JOB_ID_PREFIX: &'static str = "crawl:";

/// The address of a page.
pub fn page_url(file_name: &FileName) -> (res: String)
    ensures
        res@ == SITE_URL@ + file_name@,
{
    let mut s = String::new();
    push_str(&mut s, SITE_URL);
    push_str(&mut s, file_name.0.as_str());
    proof {
        assert(s@ =~= SITE_URL@ + file_name@);
    }
    s
}

/// The id of the crawl job of a page; one page has at most one such job.
pub fn crawl_job_id(file_name: &FileName) -> (res: String)
    ensures
        res@ == CRAWL_JOB_ID_PREFIX@ + file_name@,
{
    let mut s = String::new();
    push_str(&mut s, CRAWL_JOB_ID_PREFIX);
    push_str(&mut s, file_name.0.as_str());
    proof {
        assert(s@ =~= CRAWL_JOB_ID_PREFIX@ + file_name@);
    }
    s
}

impl QueuePushParameters {
    /// The job that crawls the pushed page. A page already scheduled keeps
    /// its job; the priority defaults to standard.
    pub fn to_job_parameters(self) -> (res: CrawlJobParameters)
        ensures
            res.id@ == CRAWL_JOB_ID_PREFIX@ + self.file_name@,
            res.payload.file_name@ == self.file_name@,
            res.payload.correlation_id == self.correlation_id,
            res.priority == match self.priority {
                Some(p) => p,
                None => Priority::Standard,
            },
            !res.overwrite_existing,
    {
        let id = crawl_job_id(&self.file_name);
        let priority = match self.priority {
            Some(p) => p,
            None => Priority::Standard,
        };
        CrawlJobParameters {
            id,
            payload: CrawlJobPayload { file_name: self.file_name, correlation_id: self.correlation_id },
            priority,
            overwrite_existing: false,
        }
    }
}

/// The requests left in the current window: the limit less the requests
/// made, and none once the limit is reached.
pub fn remaining_window_requests(max_requests: u32, window_request_count: u32) -> (res: u32)
    ensures
        res == if window_request_count <= max_requests {
            (max_requests - window_request_count) as u32
        } else {
            0
        },
{
    max_requests.saturating_sub(window_request_count)
}

/// Whether the crawler must now be throttled: it is not throttled already,
/// and the requests of the window together with the claimed crawls reach
/// the limit.
pub fn should_throttle(
    status: CrawlerStatus,
    window_request_count: u32,
    claimed_count: u32,
    max_requests: u32,
) -> (res: bool)
    requires
        window_request_count + claimed_count <= u32::MAX,
    ensures
        res == (status != CrawlerStatus::Throttled && window_request_count + claimed_count
            >= max_requests),
{
    if status == CrawlerStatus::Throttled {
        return false;
    }
    let total = window_request_count + claimed_count;
    total >= max_requests
}

/// How long a claimed job has been claimed, in seconds as a `u32` (the
/// difference truncated as Rust's `as` does), or 0 for an unclaimed one.
pub fn claim_ttl_seconds(created_at: i64, claimed_at: Option<i64>) -> (res: u32)
    requires
        match claimed_at {
            Some(c) => i64::MIN <= c - created_at <= i64::MAX,
            None => true,
        },
    ensures
        res == match claimed_at {
            Some(c) => (c - created_at) as u32,
            None => 0,
        },
{
    match claimed_at {
        Some(c) => {
            let d: i64 = c - created_at;
            d as u32
        },
        None => 0,
    }
}

/// The queue entry that a claimed crawl job stands for: keyed by the job's
/// creation time and id, with the payload's page and correlation id.
pub fn claimed_item_from_job(
    id: String,
    created_at: i64,
    claimed_at: Option<i64>,
    priority: Priority,
    payload: CrawlJobPayload,
) -> (res: ClaimedQueueItem)
    requires
        match claimed_at {
            Some(c) => i64::MIN <= c - created_at <= i64::MAX,
            None => true,
        },
    ensures
        res.item.item_key.enqueue_time == created_at,
        res.item.item_key.deduplication_key@ == id@,
        res.item.enqueue_time == created_at,
        res.item.deduplication_key@ == id@,
        res.item.file_name@ == payload.file_name@,
        res.item.priority == priority,
        res.item.correlation_id == payload.correlation_id,
        res.item.metadata is None,
        res.claim_ttl_seconds == match claimed_at {
            Some(c) => (c - created_at) as u32,
            None => 0,
        },
{
    let ttl = claim_ttl_seconds(created_at, claimed_at);
    ClaimedQueueItem {
        item: QueueItem {
            item_key: ItemKey { enqueue_time: created_at, deduplication_key: id.clone() },
            enqueue_time: created_at,
            deduplication_key: id,
            file_name: payload.file_name,
            priority,
            correlation_id: payload.correlation_id,
            metadata: None,
        },
        claim_ttl_seconds: ttl,
    }
}

} // verus!
