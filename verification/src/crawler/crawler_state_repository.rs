//! The crawler's status and where its state is kept.
use vstd::prelude::*;

verus! {

/// Whether the crawler works through its queue.
#[derive(Clone, Copy, PartialEq, Eq, Structural)]
pub enum CrawlerStatus {
    /// The crawler is not processing the queue.
    Paused,
    /// The crawler is processing the queue and accepts new items.
    Running,
    /// The crawler is not processing the queue because the rate limit has
    /// been exceeded.
    Throttled,
}

/// The text under which a status is stored.
pub open spec fn status_text(status: CrawlerStatus) -> Seq<char> {
    match status {
        CrawlerStatus::Running => "running"@,
        CrawlerStatus::Paused => "paused"@,
        CrawlerStatus::Throttled => "throttled"@,
    }
}

/// The status that a stored text names, if any.
pub open spec fn spec_parse_status(t: Seq<char>) -> Option<CrawlerStatus> {
    if t == "running"@ {
        Some(CrawlerStatus::Running)
    } else if t == "paused"@ {
        Some(CrawlerStatus::Paused)
    } else if t == "throttled"@ {
        Some(CrawlerStatus::Throttled)
    } else {
        None
    }
}

/// A stored text that names no status.
#[derive(Clone, Copy, PartialEq, Eq, Structural)]
pub struct InvalidStatusValue;

impl CrawlerStatus {
    /// The text under which the status is stored.
    pub fn to_string(&self) -> (res: String)
        ensures
            res@ == status_text(*self),
    {
        match self {
            CrawlerStatus::Running => "running".to_owned(),
            CrawlerStatus::Paused => "paused".to_owned(),
            CrawlerStatus::Throttled => "throttled".to_owned(),
        }
    }

    /// Reads a stored status.
    pub fn from_str(s: &str) -> (res: Result<CrawlerStatus, InvalidStatusValue>)
        ensures
            match res {
                Ok(status) => spec_parse_status(s@) == Some(status),
                Err(_) => spec_parse_status(s@) is None,
            },
    {
        let t = s.to_owned();
        if t == "running".to_owned() {
            Ok(CrawlerStatus::Running)
        } else if t == "paused".to_owned() {
            Ok(CrawlerStatus::Paused)
        } else if t == "throttled".to_owned() {
            Ok(CrawlerStatus::Throttled)
        } else {
            Err(InvalidStatusValue)
        }
    }
}

/// Reading back the text of a status gives the status: the stored texts
/// of the three statuses are distinct and each names its own status.
pub proof fn lemma_status_text_roundtrip(status: CrawlerStatus)
    ensures
        spec_parse_status(status_text(status)) == Some(status),
{
    reveal_strlit("running");
    reveal_strlit("paused");
    reveal_strlit("throttled");
    assert("running"@[0] != "paused"@[0]);
    assert("running"@[0] != "throttled"@[0]);
    assert("paused"@ != "throttled"@);
}

/// The key under which the throttle flag is stored.
pub const THROTTLED_KEY: &'static str = "crawler:throttled";

/// The key under which the number of requests of the current rate-limit
/// window is stored.
pub const WINDOW_REQUEST_COUNT_KEY: &'static str = "crawler:window_request_count";

/// The crawler's state in a key-value store `K`: the throttle flag and the
/// number of requests made in the current window.
pub struct CrawlerStateRepository<K> {
    pub kv: K,
}

impl<K> CrawlerStateRepository<K> {
    /// A repository over the store `kv`.
    pub fn new(kv: K) -> (res: Self)
        ensures
            res.kv == kv,
    {
        Self { kv }
    }
}

/// A stored throttle flag; none stored means not throttled.
pub fn throttled_or_default(stored: Option<bool>) -> (res: bool)
    ensures
        res == (stored == Some(true)),
{
    match stored {
        Some(b) => b,
        None => false,
    }
}

/// A stored window request count; none stored means no request yet.
pub fn window_request_count_or_default(stored: Option<u32>) -> (res: u32)
    ensures
        res == match stored {
            Some(n) => n,
            None => 0,
        },
{
    match stored {
        Some(n) => n,
        None => 0,
    }
}

} // verus!
