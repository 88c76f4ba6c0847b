//! The crawl queue's items and the parameters of a push.
use crate::file_name::FileName;
use crate::priority::Priority;
use std::collections::HashMap;
use vstd::prelude::*;

verus! {

/// What to enqueue: a page, how urgently, under which key duplicates are
/// recognised (the page name when none is given), and what to carry along.
pub struct QueuePushParameters {
    pub file_name: FileName,
    pub priority: Option<Priority>,
    pub deduplication_key: Option<String>,
    pub correlation_id: Option<String>,
    pub metadata: Option<HashMap<String, String>>,
}

/// Identifies a queue entry: when it was enqueued, in whole seconds since
/// the Unix epoch (UTC), and its deduplication key.
pub struct ItemKey {
    pub enqueue_time: i64,
    pub deduplication_key: String,
}

impl Clone for ItemKey {
    fn clone(&self) -> (res: Self)
        ensures
            res == *self,
    {
        ItemKey { enqueue_time: self.enqueue_time, deduplication_key: self.deduplication_key.clone() }
    }
}

/// An entry of the queue with what was pushed along with it.
pub struct QueueItem {
    pub item_key: ItemKey,
    pub enqueue_time: i64,
    pub deduplication_key: String,
    pub file_name: FileName,
    pub priority: Priority,
    pub correlation_id: Option<String>,
    pub metadata: Option<HashMap<String, String>>,
}

/// An entry that a worker has claimed, with the seconds its claim has left.
pub struct ClaimedQueueItem {
    pub item: QueueItem,
    pub claim_ttl_seconds: u32,
}

} // verus!
