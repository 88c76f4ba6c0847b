//! How urgently a page is wanted.
use crate::text::{has_prefix, starts_with};
use vstd::prelude::*;

verus! {

/// The urgency of a crawl, most urgent first.
#[derive(Clone, Copy, PartialEq, Eq, Structural)]
pub enum Priority {
    Express,
    High,
    Standard,
    Low,
}

impl Default for Priority {
    /// Work with no stated urgency is standard work.
    fn default() -> (res: Self)
        ensures
            res == Priority::Standard,
    {
        Priority::Standard
    }
}

/// The correlation id prefix of crawls that look for albums similar to
/// another one; those crawls wait behind all others.
pub const SIMILAR_ALBUMS_CORRELATION_PREFIX: &'static str = "crawl_similar_albums:";

/// The priority at which to crawl pages found by the work that
/// `correlation_id` names.
pub open spec fn spec_crawl_priority(correlation_id: Option<Seq<char>>) -> Priority {
    match correlation_id {
        Some(cid) => if has_prefix(cid, SIMILAR_ALBUMS_CORRELATION_PREFIX@) {
            Priority::Low
        } else {
            Priority::Standard
        },
        None => Priority::Standard,
    }
}

/// Pages found while crawling for similar albums are crawled at low
/// priority, everything else at standard priority.
pub fn get_crawl_priority(correlation_id: Option<String>) -> (res: Priority)
    ensures
        res == spec_crawl_priority(
            match correlation_id {
                Some(c) => Some(c@),
                None => None,
            },
        ),
{
    match correlation_id {
        Some(cid) => {
            if starts_with(cid.as_str(), SIMILAR_ALBUMS_CORRELATION_PREFIX) {
                Priority::Low
            } else {
                Priority::Standard
            }
        },
        None => Priority::Standard,
    }
}

} // verus!
