//! The decisions of a crawler worker's attempt: enforce the throttle, read
//! the status, claim an item, fetch its page, store it and delete the item.
//! Fetching and storing are retried up to five times after a failure (the
//! application waits a Fibonacci backoff between tries). The application
//! performs each step and reports how it went.
use crate::crawler::crawler_state_repository::CrawlerStatus;
use crate::crawler::priority_queue::ItemKey;
use vstd::prelude::*;

verus! {

/// How an attempt ended.
pub enum WorkerOutcome {
    /// Nothing to do: the crawler is not running or the queue is empty.
    Idle,
    /// A page was fetched, stored and its item deleted.
    Crawled,
    /// A step failed; after a claim, the claimed item is named so that its
    /// failure can be handled.
    Failed(Option<ItemKey>),
}

/// The step an attempt is at. A fetch or store step carries how many of its
/// tries have failed so far.
pub enum WorkerStep {
    EnforceThrottle,
    GetStatus,
    ClaimItem,
    FetchContent(ItemKey, u32),
    PutFile(ItemKey, u32),
    DeleteItem(ItemKey),
    Finished(WorkerOutcome),
}

/// What the application reports of the step it performed.
pub enum WorkerEvent {
    Succeeded,
    Failed,
    Status(CrawlerStatus),
    Claimed(Option<ItemKey>),
}

/// How many times a failed fetch or store is tried again.
pub const RETRY_LIMIT: u32 = 5;

/// The step that follows `step` once `event` is reported.
pub open spec fn spec_worker_next(step: WorkerStep, event: WorkerEvent) -> WorkerStep {
    match step {
        WorkerStep::EnforceThrottle => match event {
            WorkerEvent::Failed => WorkerStep::Finished(WorkerOutcome::Failed(None)),
            _ => WorkerStep::GetStatus,
        },
        WorkerStep::GetStatus => match event {
            WorkerEvent::Status(CrawlerStatus::Running) => WorkerStep::ClaimItem,
            WorkerEvent::Status(_) => WorkerStep::Finished(WorkerOutcome::Idle),
            _ => WorkerStep::Finished(WorkerOutcome::Failed(None)),
        },
        WorkerStep::ClaimItem => match event {
            WorkerEvent::Claimed(Some(k)) => WorkerStep::FetchContent(k, 0),
            WorkerEvent::Claimed(None) => WorkerStep::Finished(WorkerOutcome::Idle),
            _ => WorkerStep::Finished(WorkerOutcome::Failed(None)),
        },
        WorkerStep::FetchContent(k, n) => match event {
            WorkerEvent::Succeeded => WorkerStep::PutFile(k, 0),
            _ => if n < RETRY_LIMIT {
                WorkerStep::FetchContent(k, (n + 1) as u32)
            } else {
                WorkerStep::Finished(WorkerOutcome::Failed(Some(k)))
            },
        },
        WorkerStep::PutFile(k, n) => match event {
            WorkerEvent::Succeeded => WorkerStep::DeleteItem(k),
            _ => if n < RETRY_LIMIT {
                WorkerStep::PutFile(k, (n + 1) as u32)
            } else {
                WorkerStep::Finished(WorkerOutcome::Failed(Some(k)))
            },
        },
        WorkerStep::DeleteItem(k) => match event {
            WorkerEvent::Succeeded => WorkerStep::Finished(WorkerOutcome::Crawled),
            _ => WorkerStep::Finished(WorkerOutcome::Failed(Some(k))),
        },
        WorkerStep::Finished(o) => WorkerStep::Finished(o),
    }
}

/// The step that follows `step` once `event` is reported.
pub fn worker_next(step: WorkerStep, event: WorkerEvent) -> (res: WorkerStep)
    ensures
        res == spec_worker_next(step, event),
{
    match step {
        WorkerStep::EnforceThrottle => match event {
            WorkerEvent::Failed => WorkerStep::Finished(WorkerOutcome::Failed(None)),
            _ => WorkerStep::GetStatus,
        },
        WorkerStep::GetStatus => match event {
            WorkerEvent::Status(CrawlerStatus::Running) => WorkerStep::ClaimItem,
            WorkerEvent::Status(_) => WorkerStep::Finished(WorkerOutcome::Idle),
            _ => WorkerStep::Finished(WorkerOutcome::Failed(None)),
        },
        WorkerStep::ClaimItem => match event {
            WorkerEvent::Claimed(Some(k)) => WorkerStep::FetchContent(k, 0),
            WorkerEvent::Claimed(None) => WorkerStep::Finished(WorkerOutcome::Idle),
            _ => WorkerStep::Finished(WorkerOutcome::Failed(None)),
        },
        WorkerStep::FetchContent(k, n) => match event {
            WorkerEvent::Succeeded => WorkerStep::PutFile(k, 0),
            _ => if n < RETRY_LIMIT {
                WorkerStep::FetchContent(k, n + 1)
            } else {
                WorkerStep::Finished(WorkerOutcome::Failed(Some(k)))
            },
        },
        WorkerStep::PutFile(k, n) => match event {
            WorkerEvent::Succeeded => WorkerStep::DeleteItem(k),
            _ => if n < RETRY_LIMIT {
                WorkerStep::PutFile(k, n + 1)
            } else {
                WorkerStep::Finished(WorkerOutcome::Failed(Some(k)))
            },
        },
        WorkerStep::DeleteItem(k) => match event {
            WorkerEvent::Succeeded => WorkerStep::Finished(WorkerOutcome::Crawled),
            _ => WorkerStep::Finished(WorkerOutcome::Failed(Some(k))),
        },
        WorkerStep::Finished(o) => WorkerStep::Finished(o),
    }
}

/// The item whose failure the worker loop hands on after an attempt.
pub fn failed_item(outcome: WorkerOutcome) -> (res: Option<ItemKey>)
    ensures
        res == match outcome {
            WorkerOutcome::Failed(k) => k,
            _ => None,
        },
{
    match outcome {
        WorkerOutcome::Failed(k) => k,
        _ => None,
    }
}

/// A crawler that is paused or throttled claims nothing: the attempt ends
/// idle as soon as the status is known.
pub proof fn lemma_idle_unless_running(status: CrawlerStatus)
    requires
        status != CrawlerStatus::Running,
    ensures
        spec_worker_next(WorkerStep::GetStatus, WorkerEvent::Status(status)) == WorkerStep::Finished(
            WorkerOutcome::Idle,
        ),
{
}

/// Once an item is claimed, every failure that ends the attempt names it, so
/// that the item is handed to failure handling rather than left claimed: a
/// failed fetch or store either tries again on the same item or, after the
/// last retry, ends naming it; a failed deletion ends naming it.
pub proof fn lemma_failure_names_claimed_item(k: ItemKey, n: u32, event: WorkerEvent)
    requires
        !(event is Succeeded),
    ensures
        spec_worker_next(WorkerStep::FetchContent(k, n), event) == if n < RETRY_LIMIT {
            WorkerStep::FetchContent(k, (n + 1) as u32)
        } else {
            WorkerStep::Finished(WorkerOutcome::Failed(Some(k)))
        },
        spec_worker_next(WorkerStep::PutFile(k, n), event) == if n < RETRY_LIMIT {
            WorkerStep::PutFile(k, (n + 1) as u32)
        } else {
            WorkerStep::Finished(WorkerOutcome::Failed(Some(k)))
        },
        spec_worker_next(WorkerStep::DeleteItem(k), event) == WorkerStep::Finished(
            WorkerOutcome::Failed(Some(k)),
        ),
{
}

/// An attempt ends crawled only when the step it leaves is the deletion of
/// the claimed item and that deletion succeeded.
pub proof fn lemma_crawled_only_after_delete(step: WorkerStep, event: WorkerEvent)
    requires
        !(step is Finished),
        spec_worker_next(step, event) == WorkerStep::Finished(WorkerOutcome::Crawled),
    ensures
        step is DeleteItem,
        event is Succeeded,
{
}

/// The steps an attempt goes through from `step` as `events` are reported,
/// `step` first.
pub open spec fn worker_trace(step: WorkerStep, events: Seq<WorkerEvent>) -> Seq<WorkerStep>
    decreases events.len(),
{
    if events.len() == 0 {
        seq![step]
    } else {
        seq![step] + worker_trace(spec_worker_next(step, events[0]), events.skip(1))
    }
}

/// How many steps of `steps` fetch a page.
pub open spec fn fetch_tries(steps: Seq<WorkerStep>) -> nat
    decreases steps.len(),
{
    if steps.len() == 0 {
        0
    } else {
        (if steps[0] is FetchContent { 1nat } else { 0nat }) + fetch_tries(steps.skip(1))
    }
}

/// How many steps of `steps` store a page.
pub open spec fn put_tries(steps: Seq<WorkerStep>) -> nat
    decreases steps.len(),
{
    if steps.len() == 0 {
        0
    } else {
        (if steps[0] is PutFile { 1nat } else { 0nat }) + put_tries(steps.skip(1))
    }
}

/// How many more fetch tries can follow `step`.
spec fn fetch_budget(step: WorkerStep) -> nat {
    match step {
        WorkerStep::EnforceThrottle | WorkerStep::GetStatus | WorkerStep::ClaimItem => (RETRY_LIMIT + 1) as nat,
        WorkerStep::FetchContent(_, n) => (RETRY_LIMIT + 1 - n) as nat,
        _ => 0,
    }
}

/// How many more store tries can follow `step`.
spec fn put_budget(step: WorkerStep) -> nat {
    match step {
        WorkerStep::PutFile(_, n) => (RETRY_LIMIT + 1 - n) as nat,
        WorkerStep::DeleteItem(_) | WorkerStep::Finished(_) => 0,
        _ => (RETRY_LIMIT + 1) as nat,
    }
}

/// A fetch or store step has not failed more often than it may be retried.
spec fn within_retries(step: WorkerStep) -> bool {
    match step {
        WorkerStep::FetchContent(_, n) => n <= RETRY_LIMIT,
        WorkerStep::PutFile(_, n) => n <= RETRY_LIMIT,
        _ => true,
    }
}

proof fn lemma_trace_head(step: WorkerStep, events: Seq<WorkerEvent>)
    requires
        events.len() > 0,
    ensures
        worker_trace(step, events)[0] == step,
        worker_trace(step, events).skip(1) == worker_trace(spec_worker_next(step, events[0]), events.skip(1)),
{
    let rest = worker_trace(spec_worker_next(step, events[0]), events.skip(1));
    assert((seq![step] + rest).skip(1) =~= rest);
}

proof fn lemma_tries_within_budget(step: WorkerStep, events: Seq<WorkerEvent>)
    requires
        within_retries(step),
    ensures
        fetch_tries(worker_trace(step, events)) <= fetch_budget(step),
        put_tries(worker_trace(step, events)) <= put_budget(step),
    decreases events.len(),
{
    let t = worker_trace(step, events);
    if events.len() == 0 {
        assert(t.skip(1) =~= Seq::<WorkerStep>::empty());
        assert(t[0] == step);
        assert(fetch_tries(t.skip(1)) == 0);
        assert(put_tries(t.skip(1)) == 0);
    } else {
        let next = spec_worker_next(step, events[0]);
        lemma_trace_head(step, events);
        lemma_tries_within_budget(next, events.skip(1));
        assert(t.len() > 0);
        assert(fetch_tries(t) == (if step is FetchContent { 1nat } else { 0nat }) + fetch_tries(t.skip(1)));
        assert(put_tries(t) == (if step is PutFile { 1nat } else { 0nat }) + put_tries(t.skip(1)));
    }
}

/// An attempt fetches its page at most once plus five retries, and stores
/// it at most once plus five retries, whatever is reported.
pub proof fn lemma_retries_bounded(events: Seq<WorkerEvent>)
    ensures
        fetch_tries(worker_trace(WorkerStep::EnforceThrottle, events)) <= RETRY_LIMIT + 1,
        put_tries(worker_trace(WorkerStep::EnforceThrottle, events)) <= RETRY_LIMIT + 1,
{
    lemma_tries_within_budget(WorkerStep::EnforceThrottle, events);
}

} // verus!
