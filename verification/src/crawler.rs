//! The crawler: its status, its queue of pages and the decisions of its worker.
pub mod crawler_state_repository;
pub mod priority_queue;
pub mod redis_priority_queue;
pub mod crawler;
pub mod crawler_worker;
