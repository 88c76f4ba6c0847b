//! Embedding providers in general: the cache of their results and the
//! payloads of the jobs that generate and delete embeddings.
pub mod embedding_provider_interactor;
pub mod embedding_provider_jobs;
pub mod embedding_provider_event_subscribers;
