//! A domain-scoped web crawler's frontier and scheduling engine.
//!
//! The library decides what a crawl fetches next, that no URL is fetched
//! twice, and that every domain is treated politely. It does no I/O: the
//! program around it fetches, stores and waits, and tells the library what
//! came of it.

pub mod config;
pub mod crawler;
pub mod document;
pub mod fetch;
pub mod frontier;
pub mod frontier_laws;
pub mod links;
pub mod models;
pub mod policy;
pub mod rate_limiter;
pub mod robots;
pub mod scheduler;
pub mod scheduler_laws;
pub mod system_laws;
pub mod text;
pub mod url;
