//! A verified core for a broken-link crawler.
//!
//! The library holds the parts of the crawler that carry real logic: the
//! scope rule that decides which discovered links are followed, the crawl
//! engine that owns the frontier and visited set, the supervisor that
//! accumulates reported failures, and the instrumented-channel statistics.
//! Network fetching, HTML parsing and URL resolution are outside
//! collaborators; the library reaches them through a few trusted wrappers
//! and verifies everything that surrounds them.

pub mod engine;
pub mod html;
pub mod messages;
pub mod scope;
pub mod stats;
pub mod supervisor;
pub mod text;
pub mod urls;
