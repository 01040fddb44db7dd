//! A crawl engine without I/O of its own: work queues, a pool of workers,
//! deduplication of visited URLs, in-flight accounting, detection of
//! completion and shutdown, as a state machine that its caller drives.
//!
//! The caller performs the fetches and file writes that the workers ask for
//! and hands their outcomes back; every decision in between is taken here.

pub mod channel;
pub mod crabler;
pub mod crawl;
pub mod dispatch;
pub mod error;
pub mod laws;
pub mod markup;
pub mod model;
pub mod response;
pub mod scraper;
pub mod visited;
pub mod work;
pub mod worker;

pub use crate::crabler::{ImmutableCrabler, MutableCrabler};
pub use crate::error::CrablerError;
pub use crate::response::Response;
pub use crate::scraper::{ImmutableWebScraper, MutableWebScraper};
