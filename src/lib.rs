//! A web crawler: URL classification, crawler-trap detection, the crawl
//! frontier and the decisions of the crawl loop, with their specifications.
pub mod config;
pub mod crawler;
pub mod defaults;
pub mod error;
pub mod loader;
pub mod network;
pub mod report;
pub mod text;
pub mod utils;

pub use error::SpiderError;
pub use config::{SpiderConfig, SpiderConfigBuilder};
pub use loader::Loader;
pub use crawler::CrawlState;
pub use report::CrawlResult;
