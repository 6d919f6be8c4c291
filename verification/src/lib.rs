//! Discovery of every page URL that a site lists in its sitemap hierarchy.
//!
//! The library holds the traversal engine and the document rules; the caller
//! performs the network requests that the engine asks for and hands the
//! fetched documents back.

pub mod address;
pub mod crawler;
pub mod error;
pub mod laws;
pub mod robots;
pub mod seed;
pub mod set;
pub mod sitemaps;
pub mod text;

pub use address::Url;
pub use crawler::{Action, Request, SitemapCrawler};
pub use error::Error;
pub use robots::parse_robots;
pub use seed::{parse_seed, Kind, Seed};
pub use sitemaps::parse_sitemap;
