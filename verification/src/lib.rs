//! The verified core of a player photo scraper.

pub mod args;
pub mod csv;
pub mod download;
pub mod google;
pub mod google_retry;
pub mod lookup;
pub mod names;
pub mod redownload;
pub mod report;
pub mod retry;
pub mod scrape;
pub mod text;
pub mod wiki;
