//! Verified core of a Wayback Machine archive downloader and server.
use vstd::prelude::*;

pub mod text;
pub mod calendar;
pub mod numbers;
pub mod timestamp;
pub mod status;
pub mod cdx;
pub mod index;
pub mod web_url;
pub mod download;
pub mod serve;
pub mod config;
pub mod queue;
pub mod client;
pub mod site;
pub mod decode;

verus! {
}
