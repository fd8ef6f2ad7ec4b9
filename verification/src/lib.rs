//! Core primitives for a web crawler.

use vstd::prelude::*;

pub mod antibot;
pub mod autoscale;
pub mod config;
pub mod errors;
pub mod cookies;
pub mod crawler;
pub mod enqueue;
pub mod events;
pub mod handler;
pub mod headers;
pub mod http_client;
pub mod json;
pub mod link_extraction;
pub mod proxy;
pub mod request;
pub mod retry_strategy;
pub mod router;
pub mod session;
pub mod sitemap;
pub mod snapshot;
pub mod statistics;
pub mod storage;
pub mod text;
pub mod text_map;
pub mod text_set;
pub mod time;
pub mod url;
pub mod util;

verus! {

}
