//! Gzip-aware XML sitemap ingestion.

pub mod document;
pub mod list;
pub mod parser;
pub mod run;
pub mod tandem;
