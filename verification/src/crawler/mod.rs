//! The decisions of a running crawler.

pub mod attempt;
pub mod builder;
pub mod completion;
pub mod dispatch;
pub mod run;
pub mod start;
