//! Dynamic concurrency, load-signal evaluation, and politeness limits.

pub mod aimd;
pub mod pool;
pub mod rate_limit;
pub mod signals;
pub mod system_status;
