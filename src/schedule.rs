//! Expansion of recurring cron triggers into concrete, time-stamped tasks.
//! Instants are milliseconds since the Unix epoch, UTC.

pub mod cron_time;
pub mod task;
pub mod trigger;
pub mod planner;
