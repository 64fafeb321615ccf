//! Workflow orchestration: a graph readiness planner, cron-driven scheduling,
//! retryable task execution, and the dispatch decisions of workers and of
//! workflow instances.

pub mod clock;
pub mod json;
pub mod text;

pub mod enums;
pub mod endpoint;
pub mod node;
pub mod edge;
pub mod defaults;
pub mod reactflow;
pub mod flow;
pub mod exec_param;

pub mod planner;
pub mod workflow;

pub mod schedule;

pub mod task_executor;
pub mod handler;

pub mod task;
pub mod fetcher;
pub mod worker;

pub mod commander;
