//! Planning, scheduling and bookkeeping for a concurrent segmented downloader.
use vstd::prelude::*;

pub mod adapter;
pub mod aggregator;
pub mod allocation_laws;
pub mod backpressure;
pub mod budget;
pub mod buffer;
pub mod chunk_state;
pub mod clock;
pub mod concurrency_control;
pub mod concurrent;
pub mod control_channel;
pub mod download_laws;
pub mod download_loop;
pub mod dynamic;
pub mod http;
pub mod http_laws;
pub mod id;
pub mod manager;
pub mod manager_laws;
pub mod metrics;
pub mod outcome;
pub mod pending;
pub mod pending_writer;
pub mod planner;
pub mod planner_guard;
pub mod planner_laws;
pub mod range_set;
pub mod ratio;
pub mod registration_laws;
pub mod runner;
pub mod runner_builder;
pub mod runner_error;
pub mod runner_flush;
pub mod runner_laws;
pub mod simple_adapter;
pub mod singleton;
pub mod strategy;
pub mod strategy_control;
pub mod strategy_laws;
pub mod stream_laws;
pub mod task;
pub mod task_builder;
pub mod task_laws;
pub mod task_machine;
pub mod text;
pub mod throughput;
pub mod write_budget;
pub mod writer_error;
pub mod writer_kind;
pub mod writing_laws;
pub mod yielding;

verus! {

/// Identifier of a download runner.
pub type RunnerId = usize;

} // verus!
