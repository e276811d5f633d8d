//! Schedulers that answer the executors of a job.

pub mod batch_scheduler;
