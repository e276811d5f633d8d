//! Messages that schedulers, workers and parameter servers exchange, and what they are made of.

pub mod action;
pub mod api;
pub mod data;
pub mod dispatch_job;
pub mod executor;
pub mod headers;
pub mod health;
pub mod job_status;
pub mod parameter_pull;
pub mod parameter_push;
pub mod progress;
pub mod reference;
pub mod renew_lease;
pub mod request_worker;
pub mod worker_offer;
