//! Executors that a worker runs jobs with.

pub mod parameter_server;
