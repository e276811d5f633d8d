//! Decisions of a decentralized training network: pools of leased workers, the scheduling of their
//! batches, and the parameter server that combines their updates.

pub mod digest;
pub mod dispatch;
pub mod executor;
pub mod gateway;
pub mod ids;
pub mod messages;
pub mod network;
pub mod number;
pub mod pool;
pub mod pool_statistics;
pub mod resources;
pub mod retry;
pub mod scheduler_config;
pub mod scheduling;
pub mod startup;
pub mod statistics;
pub mod task;
pub mod text;
pub mod time;
pub mod worker;
