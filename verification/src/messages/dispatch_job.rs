//! Dispatch of a job to a worker.

use vstd::prelude::*;

use crate::ids::Uuid;
use crate::messages::executor::JobSpec;
use crate::time::SystemTime;

verus! {

/// Scheduler requests to dispatch a job to a worker
#[derive(Clone, Debug)]
pub struct Request {
    pub id: Uuid,
    pub spec: JobSpec,
}

/// Worker acknowledges the dispatch
#[derive(Clone, Debug)]
pub enum Response {
    /// `timeout` is the new timeout for the lease.
    Dispatched { id: Uuid, timeout: SystemTime },
    Failed,
}

} // verus!
