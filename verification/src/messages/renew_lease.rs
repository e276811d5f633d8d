//! Renewal of an active lease.

use vstd::prelude::*;

use crate::ids::Uuid;
use crate::time::SystemTime;

verus! {

/// Scheduler requests to extend the lease
#[derive(Clone, Debug)]
pub struct Request {
    pub id: Uuid,
}

/// Worker acknowledges the extension
#[derive(Clone, Debug)]
pub enum Response {
    /// `timeout` is the new timeout for the lease.
    Renewed { id: Uuid, timeout: SystemTime },
    Failed,
}

} // verus!
