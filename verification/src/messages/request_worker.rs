//! Scheduler broadcasts to find available workers matching requirements.

use vstd::prelude::*;

use crate::ids::Uuid;
use crate::messages::executor::WorkerSpec;
use crate::number::Double;
use crate::time::SystemTime;

verus! {

#[derive(Clone, Debug)]
pub struct Request {
    pub id: Uuid,
    pub spec: WorkerSpec,
    pub timeout: SystemTime,
    pub bid: Double,
}

} // verus!
