//! Status of a dispatched job.

use vstd::prelude::*;

use crate::ids::Uuid;

verus! {

#[derive(Clone, Debug)]
pub enum JobStatus {
    Running,
    Finished,
    Failed,
    Unknown,
}

#[derive(Clone, Debug)]
pub struct Request {
    pub task_id: Uuid,
    pub status: JobStatus,
}

#[derive(Clone, Debug)]
pub struct Response {}

} // verus!
