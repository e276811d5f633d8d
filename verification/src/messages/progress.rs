//! Task progress request and response.

use std::collections::HashMap;
use vstd::prelude::*;

use crate::ids::Uuid;
use crate::number::Single;

verus! {

pub const IDENTIFIER: &'static str = "/hypha-progress/0.0.1";

#[derive(Clone, Debug)]
pub struct Request {
    pub job_id: Uuid,
    pub progress: Progress,
}

#[derive(Clone, Debug)]
pub enum Progress {
    /// After a batch.
    Status(Status),
    /// After an update.
    Metrics(Metrics),
    /// When sending updates.
    Update,
    /// Parameter server after update.
    Updated,
    /// Worker when update received.
    UpdateReceived,
}

#[derive(Clone, Debug)]
pub struct Status {
    pub batch_size: u32,
}

#[derive(Clone, Debug)]
pub struct Metrics {
    pub round: u32,
    pub metrics: HashMap<String, Single>,
}

#[derive(Clone, Debug)]
pub enum Response {
    Acknowledged,
    Continue,
    /// `counter` batches are left until the update.
    ScheduleUpdate { counter: u32 },
    Done,
    Error,
    PushToHF { repository: String, token: String },
}

} // verus!
