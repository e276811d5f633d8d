//! Pull-based executor control: executors report a status, the scheduler answers with the next
//! action.

use std::collections::HashMap;
use vstd::prelude::*;

use crate::ids::Uuid;
use crate::messages::reference::{Reference, ReferenceView};
use crate::number::Single;
use crate::time::SystemTime;

verus! {

pub const IDENTIFIER: &'static str = "/hypha-action/0.0.1";

/// Worker/PS reports its current status to the scheduler.
#[derive(Clone, Debug)]
pub struct ActionRequest {
    pub job_id: Uuid,
    pub status: ExecutorStatus,
}

/// Scheduler responds with the next action for the executor.
#[derive(Clone, Debug)]
pub struct ActionResponse {
    pub job_id: Uuid,
    pub next: ExecutorAction,
}

#[derive(Clone, Debug)]
pub enum ExecutorStatus {
    Train(TrainStatus),
    Aggregate(AggregateStatus),
}

#[derive(Clone, Debug)]
pub enum TrainStatus {
    Idle,
    BatchCompleted { batch_size: u32 },
    SentUpdate,
    AppliedUpdate { round: u32, metrics: HashMap<String, Single> },
    Terminated,
    Error(TrainError),
}

#[derive(Clone, Debug)]
pub enum AggregateStatus {
    Idle,
    AggregatedUpdates { metrics: Option<HashMap<String, Single>> },
    BroadcastedUpdate { metrics: Option<HashMap<String, Single>> },
    Terminated,
    Error(AggregateError),
}

#[derive(Clone, Debug)]
pub enum TrainError {
    Connection { message: String },
    Other { message: String },
}

#[derive(Clone, Debug)]
pub enum AggregateError {
    Connection { message: String },
    Other { message: String },
}

#[derive(Clone, Debug)]
pub enum ExecutorAction {
    Train(TrainAction),
    Aggregate(AggregateAction),
}

/// Actions targeted at training workers.
#[derive(Clone, Debug)]
pub enum TrainAction {
    Idle { timeout: SystemTime },
    ExecuteBatch,
    SendUpdate { target: Reference, timeout: SystemTime },
    ApplyUpdate { source: Reference, timeout: SystemTime },
    Terminate,
}

/// Actions targeted at aggregate/parameter server executors.
#[derive(Clone, Debug)]
pub enum AggregateAction {
    Idle { timeout: SystemTime },
    AggregateUpdates { source: Reference },
    BroadcastUpdate { target: Reference },
    Terminate,
}

/// What a training worker is told to do.
pub enum TrainActionView {
    Idle(SystemTime),
    ExecuteBatch,
    SendUpdate(ReferenceView, SystemTime),
    ApplyUpdate(ReferenceView, SystemTime),
    Terminate,
}

/// What a parameter server is told to do.
pub enum AggregateActionView {
    Idle(SystemTime),
    AggregateUpdates(ReferenceView),
    BroadcastUpdate(ReferenceView),
    Terminate,
}

/// What an executor is told to do.
pub enum ActionView {
    Train(TrainActionView),
    Aggregate(AggregateActionView),
}

impl View for ExecutorAction {
    type V = ActionView;

    open spec fn view(&self) -> ActionView {
        match *self {
            ExecutorAction::Train(action) => ActionView::Train(
                match action {
                    TrainAction::Idle { timeout } => TrainActionView::Idle(timeout),
                    TrainAction::ExecuteBatch => TrainActionView::ExecuteBatch,
                    TrainAction::SendUpdate { target, timeout } => TrainActionView::SendUpdate(
                        target@,
                        timeout,
                    ),
                    TrainAction::ApplyUpdate { source, timeout } => TrainActionView::ApplyUpdate(
                        source@,
                        timeout,
                    ),
                    TrainAction::Terminate => TrainActionView::Terminate,
                },
            ),
            ExecutorAction::Aggregate(action) => ActionView::Aggregate(
                match action {
                    AggregateAction::Idle { timeout } => AggregateActionView::Idle(timeout),
                    AggregateAction::AggregateUpdates {
                        source,
                    } => AggregateActionView::AggregateUpdates(source@),
                    AggregateAction::BroadcastUpdate {
                        target,
                    } => AggregateActionView::BroadcastUpdate(target@),
                    AggregateAction::Terminate => AggregateActionView::Terminate,
                },
            ),
        }
    }
}

} // verus!
