//! Requests and responses of the control protocol between a scheduler and its workers.

use vstd::prelude::*;

use crate::messages::data;
use crate::messages::dispatch_job;
use crate::messages::job_status;
use crate::messages::parameter_pull;
use crate::messages::parameter_push;
use crate::messages::renew_lease;
use crate::messages::worker_offer;

verus! {

pub const IDENTIFIER: &'static str = "/hypha-api/0.0.1";

#[derive(Clone, Debug)]
pub enum Request {
    WorkerOffer(worker_offer::Request),
    RenewLease(renew_lease::Request),
    JobStatus(job_status::Request),
    DispatchJob(dispatch_job::Request),
    ParameterPull(parameter_pull::Request),
    ParameterPush(parameter_push::Request),
    Data(data::Request),
}

#[derive(Clone, Debug)]
pub enum Response {
    WorkerOffer(worker_offer::Response),
    RenewLease(renew_lease::Response),
    JobStatus(job_status::Response),
    DispatchJob(dispatch_job::Response),
    ParameterPull(parameter_pull::Response),
    ParameterPush(parameter_push::Response),
    Data(data::Response),
}

} // verus!
