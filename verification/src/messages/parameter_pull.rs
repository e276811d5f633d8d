//! Worker requests to pull parameters from a parameter server.

use vstd::prelude::*;

use crate::ids::Uuid;

verus! {

#[derive(Clone, Debug)]
pub struct Request {
    pub job_id: Uuid,
    pub key: String,
    pub version: Option<u64>,
}

/// Parameter server responds with parameters or error
#[derive(Clone, Debug)]
pub enum Response {
    Success { version: u64, data_stream_id: Uuid },
    NotFound,
    Error(String),
}

} // verus!
