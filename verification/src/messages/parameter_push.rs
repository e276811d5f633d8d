//! Worker pushes parameters to a parameter server.

use vstd::prelude::*;

use crate::ids::Uuid;

verus! {

#[derive(Clone, Debug)]
pub struct Request {
    pub job_id: Uuid,
    pub key: String,
    pub version: Option<u64>,
    pub data_stream_id: Uuid,
    pub data_size: u64,
}

/// Parameter server acknowledges parameter storage
#[derive(Clone, Debug)]
pub enum Response {
    Success { version: u64 },
    Error(String),
}

} // verus!
