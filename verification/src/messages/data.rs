//! Worker requests data from a data server.

use vstd::prelude::*;

use crate::ids::PeerId;

verus! {

#[derive(Clone, Debug)]
pub struct Request {
    pub dataset: String,
}

/// Data server responds with data or error
#[derive(Clone, Debug)]
pub enum Response {
    Success { data_provider: PeerId, index: u64 },
    NotFound,
    Error(String),
}

} // verus!
