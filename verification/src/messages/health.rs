//! Health request and response.

use vstd::prelude::*;

verus! {

pub const IDENTIFIER: &'static str = "/hypha-health/0.0.1";

#[derive(Clone, Debug)]
pub struct Request {}

#[derive(Clone, Debug)]
pub struct Response {
    pub healthy: bool,
}

} // verus!
