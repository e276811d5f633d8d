//! Worker offers a lease to a scheduler.

use vstd::prelude::*;

use crate::ids::Uuid;
use crate::number::Double;
use crate::resources::Resources;
use crate::time::SystemTime;

verus! {

#[derive(Clone, Debug)]
pub struct Request {
    pub id: Uuid,
    pub request_id: Uuid,
    /// Worker's _counter-offer_ price
    pub price: Double,
    /// Resources reserved for this offer
    pub resources: Resources,
    /// Accept the offer within the timeout otherwise it's going to expire.
    pub timeout: SystemTime,
}

/// Scheduler acknowledges the offer
#[derive(Clone, Debug)]
pub struct Response {}

} // verus!
