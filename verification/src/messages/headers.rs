//! Headers of data streams and records of the data directory.

use vstd::prelude::*;

use crate::ids::Uuid;

verus! {

#[derive(Clone, Debug)]
pub struct ArtifactHeader {
    pub job_id: Uuid,
    pub epoch: u32,
}

/// Header for parameter data streams
#[derive(Clone, Debug)]
pub struct ParameterStreamHeader {
    pub stream_id: Uuid,
    pub data_size: u64,
}

#[derive(Clone, Debug)]
pub struct DataRecord {
    pub num_slices: u64,
}

#[derive(Debug)]
pub struct DataSlice {
    pub dataset: String,
    pub index: u64,
}

impl Clone for DataSlice {
    fn clone(&self) -> (slice: DataSlice)
        ensures
            slice == *self,
    {
        DataSlice { dataset: self.dataset.clone(), index: self.index }
    }
}

} // verus!
