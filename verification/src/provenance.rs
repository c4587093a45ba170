//! Provenance: links an observed execution context to the compute request
//! it accompanied. It carries no verdict of its own.

use vstd::prelude::*;

use crate::identity::ExecutionContext;
use crate::resource::ComputeRequest;

verus! {

/// The observed execution context that accompanied one request.
/// Construction never inspects or validates the evidence.
#[derive(Debug, Clone, PartialEq, Eq)]
pub struct ProvenanceRecord {
    pub context: ExecutionContext,
    pub request: ComputeRequest,
}

impl ProvenanceRecord {
    pub fn new(context: ExecutionContext, request: ComputeRequest) -> (r: Self)
        ensures
            r.context == context,
            r.request == request,
    {
        ProvenanceRecord { context, request }
    }
}

} // verus!
