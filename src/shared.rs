use crate::data::ConfuseData;
use std::sync::Arc;
use vstd::prelude::*;

verus! {

/// Relies on `Arc::clone`: the new pointer shares the allocation, so it
/// points to the same node.
#[verifier::external_body]
pub(crate) fn share(a: &Arc<ConfuseData>) -> (r: Arc<ConfuseData>)
    ensures
        *r == **a,
{
    Arc::clone(a)
}

} // verus!
