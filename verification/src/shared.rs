//! Shared ownership.

use std::sync::Arc;

use vstd::prelude::*;

verus! {

/// `Arc::clone`: one more owner of the same value.
#[verifier::external_body]
pub(crate) fn share<T>(value: &Arc<T>) -> (r: Arc<T>)
    ensures
        r == *value,
{
    Arc::clone(value)
}

} // verus!
