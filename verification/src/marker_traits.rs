//! Marker traits for the context a node runs in.

use vstd::prelude::*;

verus! {

/// Something that can run in a synchronous flow.
pub trait SyncContext: Send {}

/// Something that can run in an asynchronous flow.
pub trait AsyncContext: Send {}

impl<T: Send> SyncContext for T {}

impl<T: Send> AsyncContext for T {}

} // verus!
