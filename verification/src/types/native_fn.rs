//! Functions that the host implements.

use vstd::prelude::*;

verus! {

/// A host function, known to the library by the handle under which the host
/// keeps it. The library stores and compares handles; only the host can call
/// what stands behind one.
#[derive(Clone, Copy, Debug, PartialEq, Eq, Structural)]
pub struct NativeFn {
    pub handle: u64,
}

impl NativeFn {
    /// The host function that the host keeps under `handle`.
    pub fn new(handle: u64) -> (r: NativeFn)
        ensures
            r.handle == handle,
    {
        NativeFn { handle }
    }
}

} // verus!
