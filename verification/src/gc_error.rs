//! What the collector reports when it is misused.

use crate::types::binding::UniqueBinding;
use vstd::prelude::*;
use vstd::string::StringExecFns;

verus! {

/// A failure of a heap operation. None of them is retried: each goes back
/// to the caller, who decides how grave it is.
#[derive(Debug)]
pub enum GcError {
    /// An allocation named a binding that already denotes a live payload.
    Alloc(UniqueBinding),
    /// A binding that was to be condemned or updated has no heap entry.
    HeapUpdate,
}

impl GcError {
    /// The failure in words.
    pub open spec fn message(&self) -> Seq<char> {
        match self {
            GcError::Alloc(b) => "binding is already allocated: "@ + b@,
            GcError::HeapUpdate => "binding is not allocated"@,
        }
    }

    /// The failure in words.
    pub fn to_string(&self) -> (r: String)
        ensures
            r@ == self.message(),
    {
        match self {
            GcError::Alloc(b) => {
                let mut s = String::from_str("binding is already allocated: ");
                s.append(b.0.as_str());
                s
            },
            GcError::HeapUpdate => String::from_str("binding is not allocated"),
        }
    }
}

} // verus!
