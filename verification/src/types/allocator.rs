//! What a heap owes to those who put payloads on it.

use crate::alloc_box::AllocBox;
use crate::gc_error::GcError;
use crate::types::binding::UniqueBinding;
use crate::types::js_var::JsPtrEnum;
use vstd::prelude::*;

verus! {

/// A heap on which payloads can be put and condemned.
pub trait Allocator {
    type Error: core::fmt::Debug;

    /// Whether `k` denotes a payload.
    spec fn holds(&self, k: Seq<char>) -> bool;

    /// Whether there is room for one more payload.
    spec fn has_room(&self) -> bool;

    /// Puts `ptr` on the heap under `binding`. This succeeds just when the
    /// binding denoted nothing; a failure changes nothing.
    fn allocate(&mut self, binding: UniqueBinding, ptr: JsPtrEnum) -> (r: Result<(), Self::Error>)
        requires
            old(self).has_room(),
        ensures
            r is Ok <==> !old(self).holds(binding@),
            forall|k: Seq<char>|
                #[trigger] final(self).holds(k) == (old(self).holds(k) || k == binding@),
    ;

    /// Marks the payload under `unique` as no longer known to be reachable.
    /// This succeeds just when the binding denotes a payload; it takes no
    /// payload off the heap.
    fn condemn(&mut self, unique: UniqueBinding) -> (r: Result<(), Self::Error>)
        ensures
            r is Ok <==> old(self).holds(unique@),
            forall|k: Seq<char>| #[trigger] final(self).holds(k) == old(self).holds(k),
    ;
}

impl Allocator for AllocBox {
    type Error = GcError;

    open spec fn holds(&self, k: Seq<char>) -> bool {
        self.is_allocated_spec(k)
    }

    open spec fn has_room(&self) -> bool {
        self.spec_len() < usize::MAX
    }

    fn allocate(&mut self, binding: UniqueBinding, ptr: JsPtrEnum) -> (r: Result<(), GcError>) {
        AllocBox::allocate(self, binding, ptr)
    }

    fn condemn(&mut self, unique: UniqueBinding) -> (r: Result<(), GcError>) {
        proof {
            use_type_invariant(&*self);
        }
        let ghost pre = *self;
        let r = AllocBox::condemn(self, unique);
        proof {
            crate::alloc_box::lemma_condemn_round_trip(pre, *self, unique@, r);
        }
        r
    }
}

} // verus!
