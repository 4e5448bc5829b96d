//! The collector: a heap of payloads under unique bindings, held in three
//! color sets.
//!
//! Black payloads are taken to be live and have been scanned in this cycle.
//! Grey payloads are live and wait to be scanned. White payloads are
//! condemned: unless marking rescues them, the next sweep reclaims them. A
//! payload is born grey, and only a sweep destroys one.

use crate::assoc::AssocMap;
use crate::gc_error::GcError;
use crate::types::binding::UniqueBinding;
use crate::types::js_obj::BindingSet;
use crate::types::js_var::JsPtrEnum;
use vstd::prelude::*;
use vstd::set_lib::lemma_set_disjoint_lens;

verus! {

/// A color set: payloads by the view of their binding.
pub type ColorSet = AssocMap<UniqueBinding, JsPtrEnum>;

/// Every binding that some payload of `m` refers to directly.
pub open spec fn children_of(m: Map<Seq<char>, JsPtrEnum>) -> Set<Seq<char>> {
    Set::new(
        |c: Seq<char>|
            exists|k: Seq<char>| #[trigger] m.contains_key(k) && m[k].children().contains(c),
    )
}

/// The bindings among the first `n` entries of a set of bindings.
pub open spec fn bindings_before(s: Seq<(UniqueBinding, ())>, n: int) -> Set<Seq<char>> {
    Set::new(|c: Seq<char>| exists|i: int| 0 <= i < n && i < s.len() && (#[trigger] s[i]).0@ == c)
}

/// A payload put under a new binding adds its children to those of the map.
pub proof fn lemma_children_of_insert(m: Map<Seq<char>, JsPtrEnum>, k: Seq<char>, p: JsPtrEnum)
    requires
        !m.contains_key(k),
    ensures
        children_of(m.insert(k, p)) == children_of(m) + p.children(),
{
    let n = m.insert(k, p);
    assert forall|c: Seq<char>| children_of(n).contains(c) implies (children_of(m)
        + p.children()).contains(c) by {
        let g = choose|g: Seq<char>| #[trigger] n.contains_key(g) && n[g].children().contains(c);
        if g != k {
            assert(m.contains_key(g) && m[g].children().contains(c));
        }
    }
    assert forall|c: Seq<char>| (children_of(m) + p.children()).contains(c) implies children_of(
        n,
    ).contains(c) by {
        if children_of(m).contains(c) {
            let g = choose|g: Seq<char>| #[trigger] m.contains_key(g) && m[g].children().contains(c);
            assert(n.contains_key(g) && n[g].children().contains(c));
        } else {
            assert(n.contains_key(k) && n[k].children().contains(c));
        }
    }
    assert(children_of(n) =~= children_of(m) + p.children());
}

/// How many entries three color sets hold together.
pub open spec fn entry_count(black: ColorSet, grey: ColorSet, white: ColorSet) -> nat {
    black.entries().len() + grey.entries().len() + white.entries().len()
}

/// The heap.
#[derive(Debug)]
pub struct AllocBox {
    black_set: ColorSet,
    grey_set: ColorSet,
    white_set: ColorSet,
}

/// What `allocate` does: from `pre`, putting `ptr` under `binding` gives
/// `post` and the answer `res`. The payload enters the grey set if the
/// binding is free; if it denotes a payload of any color already, the call
/// fails with that binding and nothing changes.
pub open spec fn alloc_step(
    pre: AllocBox,
    binding: UniqueBinding,
    ptr: JsPtrEnum,
    post: AllocBox,
    res: Result<(), GcError>,
) -> bool {
    &&& post.wf()
    &&& post.black() == pre.black()
    &&& post.white() == pre.white()
    &&& if pre.is_allocated_spec(binding@) {
        &&& res == Err::<(), GcError>(GcError::Alloc(binding))
        &&& post.grey() == pre.grey()
        &&& post.spec_len() == pre.spec_len()
    } else {
        &&& res is Ok
        &&& post.grey() == pre.grey().insert(binding@, ptr)
        &&& post.spec_len() == pre.spec_len() + 1
    }
}

/// What `condemn` does: from `pre`, condemning `k` gives `post` and the
/// answer `res`. An allocated payload leaves its color set and enters the
/// white one; for a binding that denotes nothing the call fails and nothing
/// changes.
pub open spec fn condemn_step(
    pre: AllocBox,
    k: Seq<char>,
    post: AllocBox,
    res: Result<(), GcError>,
) -> bool {
    &&& post.wf()
    &&& post.spec_len() == pre.spec_len()
    &&& if pre.is_allocated_spec(k) {
        &&& res is Ok
        &&& post.white() == pre.white().insert(k, pre.payload(k))
        &&& post.grey() == pre.grey().remove(k)
        &&& post.black() == pre.black().remove(k)
    } else {
        &&& res == Err::<(), GcError>(GcError::HeapUpdate)
        &&& post.white() == pre.white()
        &&& post.grey() == pre.grey()
        &&& post.black() == pre.black()
    }
}

/// What `update_ptr` does: from `pre`, writing `ptr` to `k` gives `post` and
/// the answer `res`. An allocated binding gets the new payload and becomes
/// grey, whatever its color was; for a binding that denotes nothing the call
/// fails and nothing changes.
pub open spec fn update_step(
    pre: AllocBox,
    k: Seq<char>,
    ptr: JsPtrEnum,
    post: AllocBox,
    res: Result<(), GcError>,
) -> bool {
    &&& post.wf()
    &&& post.spec_len() == pre.spec_len()
    &&& if pre.is_allocated_spec(k) {
        &&& res is Ok
        &&& post.grey() == pre.grey().insert(k, ptr)
        &&& post.white() == pre.white().remove(k)
        &&& post.black() == pre.black().remove(k)
    } else {
        &&& res == Err::<(), GcError>(GcError::HeapUpdate)
        &&& post.white() == pre.white()
        &&& post.grey() == pre.grey()
        &&& post.black() == pre.black()
    }
}

/// What `replace_payload` does: from `pre`, putting `ptr` in the place of
/// the payload under `k` gives `post` and the answer `res`. An allocated
/// binding gets the new payload, keeps its color, and the old payload is
/// handed back; for a binding that denotes nothing the call fails and
/// nothing changes.
pub open spec fn replace_step(
    pre: AllocBox,
    k: Seq<char>,
    ptr: JsPtrEnum,
    post: AllocBox,
    res: Result<JsPtrEnum, GcError>,
) -> bool {
    &&& post.wf()
    &&& post.spec_len() == pre.spec_len()
    &&& if pre.is_allocated_spec(k) {
        &&& res == Ok::<JsPtrEnum, GcError>(pre.payload(k))
        &&& post.white() == if pre.white().contains_key(k) {
            pre.white().insert(k, ptr)
        } else {
            pre.white()
        }
        &&& post.grey() == if !pre.white().contains_key(k) && pre.grey().contains_key(k) {
            pre.grey().insert(k, ptr)
        } else {
            pre.grey()
        }
        &&& post.black() == if !pre.white().contains_key(k) && !pre.grey().contains_key(k) {
            pre.black().insert(k, ptr)
        } else {
            pre.black()
        }
    } else {
        &&& res == Err::<JsPtrEnum, GcError>(GcError::HeapUpdate)
        &&& post.white() == pre.white()
        &&& post.grey() == pre.grey()
        &&& post.black() == pre.black()
    }
}

/// What `mark_ptrs` does. Every grey payload becomes black. Every white
/// payload that a grey one refers to directly becomes grey. All else stays.
pub open spec fn mark_step(pre: AllocBox, post: AllocBox) -> bool {
    &&& post.wf()
    &&& post.spec_len() == pre.spec_len()
    &&& post.black() == pre.black().union_prefer_right(pre.grey())
    &&& post.grey() == pre.white().restrict(children_of(pre.grey()))
    &&& post.white() == pre.white().remove_keys(children_of(pre.grey()))
}

/// What `sweep_ptrs` does. The white payloads are gone, and every other
/// payload is grey.
pub open spec fn sweep_step(pre: AllocBox, post: AllocBox) -> bool {
    &&& post.wf()
    &&& post.spec_len() == pre.spec_len() - pre.white().len()
    &&& post.white() == Map::<Seq<char>, JsPtrEnum>::empty()
    &&& post.black() == Map::<Seq<char>, JsPtrEnum>::empty()
    &&& post.grey() == pre.grey().union_prefer_right(pre.black())
}

impl AllocBox {
    /// The payloads that have been scanned in this cycle.
    pub closed spec fn black(&self) -> Map<Seq<char>, JsPtrEnum> {
        self.black_set@
    }

    /// The payloads that are live and wait to be scanned.
    pub closed spec fn grey(&self) -> Map<Seq<char>, JsPtrEnum> {
        self.grey_set@
    }

    /// The payloads that are condemned.
    pub closed spec fn white(&self) -> Map<Seq<char>, JsPtrEnum> {
        self.white_set@
    }

    /// No binding is in two color sets.
    pub open spec fn partitioned(&self) -> bool {
        &&& self.black().dom().disjoint(self.grey().dom())
        &&& self.black().dom().disjoint(self.white().dom())
        &&& self.grey().dom().disjoint(self.white().dom())
    }

    /// What every heap satisfies: each color set is finite, no binding is in
    /// two of them, and the number of payloads fits a machine word.
    #[verifier::type_invariant]
    pub closed spec fn wf(&self) -> bool {
        &&& self.black_set.wf()
        &&& self.grey_set.wf()
        &&& self.white_set.wf()
        &&& self.partitioned()
        &&& self.black().len() + self.grey().len() + self.white().len() <= usize::MAX
    }

    /// The bindings that denote a payload, whatever its color.
    pub open spec fn allocated(&self) -> Set<Seq<char>> {
        self.black().dom() + self.grey().dom() + self.white().dom()
    }

    /// Whether `k` denotes a payload.
    pub open spec fn is_allocated_spec(&self, k: Seq<char>) -> bool {
        self.white().contains_key(k) || self.grey().contains_key(k) || self.black().contains_key(k)
    }

    /// The payload that `k` denotes, where it denotes one. The white set
    /// is asked first, then the grey, then the black.
    pub open spec fn payload(&self, k: Seq<char>) -> JsPtrEnum {
        if self.white().contains_key(k) {
            self.white()[k]
        } else if self.grey().contains_key(k) {
            self.grey()[k]
        } else {
            self.black()[k]
        }
    }

    /// The number of payloads on the heap.
    pub open spec fn spec_len(&self) -> nat {
        self.allocated().len()
    }

    /// The color sets of a heap are finite and pairwise disjoint, and the
    /// heap holds as many payloads as the three together.
    pub proof fn lemma_partition(&self)
        requires
            self.wf(),
        ensures
            self.black().dom().finite(),
            self.grey().dom().finite(),
            self.white().dom().finite(),
            self.partitioned(),
            self.spec_len() == self.black().len() + self.grey().len() + self.white().len(),
            self.spec_len() <= usize::MAX,
    {
        self.black_set.lemma_len();
        self.grey_set.lemma_len();
        self.white_set.lemma_len();
        let b = self.black().dom();
        let g = self.grey().dom();
        let w = self.white().dom();
        lemma_set_disjoint_lens(b, g);
        assert((b + g).disjoint(w));
        lemma_set_disjoint_lens(b + g, w);
    }

    /// An empty heap.
    pub fn new() -> (r: AllocBox)
        ensures
            r.wf(),
            r.black() == Map::<Seq<char>, JsPtrEnum>::empty(),
            r.grey() == Map::<Seq<char>, JsPtrEnum>::empty(),
            r.white() == Map::<Seq<char>, JsPtrEnum>::empty(),
            r.spec_len() == 0,
    {
        let black_set = ColorSet::new();
        let grey_set = ColorSet::new();
        let white_set = ColorSet::new();
        proof {
            use_type_invariant(&black_set);
            use_type_invariant(&grey_set);
            use_type_invariant(&white_set);
            black_set.lemma_len();
        }
        let r = AllocBox { black_set, grey_set, white_set };
        proof {
            r.lemma_partition();
        }
        r
    }

    /// The number of payloads on the heap.
    #[verifier::when_used_as_spec(spec_len_usize)]
    pub fn len(&self) -> (r: usize)
        ensures
            r == self.spec_len(),
            r == self.black().len() + self.grey().len() + self.white().len(),
    {
        proof {
            use_type_invariant(self);
            self.lemma_partition();
        }
        self.black_set.len() + self.grey_set.len() + self.white_set.len()
    }

    /// The number of payloads on the heap, as a machine word.
    pub open spec fn spec_len_usize(&self) -> usize {
        self.spec_len() as usize
    }

    /// Whether the heap holds no payload.
    pub fn is_empty(&self) -> (r: bool)
        ensures
            r == (self.spec_len() == 0),
    {
        self.len() == 0
    }

    /// Whether `bnd` denotes a payload, whatever its color.
    pub fn is_allocated(&self, bnd: &UniqueBinding) -> (r: bool)
        ensures
            r == self.is_allocated_spec(bnd@),
    {
        self.white_set.contains_key(bnd) || self.grey_set.contains_key(bnd)
            || self.black_set.contains_key(bnd)
    }

    /// The payload that `bnd` denotes, if it denotes one.
    pub fn find_id(&self, bnd: &UniqueBinding) -> (r: Option<&JsPtrEnum>)
        ensures
            match r {
                Some(p) => self.is_allocated_spec(bnd@) && *p == self.payload(bnd@),
                None => !self.is_allocated_spec(bnd@),
            },
    {
        match self.white_set.get(bnd) {
            Some(p) => Some(p),
            None => match self.grey_set.get(bnd) {
                Some(p) => Some(p),
                None => self.black_set.get(bnd),
            },
        }
    }

    /// Moves the three color sets out and leaves the heap empty.
    fn take_sets(&mut self) -> (r: (ColorSet, ColorSet, ColorSet))
        ensures
            r.0@ == old(self).black(),
            r.1@ == old(self).grey(),
            r.2@ == old(self).white(),
            r.0@.dom().disjoint(r.1@.dom()),
            r.0@.dom().disjoint(r.2@.dom()),
            r.1@.dom().disjoint(r.2@.dom()),
            r.0@.dom().finite(),
            r.1@.dom().finite(),
            r.2@.dom().finite(),
            entry_count(r.0, r.1, r.2) == old(self).spec_len(),
            old(self).spec_len() <= usize::MAX,
    {
        proof {
            use_type_invariant(&*self);
            self.lemma_partition();
            self.black_set.lemma_len();
            self.grey_set.lemma_len();
            self.white_set.lemma_len();
        }
        let mut taken = AllocBox::new();
        core::mem::swap(self, &mut taken);
        (taken.black_set, taken.grey_set, taken.white_set)
    }

    /// A heap with the given color sets, which must share no binding and
    /// together fit a machine word.
    fn from_sets(black: ColorSet, grey: ColorSet, white: ColorSet) -> (r: AllocBox)
        requires
            black@.dom().disjoint(grey@.dom()),
            black@.dom().disjoint(white@.dom()),
            grey@.dom().disjoint(white@.dom()),
            entry_count(black, grey, white) <= usize::MAX,
        ensures
            r.wf(),
            r.black() == black@,
            r.grey() == grey@,
            r.white() == white@,
            r.spec_len() == entry_count(black, grey, white),
    {
        proof {
            use_type_invariant(&black);
            use_type_invariant(&grey);
            use_type_invariant(&white);
            black.lemma_len();
            grey.lemma_len();
            white.lemma_len();
        }
        let r = AllocBox { black_set: black, grey_set: grey, white_set: white };
        proof {
            r.lemma_partition();
        }
        r
    }

    /// Puts `ptr` on the heap under `binding`, as a grey payload. A binding
    /// that already denotes a payload of any color is refused, and the heap
    /// stays as it was.
    pub fn allocate(&mut self, binding: UniqueBinding, ptr: JsPtrEnum) -> (r: Result<(), GcError>)
        requires
            old(self).spec_len() < usize::MAX,
        ensures
            alloc_step(*old(self), binding, ptr, *final(self), r),
    {
        proof {
            use_type_invariant(&*self);
        }
        if self.is_allocated(&binding) {
            return Err(GcError::Alloc(binding));
        }
        let (black, mut grey, white) = self.take_sets();
        proof {
            use_type_invariant(&black);
            use_type_invariant(&grey);
            use_type_invariant(&white);
            black.lemma_len();
            grey.lemma_len();
            white.lemma_len();
        }
        grey.insert_new(binding, ptr);
        *self = AllocBox::from_sets(black, grey, white);
        proof {
            use_type_invariant(&*self);
        }
        Ok(())
    }

    /// Takes the payload under `binding` out of whichever color set holds
    /// it.
    fn remove_from(
        black: &mut ColorSet,
        grey: &mut ColorSet,
        white: &mut ColorSet,
        binding: &UniqueBinding,
    ) -> (r: Option<JsPtrEnum>)
        requires
            old(black)@.dom().disjoint(old(grey)@.dom()),
            old(black)@.dom().disjoint(old(white)@.dom()),
            old(grey)@.dom().disjoint(old(white)@.dom()),
        ensures
            final(black)@ == old(black)@.remove(binding@),
            final(grey)@ == old(grey)@.remove(binding@),
            final(white)@ == old(white)@.remove(binding@),
            entry_count(*final(black), *final(grey), *final(white)) + (if r is Some {
                1nat
            } else {
                0nat
            }) == entry_count(*old(black), *old(grey), *old(white)),
            match r {
                Some(p) => {
                    &&& old(white)@.contains_key(binding@) || old(grey)@.contains_key(binding@)
                        || old(black)@.contains_key(binding@)
                    &&& p == if old(white)@.contains_key(binding@) {
                        old(white)@[binding@]
                    } else if old(grey)@.contains_key(binding@) {
                        old(grey)@[binding@]
                    } else {
                        old(black)@[binding@]
                    }
                },
                None => {
                    &&& !old(white)@.contains_key(binding@)
                    &&& !old(grey)@.contains_key(binding@)
                    &&& !old(black)@.contains_key(binding@)
                },
            },
    {
        proof {
            use_type_invariant(&*black);
            use_type_invariant(&*grey);
            use_type_invariant(&*white);
            black.lemma_len();
            grey.lemma_len();
            white.lemma_len();
        }
        let ghost b0 = black@;
        let ghost g0 = grey@;
        let ghost w0 = white@;
        let found = match white.remove(binding) {
            Some(p) => Some(p),
            None => match grey.remove(binding) {
                Some(p) => Some(p),
                None => black.remove(binding),
            },
        };
        proof {
            use_type_invariant(&*black);
            use_type_invariant(&*grey);
            use_type_invariant(&*white);
            black.lemma_len();
            grey.lemma_len();
            white.lemma_len();
            assert(black@ =~= b0.remove(binding@));
            assert(grey@ =~= g0.remove(binding@));
            assert(white@ =~= w0.remove(binding@));
        }
        found
    }

    /// Marks the payload under `unique` as no longer known to be reachable:
    /// it leaves the color set that holds it and becomes white.
    pub fn condemn(&mut self, unique: UniqueBinding) -> (r: Result<(), GcError>)
        ensures
            condemn_step(*old(self), unique@, *final(self), r),
    {
        let (mut black, mut grey, mut white) = self.take_sets();
        let ghost b0 = black@;
        let ghost g0 = grey@;
        let ghost w0 = white@;
        match Self::remove_from(&mut black, &mut grey, &mut white, &unique) {
            Some(ptr) => {
                white.insert_new(unique, ptr);
                assert(white@ =~= w0.insert(unique@, ptr));
                *self = AllocBox::from_sets(black, grey, white);
                proof {
                    use_type_invariant(&*self);
                }
                Ok(())
            },
            None => {
                assert(black@ =~= b0);
                assert(grey@ =~= g0);
                assert(white@ =~= w0);
                *self = AllocBox::from_sets(black, grey, white);
                proof {
                    use_type_invariant(&*self);
                }
                Err(GcError::HeapUpdate)
            },
        }
    }

    /// Replaces the payload under `binding` by `ptr`. A write makes the
    /// place reachable again, so the payload becomes grey whatever its color
    /// was.
    pub fn update_ptr(&mut self, binding: &UniqueBinding, ptr: JsPtrEnum) -> (r: Result<
        (),
        GcError,
    >)
        ensures
            update_step(*old(self), binding@, ptr, *final(self), r),
    {
        let (mut black, mut grey, mut white) = self.take_sets();
        let ghost b0 = black@;
        let ghost g0 = grey@;
        let ghost w0 = white@;
        match Self::remove_from(&mut black, &mut grey, &mut white, binding) {
            Some(_) => {
                grey.insert_new(binding.clone(), ptr);
                assert(grey@ =~= g0.insert(binding@, ptr));
                *self = AllocBox::from_sets(black, grey, white);
                proof {
                    use_type_invariant(&*self);
                }
                Ok(())
            },
            None => {
                assert(black@ =~= b0);
                assert(grey@ =~= g0);
                assert(white@ =~= w0);
                *self = AllocBox::from_sets(black, grey, white);
                proof {
                    use_type_invariant(&*self);
                }
                Err(GcError::HeapUpdate)
            },
        }
    }

    /// Puts `ptr` in the place of the payload under `binding` and hands the
    /// old payload back. The color stays as it is: this is how the holder of
    /// a binding changes a payload in place.
    pub fn replace_payload(&mut self, binding: &UniqueBinding, ptr: JsPtrEnum) -> (r: Result<
        JsPtrEnum,
        GcError,
    >)
        ensures
            replace_step(*old(self), binding@, ptr, *final(self), r),
    {
        let (mut black, mut grey, mut white) = self.take_sets();
        let ghost b0 = black@;
        let ghost g0 = grey@;
        let ghost w0 = white@;
        proof {
            use_type_invariant(&black);
            use_type_invariant(&grey);
            use_type_invariant(&white);
            black.lemma_len();
            grey.lemma_len();
            white.lemma_len();
        }
        let r = if white.contains_key(binding) {
            match white.insert(binding.clone(), ptr) {
                Some(prev) => Ok(prev),
                None => Err(GcError::HeapUpdate),
            }
        } else if grey.contains_key(binding) {
            match grey.insert(binding.clone(), ptr) {
                Some(prev) => Ok(prev),
                None => Err(GcError::HeapUpdate),
            }
        } else if black.contains_key(binding) {
            match black.insert(binding.clone(), ptr) {
                Some(prev) => Ok(prev),
                None => Err(GcError::HeapUpdate),
            }
        } else {
            Err(GcError::HeapUpdate)
        };
        proof {
            use_type_invariant(&black);
            use_type_invariant(&grey);
            use_type_invariant(&white);
            black.lemma_len();
            grey.lemma_len();
            white.lemma_len();
            assert(black@.dom() =~= b0.dom());
            assert(grey@.dom() =~= g0.dom());
            assert(white@.dom() =~= w0.dom());
        }
        *self = AllocBox::from_sets(black, grey, white);
        proof {
            use_type_invariant(&*self);
        }
        r
    }

    /// The set of bindings that a payload refers to directly.
    fn get_ptr_children(ptr: &JsPtrEnum) -> (r: BindingSet)
        ensures
            r@.dom() == ptr.children(),
    {
        match ptr {
            JsPtrEnum::JsObj(obj) => obj.get_children(),
            _ => {
                let r = BindingSet::new();
                assert(r@.dom() =~= Set::<Seq<char>>::empty());
                r
            },
        }
    }

    /// Moves every payload of `white` that `children` names into `grey`.
    fn rescue(white: &mut ColorSet, grey: &mut ColorSet, children: &BindingSet)
        requires
            old(white)@.dom().disjoint(old(grey)@.dom()),
        ensures
            final(grey)@ == old(grey)@.union_prefer_right(
                old(white)@.restrict(children@.dom()),
            ),
            final(white)@ == old(white)@.remove_keys(children@.dom()),
            final(grey).entries().len() + final(white).entries().len() == old(grey).entries().len()
                + old(white).entries().len(),
    {
        let ghost g0 = grey@;
        let ghost w0 = white@;
        let ghost total = grey.entries().len() + white.entries().len();
        let n = children.len();
        let mut j: usize = 0;
        proof {
            assert(bindings_before(children.entries(), 0) =~= Set::<Seq<char>>::empty());
            assert(grey@ =~= g0.union_prefer_right(w0.restrict(Set::<Seq<char>>::empty())));
            assert(white@ =~= w0.remove_keys(Set::<Seq<char>>::empty()));
        }
        while j < n
            invariant
                n == children.entries().len(),
                j <= n,
                w0.dom().disjoint(g0.dom()),
                grey@ == g0.union_prefer_right(
                    w0.restrict(bindings_before(children.entries(), j as int)),
                ),
                white@ == w0.remove_keys(bindings_before(children.entries(), j as int)),
                grey.entries().len() + white.entries().len() == total,
            decreases n - j,
        {
            let (child, _) = children.entry_at(j);
            let ghost seen = bindings_before(children.entries(), j as int);
            let ghost seen_next = bindings_before(children.entries(), j + 1);
            proof {
                use_type_invariant(&*white);
                use_type_invariant(&*grey);
                white.lemma_len();
                grey.lemma_len();
                assert(seen_next =~= seen.insert(child@)) by {
                    assert forall|c: Seq<char>| seen_next.contains(c) implies seen.insert(
                        child@,
                    ).contains(c) by {
                        let i = choose|i: int|
                            0 <= i < j + 1 && i < children.entries().len() && (
                            #[trigger] children.entries()[i]).0@ == c;
                        if i < j {
                            assert(seen.contains(c));
                        }
                    }
                    assert forall|c: Seq<char>| seen.insert(child@).contains(
                        c,
                    ) implies seen_next.contains(c) by {
                        if seen.contains(c) {
                            let i = choose|i: int|
                                0 <= i < j && i < children.entries().len() && (
                                #[trigger] children.entries()[i]).0@ == c;
                            assert(0 <= i < j + 1);
                        } else {
                            assert(children.entries()[j as int].0@ == c);
                        }
                    }
                }
            }
            match white.remove(child) {
                Some(p) => {
                    grey.insert_new(child.clone(), p);
                },
                None => {},
            }
            proof {
                use_type_invariant(&*white);
                use_type_invariant(&*grey);
                white.lemma_len();
                grey.lemma_len();
                assert(grey@ =~= g0.union_prefer_right(w0.restrict(seen_next)));
                assert(white@ =~= w0.remove_keys(seen_next));
            }
            j = j + 1;
        }
        proof {
            assert(bindings_before(children.entries(), n as int) =~= children@.dom());
        }
    }

    /// Carries reachability one step further. Every grey payload becomes
    /// black, and every white payload that one of them refers to directly
    /// becomes grey. What was black stays black, and a white payload that no
    /// grey one refers to stays white.
    ///
    /// One call follows references for one hop only. To find all that is
    /// reachable, call this until no payload is grey.
    pub fn mark_ptrs(&mut self)
        ensures
            mark_step(*old(self), *final(self)),
    {
        let (mut black, mut pending, mut white) = self.take_sets();
        let mut next = ColorSet::new();
        let ghost b0 = black@;
        let ghost g0 = pending@;
        let ghost w0 = white@;
        let ghost total = entry_count(black, pending, white);
        let ghost mut done = Map::<Seq<char>, JsPtrEnum>::empty();
        proof {
            assert(children_of(done) =~= Set::<Seq<char>>::empty());
            assert(g0 =~= pending@.union_prefer_right(done));
            assert(black@ =~= b0.union_prefer_right(done));
            assert(next@ =~= w0.restrict(children_of(done)));
            assert(white@ =~= w0.remove_keys(children_of(done)));
        }
        loop
            invariant
                b0.dom().disjoint(g0.dom()),
                b0.dom().disjoint(w0.dom()),
                g0.dom().disjoint(w0.dom()),
                g0 == pending@.union_prefer_right(done),
                pending@.dom().disjoint(done.dom()),
                black@ == b0.union_prefer_right(done),
                next@ == w0.restrict(children_of(done)),
                white@ == w0.remove_keys(children_of(done)),
                entry_count(black, next, white) + pending.entries().len() == total,
                total <= usize::MAX,
            ensures
                black@ == b0.union_prefer_right(g0),
                next@ == w0.restrict(children_of(g0)),
                white@ == w0.remove_keys(children_of(g0)),
                entry_count(black, next, white) == total,
                total <= usize::MAX,
            decreases pending.entries().len(),
        {
            proof {
                use_type_invariant(&pending);
                pending.lemma_len();
            }
            let ghost before = pending@;
            match pending.pop() {
                None => {
                    proof {
                        assert(done =~= g0);
                        use_type_invariant(&pending);
                        pending.lemma_len();
                    }
                    break ;
                },
                Some(entry) => {
                    let (key, payload) = entry;
                    proof {
                        use_type_invariant(&pending);
                        pending.lemma_len();
                        lemma_children_of_insert(done, key@, payload);
                        assert(g0.contains_key(key@) && g0[key@] == payload);
                    }
                    let children = Self::get_ptr_children(&payload);
                    let ghost reached = children_of(done);
                    let ghost done_next = done.insert(key@, payload);
                    black.insert_new(key, payload);
                    Self::rescue(&mut white, &mut next, &children);
                    proof {
                        assert(g0 =~= pending@.union_prefer_right(done_next));
                        assert(black@ =~= b0.union_prefer_right(done_next));
                        assert(next@ =~= w0.restrict(reached + payload.children()));
                        assert(white@ =~= w0.remove_keys(reached + payload.children()));
                        done = done_next;
                    }
                },
            }
        }
        *self = AllocBox::from_sets(black, next, white);
        proof {
            use_type_invariant(&*self);
        }
    }

    /// Reclaims every white payload and starts a new cycle: after the call
    /// no payload is white or black, and every payload that was black or
    /// grey is grey.
    ///
    /// A binding whose payload was white denotes nothing afterwards. To keep
    /// what is reachable only through other payloads, mark until no payload
    /// is grey before sweeping.
    pub fn sweep_ptrs(&mut self)
        ensures
            sweep_step(*old(self), *final(self)),
    {
        let (black, mut grey, white) = self.take_sets();
        proof {
            use_type_invariant(&white);
            white.lemma_len();
        }
        grey.absorb(black);
        *self = AllocBox::from_sets(ColorSet::new(), grey, ColorSet::new());
        proof {
            use_type_invariant(&*self);
        }
    }
}

/// Allocating a binding twice fails the second time: the answer names the
/// binding, no color set changes, and the binding still denotes the payload
/// that the first call stored.
pub proof fn lemma_alloc_twice(
    s0: AllocBox,
    s1: AllocBox,
    s2: AllocBox,
    first: UniqueBinding,
    again: UniqueBinding,
    p: JsPtrEnum,
    q: JsPtrEnum,
    r1: Result<(), GcError>,
    r2: Result<(), GcError>,
)
    requires
        s0.wf(),
        first@ == again@,
        alloc_step(s0, first, p, s1, r1),
        r1 is Ok,
        alloc_step(s1, again, q, s2, r2),
    ensures
        r2 == Err::<(), GcError>(GcError::Alloc(again)),
        s2.black() == s1.black(),
        s2.grey() == s1.grey(),
        s2.white() == s1.white(),
        s2.is_allocated_spec(first@),
        s2.payload(first@) == p,
{
    assert(s1.grey().contains_key(first@));
}

/// A condemned payload is still there: after `condemn` on an allocated
/// binding, the binding is allocated, white, and denotes the same payload.
/// On a binding that denotes nothing, `condemn` fails and changes nothing.
pub proof fn lemma_condemn_round_trip(
    pre: AllocBox,
    post: AllocBox,
    k: Seq<char>,
    res: Result<(), GcError>,
)
    requires
        pre.wf(),
        condemn_step(pre, k, post, res),
    ensures
        pre.is_allocated_spec(k) ==> {
            &&& res is Ok
            &&& post.is_allocated_spec(k)
            &&& post.white().contains_key(k)
            &&& post.payload(k) == pre.payload(k)
        },
        !pre.is_allocated_spec(k) ==> {
            &&& res == Err::<(), GcError>(GcError::HeapUpdate)
            &&& !post.is_allocated_spec(k)
        },
        forall|other: Seq<char>|
            other != k ==> post.is_allocated_spec(other) == pre.is_allocated_spec(other)
                && post.payload(other) == pre.payload(other),
{
    pre.lemma_partition();
    assert forall|other: Seq<char>| other != k implies post.is_allocated_spec(other)
        == pre.is_allocated_spec(other) && post.payload(other) == pre.payload(other) by {}
}

/// A write makes its target reachable: after `update_ptr` on an allocated
/// binding, whatever its color was, the binding is grey and no other color,
/// and denotes the payload that was written. On a binding that denotes
/// nothing, `update_ptr` fails and changes nothing.
pub proof fn lemma_update_reaches(
    pre: AllocBox,
    post: AllocBox,
    k: Seq<char>,
    ptr: JsPtrEnum,
    res: Result<(), GcError>,
)
    requires
        pre.wf(),
        update_step(pre, k, ptr, post, res),
    ensures
        pre.is_allocated_spec(k) ==> {
            &&& res is Ok
            &&& post.grey().contains_key(k)
            &&& !post.white().contains_key(k)
            &&& !post.black().contains_key(k)
            &&& post.payload(k) == ptr
        },
        !pre.is_allocated_spec(k) ==> {
            &&& res == Err::<(), GcError>(GcError::HeapUpdate)
            &&& !post.is_allocated_spec(k)
        },
        forall|other: Seq<char>|
            other != k ==> post.is_allocated_spec(other) == pre.is_allocated_spec(other)
                && post.payload(other) == pre.payload(other),
{
    pre.lemma_partition();
    assert forall|other: Seq<char>| other != k implies post.is_allocated_spec(other)
        == pre.is_allocated_spec(other) && post.payload(other) == pre.payload(other) by {}
}

/// Marking follows one reference: where a grey payload under `a` refers to a
/// white payload under `b`, one `mark_ptrs` leaves `a` black and `b` grey
/// and no longer white, each with the payload it had.
pub proof fn lemma_mark_propagates(pre: AllocBox, post: AllocBox, a: Seq<char>, b: Seq<char>)
    requires
        pre.wf(),
        mark_step(pre, post),
        pre.grey().contains_key(a),
        pre.grey()[a].children().contains(b),
        pre.white().contains_key(b),
    ensures
        post.black().contains_key(a),
        post.black()[a] == pre.grey()[a],
        !post.grey().contains_key(a),
        !post.white().contains_key(a),
        post.grey().contains_key(b),
        post.grey()[b] == pre.white()[b],
        !post.white().contains_key(b),
        !post.black().contains_key(b),
{
    pre.lemma_partition();
    assert(children_of(pre.grey()).contains(b));
}

/// Marking destroys nothing: the same bindings are allocated before and
/// after, and each denotes the payload it denoted.
pub proof fn lemma_mark_keeps_payloads(pre: AllocBox, post: AllocBox)
    requires
        pre.wf(),
        mark_step(pre, post),
    ensures
        forall|k: Seq<char>| post.is_allocated_spec(k) == pre.is_allocated_spec(k),
        forall|k: Seq<char>| pre.is_allocated_spec(k) ==> post.payload(k) == pre.payload(k),
{
    pre.lemma_partition();
    let reached = children_of(pre.grey());
    assert forall|k: Seq<char>| post.is_allocated_spec(k) == pre.is_allocated_spec(k) by {}
    assert forall|k: Seq<char>| pre.is_allocated_spec(k) implies post.payload(k) == pre.payload(
        k,
    ) by {}
}

/// Where no payload is white, marking ends after one step however the grey
/// payloads refer to each other: all of them become black, and none is grey.
pub proof fn lemma_mark_without_white(pre: AllocBox, post: AllocBox)
    requires
        pre.wf(),
        mark_step(pre, post),
        pre.white() == Map::<Seq<char>, JsPtrEnum>::empty(),
    ensures
        post.grey() == Map::<Seq<char>, JsPtrEnum>::empty(),
        post.white() == Map::<Seq<char>, JsPtrEnum>::empty(),
        forall|k: Seq<char>|
            pre.grey().contains_key(k) ==> post.black().contains_key(k) && post.black()[k]
                == pre.grey()[k],
{
    assert(post.grey() =~= Map::<Seq<char>, JsPtrEnum>::empty());
    assert(post.white() =~= Map::<Seq<char>, JsPtrEnum>::empty());
}

/// Once no payload is grey, marking changes nothing.
pub proof fn lemma_mark_fixed_point(pre: AllocBox, post: AllocBox)
    requires
        pre.wf(),
        mark_step(pre, post),
        pre.grey() == Map::<Seq<char>, JsPtrEnum>::empty(),
    ensures
        post.black() == pre.black(),
        post.grey() == pre.grey(),
        post.white() == pre.white(),
{
    assert(children_of(pre.grey()) =~= Set::<Seq<char>>::empty());
    assert(post.black() =~= pre.black());
    assert(post.grey() =~= pre.grey());
    assert(post.white() =~= pre.white());
}

/// A sweep reclaims exactly the white payloads. Afterwards a binding is
/// allocated just when it was allocated and not white, it denotes the
/// payload it denoted, it is grey, and no payload is black or white.
pub proof fn lemma_sweep_reclaims(pre: AllocBox, post: AllocBox)
    requires
        pre.wf(),
        sweep_step(pre, post),
    ensures
        forall|k: Seq<char>| pre.white().contains_key(k) ==> !post.is_allocated_spec(k),
        forall|k: Seq<char>|
            post.is_allocated_spec(k) == (pre.is_allocated_spec(k) && !pre.white().contains_key(
                k,
            )),
        forall|k: Seq<char>|
            pre.black().contains_key(k) ==> post.grey().contains_key(k) && post.grey()[k]
                == pre.black()[k],
        forall|k: Seq<char>| post.is_allocated_spec(k) ==> post.payload(k) == pre.payload(k),
        post.black() == Map::<Seq<char>, JsPtrEnum>::empty(),
        post.white() == Map::<Seq<char>, JsPtrEnum>::empty(),
{
    pre.lemma_partition();
    assert forall|k: Seq<char>| pre.white().contains_key(k) implies !post.is_allocated_spec(k) by {}
    assert forall|k: Seq<char>|
        post.is_allocated_spec(k) == (pre.is_allocated_spec(k) && !pre.white().contains_key(
            k,
        )) by {}
    assert forall|k: Seq<char>| post.is_allocated_spec(k) implies post.payload(k) == pre.payload(
        k,
    ) by {}
}

} // verus!
