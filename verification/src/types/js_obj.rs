//! The payload of an object value.

use crate::alloc_box::AllocBox;
use crate::alloc_box::condemn_step;
use crate::alloc_box::replace_step;
use crate::assoc::AssocMap;
use crate::assoc::has_key;
use crate::assoc::index_of;
use crate::assoc::lemma_map_of_index;
use crate::gc_error::GcError;
use crate::types::binding::anon_marker;
use crate::types::binding::is_mangling_of;
use crate::types::binding::UniqueBinding;
use crate::types::js_var::JsKey;
use crate::types::js_var::JsKeyView;
use crate::types::js_var::JsPtrEnum;
use crate::types::js_var::JsType;
use crate::types::js_var::JsVar;
use vstd::prelude::*;

verus! {

/// The prototype of an object: a copy of another object that it owns, or
/// none.
pub type JsProto = Option<Box<JsObjStruct>>;

/// A set of unique bindings.
pub type BindingSet = AssocMap<UniqueBinding, ()>;

/// An object on the heap.
#[derive(Debug)]
pub struct JsObjStruct {
    pub proto: JsProto,
    pub name: String,
    pub dict: AssocMap<JsKey, JsVar>,
}

/// An object payload as a mathematical value.
pub struct JsObjView {
    pub proto: Option<Box<JsObjView>>,
    pub name: Seq<char>,
    pub dict: Map<JsKeyView, JsVar>,
}

/// The view of an object payload.
pub open spec fn obj_view(o: JsObjStruct) -> JsObjView
    decreases o,
{
    JsObjView {
        proto: match o.proto {
            Some(p) => Some(Box::new(obj_view(*p))),
            None => None,
        },
        name: o.name@,
        dict: o.dict@,
    }
}

impl View for JsObjStruct {
    type V = JsObjView;

    open spec fn view(&self) -> JsObjView {
        obj_view(*self)
    }
}

/// A copy of a dictionary.
pub fn clone_dict(dict: &AssocMap<JsKey, JsVar>) -> (r: AssocMap<JsKey, JsVar>)
    ensures
        r@ == dict@,
        r.entries() == dict.entries(),
{
    let mut r: AssocMap<JsKey, JsVar> = AssocMap::new();
    let n = dict.len();
    let mut i: usize = 0;
    proof {
        use_type_invariant(dict);
        assert(dict.entries().take(0) =~= Seq::<(JsKey, JsVar)>::empty());
    }
    while i < n
        invariant
            n == dict.entries().len(),
            i <= n,
            dict.wf(),
            r.entries() == dict.entries().take(i as int),
        decreases n - i,
    {
        let (k, v) = dict.entry_at(i);
        proof {
            let s = dict.entries();
            if has_key(r.entries(), k@) {
                let j = index_of(r.entries(), k@);
                assert(s.take(i as int)[j] == s[j]);
                assert(s[j].0@ != s[i as int].0@);
            }
            assert(s.take(i + 1) =~= s.take(i as int).push(s[i as int]));
        }
        r.insert_new(k.clone(), v.clone());
        i = i + 1;
    }
    assert(dict.entries().take(n as int) =~= dict.entries());
    r
}

impl Clone for JsObjStruct {
    fn clone(&self) -> (r: Self)
        ensures
            r@ == self@,
        decreases self,
    {
        let proto = match &self.proto {
            Some(p) => Some(Box::new((**p).clone())),
            None => None,
        };
        JsObjStruct { proto, name: self.name.clone(), dict: clone_dict(&self.dict) }
    }
}

/// `after` is the object `before` with `v` under the key `k`.
pub open spec fn with_key(before: JsObjStruct, after: JsObjStruct, k: JsKeyView, v: JsVar) -> bool {
    &&& after.proto == before.proto
    &&& after.name == before.name
    &&& after.dict@ == before.dict@.insert(k, v)
}

/// `after` is the object `before` with nothing under the key `k`.
pub open spec fn without_key(before: JsObjStruct, after: JsObjStruct, k: JsKeyView) -> bool {
    &&& after.proto == before.proto
    &&& after.name == before.name
    &&& after.dict@ == before.dict@.remove(k)
}

/// The binding that a new value under `k` displaces: that of the value
/// which `obj` holds under `k` now, if it is a pointer.
pub open spec fn displaced_binding(obj: JsObjStruct, k: JsKeyView) -> Option<Seq<char>> {
    if obj.dict@.contains_key(k) && obj.dict@[k].t is JsPtr {
        Some(obj.dict@[k].unique@)
    } else {
        None
    }
}

/// What `add_key` does to the heap. The displaced binding, if there is one,
/// is condemned, which leads from `pre` to `mid`. Then the object under
/// `obj` gives way to `stored`, which is that object with `v` under `k`;
/// this leads from `mid` to `post` and leaves the object's color alone.
pub open spec fn add_key_heap(
    pre: AllocBox,
    mid: AllocBox,
    stored: JsObjStruct,
    post: AllocBox,
    displaced: Option<Seq<char>>,
    obj: Seq<char>,
    k: JsKeyView,
    v: JsVar,
) -> bool {
    &&& match displaced {
        Some(u) => condemn_step(pre, u, mid, Ok::<(), GcError>(())),
        None => mid == pre,
    }
    &&& pre.payload(obj) matches JsPtrEnum::JsObj(o) && with_key(o, stored, k, v)
    &&& replace_step(
        mid,
        obj,
        JsPtrEnum::JsObj(stored),
        post,
        Ok::<JsPtrEnum, GcError>(pre.payload(obj)),
    )
}

/// What `remove_key` does to the heap when the object under `obj` holds
/// `gone` under `k`. The object gives way to `stored`, which is that object
/// without `k`; this leads from `pre` to `mid` and leaves the object's color
/// alone. Then the binding of `gone` is condemned if it denotes a payload,
/// which leads from `mid` to `post`.
pub open spec fn remove_key_heap(
    pre: AllocBox,
    mid: AllocBox,
    stored: JsObjStruct,
    post: AllocBox,
    obj: Seq<char>,
    k: JsKeyView,
    gone: JsVar,
) -> bool {
    &&& pre.payload(obj) matches JsPtrEnum::JsObj(o) && without_key(o, stored, k) && o.dict@[k]
        == gone
    &&& replace_step(
        pre,
        obj,
        JsPtrEnum::JsObj(stored),
        mid,
        Ok::<JsPtrEnum, GcError>(pre.payload(obj)),
    )
    &&& if mid.is_allocated_spec(gone.unique@) {
        condemn_step(mid, gone.unique@, post, Ok::<(), GcError>(()))
    } else {
        post == mid
    }
}

/// A property to build an object from: the key, the value, and the payload
/// that the value points to, if it is a pointer.
pub type KvTuple = (JsKey, JsVar, Option<JsPtrEnum>);

/// A tuple is sound if it brings a payload just when its value is a
/// pointer, and the payload is of the kind that the pointer's tag names.
pub open spec fn sound_tuple(t: KvTuple) -> bool {
    match t.1.t {
        JsType::JsPtr(tag) => t.2 matches Some(p) && tag.eq_ptr_type_spec(&p),
        _ => t.2 is None,
    }
}

/// The grey set `grey` once the payloads of the first `n` tuples are in it,
/// each under the unique binding of its value.
pub open spec fn grey_after(grey: Map<Seq<char>, JsPtrEnum>, ts: Seq<KvTuple>, n: int) -> Map<
    Seq<char>,
    JsPtrEnum,
>
    decreases n,
{
    if n <= 0 {
        grey
    } else {
        let before = grey_after(grey, ts, n - 1);
        match ts[n - 1].2 {
            Some(p) => before.insert(ts[n - 1].1.unique@, p),
            None => before,
        }
    }
}

/// The dictionary that the first `n` tuples make: each value under its key,
/// a later tuple winning over an earlier one with the same key.
pub open spec fn dict_after(ts: Seq<KvTuple>, n: int) -> Map<JsKeyView, JsVar>
    decreases n,
{
    if n <= 0 {
        Map::empty()
    } else {
        dict_after(ts, n - 1).insert(ts[n - 1].0@, ts[n - 1].1)
    }
}

/// The payload of tuple `c` cannot be allocated: its binding denotes a
/// payload of `pre` already, or an earlier tuple has taken it.
pub open spec fn clash_at(pre: AllocBox, ts: Seq<KvTuple>, c: int) -> bool {
    &&& ts[c].2 is Some
    &&& pre.is_allocated_spec(ts[c].1.unique@) || grey_after(pre.grey(), ts, c).contains_key(
        ts[c].1.unique@,
    )
}

/// Tuple `c` is the first whose payload cannot be allocated.
pub open spec fn first_clash(pre: AllocBox, ts: Seq<KvTuple>, c: int) -> bool {
    &&& 0 <= c < ts.len()
    &&& clash_at(pre, ts, c)
    &&& forall|i: int| 0 <= i < c ==> !clash_at(pre, ts, i)
}

/// What building an object from the tuples `ts` does. The payloads are
/// allocated in order, so they enter the grey set. If all of them can be,
/// the answer is the object with the given prototype and name and the
/// dictionary that the tuples make. If one cannot, the answer is the
/// failure of that allocation, and the payloads before it stay allocated.
pub open spec fn built(
    pre: AllocBox,
    proto: JsProto,
    name: Seq<char>,
    ts: Seq<KvTuple>,
    post: AllocBox,
    res: Result<JsObjStruct, GcError>,
) -> bool {
    &&& post.wf()
    &&& post.black() == pre.black()
    &&& post.white() == pre.white()
    &&& match res {
        Ok(obj) => {
            &&& forall|c: int| 0 <= c < ts.len() ==> !clash_at(pre, ts, c)
            &&& post.grey() == grey_after(pre.grey(), ts, ts.len() as int)
            &&& obj.proto == proto
            &&& obj.name@ == name
            &&& obj.dict@ == dict_after(ts, ts.len() as int)
        },
        Err(e) => exists|c: int|
            {
                &&& #[trigger] first_clash(pre, ts, c)
                &&& e matches GcError::Alloc(b) && b@ == ts[c].1.unique@
                &&& post.grey() == grey_after(pre.grey(), ts, c)
            },
    }
}

/// Allocating tuples takes nothing out of the grey set.
pub proof fn lemma_grey_after_grows(grey: Map<Seq<char>, JsPtrEnum>, ts: Seq<KvTuple>, n: int)
    ensures
        forall|k: Seq<char>| grey.contains_key(k) ==> grey_after(grey, ts, n).contains_key(k),
    decreases n,
{
    if n > 0 {
        lemma_grey_after_grows(grey, ts, n - 1);
    }
}

/// The entries of a prototype's dictionary, or none where there is no
/// prototype.
pub open spec fn proto_entries(proto: JsProto) -> Seq<(JsKey, JsVar)> {
    match proto {
        Some(o) => o.dict.entries(),
        None => Seq::empty(),
    }
}

/// The heap backs a prototype if it holds a payload for each pointer among
/// the prototype's properties, of the kind that the pointer's tag names,
/// and none for any other property.
pub open spec fn proto_backed(proto: JsProto, heap: AllocBox) -> bool {
    forall|i: int|
        0 <= i < proto_entries(proto).len() ==> match (#[trigger] proto_entries(proto)[i]).1.t {
            JsType::JsPtr(tag) => heap.is_allocated_spec(proto_entries(proto)[i].1.unique@)
                && tag.eq_ptr_type_spec(&heap.payload(proto_entries(proto)[i].1.unique@)),
            _ => !heap.is_allocated_spec(proto_entries(proto)[i].1.unique@),
        }
}

/// `copy` is what an object inherits for the property `(k, v)` of its
/// prototype: the same key, a fresh anonymous value of the same type, and a
/// copy of the payload that `heap` holds for `v`, if it holds one.
pub open spec fn inherited(heap: AllocBox, k: JsKey, v: JsVar, copy: KvTuple) -> bool {
    &&& copy.0 == k
    &&& copy.1.t == v.t
    &&& is_mangling_of(copy.1.binding@, anon_marker())
    &&& is_mangling_of(copy.1.unique@, copy.1.binding@)
    &&& match copy.2 {
        Some(p) => heap.is_allocated_spec(v.unique@) && p@ == heap.payload(v.unique@)@,
        None => !heap.is_allocated_spec(v.unique@),
    }
}

/// `copies` is what an object inherits from `proto`: one tuple for each of
/// the prototype's properties, in their order.
pub open spec fn inherited_from(proto: JsProto, heap: AllocBox, copies: Seq<KvTuple>) -> bool {
    &&& copies.len() == proto_entries(proto).len()
    &&& forall|i: int|
        0 <= i < copies.len() ==> inherited(
            heap,
            proto_entries(proto)[i].0,
            proto_entries(proto)[i].1,
            #[trigger] copies[i],
        )
}

/// Two replacements in a row at one binding amount to the second alone.
pub proof fn lemma_replace_twice(
    s0: AllocBox,
    s1: AllocBox,
    s2: AllocBox,
    k: Seq<char>,
    p: JsPtrEnum,
    q: JsPtrEnum,
)
    requires
        s0.wf(),
        s0.is_allocated_spec(k),
        replace_step(s0, k, p, s1, Ok::<JsPtrEnum, GcError>(s0.payload(k))),
        replace_step(s1, k, q, s2, Ok::<JsPtrEnum, GcError>(p)),
    ensures
        replace_step(s0, k, q, s2, Ok::<JsPtrEnum, GcError>(s0.payload(k))),
{
    s0.lemma_partition();
    assert(s2.white() =~= if s0.white().contains_key(k) {
        s0.white().insert(k, q)
    } else {
        s0.white()
    });
    assert(s2.grey() =~= if !s0.white().contains_key(k) && s0.grey().contains_key(k) {
        s0.grey().insert(k, q)
    } else {
        s0.grey()
    });
    assert(s2.black() =~= if !s0.white().contains_key(k) && !s0.grey().contains_key(k) {
        s0.black().insert(k, q)
    } else {
        s0.black()
    });
}

/// The same items in the opposite order.
fn reversed(v: Vec<KvTuple>) -> (r: Vec<KvTuple>)
    ensures
        r@.len() == v@.len(),
        forall|j: int| 0 <= j < r@.len() ==> #[trigger] r@[j] == v@[v@.len() - 1 - j],
{
    let ghost src = v@;
    let mut v = v;
    let mut r: Vec<KvTuple> = Vec::new();
    loop
        invariant
            v@.len() + r@.len() == src.len(),
            forall|j: int| 0 <= j < v@.len() ==> #[trigger] v@[j] == src[j],
            forall|j: int| 0 <= j < r@.len() ==> #[trigger] r@[j] == src[src.len() - 1 - j],
        ensures
            r@.len() == src.len(),
            forall|j: int| 0 <= j < r@.len() ==> #[trigger] r@[j] == src[src.len() - 1 - j],
        decreases v@.len(),
    {
        match v.pop() {
            Some(t) => {
                r.push(t);
            },
            None => {
                break ;
            },
        }
    }
    r
}

/// The bindings of the pointer-tagged values among the first `n` entries.
pub open spec fn pointer_bindings(s: Seq<(JsKey, JsVar)>, n: int) -> Set<Seq<char>> {
    Set::new(
        |c: Seq<char>|
            exists|j: int|
                0 <= j < n && j < s.len() && (#[trigger] s[j]).1.t is JsPtr && s[j].1.unique@ == c,
    )
}

impl JsObjStruct {
    /// The bindings that the object refers to directly: the unique binding
    /// of every pointer-tagged value among its properties. Values of other
    /// types contribute nothing, and the prototype is not looked into: a
    /// payload that only a prototype refers to is not kept alive by it.
    pub open spec fn children(&self) -> Set<Seq<char>> {
        Set::new(
            |c: Seq<char>|
                exists|k: JsKeyView|
                    #[trigger] self.dict@.contains_key(k) && self.dict@[k].t is JsPtr
                        && self.dict@[k].unique@ == c,
        )
    }

    /// Over a well-formed dictionary, the children are the pointer bindings
    /// of all its entries.
    pub proof fn lemma_children_by_entries(&self)
        requires
            self.dict.wf(),
        ensures
            self.children() == pointer_bindings(
                self.dict.entries(),
                self.dict.entries().len() as int,
            ),
    {
        let s = self.dict.entries();
        let by_entries = pointer_bindings(s, s.len() as int);
        assert forall|c: Seq<char>| self.children().contains(c) implies by_entries.contains(c) by {
            let k = choose|k: JsKeyView|
                #[trigger] self.dict@.contains_key(k) && self.dict@[k].t is JsPtr
                    && self.dict@[k].unique@ == c;
            assert(has_key(s, k));
            let j = index_of(s, k);
            lemma_map_of_index(s, j);
            assert(s[j].1.t is JsPtr && s[j].1.unique@ == c);
        }
        assert forall|c: Seq<char>| by_entries.contains(c) implies self.children().contains(c) by {
            let j = choose|j: int|
                0 <= j < s.len() && j < s.len() && (#[trigger] s[j]).1.t is JsPtr
                    && s[j].1.unique@ == c;
            lemma_map_of_index(s, j);
            assert(self.dict@.contains_key(s[j].0@));
        }
        assert(self.children() =~= by_entries);
    }

    /// The set of bindings that the object refers to directly.
    pub fn get_children(&self) -> (r: BindingSet)
        ensures
            r@.dom() == self.children(),
    {
        let mut bindings: BindingSet = AssocMap::new();
        let n = self.dict.len();
        let mut i: usize = 0;
        while i < n
            invariant
                n == self.dict.entries().len(),
                i <= n,
                bindings@.dom() =~= pointer_bindings(self.dict.entries(), i as int),
            decreases n - i,
        {
            let (_, v) = self.dict.entry_at(i);
            let ghost before = bindings@.dom();
            match v.t {
                JsType::JsPtr(_) => {
                    bindings.insert(v.unique.clone(), ());
                    assert(bindings@.dom() =~= before.insert(v.unique@));
                },
                _ => {},
            }
            proof {
                let s = self.dict.entries();
                assert forall|c: Seq<char>| pointer_bindings(s, i + 1).contains(c) implies #[trigger] bindings@.dom().contains(c) by {
                    let j = choose|j: int|
                        0 <= j < i + 1 && j < s.len() && (#[trigger] s[j]).1.t is JsPtr
                            && s[j].1.unique@ == c;
                    if j < i {
                        assert(pointer_bindings(s, i as int).contains(c));
                    }
                }
                assert forall|c: Seq<char>| #[trigger] bindings@.dom().contains(c) implies pointer_bindings(s, i + 1).contains(c) by {
                    if before.contains(c) {
                        let j = choose|j: int|
                            0 <= j < i && j < s.len() && (#[trigger] s[j]).1.t is JsPtr
                                && s[j].1.unique@ == c;
                        assert(0 <= j < i + 1 && s[j].1.t is JsPtr);
                    } else {
                        assert(s[i as int].1.t is JsPtr && s[i as int].1.unique@ == c);
                    }
                }
            }
            i = i + 1;
        }
        proof {
            use_type_invariant(&self.dict);
            self.lemma_children_by_entries();
        }
        bindings
    }

    /// Builds an object from a prototype, a name and the tuples `kv_tuples`,
    /// and allocates the payloads that the tuples bring. The tuples are
    /// taken in order. The first payload whose binding is already taken
    /// ends the work with the failure of its allocation.
    ///
    /// Every tuple must be sound, and the heap must have room for the
    /// payloads.
    pub fn from_tuples(
        proto: JsProto,
        name: &str,
        kv_tuples: Vec<KvTuple>,
        allocator: &mut AllocBox,
    ) -> (r: Result<JsObjStruct, GcError>)
        requires
            forall|i: int| 0 <= i < kv_tuples@.len() ==> sound_tuple(#[trigger] kv_tuples@[i]),
            old(allocator).spec_len() + kv_tuples@.len() <= usize::MAX,
        ensures
            built(*old(allocator), proto, name@, kv_tuples@, *final(allocator), r),
    {
        let ghost pre = *allocator;
        let ghost ts = kv_tuples@;
        let n = kv_tuples.len();
        let mut rest = reversed(kv_tuples);
        let mut dict: AssocMap<JsKey, JsVar> = AssocMap::new();
        let mut i: usize = 0;
        proof {
            use_type_invariant(&*allocator);
        }
        while i < n
            invariant
                pre == *old(allocator),
                ts == kv_tuples@,
                n == ts.len(),
                i <= n,
                rest@.len() == n - i,
                forall|j: int| 0 <= j < rest@.len() ==> #[trigger] rest@[j] == ts[n - 1 - j],
                forall|j: int| 0 <= j < ts.len() ==> sound_tuple(#[trigger] ts[j]),
                pre.spec_len() + n <= usize::MAX,
                allocator.wf(),
                allocator.spec_len() <= pre.spec_len() + i,
                allocator.black() == pre.black(),
                allocator.white() == pre.white(),
                allocator.grey() == grey_after(pre.grey(), ts, i as int),
                forall|c: int| 0 <= c < i ==> !clash_at(pre, ts, c),
                dict@ == dict_after(ts, i as int),
            decreases n - i,
        {
            let ghost here = *allocator;
            let t = rest.pop();
            match t {
                Some((k, v, ptr)) => {
                    assert((k, v, ptr) == ts[i as int]);
                    proof {
                        lemma_grey_after_grows(pre.grey(), ts, i as int);
                    }
                    match ptr {
                        Some(p) => {
                            let binding = v.unique.clone();
                            match allocator.allocate(binding, p) {
                                Ok(_) => {
                                    proof {
                                        assert(!clash_at(pre, ts, i as int));
                                    }
                                },
                                Err(e) => {
                                    proof {
                                        assert(clash_at(pre, ts, i as int));
                                        assert(first_clash(pre, ts, i as int));
                                    }
                                    return Err(e);
                                },
                            }
                        },
                        None => {},
                    }
                    dict.insert(k, v);
                },
                None => {
                    proof {
                        assert(false);
                    }
                },
            }
            i = i + 1;
        }
        Ok(JsObjStruct { proto, name: name.to_owned(), dict })
    }

    /// What an object inherits from `proto`: for each property of the
    /// prototype a fresh anonymous value of the same type, with a copy of
    /// the payload that the heap holds for the prototype's value.
    fn inherit(proto: &JsProto, allocator: &AllocBox) -> (r: Vec<KvTuple>)
        ensures
            inherited_from(*proto, *allocator, r@),
    {
        let mut copies: Vec<KvTuple> = Vec::new();
        match proto {
            None => {},
            Some(obj) => {
                let n = obj.dict.len();
                let mut i: usize = 0;
                while i < n
                    invariant
                        *proto == Some(*obj),
                        n == obj.dict.entries().len(),
                        i <= n,
                        copies@.len() == i,
                        forall|j: int|
                            0 <= j < i ==> inherited(
                                *allocator,
                                obj.dict.entries()[j].0,
                                obj.dict.entries()[j].1,
                                #[trigger] copies@[j],
                            ),
                    decreases n - i,
                {
                    let (k, v) = obj.dict.entry_at(i);
                    let ptr = match allocator.find_id(&v.unique) {
                        Some(p) => Some(p.clone()),
                        None => None,
                    };
                    let fresh = JsVar::new(v.t.clone());
                    copies.push((k.clone(), fresh, ptr));
                    i = i + 1;
                }
            },
        }
        copies
    }

    /// Builds an object with the prototype `proto` and the name `name`. Its
    /// properties are what it inherits from the prototype, followed by
    /// `kv_tuples`, so a tuple wins over an inherited property with the
    /// same key. The payloads of all of them are allocated.
    ///
    /// What is inherited comes under fresh bindings, which are random. An
    /// allocation that finds its binding taken ends the work with its
    /// failure.
    ///
    /// Every tuple must be sound, the heap must back the prototype, and it
    /// must have room for the payloads.
    pub fn new(
        proto: JsProto,
        name: &str,
        kv_tuples: Vec<KvTuple>,
        allocator: &mut AllocBox,
    ) -> (r: Result<JsObjStruct, GcError>)
        requires
            forall|i: int| 0 <= i < kv_tuples@.len() ==> sound_tuple(#[trigger] kv_tuples@[i]),
            proto_backed(proto, *old(allocator)),
            old(allocator).spec_len() + proto_entries(proto).len() + kv_tuples@.len()
                <= usize::MAX,
        ensures
            exists|copies: Seq<KvTuple>|
                {
                    &&& #[trigger] inherited_from(proto, *old(allocator), copies)
                    &&& built(
                        *old(allocator),
                        proto,
                        name@,
                        copies + kv_tuples@,
                        *final(allocator),
                        r,
                    )
                },
    {
        let mut all = Self::inherit(&proto, allocator);
        let ghost copies = all@;
        let mut kv_tuples = kv_tuples;
        proof {
            assert forall|i: int| 0 <= i < copies.len() implies sound_tuple(
                #[trigger] copies[i],
            ) by {
                let e = proto_entries(proto)[i];
                assert(inherited(*allocator, e.0, e.1, copies[i]));
            }
        }
        all.append(&mut kv_tuples);
        Self::from_tuples(proto, name, all, allocator)
    }

    /// Takes the object under `obj_binding` off the heap for a moment, by
    /// leaving a stand-in in its place.
    fn borrow_object(allocator: &mut AllocBox, obj_binding: &UniqueBinding) -> (r: (
        JsObjStruct,
        Ghost<JsPtrEnum>,
    ))
        requires
            old(allocator).is_allocated_spec(obj_binding@),
            old(allocator).payload(obj_binding@) is JsObj,
        ensures
            old(allocator).payload(obj_binding@) == JsPtrEnum::JsObj(r.0),
            replace_step(
                *old(allocator),
                obj_binding@,
                r.1@,
                *final(allocator),
                Ok::<JsPtrEnum, GcError>(old(allocator).payload(obj_binding@)),
            ),
    {
        let stand_in = JsPtrEnum::JsSym(String::new());
        let ghost g = stand_in;
        match allocator.replace_payload(obj_binding, stand_in) {
            Ok(JsPtrEnum::JsObj(obj)) => (obj, Ghost(g)),
            _ => {
                proof {
                    assert(false);
                }
                (JsObjStruct { proto: None, name: String::new(), dict: AssocMap::new() }, Ghost(g))
            },
        }
    }

    /// Puts `v` under the key `k`, both in this object and in the object
    /// that the heap holds under `obj_binding`. If `k` named a pointer
    /// before, that pointer's payload is condemned first.
    ///
    /// The heap must hold an object under `obj_binding`, and the payload of
    /// a pointer that `k` names now must be on the heap.
    pub fn add_key(
        &mut self,
        obj_binding: &UniqueBinding,
        k: JsKey,
        v: JsVar,
        _ptr: Option<JsPtrEnum>,
        allocator: &mut AllocBox,
    )
        requires
            old(allocator).is_allocated_spec(obj_binding@),
            old(allocator).payload(obj_binding@) is JsObj,
            displaced_binding(*old(self), k@) matches Some(u) ==> old(allocator).is_allocated_spec(
                u,
            ),
        ensures
            with_key(*old(self), *final(self), k@, v),
            exists|mid: AllocBox, stored: JsObjStruct|
                add_key_heap(
                    *old(allocator),
                    mid,
                    stored,
                    *final(allocator),
                    displaced_binding(*old(self), k@),
                    obj_binding@,
                    k@,
                    v,
                ),
    {
        let ghost pre = *allocator;
        proof {
            use_type_invariant(&*allocator);
        }
        let displaced = match self.dict.get(&k) {
            Some(var) => match var.t {
                JsType::JsPtr(_) => Some(var.unique.clone()),
                _ => None,
            },
            None => None,
        };
        match displaced {
            Some(u) => {
                let r = allocator.condemn(u);
                proof {
                    crate::alloc_box::lemma_condemn_round_trip(
                        pre,
                        *allocator,
                        u@,
                        r,
                    );
                }
            },
            None => {},
        }
        let ghost mid = *allocator;
        proof {
            use_type_invariant(&*allocator);
            assert(mid.is_allocated_spec(obj_binding@));
            assert(mid.payload(obj_binding@) == pre.payload(obj_binding@));
        }
        let (mut obj, Ghost(stand_in)) = Self::borrow_object(allocator, obj_binding);
        let ghost away = *allocator;
        let ghost held = obj;
        obj.dict.insert(k.clone(), v.clone());
        let ghost stored = obj;
        let r = allocator.replace_payload(obj_binding, JsPtrEnum::JsObj(obj));
        proof {
            lemma_replace_twice(
                mid,
                away,
                *allocator,
                obj_binding@,
                stand_in,
                JsPtrEnum::JsObj(stored),
            );
            assert(with_key(held, stored, k@, v));
            assert(add_key_heap(
                pre,
                mid,
                stored,
                *allocator,
                displaced_binding(*old(self), k@),
                obj_binding@,
                k@,
                v,
            ));
        }
        self.dict.insert(k, v);
    }

    /// Takes the key `k` out of the object that the heap holds under
    /// `obj_binding`, and out of this object. The value that the heap's
    /// object held under `k` is handed back, with a copy of its payload if
    /// it has one on the heap; such a payload is condemned. If the heap's
    /// object holds nothing under `k`, nothing changes.
    ///
    /// The heap must hold an object under `obj_binding`.
    pub fn remove_key(
        &mut self,
        obj_binding: &UniqueBinding,
        k: &JsKey,
        allocator: &mut AllocBox,
    ) -> (r: Option<(JsVar, Option<JsPtrEnum>)>)
        requires
            old(allocator).is_allocated_spec(obj_binding@),
            old(allocator).payload(obj_binding@) is JsObj,
        ensures
            match r {
                Some((gone, copy)) => {
                    &&& without_key(*old(self), *final(self), k@)
                    &&& old(allocator).payload(obj_binding@)->JsObj_0.dict@.contains_key(k@)
                    &&& exists|mid: AllocBox, stored: JsObjStruct|
                        {
                            &&& remove_key_heap(
                                *old(allocator),
                                mid,
                                stored,
                                *final(allocator),
                                obj_binding@,
                                k@,
                                gone,
                            )
                            &&& match copy {
                                Some(p) => mid.is_allocated_spec(gone.unique@) && p@
                                    == mid.payload(gone.unique@)@,
                                None => !mid.is_allocated_spec(gone.unique@),
                            }
                        }
                },
                None => {
                    &&& !old(allocator).payload(obj_binding@)->JsObj_0.dict@.contains_key(k@)
                    &&& *final(self) == *old(self)
                    &&& *final(allocator) == *old(allocator)
                },
            },
    {
        let ghost pre = *allocator;
        proof {
            use_type_invariant(&*allocator);
        }
        let held = match allocator.find_id(obj_binding) {
            Some(JsPtrEnum::JsObj(o)) => o.dict.contains_key(k),
            _ => false,
        };
        if !held {
            return None;
        }
        let (mut obj, Ghost(stand_in)) = Self::borrow_object(allocator, obj_binding);
        let ghost away = *allocator;
        let ghost held = obj;
        let taken = obj.dict.remove(k);
        let ghost stored = obj;
        let r = allocator.replace_payload(obj_binding, JsPtrEnum::JsObj(obj));
        let ghost mid = *allocator;
        proof {
            lemma_replace_twice(pre, away, mid, obj_binding@, stand_in, JsPtrEnum::JsObj(stored));
            assert(without_key(held, stored, k@));
            use_type_invariant(&*allocator);
        }
        match taken {
            Some(gone) => {
                let copy = match allocator.find_id(&gone.unique) {
                    Some(p) => Some(p.clone()),
                    None => None,
                };
                if copy.is_some() {
                    let c = allocator.condemn(gone.unique.clone());
                }
                self.dict.remove(k);
                proof {
                    assert(remove_key_heap(pre, mid, stored, *allocator, obj_binding@, k@, gone));
                }
                Some((gone, copy))
            },
            None => {
                proof {
                    assert(false);
                }
                None
            },
        }
    }
}

} // verus!
