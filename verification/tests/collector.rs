use jsrs_common::alloc_box::AllocBox;
use jsrs_common::gc_error::GcError;
use jsrs_common::test_utils::{make_obj, make_str};
use jsrs_common::types::allocator::Allocator;
use jsrs_common::types::binding::UniqueBinding;
use jsrs_common::types::js_obj::JsObjStruct;
use jsrs_common::types::js_str::JsStrStruct;
use jsrs_common::types::js_var::{JsKey, JsPtrEnum, JsPtrTag, JsType, JsVar};

fn key(s: &str) -> JsKey {
    JsKey::JsStr(JsStrStruct::new(s))
}

fn str_payload(s: &str) -> JsPtrEnum {
    JsPtrEnum::JsStr(JsStrStruct::new(s))
}

fn text_of(p: Option<&JsPtrEnum>) -> Option<String> {
    match p {
        Some(JsPtrEnum::JsStr(s)) => Some(s.text.clone()),
        _ => None,
    }
}

fn binding(name: &str, id: &str) -> UniqueBinding {
    UniqueBinding::mangle_with_id(name, id)
}

/// An object value that refers to nothing yet, allocated on the heap.
fn alloc_empty_obj(heap: &mut AllocBox, name: &str) -> JsVar {
    let var = JsVar::bind_with_id(name, "0", JsType::JsPtr(JsPtrTag::JsObj));
    let obj = JsObjStruct::from_tuples(None, name, Vec::new(), heap).unwrap();
    heap.allocate(var.unique.clone(), JsPtrEnum::JsObj(obj)).unwrap();
    var
}

/// Makes the object under `from` refer to `to` through the property `name`.
fn link(heap: &mut AllocBox, from: &JsVar, name: &str, to: &JsVar) {
    let mut local = match heap.find_id(&from.unique) {
        Some(JsPtrEnum::JsObj(o)) => o.clone(),
        _ => panic!("no object under the binding"),
    };
    local.add_key(&from.unique, key(name), to.clone(), None, heap);
}

#[test]
fn new_heap_is_empty() {
    let ab = AllocBox::new();
    assert!(ab.is_empty());
    assert_eq!(ab.len(), 0);
    assert!(!ab.is_allocated(&binding("x", "1")));
    assert!(ab.find_id(&binding("x", "1")).is_none());
}

#[test]
fn len_counts_every_color() {
    let mut ab = AllocBox::new();
    let a = binding("a", "1");
    let b = binding("b", "1");
    let c = binding("c", "1");
    ab.allocate(a.clone(), str_payload("a")).unwrap();
    ab.mark_ptrs();
    ab.allocate(b.clone(), str_payload("b")).unwrap();
    ab.allocate(c.clone(), str_payload("c")).unwrap();
    ab.condemn(c.clone()).unwrap();
    // a is black, b is grey, c is white
    assert_eq!(ab.len(), 3);
    assert!(!ab.is_empty());
    assert!(ab.is_allocated(&a) && ab.is_allocated(&b) && ab.is_allocated(&c));
}

#[test]
fn alloc_twice_keeps_the_first_payload() {
    let mut ab = AllocBox::new();
    let x = binding("x", "1");
    assert!(ab.allocate(x.clone(), str_payload("first")).is_ok());
    let res = ab.allocate(x.clone(), str_payload("second"));
    match res {
        Err(GcError::Alloc(b)) => assert_eq!(b, x),
        _ => panic!("expected a duplicate binding"),
    }
    assert_eq!(ab.len(), 1);
    assert_eq!(text_of(ab.find_id(&x)), Some("first".to_string()));
}

#[test]
fn alloc_fails_on_a_binding_of_any_color() {
    let mut ab = AllocBox::new();
    let black = binding("black", "1");
    let white = binding("white", "1");
    ab.allocate(black.clone(), str_payload("b")).unwrap();
    ab.mark_ptrs();
    ab.allocate(white.clone(), str_payload("w")).unwrap();
    ab.condemn(white.clone()).unwrap();
    assert!(matches!(ab.allocate(black.clone(), str_payload("again")), Err(GcError::Alloc(_))));
    assert!(matches!(ab.allocate(white.clone(), str_payload("again")), Err(GcError::Alloc(_))));
    assert_eq!(text_of(ab.find_id(&black)), Some("b".to_string()));
    assert_eq!(text_of(ab.find_id(&white)), Some("w".to_string()));
    assert_eq!(ab.len(), 2);
}

#[test]
fn condemn_round_trip() {
    let mut ab = AllocBox::new();
    let x = binding("x", "1");
    ab.allocate(x.clone(), str_payload("kept")).unwrap();
    assert!(ab.condemn(x.clone()).is_ok());
    assert!(ab.is_allocated(&x));
    assert_eq!(text_of(ab.find_id(&x)), Some("kept".to_string()));
    assert_eq!(ab.len(), 1);
    // it is white now: a sweep takes it
    ab.sweep_ptrs();
    assert!(!ab.is_allocated(&x));
}

#[test]
fn condemn_of_unallocated_fails() {
    let mut ab = AllocBox::new();
    let res = ab.condemn(binding("nobody", "1"));
    assert!(matches!(res, Err(GcError::HeapUpdate)));
    assert!(ab.is_empty());
}

#[test]
fn update_moves_white_to_grey() {
    let mut ab = AllocBox::new();
    let x = binding("x", "1");
    ab.allocate(x.clone(), str_payload("old")).unwrap();
    ab.condemn(x.clone()).unwrap();
    assert!(ab.update_ptr(&x, str_payload("new")).is_ok());
    assert_eq!(text_of(ab.find_id(&x)), Some("new".to_string()));
    // grey survives a sweep
    ab.sweep_ptrs();
    assert!(ab.is_allocated(&x));
    assert_eq!(text_of(ab.find_id(&x)), Some("new".to_string()));
}

#[test]
fn update_moves_black_to_grey() {
    let mut ab = AllocBox::new();
    let a = alloc_empty_obj(&mut ab, "a");
    let b = binding("b", "1");
    ab.allocate(b.clone(), str_payload("b")).unwrap();
    ab.mark_ptrs();
    // a and b are black; make a grey again by a write that refers to b
    let b_var = JsVar { unique: b.clone(), binding: a.binding.clone(), t: JsType::JsPtr(JsPtrTag::JsStr) };
    let mut obj = JsObjStruct::from_tuples(None, "a", Vec::new(), &mut ab).unwrap();
    obj.dict.insert(key("b"), b_var);
    assert!(ab.update_ptr(&a.unique, JsPtrEnum::JsObj(obj)).is_ok());
    ab.condemn(b.clone()).unwrap();
    // a is grey: marking scans it and rescues b
    ab.mark_ptrs();
    ab.sweep_ptrs();
    assert!(ab.is_allocated(&a.unique));
    assert!(ab.is_allocated(&b));
}

#[test]
fn update_of_unallocated_fails() {
    let mut ab = AllocBox::new();
    ab.allocate(binding("other", "1"), str_payload("o")).unwrap();
    let res = ab.update_ptr(&binding("nobody", "1"), str_payload("x"));
    assert!(matches!(res, Err(GcError::HeapUpdate)));
    assert_eq!(ab.len(), 1);
}

#[test]
fn find_prefers_nothing_it_should_not() {
    let mut ab = AllocBox::new();
    let x = binding("x", "1");
    let y = binding("y", "1");
    ab.allocate(x.clone(), str_payload("x")).unwrap();
    ab.allocate(y.clone(), str_payload("y")).unwrap();
    assert_eq!(text_of(ab.find_id(&x)), Some("x".to_string()));
    assert_eq!(text_of(ab.find_id(&y)), Some("y".to_string()));
}

#[test]
fn replace_payload_keeps_the_color() {
    let mut ab = AllocBox::new();
    let x = binding("x", "1");
    ab.allocate(x.clone(), str_payload("one")).unwrap();
    ab.condemn(x.clone()).unwrap();
    let old = ab.replace_payload(&x, str_payload("two")).unwrap();
    assert_eq!(text_of(Some(&old)), Some("one".to_string()));
    assert_eq!(text_of(ab.find_id(&x)), Some("two".to_string()));
    // still white
    ab.sweep_ptrs();
    assert!(!ab.is_allocated(&x));
    assert!(matches!(ab.replace_payload(&x, str_payload("three")), Err(GcError::HeapUpdate)));
}

#[test]
fn mark_moves_grey_to_black_and_white_child_to_grey() {
    let mut ab = AllocBox::new();
    let a = alloc_empty_obj(&mut ab, "a");
    let b = alloc_empty_obj(&mut ab, "b");
    link(&mut ab, &a, "child", &b);
    ab.condemn(b.unique.clone()).unwrap();
    // a is grey and refers to b, which is white
    ab.mark_ptrs();
    // a is black now and b grey: a second condemnation of a followed by a
    // sweep takes a but not b
    ab.condemn(a.unique.clone()).unwrap();
    ab.sweep_ptrs();
    assert!(!ab.is_allocated(&a.unique));
    assert!(ab.is_allocated(&b.unique));
}

#[test]
fn mark_follows_one_hop_at_a_time() {
    let mut ab = AllocBox::new();
    let a = alloc_empty_obj(&mut ab, "a");
    let b = alloc_empty_obj(&mut ab, "b");
    let c = alloc_empty_obj(&mut ab, "c");
    link(&mut ab, &a, "next", &b);
    link(&mut ab, &b, "next", &c);
    ab.condemn(b.unique.clone()).unwrap();
    ab.condemn(c.unique.clone()).unwrap();
    // one step reaches b only: a sweep now would lose c
    ab.mark_ptrs();
    let mut early = AllocBox::new();
    std::mem::swap(&mut early, &mut ab);
    early.sweep_ptrs();
    assert!(early.is_allocated(&a.unique));
    assert!(early.is_allocated(&b.unique));
    assert!(!early.is_allocated(&c.unique));
}

#[test]
fn mark_to_fixed_point_keeps_all_that_is_reachable() {
    let mut ab = AllocBox::new();
    let a = alloc_empty_obj(&mut ab, "a");
    let b = alloc_empty_obj(&mut ab, "b");
    let c = alloc_empty_obj(&mut ab, "c");
    let lost = binding("lost", "1");
    ab.allocate(lost.clone(), str_payload("lost")).unwrap();
    link(&mut ab, &a, "next", &b);
    link(&mut ab, &b, "next", &c);
    ab.condemn(b.unique.clone()).unwrap();
    ab.condemn(c.unique.clone()).unwrap();
    ab.condemn(lost.clone()).unwrap();
    ab.mark_ptrs();
    ab.mark_ptrs();
    ab.mark_ptrs();
    ab.sweep_ptrs();
    assert!(ab.is_allocated(&a.unique));
    assert!(ab.is_allocated(&b.unique));
    assert!(ab.is_allocated(&c.unique));
    assert!(!ab.is_allocated(&lost));
    assert_eq!(ab.len(), 3);
}

#[test]
fn sweep_reclaims_white_and_resets_black_to_grey() {
    let mut ab = AllocBox::new();
    let keep = binding("keep", "1");
    let drop = binding("drop", "1");
    ab.allocate(keep.clone(), str_payload("keep")).unwrap();
    ab.allocate(drop.clone(), str_payload("drop")).unwrap();
    ab.mark_ptrs();
    ab.mark_ptrs();
    ab.condemn(drop.clone()).unwrap();
    ab.sweep_ptrs();
    assert!(ab.is_allocated(&keep));
    assert!(!ab.is_allocated(&drop));
    assert!(ab.find_id(&drop).is_none());
    assert_eq!(ab.len(), 1);
    // keep is grey again: condemned and swept, it goes
    ab.condemn(keep.clone()).unwrap();
    ab.sweep_ptrs();
    assert!(ab.is_empty());
}

#[test]
fn sweep_keeps_what_is_still_grey() {
    let mut ab = AllocBox::new();
    let x = binding("x", "1");
    ab.allocate(x.clone(), str_payload("x")).unwrap();
    ab.sweep_ptrs();
    assert!(ab.is_allocated(&x));
    assert_eq!(text_of(ab.find_id(&x)), Some("x".to_string()));
}

#[test]
fn scenario_string_lifecycle() {
    let mut ab = AllocBox::new();
    let (x, x_ptr) = make_str("x");
    assert!(ab.allocate(x.unique.clone(), x_ptr).is_ok());
    ab.mark_ptrs();
    assert!(ab.condemn(x.unique.clone()).is_ok());
    ab.sweep_ptrs();
    assert!(!ab.is_allocated(&x.unique));
}

#[test]
fn scenario_cycle() {
    let mut ab = AllocBox::new();
    let a = alloc_empty_obj(&mut ab, "a");
    let b = alloc_empty_obj(&mut ab, "b");
    link(&mut ab, &a, "b", &b);
    link(&mut ab, &b, "a", &a);
    // both are grey and each refers to the other
    ab.mark_ptrs();
    // both are black and nothing is grey: a second step changes nothing,
    // and a sweep keeps both
    ab.mark_ptrs();
    ab.sweep_ptrs();
    assert!(ab.is_allocated(&a.unique));
    assert!(ab.is_allocated(&b.unique));
    assert_eq!(ab.len(), 2);
}

#[test]
fn condemned_cycle_is_reclaimed() {
    let mut ab = AllocBox::new();
    let a = alloc_empty_obj(&mut ab, "a");
    let b = alloc_empty_obj(&mut ab, "b");
    link(&mut ab, &a, "b", &b);
    link(&mut ab, &b, "a", &a);
    ab.condemn(a.unique.clone()).unwrap();
    ab.condemn(b.unique.clone()).unwrap();
    ab.mark_ptrs();
    ab.sweep_ptrs();
    assert!(ab.is_empty());
}

#[test]
fn allocator_trait_on_the_heap() {
    fn put<A: Allocator>(heap: &mut A, b: UniqueBinding, p: JsPtrEnum) -> bool {
        heap.allocate(b, p).is_ok()
    }
    fn whiten<A: Allocator>(heap: &mut A, b: UniqueBinding) -> bool {
        heap.condemn(b).is_ok()
    }
    let mut ab = AllocBox::new();
    let x = binding("x", "1");
    assert!(put(&mut ab, x.clone(), str_payload("x")));
    assert!(!put(&mut ab, x.clone(), str_payload("x")));
    assert!(whiten(&mut ab, x.clone()));
    assert!(!whiten(&mut ab, binding("y", "1")));
    assert!(ab.is_allocated(&x));
}

#[test]
fn make_obj_allocates_its_payloads() {
    let mut ab = AllocBox::new();
    let (s, s_ptr) = make_str("text");
    let s_unique = s.unique.clone();
    let n = JsVar::bind_with_id("n", "1", JsType::JsBool(true));
    let made = make_obj(vec![(key("s"), s, Some(s_ptr)), (key("n"), n, None)], &mut ab);
    let (_, obj) = made.unwrap();
    assert!(ab.is_allocated(&s_unique));
    assert_eq!(ab.len(), 1);
    match obj {
        JsPtrEnum::JsObj(o) => {
            assert_eq!(o.name, "test");
            assert_eq!(o.dict.len(), 2);
            let kids = o.get_children();
            assert_eq!(kids.len(), 1);
            assert!(kids.contains_key(&s_unique));
        }
        _ => panic!("expected an object"),
    }
}
