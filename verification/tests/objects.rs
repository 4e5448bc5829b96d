use jsrs_common::alloc_box::AllocBox;
use jsrs_common::assoc::AssocMap;
use jsrs_common::gc_error::GcError;
use jsrs_common::types::binding::UniqueBinding;
use jsrs_common::types::js_obj::JsObjStruct;
use jsrs_common::types::js_str::JsStrStruct;
use jsrs_common::types::js_var::{JsKey, JsPtrEnum, JsPtrTag, JsType, JsVar};
use jsrs_common::types::number::JsNumber;

fn key(s: &str) -> JsKey {
    JsKey::JsStr(JsStrStruct::new(s))
}

fn str_var(name: &str, id: &str) -> JsVar {
    JsVar::bind_with_id(name, id, JsType::JsPtr(JsPtrTag::JsStr))
}

fn str_payload(s: &str) -> JsPtrEnum {
    JsPtrEnum::JsStr(JsStrStruct::new(s))
}

fn text_of(p: Option<&JsPtrEnum>) -> Option<String> {
    match p {
        Some(JsPtrEnum::JsStr(s)) => Some(s.text.clone()),
        _ => None,
    }
}

fn heap_object(heap: &AllocBox, b: &UniqueBinding) -> JsObjStruct {
    match heap.find_id(b) {
        Some(JsPtrEnum::JsObj(o)) => o.clone(),
        _ => panic!("no object under the binding"),
    }
}

#[test]
fn assoc_map_behaves_like_a_map() {
    let mut m: AssocMap<UniqueBinding, u32> = AssocMap::new();
    let a = UniqueBinding::new("a".to_string());
    let b = UniqueBinding::new("b".to_string());
    assert_eq!(m.len(), 0);
    assert_eq!(m.insert(a.clone(), 1), None);
    assert_eq!(m.insert(b.clone(), 2), None);
    assert_eq!(m.insert(a.clone(), 3), Some(1));
    assert_eq!(m.len(), 2);
    assert_eq!(m.get(&a), Some(&3));
    assert_eq!(m.get(&b), Some(&2));
    assert!(m.contains_key(&a));
    assert_eq!(m.remove(&a), Some(3));
    assert_eq!(m.remove(&a), None);
    assert!(!m.contains_key(&a));
    m.insert_new(a.clone(), 4);
    assert_eq!(m.len(), 2);
    let mut other: AssocMap<UniqueBinding, u32> = AssocMap::new();
    other.insert_new(UniqueBinding::new("c".to_string()), 5);
    m.absorb(other);
    assert_eq!(m.len(), 3);
    let (k, v) = m.entry_at(0);
    assert_eq!((k.0.as_str(), *v), ("b", 2));
    assert_eq!(m.pop().map(|(k, v)| (k.0, v)), Some(("c".to_string(), 5)));
    assert_eq!(m.pop().map(|(k, v)| (k.0, v)), Some(("a".to_string(), 4)));
    assert_eq!(m.pop().map(|(k, v)| (k.0, v)), Some(("b".to_string(), 2)));
    assert_eq!(m.pop().map(|(k, v)| (k.0, v)), None);
}

#[test]
fn from_tuples_allocates_pointers_only() {
    let mut heap = AllocBox::new();
    let s = str_var("s", "1");
    let n = JsVar::bind_with_id("n", "1", JsType::JsNum(JsNumber::one()));
    let obj = JsObjStruct::from_tuples(
        None,
        "point",
        vec![(key("s"), s.clone(), Some(str_payload("text"))), (key("n"), n.clone(), None)],
        &mut heap,
    )
    .unwrap();
    assert_eq!(obj.name, "point");
    assert!(obj.proto.is_none());
    assert_eq!(obj.dict.len(), 2);
    assert!(obj.dict.get(&key("s")).unwrap() == &s);
    assert!(obj.dict.get(&key("n")).unwrap() == &n);
    assert_eq!(heap.len(), 1);
    assert_eq!(text_of(heap.find_id(&s.unique)), Some("text".to_string()));
    assert!(!heap.is_allocated(&n.unique));
}

#[test]
fn from_tuples_later_tuple_wins_its_key() {
    let mut heap = AllocBox::new();
    let first = JsVar::bind_with_id("v", "1", JsType::JsBool(false));
    let second = JsVar::bind_with_id("v", "2", JsType::JsBool(true));
    let obj = JsObjStruct::from_tuples(
        None,
        "o",
        vec![(key("k"), first, None), (key("k"), second.clone(), None)],
        &mut heap,
    )
    .unwrap();
    assert_eq!(obj.dict.len(), 1);
    assert!(obj.dict.get(&key("k")).unwrap() == &second);
}

#[test]
fn from_tuples_stops_at_a_taken_binding() {
    let mut heap = AllocBox::new();
    let taken = str_var("t", "1");
    heap.allocate(taken.unique.clone(), str_payload("there")).unwrap();
    let fine = str_var("f", "1");
    let late = str_var("l", "1");
    let res = JsObjStruct::from_tuples(
        None,
        "o",
        vec![
            (key("a"), fine.clone(), Some(str_payload("fine"))),
            (key("b"), taken.clone(), Some(str_payload("clash"))),
            (key("c"), late.clone(), Some(str_payload("late"))),
        ],
        &mut heap,
    );
    match res {
        Err(GcError::Alloc(b)) => assert_eq!(b, taken.unique),
        _ => panic!("expected a duplicate binding"),
    }
    assert!(heap.is_allocated(&fine.unique));
    assert!(!heap.is_allocated(&late.unique));
    assert_eq!(text_of(heap.find_id(&taken.unique)), Some("there".to_string()));
    assert_eq!(heap.len(), 2);
}

#[test]
fn from_tuples_refuses_a_binding_used_twice() {
    let mut heap = AllocBox::new();
    let v = str_var("v", "1");
    let res = JsObjStruct::from_tuples(
        None,
        "o",
        vec![(key("a"), v.clone(), Some(str_payload("one"))), (key("b"), v.clone(), Some(str_payload("two")))],
        &mut heap,
    );
    assert!(matches!(res, Err(GcError::Alloc(_))));
    assert_eq!(text_of(heap.find_id(&v.unique)), Some("one".to_string()));
}

#[test]
fn new_inherits_copies_under_fresh_bindings() {
    let mut heap = AllocBox::new();
    let s = str_var("s", "1");
    let flag = JsVar::bind_with_id("flag", "1", JsType::JsBool(true));
    let parent = JsObjStruct::from_tuples(
        None,
        "parent",
        vec![(key("s"), s.clone(), Some(str_payload("inherited"))), (key("flag"), flag, None)],
        &mut heap,
    )
    .unwrap();
    let own = str_var("own", "1");
    let child = JsObjStruct::new(
        Some(Box::new(parent)),
        "child",
        vec![(key("own"), own.clone(), Some(str_payload("mine")))],
        &mut heap,
    )
    .unwrap();
    assert_eq!(child.name, "child");
    assert_eq!(child.proto.as_ref().unwrap().name, "parent");
    assert_eq!(child.dict.len(), 3);
    let inherited = child.dict.get(&key("s")).unwrap();
    assert!(inherited != &s);
    assert!(inherited.binding.is_anon());
    assert!(matches!(inherited.t, JsType::JsPtr(JsPtrTag::JsStr)));
    assert_eq!(text_of(heap.find_id(&inherited.unique)), Some("inherited".to_string()));
    assert!(matches!(child.dict.get(&key("flag")).unwrap().t, JsType::JsBool(true)));
    assert!(child.dict.get(&key("own")).unwrap() == &own);
    // the parent's string, its copy, and the child's own string
    assert_eq!(heap.len(), 3);
}

#[test]
fn new_lets_a_tuple_win_over_an_inherited_property() {
    let mut heap = AllocBox::new();
    let parent = JsObjStruct::from_tuples(
        None,
        "parent",
        vec![(key("k"), JsVar::bind_with_id("k", "1", JsType::JsBool(false)), None)],
        &mut heap,
    )
    .unwrap();
    let mine = JsVar::bind_with_id("k", "2", JsType::JsBool(true));
    let child =
        JsObjStruct::new(Some(Box::new(parent)), "child", vec![(key("k"), mine.clone(), None)], &mut heap)
            .unwrap();
    assert_eq!(child.dict.len(), 1);
    assert!(child.dict.get(&key("k")).unwrap() == &mine);
}

#[test]
fn children_are_the_pointers_among_the_properties() {
    let mut heap = AllocBox::new();
    let a = str_var("a", "1");
    let b = str_var("b", "1");
    let mut obj = JsObjStruct::from_tuples(
        None,
        "o",
        vec![
            (key("a"), a.clone(), Some(str_payload("a"))),
            (key("n"), JsVar::bind_with_id("n", "1", JsType::JsNull), None),
            (key("b"), b.clone(), Some(str_payload("b"))),
        ],
        &mut heap,
    )
    .unwrap();
    // a second property that points to the same payload adds no child
    obj.dict.insert(key("again"), a.clone());
    let kids = obj.get_children();
    assert_eq!(kids.len(), 2);
    assert!(kids.contains_key(&a.unique));
    assert!(kids.contains_key(&b.unique));
}

#[test]
fn children_leave_the_prototype_out() {
    let mut heap = AllocBox::new();
    let s = str_var("s", "1");
    let parent = JsObjStruct::from_tuples(
        None,
        "parent",
        vec![(key("s"), s.clone(), Some(str_payload("p")))],
        &mut heap,
    )
    .unwrap();
    let mut child = JsObjStruct::from_tuples(None, "child", Vec::new(), &mut heap).unwrap();
    child.proto = Some(Box::new(parent));
    assert_eq!(child.get_children().len(), 0);
}

#[test]
fn add_key_updates_both_copies() {
    let mut heap = AllocBox::new();
    let me = JsVar::bind_with_id("me", "1", JsType::JsPtr(JsPtrTag::JsObj));
    let mut local = JsObjStruct::from_tuples(None, "me", Vec::new(), &mut heap).unwrap();
    heap.allocate(me.unique.clone(), JsPtrEnum::JsObj(local.clone())).unwrap();
    let v = JsVar::bind_with_id("v", "1", JsType::JsBool(true));
    local.add_key(&me.unique, key("k"), v.clone(), None, &mut heap);
    assert!(local.dict.get(&key("k")).unwrap() == &v);
    let stored = heap_object(&heap, &me.unique);
    assert_eq!(stored.dict.len(), 1);
    assert!(stored.dict.get(&key("k")).unwrap() == &v);
    assert_eq!(heap.len(), 1);
}

#[test]
fn add_key_condemns_the_pointer_it_displaces() {
    let mut heap = AllocBox::new();
    let me = JsVar::bind_with_id("me", "1", JsType::JsPtr(JsPtrTag::JsObj));
    let old = str_var("old", "1");
    let mut local = JsObjStruct::from_tuples(
        None,
        "me",
        vec![(key("k"), old.clone(), Some(str_payload("old")))],
        &mut heap,
    )
    .unwrap();
    heap.allocate(me.unique.clone(), JsPtrEnum::JsObj(local.clone())).unwrap();
    let new = JsVar::bind_with_id("new", "1", JsType::JsNull);
    local.add_key(&me.unique, key("k"), new.clone(), None, &mut heap);
    assert!(local.dict.get(&key("k")).unwrap() == &new);
    assert!(heap_object(&heap, &me.unique).dict.get(&key("k")).unwrap() == &new);
    // the displaced string is white: still there, gone after a sweep
    assert!(heap.is_allocated(&old.unique));
    heap.mark_ptrs();
    heap.sweep_ptrs();
    assert!(!heap.is_allocated(&old.unique));
    assert!(heap.is_allocated(&me.unique));
}

#[test]
fn remove_key_hands_back_the_value_and_condemns_its_payload() {
    let mut heap = AllocBox::new();
    let me = JsVar::bind_with_id("me", "1", JsType::JsPtr(JsPtrTag::JsObj));
    let s = str_var("s", "1");
    let mut local = JsObjStruct::from_tuples(
        None,
        "me",
        vec![(key("s"), s.clone(), Some(str_payload("text")))],
        &mut heap,
    )
    .unwrap();
    heap.allocate(me.unique.clone(), JsPtrEnum::JsObj(local.clone())).unwrap();
    let removed = local.remove_key(&me.unique, &key("s"), &mut heap);
    let (var, ptr) = removed.unwrap();
    assert!(var == s);
    assert_eq!(text_of(ptr.as_ref()), Some("text".to_string()));
    assert_eq!(local.dict.len(), 0);
    assert_eq!(heap_object(&heap, &me.unique).dict.len(), 0);
    assert!(heap.is_allocated(&s.unique));
    heap.mark_ptrs();
    heap.sweep_ptrs();
    assert!(!heap.is_allocated(&s.unique));
}

#[test]
fn remove_key_of_a_value_without_payload() {
    let mut heap = AllocBox::new();
    let me = JsVar::bind_with_id("me", "1", JsType::JsPtr(JsPtrTag::JsObj));
    let n = JsVar::bind_with_id("n", "1", JsType::JsUndef);
    let mut local =
        JsObjStruct::from_tuples(None, "me", vec![(key("n"), n.clone(), None)], &mut heap).unwrap();
    heap.allocate(me.unique.clone(), JsPtrEnum::JsObj(local.clone())).unwrap();
    let (var, ptr) = local.remove_key(&me.unique, &key("n"), &mut heap).unwrap();
    assert!(var == n);
    assert!(ptr.is_none());
    assert_eq!(heap.len(), 1);
}

#[test]
fn remove_key_that_is_absent_changes_nothing() {
    let mut heap = AllocBox::new();
    let me = JsVar::bind_with_id("me", "1", JsType::JsPtr(JsPtrTag::JsObj));
    let n = JsVar::bind_with_id("n", "1", JsType::JsUndef);
    let mut local =
        JsObjStruct::from_tuples(None, "me", vec![(key("n"), n, None)], &mut heap).unwrap();
    heap.allocate(me.unique.clone(), JsPtrEnum::JsObj(local.clone())).unwrap();
    assert!(local.remove_key(&me.unique, &key("missing"), &mut heap).is_none());
    assert_eq!(local.dict.len(), 1);
    assert_eq!(heap_object(&heap, &me.unique).dict.len(), 1);
}
