use jsrs_common::test_utils::{make_fn, make_num, make_str};
use jsrs_common::types::js_str::JsStrStruct;
use jsrs_common::types::js_var::{JsKey, JsPtrEnum, JsPtrTag, JsType, JsVar};
use jsrs_common::types::native_fn::NativeFn;
use jsrs_common::types::native_var::NativeVar;
use jsrs_common::types::number::JsNumber;
use std::collections::HashSet;

fn num(x: f64) -> JsNumber {
    JsNumber::from_bits(x.to_bits())
}

#[test]
fn number_keeps_its_bits() {
    assert_eq!(num(12.25).to_bits(), 12.25f64.to_bits());
    assert_eq!(f64::from_bits(JsNumber::one().to_bits()), 1.0);
    assert_eq!(f64::from_bits(JsNumber::zero().to_bits()), 0.0);
    assert!(f64::from_bits(JsNumber::nan().to_bits()).is_nan());
    assert_eq!(JsNumber::nan().to_bits(), f64::NAN.to_bits());
}

#[test]
fn number_is_nan_agrees_with_floats() {
    for x in [0.0, -0.0, 1.0, -1.5, f64::INFINITY, f64::NEG_INFINITY, f64::MAX, f64::MIN_POSITIVE, 5e-324] {
        assert!(!num(x).is_nan(), "{}", x);
    }
    assert!(num(f64::NAN).is_nan());
    assert!(JsNumber::from_bits(0x7ff0_0000_0000_0001).is_nan());
    assert!(JsNumber::from_bits(0xfff8_0000_0000_0000).is_nan());
    assert!(!JsNumber::from_bits(0x7ff0_0000_0000_0000).is_nan());
}

#[test]
fn number_is_zero_agrees_with_floats() {
    assert!(num(0.0).is_zero());
    assert!(num(-0.0).is_zero());
    for x in [1.0, -1.0, 5e-324, f64::NAN, f64::INFINITY] {
        assert!(!num(x).is_zero(), "{}", x);
    }
}

#[test]
fn number_equality_agrees_with_floats() {
    let samples = [0.0, -0.0, 1.0, -1.0, 2.5, f64::NAN, f64::INFINITY, f64::NEG_INFINITY];
    for a in samples {
        for b in samples {
            assert_eq!(num(a).ieee_equals(&num(b)), a == b, "{} {}", a, b);
        }
    }
}

#[test]
fn type_equality_table() {
    assert!(JsType::JsUndef == JsType::JsUndef);
    assert!(JsType::JsNull == JsType::JsNull);
    assert!(JsType::JsBool(true) == JsType::JsBool(true));
    assert!(JsType::JsBool(true) != JsType::JsBool(false));
    assert!(JsType::JsNum(num(3.0)) == JsType::JsNum(num(3.0)));
    assert!(JsType::JsNum(num(0.0)) == JsType::JsNum(num(-0.0)));
    assert!(JsType::JsNum(num(3.0)) != JsType::JsNum(num(4.0)));
    assert!(JsType::JsNum(num(f64::NAN)) != JsType::JsNum(num(f64::NAN)));
    assert!(JsType::JsUndef != JsType::JsNull);
    assert!(JsType::JsPtr(JsPtrTag::JsStr) != JsType::JsPtr(JsPtrTag::JsStr));
    assert!(JsType::JsPtr(JsPtrTag::JsObj) != JsType::JsNull);
}

#[test]
fn type_of_table() {
    assert_eq!(JsType::JsUndef.type_of(), "undefined");
    assert_eq!(JsType::JsNum(num(1.0)).type_of(), "number");
    assert_eq!(JsType::JsBool(false).type_of(), "boolean");
    assert_eq!(JsType::JsNull.type_of(), "object");
    assert_eq!(JsType::JsPtr(JsPtrTag::JsSym).type_of(), "symbol");
    assert_eq!(JsType::JsPtr(JsPtrTag::JsStr).type_of(), "string");
    assert_eq!(JsType::JsPtr(JsPtrTag::JsObj).type_of(), "object");
    assert_eq!(JsType::JsPtr(JsPtrTag::JsFn { name: None }).type_of(), "function");
    assert_eq!(JsPtrTag::NativeFn { name: "log".to_string() }.type_of(), "function");
    assert_eq!(JsPtrTag::NativeVar { type_string: "number".to_string() }.type_of(), "number");
    assert_eq!(JsVar::new(JsType::JsBool(true)).type_of(), "boolean");
}

#[test]
fn tag_matches_its_payload_kind() {
    let (_, s) = make_str("s");
    let (_, f) = make_fn(&None, &vec![]);
    let sym = JsPtrEnum::JsSym("s".to_string());
    let native = JsPtrEnum::NativeFn(NativeFn::new(7));
    let nv = JsPtrEnum::NativeVar(NativeVar::new(make_num(num(1.0)), None, "n", 1, 2));
    assert!(JsPtrTag::JsStr.eq_ptr_type(&s));
    assert!(JsPtrTag::JsSym.eq_ptr_type(&sym));
    assert!(JsPtrTag::JsFn { name: Some("f".to_string()) }.eq_ptr_type(&f));
    assert!(JsPtrTag::NativeFn { name: "n".to_string() }.eq_ptr_type(&native));
    assert!(JsPtrTag::NativeVar { type_string: "number".to_string() }.eq_ptr_type(&nv));
    assert!(!JsPtrTag::JsStr.eq_ptr_type(&sym));
    assert!(!JsPtrTag::JsSym.eq_ptr_type(&s));
    assert!(!JsPtrTag::JsObj.eq_ptr_type(&s));
    assert!(!JsPtrTag::JsObj.eq_ptr_type(&f));
    assert!(!JsPtrTag::JsFn { name: None }.eq_ptr_type(&native));
}

#[test]
fn same_content_under_different_bindings_is_unequal() {
    let a = JsVar::new(JsType::JsNum(num(1.0)));
    let b = JsVar::new(JsType::JsNum(num(1.0)));
    assert!(a != b);
    let c = JsVar::bind("x", JsType::JsBool(true));
    let d = JsVar::bind("x", JsType::JsBool(true));
    assert!(c != d);
    assert!(!c.is_same(&d));
}

#[test]
fn a_clone_is_equal_to_what_it_copies() {
    let a = JsVar::bind("x", JsType::JsPtr(JsPtrTag::JsFn { name: Some("f".to_string()) }));
    let b = a.clone();
    assert!(a == b);
    assert!(a == a);
    assert_eq!(a.unique, b.unique);
    assert_eq!(a.binding, b.binding);
}

#[test]
fn equality_looks_at_identity_only() {
    let a = JsVar::bind_with_id("x", "1", JsType::JsBool(true));
    let b = JsVar::bind_with_id("x", "1", JsType::JsNum(num(2.0)));
    let c = JsVar::bind_with_id("x", "2", JsType::JsBool(true));
    assert!(a == b);
    assert!(a != c);
}

#[test]
fn hash_follows_identity() {
    let a = JsVar::bind_with_id("x", "1", JsType::JsBool(true));
    let b = JsVar::bind_with_id("x", "1", JsType::JsNum(num(2.0)));
    let c = JsVar::bind_with_id("x", "2", JsType::JsBool(true));
    let mut set = HashSet::new();
    assert!(set.insert(a));
    assert!(!set.insert(b));
    assert!(set.insert(c));
    assert_eq!(set.len(), 2);
}

#[test]
fn new_values_are_anonymous_and_bound_values_are_named() {
    let a = JsVar::new(JsType::JsUndef);
    assert!(a.binding.is_anon());
    assert!(a.unique.0.starts_with(&format!("%---{}---%", a.binding.0)));
    let b = JsVar::bind("name", JsType::JsNull);
    assert_eq!(b.binding.var_name(), "name");
    assert!(b.unique.0.starts_with("%---name---%"));
    assert!(!b.binding.is_anon());
    let c = JsVar::bind_with_id("name", "id", JsType::JsNull);
    assert_eq!(c.unique.0, "%---name---%id");
}

#[test]
fn keys_compare_by_kind_and_text() {
    let a = JsKey::JsStr(JsStrStruct::new("k"));
    let b = JsKey::JsStr(JsStrStruct::new("k"));
    let c = JsKey::JsSym("k".to_string());
    let d = JsKey::JsStr(JsStrStruct::new("other"));
    assert!(a == b);
    assert!(a.same_key(&b));
    assert!(a != c);
    assert!(a != d);
    assert!(a.clone() == a);
}

#[test]
fn string_payload_holds_its_text() {
    let s = JsStrStruct::new("some text");
    assert_eq!(s.text, "some text");
    assert_eq!(s.to_string(), "some text");
    assert_eq!(s.clone(), s);
    assert_eq!(JsStrStruct::new("").text, "");
}

#[test]
fn payload_clone_is_deep() {
    let (_, f) = make_fn(&Some("f".to_string()), &vec!["a".to_string(), "b".to_string()]);
    match f.clone() {
        JsPtrEnum::JsFn(copy) => {
            assert_eq!(copy.name, Some("f".to_string()));
            assert_eq!(copy.params, vec!["a".to_string(), "b".to_string()]);
        }
        _ => panic!("expected a function"),
    }
    let inner = JsPtrEnum::JsStr(JsStrStruct::new("shown"));
    let nv = NativeVar::new(make_num(num(1.0)), Some(inner), "n", 3, 4);
    let copy = nv.clone();
    assert_eq!(copy.name, "n");
    assert_eq!((copy.getter, copy.setter), (3, 4));
    assert!(matches!(copy.ptr.as_deref(), Some(JsPtrEnum::JsStr(s)) if s.text == "shown"));
}

#[test]
fn native_var_store_replaces_what_is_shown() {
    let mut nv = NativeVar::new(make_num(num(1.0)), None, "n", 3, 4);
    let next = JsVar::bind_with_id("n", "2", JsType::JsPtr(JsPtrTag::JsStr));
    nv.store(next.clone(), Some(JsPtrEnum::JsStr(JsStrStruct::new("now"))));
    assert!(nv.var == next);
    assert!(matches!(nv.ptr.as_deref(), Some(JsPtrEnum::JsStr(s)) if s.text == "now"));
    assert_eq!(nv.name, "n");
    nv.store(next, None);
    assert!(nv.ptr.is_none());
}
