use jsrs_common::js_error::JsError;
use jsrs_common::text::{Piece, Rendering};
use jsrs_common::types::coerce::{AsBool, AsNumber, AsString, Numeric};
use jsrs_common::types::js_str::JsStrStruct;
use jsrs_common::types::js_var::{JsPtrEnum, JsPtrTag, JsType, JsVar};
use jsrs_common::types::native_fn::NativeFn;
use jsrs_common::types::native_var::NativeVar;
use jsrs_common::types::number::JsNumber;
use jsrs_common::test_utils::make_fn;

fn num(x: f64) -> JsNumber {
    JsNumber::from_bits(x.to_bits())
}

fn var(t: JsType) -> JsVar {
    JsVar::bind_with_id("v", "1", t)
}

fn string(s: &str) -> JsPtrEnum {
    JsPtrEnum::JsStr(JsStrStruct::new(s))
}

fn join(r: Rendering) -> String {
    let mut s = String::new();
    for piece in r.pieces {
        match piece {
            Piece::Text(t) => s.push_str(&t),
            Piece::Number(n) => s.push_str(&format!("{}", f64::from_bits(n.bits))),
        }
    }
    s
}

/// What the host makes of a coercion to a number.
fn settle(n: Result<Numeric, JsError>) -> f64 {
    match n.unwrap() {
        Numeric::Value(v) => f64::from_bits(v.bits),
        Numeric::Parse(text) => text.parse().unwrap_or(f64::NAN),
    }
}

fn host_var(shown: JsType, ptr: Option<JsPtrEnum>) -> JsPtrEnum {
    JsPtrEnum::NativeVar(NativeVar::new(var(shown), ptr, "n", 1, 2))
}

#[test]
fn values_as_bool() {
    assert!(var(JsType::JsBool(true)).as_bool());
    assert!(!var(JsType::JsBool(false)).as_bool());
    assert!(!var(JsType::JsUndef).as_bool());
    assert!(!var(JsType::JsNull).as_bool());
    assert!(!var(JsType::JsNum(num(0.0))).as_bool());
    assert!(!var(JsType::JsNum(num(-0.0))).as_bool());
    assert!(!var(JsType::JsNum(num(f64::NAN))).as_bool());
    assert!(var(JsType::JsNum(num(1.0))).as_bool());
    assert!(var(JsType::JsNum(num(-2.5))).as_bool());
    assert!(var(JsType::JsNum(num(f64::INFINITY))).as_bool());
    assert!(var(JsType::JsNum(num(5e-324))).as_bool());
    assert!(var(JsType::JsPtr(JsPtrTag::JsStr)).as_bool());
    assert!(var(JsType::JsPtr(JsPtrTag::JsObj)).as_bool());
}

#[test]
fn payloads_as_bool() {
    assert!(!string("").as_bool());
    assert!(string("x").as_bool());
    assert!(string("false").as_bool());
    assert!(JsPtrEnum::JsSym(String::new()).as_bool());
    assert!(make_fn(&None, &vec![]).1.as_bool());
    assert!(JsPtrEnum::NativeFn(NativeFn::new(1)).as_bool());
    assert!(!host_var(JsType::JsBool(true), Some(string(""))).as_bool());
    assert!(host_var(JsType::JsBool(false), Some(string("x"))).as_bool());
    assert!(!host_var(JsType::JsNum(num(0.0)), None).as_bool());
    assert!(host_var(JsType::JsNum(num(3.0)), None).as_bool());
}

#[test]
fn values_as_number() {
    assert_eq!(settle(var(JsType::JsBool(true)).as_number()), 1.0);
    assert_eq!(settle(var(JsType::JsBool(false)).as_number()), 0.0);
    assert_eq!(settle(var(JsType::JsNull).as_number()), 0.0);
    assert_eq!(settle(var(JsType::JsNum(num(12.25))).as_number()), 12.25);
    assert!(settle(var(JsType::JsUndef).as_number()).is_nan());
    assert!(settle(var(JsType::JsPtr(JsPtrTag::JsObj)).as_number()).is_nan());
}

#[test]
fn payloads_as_number() {
    assert_eq!(settle(string("").as_number()), 0.0);
    assert_eq!(settle(string("42").as_number()), 42.0);
    assert_eq!(settle(string("-3.5").as_number()), -3.5);
    assert!(settle(string("forty").as_number()).is_nan());
    assert!(settle(make_fn(&None, &vec![]).1.as_number()).is_nan());
    assert!(settle(JsPtrEnum::NativeFn(NativeFn::new(1)).as_number()).is_nan());
    assert_eq!(settle(host_var(JsType::JsBool(true), None).as_number()), 1.0);
    assert_eq!(settle(host_var(JsType::JsBool(true), Some(string("7"))).as_number()), 7.0);
    assert!(matches!(string("").as_number(), Ok(Numeric::Value(_))));
    assert!(matches!(string("1").as_number(), Ok(Numeric::Parse(ref t)) if t == "1"));
}

#[test]
fn symbol_as_number_is_a_type_error() {
    let res = JsPtrEnum::JsSym("s".to_string()).as_number();
    match res {
        Err(JsError::TypeError(m)) => assert_eq!(m, "Cannot convert a Symbol to a number."),
        _ => panic!("expected a type error"),
    }
    let hidden = host_var(JsType::JsNull, Some(JsPtrEnum::JsSym("s".to_string())));
    assert!(matches!(hidden.as_number(), Err(JsError::TypeError(_))));
}

#[test]
fn types_as_string() {
    assert_eq!(join(JsType::JsBool(true).as_string()), "true");
    assert_eq!(join(JsType::JsBool(false).as_string()), "false");
    assert_eq!(join(JsType::JsUndef.as_string()), "undefined");
    assert_eq!(join(JsType::JsNull.as_string()), "null");
    assert_eq!(join(JsType::JsNum(num(12.25)).as_string()), "12.25");
    assert_eq!(join(JsType::JsNum(num(-3.0)).as_string()), "-3");
    assert_eq!(join(JsType::JsNum(num(f64::NAN)).as_string()), "NaN");
    assert_eq!(join(JsType::JsPtr(JsPtrTag::JsSym).as_string()), "Symbol(...)");
    assert_eq!(join(JsType::JsPtr(JsPtrTag::JsStr).as_string()), "\"...\"");
    assert_eq!(join(JsType::JsPtr(JsPtrTag::JsObj).as_string()), "{ ... }");
    assert_eq!(join(JsType::JsPtr(JsPtrTag::JsFn { name: None }).as_string()), "function() { ... }");
    assert_eq!(
        join(JsType::JsPtr(JsPtrTag::NativeFn { name: "f".to_string() }).as_string()),
        "function() { [native code] }"
    );
    assert_eq!(
        join(JsType::JsPtr(JsPtrTag::NativeVar { type_string: "number".to_string() }).as_string()),
        "[native code]"
    );
}

#[test]
fn a_number_is_handed_to_the_host_unprinted() {
    let r = JsType::JsNum(num(2.5)).as_string();
    assert_eq!(r.pieces.len(), 1);
    assert!(matches!(r.pieces[0], Piece::Number(n) if n.bits == 2.5f64.to_bits()));
}

#[test]
fn payloads_as_string() {
    assert_eq!(join(JsPtrEnum::JsSym("tag".to_string()).as_string()), "Symbol(tag)");
    assert_eq!(join(string("plain").as_string()), "plain");
    assert_eq!(join(string("").as_string()), "");
    assert_eq!(join(make_fn(&None, &vec![]).1.as_string()), "[function]");
    assert_eq!(join(JsPtrEnum::NativeFn(NativeFn::new(1)).as_string()), "[native function]");
    assert_eq!(join(host_var(JsType::JsNum(num(8.0)), None).as_string()), "8");
    assert_eq!(join(host_var(JsType::JsNull, Some(string("shown"))).as_string()), "shown");
}
