//! Ready-made values for trying the heap out.

use crate::alloc_box::AllocBox;
use crate::ast::Exp;
use crate::ast::ExpView;
use crate::ast::opt_text;
use crate::ast::Stmt;
use crate::ast::StmtView;
use crate::ast::texts;
use crate::gc_error::GcError;
use crate::types::binding::is_mangling_of;
use crate::types::js_fn::JsFnStruct;
use crate::types::js_obj::built;
use crate::types::js_obj::inherited_from;
use crate::types::js_obj::JsObjStruct;
use crate::types::js_obj::KvTuple;
use crate::types::js_obj::sound_tuple;
use crate::types::js_str::JsStrStruct;
use crate::types::js_str::MAX_STR_LEN;
use crate::types::js_var::JsPtrEnum;
use crate::types::js_var::JsPtrTag;
use crate::types::js_var::JsType;
use crate::types::js_var::JsVar;
use crate::types::number::JsNumber;
use vstd::prelude::*;

verus! {

/// A fresh anonymous string value and its payload, which holds the text of
/// `s`.
pub fn make_str(s: &str) -> (r: (JsVar, JsPtrEnum))
    requires
        s.len() < MAX_STR_LEN,
    ensures
        r.0.t == JsType::JsPtr(JsPtrTag::JsStr),
        is_mangling_of(r.0.unique@, r.0.binding@),
        r.0.binding.is_anon_spec(),
        r.1 matches JsPtrEnum::JsStr(st) && st@ == s@,
{
    let var = JsVar::new(JsType::JsPtr(JsPtrTag::JsStr));
    (var, JsPtrEnum::JsStr(JsStrStruct::new(s)))
}

/// A fresh anonymous number value.
pub fn make_num(n: JsNumber) -> (r: JsVar)
    ensures
        r.t == JsType::JsNum(n),
        is_mangling_of(r.unique@, r.binding@),
        r.binding.is_anon_spec(),
{
    JsVar::new(JsType::JsNum(n))
}

/// A fresh anonymous function value and its payload: a function of the
/// given name and parameters whose body is the bare expression `undefined`.
pub fn make_fn(name: &Option<String>, params: &Vec<String>) -> (r: (JsVar, JsPtrEnum))
    ensures
        r.0.t == JsType::JsPtr(JsPtrTag::JsFn { name: None }),
        is_mangling_of(r.0.unique@, r.0.binding@),
        r.0.binding.is_anon_spec(),
        r.1 matches JsPtrEnum::JsFn(f) && f@.name == opt_text(*name) && f@.params == texts(
            params@,
        ) && f@.stmt == StmtView::BareExp(ExpView::Undefined),
{
    let var = JsVar::new(JsType::JsPtr(JsPtrTag::JsFn { name: None }));
    let body = Stmt::BareExp(Exp::Undefined);
    assert(body@ == StmtView::BareExp(ExpView::Undefined)) by {
        reveal_with_fuel(crate::ast::stmt_view, 2);
    }
    let f = JsFnStruct::new(name, params, &body);
    (var, JsPtrEnum::JsFn(f))
}

/// A fresh anonymous object value and its payload: an object named `test`
/// without a prototype, built from `kvs`, whose payloads are allocated on
/// `heap`. If one of them cannot be allocated, the failure is handed back.
pub fn make_obj(kvs: Vec<KvTuple>, heap: &mut AllocBox) -> (r: Result<(JsVar, JsPtrEnum), GcError>)
    requires
        forall|i: int| 0 <= i < kvs@.len() ==> sound_tuple(#[trigger] kvs@[i]),
        old(heap).spec_len() + kvs@.len() <= usize::MAX,
    ensures
        match r {
            Ok((v, p)) => {
                &&& v.t == JsType::JsPtr(JsPtrTag::JsObj)
                &&& is_mangling_of(v.unique@, v.binding@)
                &&& v.binding.is_anon_spec()
                &&& p matches JsPtrEnum::JsObj(o) && built(
                    *old(heap),
                    None,
                    "test"@,
                    kvs@,
                    *final(heap),
                    Ok::<JsObjStruct, GcError>(o),
                )
            },
            Err(e) => built(
                *old(heap),
                None,
                "test"@,
                kvs@,
                *final(heap),
                Err::<JsObjStruct, GcError>(e),
            ),
        },
{
    let var = JsVar::new(JsType::JsPtr(JsPtrTag::JsObj));
    let ghost pre = *heap;
    let ghost ts = kvs@;
    let made = JsObjStruct::new(None, "test", kvs, heap);
    proof {
        let copies = choose|copies: Seq<KvTuple>|
            #[trigger] inherited_from(None, pre, copies) && built(
                pre,
                None,
                "test"@,
                copies + ts,
                *heap,
                made,
            );
        assert(copies + ts =~= ts);
    }
    match made {
        Ok(obj) => Ok((var, JsPtrEnum::JsObj(obj))),
        Err(e) => Err(e),
    }
}

/// An empty heap.
pub fn make_alloc_box() -> (r: AllocBox)
    ensures
        r.spec_len() == 0,
{
    AllocBox::new()
}

} // verus!
