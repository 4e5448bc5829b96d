//! Values as the interpreter sees them, and the payloads they point to.

use crate::assoc::KeyEq;
use crate::types::binding::anon_marker;
use crate::types::binding::Binding;
use crate::types::binding::is_mangling_of;
use crate::types::binding::mangled;
use crate::types::binding::UniqueBinding;
use crate::types::js_fn::JsFnStruct;
use crate::types::js_fn::JsFnView;
use crate::types::js_obj::JsObjStruct;
use crate::types::js_obj::JsObjView;
use crate::types::js_str::JsStrStruct;
use crate::types::native_fn::NativeFn;
use crate::types::native_var::NativeVar;
use crate::types::native_var::NativeVarView;
use crate::types::number::ieee_eq;
use crate::types::number::JsNumber;
use vstd::prelude::*;
use vstd::std_specs::cmp::PartialEqSpec;
use vstd::std_specs::cmp::PartialEqSpecImpl;

verus! {

/// What kind of payload a pointer-tagged value points to.
#[derive(Debug)]
#[allow(inconsistent_fields)]
pub enum JsPtrTag {
    JsSym,
    JsStr,
    JsObj,
    JsFn { name: Option<String> },
    NativeFn { name: String },
    NativeVar { type_string: String },
}

/// The type of a value, with the value itself where it needs no heap.
#[derive(Debug)]
pub enum JsType {
    JsUndef,
    JsNum(JsNumber),
    JsBool(bool),
    JsPtr(JsPtrTag),
    /// Null needs no allocation, so it is no pointer: the collector never
    /// sees a binding for it.
    JsNull,
}

/// A value: its identity on the heap, its surface name, and its type.
#[derive(Debug)]
pub struct JsVar {
    pub unique: UniqueBinding,
    pub binding: Binding,
    pub t: JsType,
}

/// A heap payload.
#[derive(Debug)]
pub enum JsPtrEnum {
    JsSym(String),
    JsStr(JsStrStruct),
    JsObj(JsObjStruct),
    JsFn(JsFnStruct),
    NativeFn(NativeFn),
    NativeVar(NativeVar),
}

impl Clone for JsPtrTag {
    fn clone(&self) -> (r: Self)
        ensures
            r == *self,
    {
        match self {
            JsPtrTag::JsSym => JsPtrTag::JsSym,
            JsPtrTag::JsStr => JsPtrTag::JsStr,
            JsPtrTag::JsObj => JsPtrTag::JsObj,
            JsPtrTag::JsFn { name } => match name {
                Some(n) => JsPtrTag::JsFn { name: Some(n.clone()) },
                None => JsPtrTag::JsFn { name: None },
            },
            JsPtrTag::NativeFn { name } => JsPtrTag::NativeFn { name: name.clone() },
            JsPtrTag::NativeVar { type_string } => JsPtrTag::NativeVar {
                type_string: type_string.clone(),
            },
        }
    }
}

impl JsPtrTag {
    /// Whether a payload is of the kind that the tag names.
    pub open spec fn eq_ptr_type_spec(&self, other: &JsPtrEnum) -> bool {
        match (self, other) {
            (JsPtrTag::JsSym, JsPtrEnum::JsSym(_)) => true,
            (JsPtrTag::JsStr, JsPtrEnum::JsStr(_)) => true,
            (JsPtrTag::JsObj, JsPtrEnum::JsObj(_)) => true,
            (JsPtrTag::JsFn { .. }, JsPtrEnum::JsFn(_)) => true,
            (JsPtrTag::NativeFn { .. }, JsPtrEnum::NativeFn(_)) => true,
            (JsPtrTag::NativeVar { .. }, JsPtrEnum::NativeVar(_)) => true,
            _ => false,
        }
    }

    /// What `typeof` says of a value with this tag.
    pub open spec fn type_of_spec(&self) -> Seq<char> {
        match self {
            JsPtrTag::JsSym => "symbol"@,
            JsPtrTag::JsStr => "string"@,
            JsPtrTag::JsObj => "object"@,
            JsPtrTag::JsFn { .. } => "function"@,
            JsPtrTag::NativeFn { .. } => "function"@,
            JsPtrTag::NativeVar { type_string } => type_string@,
        }
    }

    #[verifier::when_used_as_spec(eq_ptr_type_spec)]
    pub fn eq_ptr_type(&self, other: &JsPtrEnum) -> (r: bool)
        ensures
            r == self.eq_ptr_type_spec(other),
    {
        match self {
            JsPtrTag::JsSym => match other {
                JsPtrEnum::JsSym(_) => true,
                _ => false,
            },
            JsPtrTag::JsStr => match other {
                JsPtrEnum::JsStr(_) => true,
                _ => false,
            },
            JsPtrTag::JsObj => match other {
                JsPtrEnum::JsObj(_) => true,
                _ => false,
            },
            JsPtrTag::JsFn { .. } => match other {
                JsPtrEnum::JsFn(_) => true,
                _ => false,
            },
            JsPtrTag::NativeFn { .. } => match other {
                JsPtrEnum::NativeFn(_) => true,
                _ => false,
            },
            JsPtrTag::NativeVar { .. } => match other {
                JsPtrEnum::NativeVar(_) => true,
                _ => false,
            },
        }
    }

    /// What `typeof` says of a value with this tag.
    pub fn type_of(&self) -> (r: String)
        ensures
            r@ == self.type_of_spec(),
    {
        match self {
            JsPtrTag::JsSym => "symbol".to_owned(),
            JsPtrTag::JsStr => "string".to_owned(),
            JsPtrTag::JsObj => "object".to_owned(),
            JsPtrTag::JsFn { .. } => "function".to_owned(),
            JsPtrTag::NativeFn { .. } => "function".to_owned(),
            JsPtrTag::NativeVar { type_string } => type_string.clone(),
        }
    }
}

impl Clone for JsType {
    fn clone(&self) -> (r: Self)
        ensures
            r == *self,
    {
        match self {
            JsType::JsUndef => JsType::JsUndef,
            JsType::JsNum(n) => JsType::JsNum(*n),
            JsType::JsBool(b) => JsType::JsBool(*b),
            JsType::JsPtr(tag) => JsType::JsPtr(tag.clone()),
            JsType::JsNull => JsType::JsNull,
        }
    }
}

impl JsType {
    /// Whether two types hold the same value. A number equals a number as
    /// IEEE 754 has it, so a NaN equals nothing. Two pointers never compare
    /// equal here: what they point to decides, and that is on the heap.
    pub open spec fn same_value(&self, other: &JsType) -> bool {
        match (self, other) {
            (JsType::JsUndef, JsType::JsUndef) => true,
            (JsType::JsNum(x), JsType::JsNum(y)) => ieee_eq(x.bits, y.bits),
            (JsType::JsBool(a), JsType::JsBool(b)) => a == b,
            (JsType::JsNull, JsType::JsNull) => true,
            _ => false,
        }
    }

    /// What `typeof` says of a value with this type.
    pub open spec fn type_of_spec(&self) -> Seq<char> {
        match self {
            JsType::JsUndef => "undefined"@,
            JsType::JsNum(_) => "number"@,
            JsType::JsBool(_) => "boolean"@,
            JsType::JsNull => "object"@,
            JsType::JsPtr(tag) => tag.type_of_spec(),
        }
    }

    /// Whether the two types hold the same value.
    pub fn has_same_value(&self, other: &JsType) -> (r: bool)
        ensures
            r == self.same_value(other),
    {
        match self {
            JsType::JsUndef => match other {
                JsType::JsUndef => true,
                _ => false,
            },
            JsType::JsNum(x) => match other {
                JsType::JsNum(y) => x.ieee_equals(y),
                _ => false,
            },
            JsType::JsBool(a) => match other {
                JsType::JsBool(b) => *a == *b,
                _ => false,
            },
            JsType::JsNull => match other {
                JsType::JsNull => true,
                _ => false,
            },
            JsType::JsPtr(_) => false,
        }
    }

    /// What `typeof` says of a value with this type.
    pub fn type_of(&self) -> (r: String)
        ensures
            r@ == self.type_of_spec(),
    {
        match self {
            JsType::JsUndef => "undefined".to_owned(),
            JsType::JsNum(_) => "number".to_owned(),
            JsType::JsBool(_) => "boolean".to_owned(),
            JsType::JsNull => "object".to_owned(),
            JsType::JsPtr(tag) => tag.type_of(),
        }
    }
}

impl PartialEq for JsType {
    fn eq(&self, other: &Self) -> (r: bool) {
        self.has_same_value(other)
    }
}

impl PartialEqSpecImpl for JsType {
    open spec fn obeys_eq_spec() -> bool {
        true
    }

    open spec fn eq_spec(&self, other: &Self) -> bool {
        self.same_value(other)
    }
}

impl Eq for JsType {

}

impl Clone for JsVar {
    fn clone(&self) -> (r: Self)
        ensures
            r == *self,
    {
        JsVar { unique: self.unique.clone(), binding: self.binding.clone(), t: self.t.clone() }
    }
}

impl JsVar {
    /// Whether two values are the same value: whether their unique bindings
    /// agree. What the values hold plays no part.
    pub open spec fn same_identity(&self, other: &JsVar) -> bool {
        self.unique@ == other.unique@
    }

    /// A value of type `t` with no surface name, under a fresh binding.
    pub fn new(t: JsType) -> (r: JsVar)
        ensures
            r.t == t,
            is_mangling_of(r.binding@, anon_marker()),
            r.binding.is_anon_spec(),
            is_mangling_of(r.unique@, r.binding@),
    {
        let binding = Binding::anon();
        let unique = UniqueBinding::mangle(&binding);
        JsVar { unique, binding, t }
    }

    /// A value of type `t` with the surface name `binding`, under a fresh
    /// binding.
    pub fn bind(binding: &str, t: JsType) -> (r: JsVar)
        ensures
            r.t == t,
            r.binding@ == binding@,
            is_mangling_of(r.unique@, binding@),
    {
        let unique = UniqueBinding::mangle_str(binding);
        JsVar { unique, binding: Binding::new(binding.to_owned()), t }
    }

    /// A value of type `t` with the surface name `binding`, under the
    /// binding that `id` gives. This is for callers that bring their own
    /// source of identifiers.
    pub fn bind_with_id(binding: &str, id: &str, t: JsType) -> (r: JsVar)
        ensures
            r.t == t,
            r.binding@ == binding@,
            r.unique@ == mangled(binding@, id@),
    {
        let unique = UniqueBinding::mangle_with_id(binding, id);
        JsVar { unique, binding: Binding::new(binding.to_owned()), t }
    }

    /// What `typeof` says of the value.
    pub fn type_of(&self) -> (r: String)
        ensures
            r@ == self.t.type_of_spec(),
    {
        self.t.type_of()
    }

    /// Whether the two values are the same value.
    pub fn is_same(&self, other: &JsVar) -> (r: bool)
        ensures
            r == self.same_identity(other),
    {
        self.unique.key_eq(&other.unique)
    }
}

impl PartialEq for JsVar {
    fn eq(&self, other: &Self) -> (r: bool) {
        self.is_same(other)
    }
}

impl PartialEqSpecImpl for JsVar {
    open spec fn obeys_eq_spec() -> bool {
        true
    }

    open spec fn eq_spec(&self, other: &Self) -> bool {
        self.same_identity(other)
    }
}

impl Eq for JsVar {

}

impl core::hash::Hash for JsVar {
    /// Feeds the unique binding, and nothing else, to `state` through
    /// `Hash::hash` of the standard library, so that equal values hash
    /// alike.
    #[verifier::external_body]
    fn hash<H: core::hash::Hasher>(&self, state: &mut H) {
        self.unique.hash(state)
    }
}

/// Values are told apart by identity alone: `==` on values holds just when
/// their unique bindings agree. So two values under different unique
/// bindings are unequal though they hold the same, and a copy of a value is
/// equal to it.
pub proof fn lemma_identity_equality(a: JsVar, b: JsVar, copy: JsVar)
    requires
        copy == a,
    ensures
        PartialEqSpec::eq_spec(&a, &b) == (a.unique@ == b.unique@),
        a.unique@ != b.unique@ && a.binding == b.binding && a.t == b.t ==> !PartialEqSpec::eq_spec(
            &a,
            &b,
        ),
        PartialEqSpec::eq_spec(&a, &copy),
        PartialEqSpec::eq_spec(&a, &a),
{
}

/// A heap payload as a mathematical value.
pub enum JsPtrView {
    JsSym(Seq<char>),
    JsStr(Seq<char>),
    JsObj(JsObjView),
    JsFn(JsFnView),
    NativeFn(NativeFn),
    NativeVar(NativeVarView),
}

/// The view of a heap payload.
pub open spec fn ptr_view(p: JsPtrEnum) -> JsPtrView
    decreases p,
{
    match p {
        JsPtrEnum::JsSym(s) => JsPtrView::JsSym(s@),
        JsPtrEnum::JsStr(s) => JsPtrView::JsStr(s@),
        JsPtrEnum::JsObj(o) => JsPtrView::JsObj(o@),
        JsPtrEnum::JsFn(f) => JsPtrView::JsFn(f@),
        JsPtrEnum::NativeFn(f) => JsPtrView::NativeFn(f),
        JsPtrEnum::NativeVar(nv) => JsPtrView::NativeVar(
            NativeVarView {
                var: nv.var,
                ptr: match nv.ptr {
                    Some(b) => Some(Box::new(ptr_view(*b))),
                    None => None,
                },
                name: nv.name@,
                getter: nv.getter,
                setter: nv.setter,
            },
        ),
    }
}

impl View for JsPtrEnum {
    type V = JsPtrView;

    open spec fn view(&self) -> JsPtrView {
        ptr_view(*self)
    }
}

impl View for NativeVar {
    type V = NativeVarView;

    open spec fn view(&self) -> NativeVarView {
        NativeVarView {
            var: self.var,
            ptr: match self.ptr {
                Some(b) => Some(Box::new(ptr_view(*b))),
                None => None,
            },
            name: self.name@,
            getter: self.getter,
            setter: self.setter,
        }
    }
}

impl Clone for NativeVar {
    fn clone(&self) -> (r: Self)
        ensures
            r@ == self@,
        decreases self,
    {
        let ptr = match &self.ptr {
            Some(b) => Some(Box::new((**b).clone())),
            None => None,
        };
        NativeVar {
            var: self.var.clone(),
            ptr,
            name: self.name.clone(),
            getter: self.getter,
            setter: self.setter,
        }
    }
}

impl Clone for JsPtrEnum {
    fn clone(&self) -> (r: Self)
        ensures
            r@ == self@,
        decreases self,
    {
        match self {
            JsPtrEnum::JsSym(s) => JsPtrEnum::JsSym(s.clone()),
            JsPtrEnum::JsStr(s) => JsPtrEnum::JsStr(s.clone()),
            JsPtrEnum::JsObj(o) => JsPtrEnum::JsObj(o.clone()),
            JsPtrEnum::JsFn(f) => JsPtrEnum::JsFn(f.clone()),
            JsPtrEnum::NativeFn(f) => JsPtrEnum::NativeFn(*f),
            JsPtrEnum::NativeVar(nv) => JsPtrEnum::NativeVar(nv.clone()),
        }
    }
}

impl JsPtrEnum {
    /// The bindings that the payload refers to directly. Only an object
    /// refers to anything.
    pub open spec fn children(&self) -> Set<Seq<char>> {
        match self {
            JsPtrEnum::JsObj(o) => o.children(),
            _ => Set::empty(),
        }
    }
}

/// The key of an object's property.
#[derive(Debug, Eq, Hash)]
pub enum JsKey {
    JsStr(JsStrStruct),
    JsSym(String),
}

/// What tells two property keys apart: the kind and the text.
pub enum JsKeyView {
    JsStr(Seq<char>),
    JsSym(Seq<char>),
}

impl View for JsKey {
    type V = JsKeyView;

    open spec fn view(&self) -> JsKeyView {
        match self {
            JsKey::JsStr(s) => JsKeyView::JsStr(s@),
            JsKey::JsSym(s) => JsKeyView::JsSym(s@),
        }
    }
}

impl Clone for JsKey {
    fn clone(&self) -> (r: Self)
        ensures
            r == *self,
    {
        match self {
            JsKey::JsStr(s) => JsKey::JsStr(s.clone()),
            JsKey::JsSym(s) => JsKey::JsSym(s.clone()),
        }
    }
}

impl JsKey {
    /// Whether the two keys are of one kind and have the same text.
    pub fn same_key(&self, other: &JsKey) -> (r: bool)
        ensures
            r == (self@ == other@),
    {
        match self {
            JsKey::JsStr(a) => match other {
                JsKey::JsStr(b) => a.text == b.text,
                JsKey::JsSym(_) => false,
            },
            JsKey::JsSym(a) => match other {
                JsKey::JsStr(_) => false,
                JsKey::JsSym(b) => *a == *b,
            },
        }
    }
}

impl PartialEq for JsKey {
    fn eq(&self, other: &Self) -> (r: bool) {
        self.same_key(other)
    }
}

impl PartialEqSpecImpl for JsKey {
    open spec fn obeys_eq_spec() -> bool {
        true
    }

    open spec fn eq_spec(&self, other: &Self) -> bool {
        self@ == other@
    }
}

impl KeyEq for JsKey {
    fn key_eq(&self, other: &Self) -> (r: bool) {
        self.same_key(other)
    }
}

} // verus!
