//! The coercions of values to booleans, numbers and strings.
//!
//! A coercion of a value looks at its type alone. A coercion of a payload
//! looks at what is on the heap. Where a value is a pointer, the coercion of
//! its payload is the one that counts.

use crate::js_error::JsError;
use crate::text::chars;
use crate::text::Glyph;
use crate::text::number;
use crate::text::Rendering;
use crate::text::text_of;
use crate::types::js_var::JsPtrEnum;
use crate::types::js_var::JsPtrTag;
use crate::types::js_var::JsType;
use crate::types::js_var::JsVar;
use crate::types::number::is_nan_bits;
use crate::types::number::is_zero_bits;
use crate::types::number::JsNumber;
use crate::types::number::NAN_BITS;
use crate::types::number::ONE_BITS;
use crate::types::number::ZERO_BITS;
use vstd::prelude::*;
use vstd::string::StringExecFns;

verus! {

/// Coercion to a boolean.
pub trait AsBool {
    /// What the value counts as where a condition is asked for.
    spec fn truthy(&self) -> bool;

    fn as_bool(&self) -> (r: bool)
        ensures
            r == self.truthy(),
    ;
}

/// Whether a type counts as true: a boolean as it is, a number unless it
/// is a zero or a NaN, a pointer always, `undefined` and `null` never.
pub open spec fn type_truthy(t: JsType) -> bool {
    match t {
        JsType::JsBool(b) => b,
        JsType::JsUndef => false,
        JsType::JsNull => false,
        JsType::JsNum(n) => !is_zero_bits(n.bits) && !is_nan_bits(n.bits),
        JsType::JsPtr(_) => true,
    }
}

/// Whether a payload counts as true: every payload but the empty string. A
/// host variable counts as what it shows does.
pub open spec fn ptr_truthy(p: JsPtrEnum) -> bool
    decreases p,
{
    match p {
        JsPtrEnum::JsSym(_) => true,
        JsPtrEnum::JsFn(_) => true,
        JsPtrEnum::JsObj(_) => true,
        JsPtrEnum::NativeFn(_) => true,
        JsPtrEnum::JsStr(s) => s@.len() != 0,
        JsPtrEnum::NativeVar(nv) => match nv.ptr {
            Some(b) => ptr_truthy(*b),
            None => type_truthy(nv.var.t),
        },
    }
}

impl AsBool for JsVar {
    open spec fn truthy(&self) -> bool {
        type_truthy(self.t)
    }

    fn as_bool(&self) -> (r: bool) {
        match &self.t {
            JsType::JsBool(b) => *b,
            JsType::JsUndef => false,
            JsType::JsNull => false,
            JsType::JsNum(n) => !n.is_zero() && !n.is_nan(),
            JsType::JsPtr(_) => true,
        }
    }
}

impl AsBool for JsPtrEnum {
    open spec fn truthy(&self) -> bool {
        ptr_truthy(*self)
    }

    fn as_bool(&self) -> (r: bool)
        decreases self,
    {
        match self {
            JsPtrEnum::JsSym(_) => true,
            JsPtrEnum::JsFn(_) => true,
            JsPtrEnum::JsObj(_) => true,
            JsPtrEnum::NativeFn(_) => true,
            JsPtrEnum::JsStr(s) => !s.text.as_str().is_empty(),
            JsPtrEnum::NativeVar(nv) => match &nv.ptr {
                Some(b) => (**b).as_bool(),
                None => nv.var.as_bool(),
            },
        }
    }
}

/// What a coercion to a number yields.
#[derive(Debug)]
pub enum Numeric {
    /// The number itself.
    Value(JsNumber),
    /// Text that is not empty. The number is what the text denotes as a
    /// floating-point literal, and a NaN if it denotes none. To find it is
    /// left to the host.
    Parse(String),
}

/// What a coercion to a number yields, as a mathematical value.
pub enum NumericView {
    Value(JsNumber),
    Parse(Seq<char>),
}

impl View for Numeric {
    type V = NumericView;

    open spec fn view(&self) -> NumericView {
        match self {
            Numeric::Value(n) => NumericView::Value(*n),
            Numeric::Parse(s) => NumericView::Parse(s@),
        }
    }
}

/// Coercion to a number.
pub trait AsNumber {
    /// The number that the value counts as, or nothing where it counts as
    /// none.
    spec fn numeric(&self) -> Option<NumericView>;

    /// A value that counts as no number is answered with a type error.
    fn as_number(&self) -> (r: Result<Numeric, JsError>)
        ensures
            match r {
                Ok(n) => self.numeric() == Some(n@),
                Err(e) => self.numeric() is None && e is TypeError,
            },
    ;
}

/// The number that a type counts as: one for `true`, zero for `false` and
/// for `null`, a number as it is, and a NaN for `undefined` and for a
/// pointer.
pub open spec fn type_numeric(t: JsType) -> JsNumber {
    match t {
        JsType::JsBool(b) => if b {
            JsNumber { bits: ONE_BITS }
        } else {
            JsNumber { bits: ZERO_BITS }
        },
        JsType::JsUndef => JsNumber { bits: NAN_BITS },
        JsType::JsNull => JsNumber { bits: ZERO_BITS },
        JsType::JsNum(n) => n,
        JsType::JsPtr(_) => JsNumber { bits: NAN_BITS },
    }
}

/// The number that a payload counts as. A symbol counts as none. The empty
/// string counts as zero, any other string as what its text denotes. A host
/// variable counts as what it shows does. Every other payload counts as a
/// NaN.
pub open spec fn ptr_numeric(p: JsPtrEnum) -> Option<NumericView>
    decreases p,
{
    match p {
        JsPtrEnum::JsSym(_) => None,
        JsPtrEnum::JsStr(s) => if s@.len() == 0 {
            Some(NumericView::Value(JsNumber { bits: ZERO_BITS }))
        } else {
            Some(NumericView::Parse(s@))
        },
        JsPtrEnum::NativeVar(nv) => match nv.ptr {
            Some(b) => ptr_numeric(*b),
            None => Some(NumericView::Value(type_numeric(nv.var.t))),
        },
        _ => Some(NumericView::Value(JsNumber { bits: NAN_BITS })),
    }
}

/// The number that a type counts as.
fn number_of_type(t: &JsType) -> (r: JsNumber)
    ensures
        r == type_numeric(*t),
{
    match t {
        JsType::JsBool(b) => if *b {
            JsNumber::one()
        } else {
            JsNumber::zero()
        },
        JsType::JsUndef => JsNumber::nan(),
        JsType::JsNull => JsNumber::zero(),
        JsType::JsNum(n) => *n,
        JsType::JsPtr(_) => JsNumber::nan(),
    }
}

impl AsNumber for JsVar {
    open spec fn numeric(&self) -> Option<NumericView> {
        Some(NumericView::Value(type_numeric(self.t)))
    }

    fn as_number(&self) -> (r: Result<Numeric, JsError>) {
        Ok(Numeric::Value(number_of_type(&self.t)))
    }
}

impl AsNumber for JsPtrEnum {
    open spec fn numeric(&self) -> Option<NumericView> {
        ptr_numeric(*self)
    }

    fn as_number(&self) -> (r: Result<Numeric, JsError>)
        decreases self,
    {
        match self {
            JsPtrEnum::JsSym(_) => Err(
                JsError::TypeError(String::from_str("Cannot convert a Symbol to a number.")),
            ),
            JsPtrEnum::JsStr(s) => {
                if s.text.as_str().is_empty() {
                    Ok(Numeric::Value(JsNumber::zero()))
                } else {
                    Ok(Numeric::Parse(s.text.clone()))
                }
            },
            JsPtrEnum::NativeVar(nv) => match &nv.ptr {
                Some(b) => (**b).as_number(),
                None => Ok(Numeric::Value(number_of_type(&nv.var.t))),
            },
            JsPtrEnum::JsObj(_) => Ok(Numeric::Value(JsNumber::nan())),
            JsPtrEnum::JsFn(_) => Ok(Numeric::Value(JsNumber::nan())),
            JsPtrEnum::NativeFn(_) => Ok(Numeric::Value(JsNumber::nan())),
        }
    }
}

/// Coercion to a string.
pub trait AsString {
    /// The text that the value counts as. A number stands in it unprinted.
    spec fn text(&self) -> Seq<Glyph>;

    fn as_string(&self) -> (r: Rendering)
        ensures
            r@ == self.text(),
    ;
}

/// The text that a type counts as. For a pointer this is a stand-in: the
/// text of the payload is the one that counts.
pub open spec fn type_text(t: JsType) -> Seq<Glyph> {
    match t {
        JsType::JsBool(b) => if b {
            chars("true"@)
        } else {
            chars("false"@)
        },
        JsType::JsUndef => chars("undefined"@),
        JsType::JsNull => chars("null"@),
        JsType::JsNum(n) => number(n),
        JsType::JsPtr(tag) => match tag {
            JsPtrTag::JsSym => chars("Symbol(...)"@),
            JsPtrTag::JsStr => chars("\"...\""@),
            JsPtrTag::JsObj => chars("{ ... }"@),
            JsPtrTag::JsFn { .. } => chars("function() { ... }"@),
            JsPtrTag::NativeFn { .. } => chars("function() { [native code] }"@),
            JsPtrTag::NativeVar { .. } => chars("[native code]"@),
        },
    }
}

/// The text that a payload counts as. A host variable counts as what it
/// shows does.
pub open spec fn ptr_text(p: JsPtrEnum) -> Seq<Glyph>
    decreases p,
{
    match p {
        JsPtrEnum::JsSym(s) => chars("Symbol("@) + chars(s@) + chars(")"@),
        JsPtrEnum::JsStr(s) => chars(s@),
        JsPtrEnum::JsObj(_) => chars("[object Object]"@),
        JsPtrEnum::JsFn(_) => chars("[function]"@),
        JsPtrEnum::NativeFn(_) => chars("[native function]"@),
        JsPtrEnum::NativeVar(nv) => match nv.ptr {
            Some(b) => ptr_text(*b),
            None => type_text(nv.var.t),
        },
    }
}

impl AsString for JsType {
    open spec fn text(&self) -> Seq<Glyph> {
        type_text(*self)
    }

    fn as_string(&self) -> (r: Rendering) {
        match self {
            JsType::JsBool(b) => if *b {
                text_of("true")
            } else {
                text_of("false")
            },
            JsType::JsUndef => text_of("undefined"),
            JsType::JsNull => text_of("null"),
            JsType::JsNum(n) => {
                let mut r = Rendering::new();
                r.push_number(*n);
                assert(r@ =~= number(*n));
                r
            },
            JsType::JsPtr(tag) => match tag {
                JsPtrTag::JsSym => text_of("Symbol(...)"),
                JsPtrTag::JsStr => text_of("\"...\""),
                JsPtrTag::JsObj => text_of("{ ... }"),
                JsPtrTag::JsFn { .. } => text_of("function() { ... }"),
                JsPtrTag::NativeFn { .. } => text_of("function() { [native code] }"),
                JsPtrTag::NativeVar { .. } => text_of("[native code]"),
            },
        }
    }
}

impl AsString for JsPtrEnum {
    open spec fn text(&self) -> Seq<Glyph> {
        ptr_text(*self)
    }

    fn as_string(&self) -> (r: Rendering)
        decreases self,
    {
        match self {
            JsPtrEnum::JsSym(s) => {
                let mut r = Rendering::new();
                r.push_str("Symbol(");
                r.push_str(s.as_str());
                r.push_str(")");
                assert(r@ =~= ptr_text(*self));
                r
            },
            JsPtrEnum::JsStr(s) => text_of(s.text.as_str()),
            JsPtrEnum::JsObj(_) => text_of("[object Object]"),
            JsPtrEnum::JsFn(_) => text_of("[function]"),
            JsPtrEnum::NativeFn(_) => text_of("[native function]"),
            JsPtrEnum::NativeVar(nv) => match &nv.ptr {
                Some(b) => (**b).as_string(),
                None => nv.var.t.as_string(),
            },
        }
    }
}

} // verus!
