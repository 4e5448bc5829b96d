//! How values, payloads and failures are shown.

use crate::ast::texts;
use crate::js_error::JsError;
use crate::pretty::name_list;
use crate::pretty::stmt_text;
use crate::pretty::write_names;
use crate::text::chars;
use crate::text::Glyph;
use crate::text::Rendering;
use crate::types::coerce::AsString;
use crate::types::coerce::type_text;
use crate::types::js_fn::JsFnStruct;
use crate::types::js_obj::JsObjStruct;
use crate::types::js_var::JsKey;
use crate::types::js_var::JsPtrEnum;
use crate::types::js_var::JsVar;
use vstd::prelude::*;

verus! {

/// A property key as it is shown: the text of a string key, and a symbol
/// key as `Symbol(..)` around its text.
pub open spec fn key_text(k: JsKey) -> Seq<Glyph> {
    match k {
        JsKey::JsStr(s) => chars(s@),
        JsKey::JsSym(s) => chars("Symbol("@) + chars(s@) + chars(")"@),
    }
}

/// A value as it is shown: by its surface name if it has one, else by what
/// its type counts as as a string.
pub open spec fn var_text(v: JsVar) -> Seq<Glyph> {
    if !v.binding.is_anon_spec() {
        chars(v.binding@)
    } else {
        type_text(v.t)
    }
}

/// Properties as they are shown: key, colon, value, separated by commas.
pub open spec fn entries_text(s: Seq<(JsKey, JsVar)>) -> Seq<Glyph>
    decreases s.len(),
{
    if s.len() == 0 {
        Seq::empty()
    } else {
        entries_text(s.drop_last()) + (if s.len() == 1 {
            Seq::empty()
        } else {
            chars(", "@)
        }) + key_text(s.last().0) + chars(": "@) + var_text(s.last().1)
    }
}

/// An object as it is shown: its properties in braces, in the order in
/// which its dictionary holds them.
pub open spec fn obj_text(o: JsObjStruct) -> Seq<Glyph> {
    chars("{ "@) + entries_text(o.dict.entries()) + chars(" }"@)
}

/// A function as it is shown: its head and, in braces, its body indented by
/// two.
pub open spec fn fn_text(f: JsFnStruct) -> Seq<Glyph> {
    chars("function "@) + (match f.name {
        Some(n) => chars(n@),
        None => Seq::empty(),
    }) + chars("("@) + name_list(texts(f.params@)) + chars(") {\n"@) + stmt_text(f.stmt@, 2)
        + chars("\n}"@)
}

/// A payload as it is shown.
pub open spec fn payload_text(p: JsPtrEnum) -> Seq<Glyph> {
    match p {
        JsPtrEnum::JsSym(s) => chars("Symbol("@) + chars(s@) + chars(")"@),
        JsPtrEnum::JsStr(s) => chars("\""@) + chars(s@) + chars("\""@),
        JsPtrEnum::JsObj(o) => obj_text(o),
        JsPtrEnum::JsFn(f) => fn_text(f),
        JsPtrEnum::NativeFn(_) => chars("[native code]"@),
        JsPtrEnum::NativeVar(_) => chars("[native code]"@),
    }
}

/// A failure as it is shown: its kind, a colon, and its message. A value
/// that the program threw is shown as its payload is, or as the value
/// itself where it has no payload.
pub open spec fn error_text(e: JsError) -> Seq<Glyph> {
    match e {
        JsError::ParseError(s) => chars("ParseError: "@) + chars(s@),
        JsError::GcError(g) => chars("GcError: "@) + chars(g.message()),
        JsError::TypeError(s) => chars("TypeError: "@) + chars(s@),
        JsError::ReferenceError(s) => chars("ReferenceError: "@) + chars(s@),
        JsError::JsVar(thrown) => match thrown.1 {
            Some(p) => payload_text(p),
            None => var_text(thrown.0),
        },
        JsError::TestError(s) => chars("TestError: "@) + chars(s@),
        JsError::UnimplementedError(s) => chars("UnimplementedError: "@) + chars(s@) + chars(
            " is not implemented"@,
        ),
        JsError::SyntaxError(s) => chars("SyntaxError: "@) + chars(s@),
    }
}

impl JsKey {
    /// Writes the key as it is shown.
    pub fn write_to(&self, out: &mut Rendering)
        ensures
            final(out)@ == old(out)@ + key_text(*self),
    {
        let ghost start = out@;
        match self {
            JsKey::JsStr(s) => {
                out.push_str(s.text.as_str());
            },
            JsKey::JsSym(s) => {
                out.push_str("Symbol(");
                out.push_str(s.as_str());
                out.push_str(")");
                assert(out@ =~= start + key_text(*self));
            },
        }
    }

    /// The key as it is shown.
    pub fn to_rendering(&self) -> (r: Rendering)
        ensures
            r@ == key_text(*self),
    {
        let mut out = Rendering::new();
        self.write_to(&mut out);
        assert(Seq::<Glyph>::empty() + key_text(*self) =~= key_text(*self));
        out
    }
}

impl JsVar {
    /// Writes the value as it is shown.
    pub fn write_to(&self, out: &mut Rendering)
        ensures
            final(out)@ == old(out)@ + var_text(*self),
    {
        let ghost start = out@;
        if !self.binding.is_anon() {
            out.push_str(self.binding.var_name());
        } else {
            let mut shown = self.t.as_string();
            out.append(&mut shown);
        }
    }

    /// The value as it is shown.
    pub fn to_rendering(&self) -> (r: Rendering)
        ensures
            r@ == var_text(*self),
    {
        let mut out = Rendering::new();
        self.write_to(&mut out);
        assert(Seq::<Glyph>::empty() + var_text(*self) =~= var_text(*self));
        out
    }
}

impl JsObjStruct {
    /// Writes the object as it is shown.
    pub fn write_to(&self, out: &mut Rendering)
        ensures
            final(out)@ == old(out)@ + obj_text(*self),
    {
        let ghost start = out@;
        let ghost s = self.dict.entries();
        out.push_str("{ ");
        let ghost opened = out@;
        let n = self.dict.len();
        let mut i: usize = 0;
        assert(s.take(0) =~= Seq::<(JsKey, JsVar)>::empty());
        assert(opened + entries_text(s.take(0)) =~= opened);
        while i < n
            invariant
                s == self.dict.entries(),
                n == s.len(),
                i <= n,
                out@ == opened + entries_text(s.take(i as int)),
            decreases n - i,
        {
            let (k, v) = self.dict.entry_at(i);
            proof {
                assert(s.take(i + 1).drop_last() =~= s.take(i as int));
                assert(s.take(i + 1).last() == s[i as int]);
            }
            if i != 0 {
                out.push_str(", ");
            }
            k.write_to(out);
            out.push_str(": ");
            v.write_to(out);
            proof {
                assert(out@ =~= opened + entries_text(s.take(i + 1)));
            }
            i = i + 1;
        }
        assert(s.take(n as int) =~= s);
        out.push_str(" }");
        assert(out@ =~= start + obj_text(*self));
    }

    /// The object as it is shown.
    pub fn to_rendering(&self) -> (r: Rendering)
        ensures
            r@ == obj_text(*self),
    {
        let mut out = Rendering::new();
        self.write_to(&mut out);
        assert(Seq::<Glyph>::empty() + obj_text(*self) =~= obj_text(*self));
        out
    }
}

impl JsFnStruct {
    /// Writes the function as it is shown.
    pub fn write_to(&self, out: &mut Rendering)
        ensures
            final(out)@ == old(out)@ + fn_text(*self),
    {
        let ghost start = out@;
        out.push_str("function ");
        match &self.name {
            Some(n) => {
                out.push_str(n.as_str());
            },
            None => {},
        }
        out.push_str("(");
        write_names(&self.params, out);
        out.push_str(") {\n");
        self.stmt.fmt_helper(out, 2);
        out.push_str("\n}");
        assert(out@ =~= start + fn_text(*self));
    }

    /// The function as it is shown.
    pub fn to_rendering(&self) -> (r: Rendering)
        ensures
            r@ == fn_text(*self),
    {
        let mut out = Rendering::new();
        self.write_to(&mut out);
        assert(Seq::<Glyph>::empty() + fn_text(*self) =~= fn_text(*self));
        out
    }
}

impl JsPtrEnum {
    /// Writes the payload as it is shown.
    pub fn write_to(&self, out: &mut Rendering)
        ensures
            final(out)@ == old(out)@ + payload_text(*self),
    {
        let ghost start = out@;
        match self {
            JsPtrEnum::JsSym(s) => {
                out.push_str("Symbol(");
                out.push_str(s.as_str());
                out.push_str(")");
                assert(out@ =~= start + payload_text(*self));
            },
            JsPtrEnum::JsStr(s) => {
                out.push_str("\"");
                out.push_str(s.text.as_str());
                out.push_str("\"");
                assert(out@ =~= start + payload_text(*self));
            },
            JsPtrEnum::JsObj(o) => {
                o.write_to(out);
            },
            JsPtrEnum::JsFn(f) => {
                f.write_to(out);
            },
            JsPtrEnum::NativeFn(_) => {
                out.push_str("[native code]");
            },
            JsPtrEnum::NativeVar(_) => {
                out.push_str("[native code]");
            },
        }
    }

    /// The payload as it is shown.
    pub fn to_rendering(&self) -> (r: Rendering)
        ensures
            r@ == payload_text(*self),
    {
        let mut out = Rendering::new();
        self.write_to(&mut out);
        assert(Seq::<Glyph>::empty() + payload_text(*self) =~= payload_text(*self));
        out
    }
}

impl JsError {
    /// The failure as it is shown.
    pub fn to_rendering(&self) -> (r: Rendering)
        ensures
            r@ == error_text(*self),
    {
        let mut out = Rendering::new();
        let ghost start = out@;
        match self {
            JsError::ParseError(s) => {
                out.push_str("ParseError: ");
                out.push_str(s.as_str());
            },
            JsError::GcError(g) => {
                out.push_str("GcError: ");
                out.push_string(g.to_string());
            },
            JsError::TypeError(s) => {
                out.push_str("TypeError: ");
                out.push_str(s.as_str());
            },
            JsError::ReferenceError(s) => {
                out.push_str("ReferenceError: ");
                out.push_str(s.as_str());
            },
            JsError::JsVar(thrown) => match &thrown.1 {
                Some(p) => {
                    p.write_to(&mut out);
                },
                None => {
                    thrown.0.write_to(&mut out);
                },
            },
            JsError::TestError(s) => {
                out.push_str("TestError: ");
                out.push_str(s.as_str());
            },
            JsError::UnimplementedError(s) => {
                out.push_str("UnimplementedError: ");
                out.push_str(s.as_str());
                out.push_str(" is not implemented");
            },
            JsError::SyntaxError(s) => {
                out.push_str("SyntaxError: ");
                out.push_str(s.as_str());
            },
        }
        assert(out@ =~= error_text(*self));
        out
    }
}

} // verus!
