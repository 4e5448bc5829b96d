//! What can go wrong while a program is read or run.

use crate::gc_error::GcError;
use crate::types::js_var::JsPtrEnum;
use crate::types::js_var::JsVar;
use vstd::prelude::*;
use vstd::std_specs::convert::FromSpecImpl;
use vstd::string::StringExecFns;

verus! {

/// A failure of the interpreter.
#[derive(Debug)]
pub enum JsError {
    ParseError(String),
    GcError(GcError),
    TypeError(String),
    ReferenceError(String),
    /// A value that the program threw, with its payload if it has one.
    JsVar((JsVar, Option<JsPtrEnum>)),
    TestError(String),
    UnimplementedError(String),
    SyntaxError(String),
}

impl JsError {
    /// Whether the failure lies with the interpreter rather than with the
    /// program: a failure to parse, a failure of the collector, or a
    /// feature that is not there. Such a failure is reported as an internal
    /// fault, not as an exception of the language.
    pub open spec fn is_meta_error_spec(&self) -> bool {
        self is ParseError || self is GcError || self is UnimplementedError
    }

    /// The failure of an assignment to something that cannot be assigned
    /// to.
    pub fn invalid_lhs() -> (r: JsError)
        ensures
            r matches JsError::ReferenceError(s) && s@ == "Invalid left-hand side in assignment"@,
    {
        JsError::ReferenceError(String::from_str("Invalid left-hand side in assignment"))
    }

    /// The failure of a feature that is not there.
    pub fn unimplemented(typ: &str) -> (r: JsError)
        ensures
            r matches JsError::UnimplementedError(s) && s@ == typ@,
    {
        JsError::UnimplementedError(String::from_str(typ))
    }

    /// The failure of a use of a name that is not defined.
    pub fn undefined(binding: &str) -> (r: JsError)
        ensures
            r matches JsError::ReferenceError(s) && s@ == binding@ + " is not defined"@,
    {
        let mut s = String::from_str(binding);
        s.append(" is not defined");
        JsError::ReferenceError(s)
    }

    #[verifier::when_used_as_spec(is_meta_error_spec)]
    pub fn is_meta_error(&self) -> (r: bool)
        ensures
            r == self.is_meta_error_spec(),
    {
        match self {
            JsError::ParseError(_) => true,
            JsError::GcError(_) => true,
            JsError::TypeError(_) => false,
            JsError::ReferenceError(_) => false,
            JsError::JsVar(_) => false,
            JsError::TestError(_) => false,
            JsError::UnimplementedError(_) => true,
            JsError::SyntaxError(_) => false,
        }
    }
}

impl From<GcError> for JsError {
    fn from(e: GcError) -> (r: JsError) {
        JsError::GcError(e)
    }
}

impl FromSpecImpl<GcError> for JsError {
    open spec fn obeys_from_spec() -> bool {
        true
    }

    open spec fn from_spec(e: GcError) -> JsError {
        JsError::GcError(e)
    }
}

/// A failure of the collector is a fault of the interpreter, whichever it
/// is.
pub proof fn lemma_gc_errors_are_meta(e: GcError)
    ensures
        JsError::GcError(e).is_meta_error_spec(),
{
}

/// The answer of an operation that may fail.
pub type Result<T> = core::result::Result<T, JsError>;

} // verus!
