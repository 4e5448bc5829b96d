//! The payload of a string value.

use vstd::prelude::*;

verus! {

/// One more than the longest string that a value may hold, in bytes: two to
/// the fifty-third, less one.
pub const MAX_STR_LEN: u64 = 9007199254740991;

/// A string on the heap.
#[derive(Debug, Eq, Hash)]
pub struct JsStrStruct {
    pub text: String,
}

impl View for JsStrStruct {
    type V = Seq<char>;

    open spec fn view(&self) -> Seq<char> {
        self.text@
    }
}

impl Clone for JsStrStruct {
    fn clone(&self) -> (r: Self)
        ensures
            r == *self,
    {
        JsStrStruct { text: self.text.clone() }
    }
}

impl PartialEq for JsStrStruct {
    fn eq(&self, other: &Self) -> (r: bool) {
        self.text == other.text
    }
}

impl vstd::std_specs::cmp::PartialEqSpecImpl for JsStrStruct {
    open spec fn obeys_eq_spec() -> bool {
        true
    }

    open spec fn eq_spec(&self, other: &Self) -> bool {
        self.text@ == other.text@
    }
}

impl JsStrStruct {
    /// A string payload with the text of `s`, which must be shorter than
    /// `MAX_STR_LEN` bytes.
    pub fn new(s: &str) -> (r: JsStrStruct)
        requires
            s.len() < MAX_STR_LEN,
        ensures
            r@ == s@,
    {
        JsStrStruct { text: s.to_owned() }
    }

    /// The text of the string.
    pub fn to_string(&self) -> (r: String)
        ensures
            r@ == self@,
    {
        self.text.clone()
    }
}

} // verus!
