//! Variables whose reads and writes the host intercepts.

use crate::types::js_var::JsPtrEnum;
use crate::types::js_var::JsPtrView;
use crate::types::js_var::JsVar;
use vstd::prelude::*;

verus! {

/// A variable backed by the host: the value it currently shows, the payload
/// of that value if it has one, and the handles of the host routines that
/// run when it is read and when it is written. Only the host can run what
/// stands behind a handle.
#[derive(Debug)]
pub struct NativeVar {
    pub var: JsVar,
    pub ptr: Option<Box<JsPtrEnum>>,
    pub name: String,
    pub getter: u64,
    pub setter: u64,
}

/// A host-backed variable as a mathematical value.
pub struct NativeVarView {
    pub var: JsVar,
    pub ptr: Option<Box<JsPtrView>>,
    pub name: Seq<char>,
    pub getter: u64,
    pub setter: u64,
}

impl NativeVar {
    /// A host-backed variable that shows `var` with the payload `ptr`.
    pub fn new(var: JsVar, ptr: Option<JsPtrEnum>, name: &str, getter: u64, setter: u64) -> (r:
        NativeVar)
        ensures
            r.var == var,
            r.ptr == match ptr {
                Some(p) => Some(Box::new(p)),
                None => None,
            },
            r.name@ == name@,
            r.getter == getter,
            r.setter == setter,
    {
        let boxed = match ptr {
            Some(p) => Some(Box::new(p)),
            None => None,
        };
        NativeVar { var, ptr: boxed, name: name.to_owned(), getter, setter }
    }

    /// Records what the host's setter handed back: from now on the variable
    /// shows `var` with the payload `ptr`.
    pub fn store(&mut self, var: JsVar, ptr: Option<JsPtrEnum>)
        ensures
            final(self).var == var,
            final(self).ptr == match ptr {
                Some(p) => Some(Box::new(p)),
                None => None,
            },
            final(self).name == old(self).name,
            final(self).getter == old(self).getter,
            final(self).setter == old(self).setter,
    {
        self.var = var;
        self.ptr = match ptr {
            Some(p) => Some(Box::new(p)),
            None => None,
        };
    }
}

} // verus!
