//! The payload of a function value.

use crate::ast::clone_texts;
use crate::ast::opt_text;
use crate::ast::Stmt;
use crate::ast::StmtView;
use crate::ast::texts;
use vstd::prelude::*;

verus! {

/// A function on the heap: its name, if it has one, the names of its
/// parameters, and its body.
#[derive(Debug)]
pub struct JsFnStruct {
    pub name: Option<String>,
    pub params: Vec<String>,
    pub stmt: Stmt,
}

/// A function payload as a mathematical value.
pub struct JsFnView {
    pub name: Option<Seq<char>>,
    pub params: Seq<Seq<char>>,
    pub stmt: StmtView,
}

impl View for JsFnStruct {
    type V = JsFnView;

    open spec fn view(&self) -> JsFnView {
        JsFnView { name: opt_text(self.name), params: texts(self.params@), stmt: self.stmt@ }
    }
}

impl Clone for JsFnStruct {
    fn clone(&self) -> (r: Self)
        ensures
            r@ == self@,
    {
        JsFnStruct::new(&self.name, &self.params, &self.stmt)
    }
}

impl JsFnStruct {
    /// A function payload with copies of the given name, parameters and
    /// body.
    pub fn new(name: &Option<String>, params: &Vec<String>, block: &Stmt) -> (r: JsFnStruct)
        ensures
            r@ == (JsFnView { name: opt_text(*name), params: texts(params@), stmt: block@ }),
    {
        let name_copy = match name {
            Some(n) => Some(n.clone()),
            None => None,
        };
        JsFnStruct { name: name_copy, params: clone_texts(params), stmt: block.clone() }
    }
}

} // verus!
