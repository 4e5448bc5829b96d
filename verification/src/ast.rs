//! The syntax tree of the language: operators, expressions and statements.

use crate::types::number::JsNumber;
use vstd::prelude::*;

verus! {

/// A binary operator.
#[derive(Clone, Copy, Debug, PartialEq, Eq, Structural)]
pub enum BinOp {
    Ge,
    Gt,
    /// `==`
    Eql,
    /// `===`
    EqlStrict,
    /// `!=`
    Neq,
    /// `!==`
    NeqStrict,
    Le,
    Lt,
    And,
    Or,
    BitOr,
    BitXor,
    BitAnd,
    ShiftLeft,
    ShiftRight,
    ShiftRightUnsigned,
    Minus,
    Plus,
    Slash,
    Star,
    Exponent,
    Mod,
    InstanceOf,
}

/// How tightly a construct binds. The variants stand from the loosest to the
/// tightest, so the derived order is the order of `rank`.
#[derive(Clone, Copy, Debug, PartialEq, Eq, PartialOrd, Ord, Structural)]
pub enum Precedence {
    Or,
    And,
    BitOr,
    BitXor,
    BitAnd,
    Equality,
    Cmp,
    Shift,
    Add,
    Mult,
    Inc,
    Sign,
    Const,
}

impl Precedence {
    /// The binding strength as a number: a higher rank binds tighter.
    pub open spec fn rank_spec(self) -> u8 {
        match self {
            Precedence::Const => 110,
            Precedence::Sign => 100,
            Precedence::Inc => 90,
            Precedence::Mult => 70,
            Precedence::Add => 60,
            Precedence::Shift => 52,
            Precedence::Cmp => 51,
            Precedence::Equality => 50,
            Precedence::BitAnd => 43,
            Precedence::BitXor => 42,
            Precedence::BitOr => 41,
            Precedence::And => 40,
            Precedence::Or => 30,
        }
    }

    #[verifier::when_used_as_spec(rank_spec)]
    pub fn rank(self) -> (r: u8)
        ensures
            r == self.rank_spec(),
    {
        match self {
            Precedence::Const => 110,
            Precedence::Sign => 100,
            Precedence::Inc => 90,
            Precedence::Mult => 70,
            Precedence::Add => 60,
            Precedence::Shift => 52,
            Precedence::Cmp => 51,
            Precedence::Equality => 50,
            Precedence::BitAnd => 43,
            Precedence::BitXor => 42,
            Precedence::BitOr => 41,
            Precedence::And => 40,
            Precedence::Or => 30,
        }
    }
}

impl BinOp {
    /// The precedence class of the operator.
    pub open spec fn precedence_spec(&self) -> Precedence {
        match *self {
            BinOp::And => Precedence::And,
            BinOp::Ge | BinOp::Gt | BinOp::Le | BinOp::Lt | BinOp::InstanceOf => Precedence::Cmp,
            BinOp::Eql | BinOp::Neq | BinOp::EqlStrict | BinOp::NeqStrict => Precedence::Equality,
            BinOp::Or => Precedence::Or,
            BinOp::BitOr => Precedence::BitOr,
            BinOp::BitXor => Precedence::BitXor,
            BinOp::BitAnd => Precedence::BitAnd,
            BinOp::Minus | BinOp::Plus => Precedence::Add,
            BinOp::Slash | BinOp::Star | BinOp::Exponent | BinOp::Mod => Precedence::Mult,
            BinOp::ShiftLeft | BinOp::ShiftRight | BinOp::ShiftRightUnsigned => Precedence::Shift,
        }
    }

    /// Whether the right operand may share the operator's precedence
    /// without parentheses. Only subtraction and division say no.
    pub open spec fn is_commutative_spec(&self) -> bool {
        !(*self is Minus || *self is Slash)
    }

    #[verifier::when_used_as_spec(precedence_spec)]
    pub fn precedence(&self) -> (r: Precedence)
        ensures
            r == self.precedence_spec(),
    {
        match *self {
            BinOp::And => Precedence::And,
            BinOp::Ge | BinOp::Gt | BinOp::Le | BinOp::Lt | BinOp::InstanceOf => Precedence::Cmp,
            BinOp::Eql | BinOp::Neq | BinOp::EqlStrict | BinOp::NeqStrict => Precedence::Equality,
            BinOp::Or => Precedence::Or,
            BinOp::BitOr => Precedence::BitOr,
            BinOp::BitXor => Precedence::BitXor,
            BinOp::BitAnd => Precedence::BitAnd,
            BinOp::Minus | BinOp::Plus => Precedence::Add,
            BinOp::Slash | BinOp::Star | BinOp::Exponent | BinOp::Mod => Precedence::Mult,
            BinOp::ShiftLeft | BinOp::ShiftRight | BinOp::ShiftRightUnsigned => Precedence::Shift,
        }
    }

    #[verifier::when_used_as_spec(is_commutative_spec)]
    pub fn is_commutative(&self) -> (r: bool)
        ensures
            r == self.is_commutative_spec(),
    {
        match *self {
            BinOp::Minus | BinOp::Slash => false,
            _ => true,
        }
    }
}

/// An expression.
#[derive(Debug)]
pub enum Exp {
    Array(Vec<Box<Exp>>),
    BitNot(Box<Exp>),
    BinExp(Box<Exp>, BinOp, Box<Exp>),
    Bool(bool),
    Call(Box<Exp>, Vec<Box<Exp>>),
    Defun(Option<String>, Vec<String>, Vec<Stmt>),
    Float(JsNumber),
    InstanceVar(Box<Exp>, String),
    KeyAccessor(Box<Exp>, Box<Exp>),
    LogNot(Box<Exp>),
    Neg(Box<Exp>),
    Null,
    NewObject(Box<Exp>, Vec<Box<Exp>>),
    Object(Vec<(String, Box<Exp>)>),
    Pos(Box<Exp>),
    PostDec(Box<Exp>),
    PostInc(Box<Exp>),
    PreDec(Box<Exp>),
    PreInc(Box<Exp>),
    TypeOf(Box<Exp>),
    Str(String),
    Undefined,
    Var(String),
}

/// A statement.
#[derive(Debug)]
pub enum Stmt {
    Assign(Exp, Exp),
    BareExp(Exp),
    Break,
    Continue,
    Decl(String, Exp),
    Empty,
    If(Exp, Vec<Stmt>, Vec<Stmt>),
    Ret(Exp),
    /// Two statements, one after the other.
    Sequence(Box<Stmt>, Box<Stmt>),
    /// The guarded block, the name of the caught value, the handler, and the
    /// block that runs in either case.
    Try(Vec<Stmt>, String, Vec<Stmt>, Vec<Stmt>),
    Throw(Box<Exp>),
    VarDecl(String),
    While(Exp, Vec<Stmt>),
}

/// An expression as a mathematical value: the tree with sequences for
/// lists and character sequences for strings.
pub enum ExpView {
    Array(Seq<ExpView>),
    BitNot(Box<ExpView>),
    BinExp(Box<ExpView>, BinOp, Box<ExpView>),
    Bool(bool),
    Call(Box<ExpView>, Seq<ExpView>),
    Defun(Option<Seq<char>>, Seq<Seq<char>>, Seq<StmtView>),
    Float(JsNumber),
    InstanceVar(Box<ExpView>, Seq<char>),
    KeyAccessor(Box<ExpView>, Box<ExpView>),
    LogNot(Box<ExpView>),
    Neg(Box<ExpView>),
    Null,
    NewObject(Box<ExpView>, Seq<ExpView>),
    Object(Seq<(Seq<char>, ExpView)>),
    Pos(Box<ExpView>),
    PostDec(Box<ExpView>),
    PostInc(Box<ExpView>),
    PreDec(Box<ExpView>),
    PreInc(Box<ExpView>),
    TypeOf(Box<ExpView>),
    Str(Seq<char>),
    Undefined,
    Var(Seq<char>),
}

/// A statement as a mathematical value.
pub enum StmtView {
    Assign(ExpView, ExpView),
    BareExp(ExpView),
    Break,
    Continue,
    Decl(Seq<char>, ExpView),
    Empty,
    If(ExpView, Seq<StmtView>, Seq<StmtView>),
    Ret(ExpView),
    Sequence(Box<StmtView>, Box<StmtView>),
    Try(Seq<StmtView>, Seq<char>, Seq<StmtView>, Seq<StmtView>),
    Throw(Box<ExpView>),
    VarDecl(Seq<char>),
    While(ExpView, Seq<StmtView>),
}

/// The view of an optional string.
pub open spec fn opt_text(o: Option<String>) -> Option<Seq<char>> {
    match o {
        Some(s) => Some(s@),
        None => None,
    }
}

/// The views of a list of strings.
pub open spec fn texts(s: Seq<String>) -> Seq<Seq<char>> {
    Seq::new(s.len(), |i: int| s[i]@)
}

/// The view of an expression.
pub open spec fn exp_view(e: Exp) -> ExpView
    decreases e,
{
    match e {
        Exp::Array(v) => ExpView::Array(exps_view(v@)),
        Exp::BitNot(a) => ExpView::BitNot(Box::new(exp_view(*a))),
        Exp::BinExp(a, o, b) => ExpView::BinExp(
            Box::new(exp_view(*a)),
            o,
            Box::new(exp_view(*b)),
        ),
        Exp::Bool(b) => ExpView::Bool(b),
        Exp::Call(f, args) => ExpView::Call(Box::new(exp_view(*f)), exps_view(args@)),
        Exp::Defun(name, params, body) => ExpView::Defun(
            opt_text(name),
            texts(params@),
            stmts_view(body@),
        ),
        Exp::Float(n) => ExpView::Float(n),
        Exp::InstanceVar(o, name) => ExpView::InstanceVar(Box::new(exp_view(*o)), name@),
        Exp::KeyAccessor(o, k) => ExpView::KeyAccessor(
            Box::new(exp_view(*o)),
            Box::new(exp_view(*k)),
        ),
        Exp::LogNot(a) => ExpView::LogNot(Box::new(exp_view(*a))),
        Exp::Neg(a) => ExpView::Neg(Box::new(exp_view(*a))),
        Exp::Null => ExpView::Null,
        Exp::NewObject(f, args) => ExpView::NewObject(Box::new(exp_view(*f)), exps_view(args@)),
        Exp::Object(props) => ExpView::Object(props_view(props@)),
        Exp::Pos(a) => ExpView::Pos(Box::new(exp_view(*a))),
        Exp::PostDec(a) => ExpView::PostDec(Box::new(exp_view(*a))),
        Exp::PostInc(a) => ExpView::PostInc(Box::new(exp_view(*a))),
        Exp::PreDec(a) => ExpView::PreDec(Box::new(exp_view(*a))),
        Exp::PreInc(a) => ExpView::PreInc(Box::new(exp_view(*a))),
        Exp::TypeOf(a) => ExpView::TypeOf(Box::new(exp_view(*a))),
        Exp::Str(s) => ExpView::Str(s@),
        Exp::Undefined => ExpView::Undefined,
        Exp::Var(s) => ExpView::Var(s@),
    }
}

/// The views of a list of expressions.
pub open spec fn exps_view(s: Seq<Box<Exp>>) -> Seq<ExpView>
    decreases s,
{
    if s.len() == 0 {
        Seq::empty()
    } else {
        exps_view(s.drop_last()).push(exp_view(*s.last()))
    }
}

/// The views of the properties of an object literal.
pub open spec fn props_view(s: Seq<(String, Box<Exp>)>) -> Seq<(Seq<char>, ExpView)>
    decreases s,
{
    if s.len() == 0 {
        Seq::empty()
    } else {
        props_view(s.drop_last()).push((s.last().0@, exp_view(*s.last().1)))
    }
}

/// The view of a statement.
pub open spec fn stmt_view(st: Stmt) -> StmtView
    decreases st,
{
    match st {
        Stmt::Assign(v, e) => StmtView::Assign(exp_view(v), exp_view(e)),
        Stmt::BareExp(e) => StmtView::BareExp(exp_view(e)),
        Stmt::Break => StmtView::Break,
        Stmt::Continue => StmtView::Continue,
        Stmt::Decl(v, e) => StmtView::Decl(v@, exp_view(e)),
        Stmt::Empty => StmtView::Empty,
        Stmt::If(c, t, e) => StmtView::If(exp_view(c), stmts_view(t@), stmts_view(e@)),
        Stmt::Ret(e) => StmtView::Ret(exp_view(e)),
        Stmt::Sequence(a, b) => StmtView::Sequence(
            Box::new(stmt_view(*a)),
            Box::new(stmt_view(*b)),
        ),
        Stmt::Try(t, v, c, f) => StmtView::Try(stmts_view(t@), v@, stmts_view(c@), stmts_view(f@)),
        Stmt::Throw(e) => StmtView::Throw(Box::new(exp_view(*e))),
        Stmt::VarDecl(v) => StmtView::VarDecl(v@),
        Stmt::While(c, b) => StmtView::While(exp_view(c), stmts_view(b@)),
    }
}

/// The views of a list of statements.
pub open spec fn stmts_view(s: Seq<Stmt>) -> Seq<StmtView>
    decreases s,
{
    if s.len() == 0 {
        Seq::empty()
    } else {
        stmts_view(s.drop_last()).push(stmt_view(s.last()))
    }
}

impl View for Exp {
    type V = ExpView;

    open spec fn view(&self) -> ExpView {
        exp_view(*self)
    }
}

impl View for Stmt {
    type V = StmtView;

    open spec fn view(&self) -> StmtView {
        stmt_view(*self)
    }
}

/// A copy of an optional string.
fn clone_opt_text(o: &Option<String>) -> (r: Option<String>)
    ensures
        opt_text(r) == opt_text(*o),
{
    match o {
        Some(s) => Some(s.clone()),
        None => None,
    }
}

/// A copy of a list of strings.
pub fn clone_texts(v: &Vec<String>) -> (r: Vec<String>)
    ensures
        texts(r@) == texts(v@),
{
    let mut r: Vec<String> = Vec::new();
    let mut i: usize = 0;
    while i < v.len()
        invariant
            i <= v@.len(),
            r@.len() == i,
            forall|j: int| 0 <= j < i ==> (#[trigger] r@[j])@ == v@[j]@,
        decreases v@.len() - i,
    {
        r.push(v[i].clone());
        i = i + 1;
    }
    assert(texts(r@) =~= texts(v@));
    r
}

/// A copy of a list of expressions.
fn clone_exps(v: &Vec<Box<Exp>>) -> (r: Vec<Box<Exp>>)
    ensures
        exps_view(r@) == exps_view(v@),
    decreases v,
{
    let mut r: Vec<Box<Exp>> = Vec::new();
    let mut i: usize = 0;
    assert(v@.take(0) =~= Seq::<Box<Exp>>::empty());
    while i < v.len()
        invariant
            i <= v@.len(),
            exps_view(r@) == exps_view(v@.take(i as int)),
        decreases v@.len() - i,
    {
        let ghost before = r@;
        let copy = (*v[i]).clone();
        r.push(Box::new(copy));
        proof {
            assert(r@.drop_last() =~= before);
            assert(v@.take(i + 1).drop_last() =~= v@.take(i as int));
            assert(v@.take(i + 1).last() == v@[i as int]);
        }
        i = i + 1;
    }
    assert(v@.take(v@.len() as int) =~= v@);
    r
}

/// A copy of the properties of an object literal.
fn clone_props(v: &Vec<(String, Box<Exp>)>) -> (r: Vec<(String, Box<Exp>)>)
    ensures
        props_view(r@) == props_view(v@),
    decreases v,
{
    let mut r: Vec<(String, Box<Exp>)> = Vec::new();
    let mut i: usize = 0;
    assert(v@.take(0) =~= Seq::<(String, Box<Exp>)>::empty());
    while i < v.len()
        invariant
            i <= v@.len(),
            props_view(r@) == props_view(v@.take(i as int)),
        decreases v@.len() - i,
    {
        let ghost before = r@;
        let name = v[i].0.clone();
        let copy = (*v[i].1).clone();
        r.push((name, Box::new(copy)));
        proof {
            assert(r@.drop_last() =~= before);
            assert(v@.take(i + 1).drop_last() =~= v@.take(i as int));
            assert(v@.take(i + 1).last() == v@[i as int]);
        }
        i = i + 1;
    }
    assert(v@.take(v@.len() as int) =~= v@);
    r
}

/// A copy of a list of statements.
pub fn clone_stmts(v: &Vec<Stmt>) -> (r: Vec<Stmt>)
    ensures
        stmts_view(r@) == stmts_view(v@),
    decreases v,
{
    let mut r: Vec<Stmt> = Vec::new();
    let mut i: usize = 0;
    assert(v@.take(0) =~= Seq::<Stmt>::empty());
    while i < v.len()
        invariant
            i <= v@.len(),
            stmts_view(r@) == stmts_view(v@.take(i as int)),
        decreases v@.len() - i,
    {
        let ghost before = r@;
        let copy = v[i].clone();
        r.push(copy);
        proof {
            assert(r@.drop_last() =~= before);
            assert(v@.take(i + 1).drop_last() =~= v@.take(i as int));
            assert(v@.take(i + 1).last() == v@[i as int]);
        }
        i = i + 1;
    }
    assert(v@.take(v@.len() as int) =~= v@);
    r
}

impl Clone for Exp {
    fn clone(&self) -> (r: Self)
        ensures
            r@ == self@,
        decreases self,
    {
        match self {
            Exp::Array(v) => Exp::Array(clone_exps(v)),
            Exp::BitNot(a) => Exp::BitNot(Box::new((**a).clone())),
            Exp::BinExp(a, o, b) => Exp::BinExp(
                Box::new((**a).clone()),
                *o,
                Box::new((**b).clone()),
            ),
            Exp::Bool(b) => Exp::Bool(*b),
            Exp::Call(f, args) => Exp::Call(Box::new((**f).clone()), clone_exps(args)),
            Exp::Defun(name, params, body) => Exp::Defun(
                clone_opt_text(name),
                clone_texts(params),
                clone_stmts(body),
            ),
            Exp::Float(n) => Exp::Float(*n),
            Exp::InstanceVar(o, name) => Exp::InstanceVar(Box::new((**o).clone()), name.clone()),
            Exp::KeyAccessor(o, k) => Exp::KeyAccessor(
                Box::new((**o).clone()),
                Box::new((**k).clone()),
            ),
            Exp::LogNot(a) => Exp::LogNot(Box::new((**a).clone())),
            Exp::Neg(a) => Exp::Neg(Box::new((**a).clone())),
            Exp::Null => Exp::Null,
            Exp::NewObject(f, args) => Exp::NewObject(Box::new((**f).clone()), clone_exps(args)),
            Exp::Object(props) => Exp::Object(clone_props(props)),
            Exp::Pos(a) => Exp::Pos(Box::new((**a).clone())),
            Exp::PostDec(a) => Exp::PostDec(Box::new((**a).clone())),
            Exp::PostInc(a) => Exp::PostInc(Box::new((**a).clone())),
            Exp::PreDec(a) => Exp::PreDec(Box::new((**a).clone())),
            Exp::PreInc(a) => Exp::PreInc(Box::new((**a).clone())),
            Exp::TypeOf(a) => Exp::TypeOf(Box::new((**a).clone())),
            Exp::Str(s) => Exp::Str(s.clone()),
            Exp::Undefined => Exp::Undefined,
            Exp::Var(s) => Exp::Var(s.clone()),
        }
    }
}

impl Clone for Stmt {
    fn clone(&self) -> (r: Self)
        ensures
            r@ == self@,
        decreases self,
    {
        match self {
            Stmt::Assign(v, e) => Stmt::Assign(v.clone(), e.clone()),
            Stmt::BareExp(e) => Stmt::BareExp(e.clone()),
            Stmt::Break => Stmt::Break,
            Stmt::Continue => Stmt::Continue,
            Stmt::Decl(v, e) => Stmt::Decl(v.clone(), e.clone()),
            Stmt::Empty => Stmt::Empty,
            Stmt::If(c, t, e) => Stmt::If(c.clone(), clone_stmts(t), clone_stmts(e)),
            Stmt::Ret(e) => Stmt::Ret(e.clone()),
            Stmt::Sequence(a, b) => Stmt::Sequence(
                Box::new((**a).clone()),
                Box::new((**b).clone()),
            ),
            Stmt::Try(t, v, c, f) => Stmt::Try(
                clone_stmts(t),
                v.clone(),
                clone_stmts(c),
                clone_stmts(f),
            ),
            Stmt::Throw(e) => Stmt::Throw(Box::new((**e).clone())),
            Stmt::VarDecl(v) => Stmt::VarDecl(v.clone()),
            Stmt::While(c, b) => Stmt::While(c.clone(), clone_stmts(b)),
        }
    }
}

impl Exp {
    /// The precedence class of the expression's outermost construct.
    pub open spec fn precedence_spec(&self) -> Precedence {
        match self {
            Exp::BinExp(_, o, _) => o.precedence_spec(),
            Exp::BitNot(_) | Exp::LogNot(_) | Exp::Neg(_) | Exp::Pos(_) => Precedence::Sign,
            Exp::PostDec(_) | Exp::PostInc(_) | Exp::PreDec(_) | Exp::PreInc(_) => Precedence::Inc,
            _ => Precedence::Const,
        }
    }

    #[verifier::when_used_as_spec(precedence_spec)]
    pub fn precedence(&self) -> (r: Precedence)
        ensures
            r == self.precedence_spec(),
    {
        match self {
            Exp::BinExp(_, o, _) => o.precedence(),
            Exp::BitNot(_) | Exp::LogNot(_) | Exp::Neg(_) | Exp::Pos(_) => Precedence::Sign,
            Exp::PostDec(_) | Exp::PostInc(_) | Exp::PreDec(_) | Exp::PreInc(_) => Precedence::Inc,
            _ => Precedence::Const,
        }
    }
}

} // verus!
