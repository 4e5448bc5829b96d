//! The text of expressions and statements.
//!
//! The text is defined on the views of the syntax tree. Numbers stand in it
//! unprinted, for the host to render.

use crate::ast::BinOp;
use crate::ast::Exp;
use crate::ast::exp_view;
use crate::ast::exps_view;
use crate::ast::ExpView;
use crate::ast::Precedence;
use crate::ast::props_view;
use crate::ast::Stmt;
use crate::ast::stmt_view;
use crate::ast::stmts_view;
use crate::ast::StmtView;
use crate::ast::texts;
use crate::text::chars;
use crate::text::Glyph;
use crate::text::number;
use crate::text::Rendering;
use crate::text::spaces;
use vstd::prelude::*;

verus! {

/// The indentation one level further in: two more, as far as a 32-bit
/// signed number goes.
pub open spec fn deeper(indent: int) -> int {
    if indent <= i32::MAX - 2 {
        indent + 2
    } else {
        i32::MAX as int
    }
}

impl BinOp {
    /// The operator as it is written.
    pub open spec fn symbol_spec(&self) -> Seq<char> {
        match *self {
            BinOp::And => "&&"@,
            BinOp::Ge => ">="@,
            BinOp::Gt => ">"@,
            BinOp::Eql => "=="@,
            BinOp::EqlStrict => "==="@,
            BinOp::Le => "<="@,
            BinOp::Lt => "<"@,
            BinOp::Minus => "-"@,
            BinOp::Neq => "!="@,
            BinOp::NeqStrict => "!=="@,
            BinOp::Or => "||"@,
            BinOp::Plus => "+"@,
            BinOp::Slash => "/"@,
            BinOp::Star => "*"@,
            BinOp::Exponent => "**"@,
            BinOp::Mod => "%"@,
            BinOp::BitXor => "^"@,
            BinOp::BitOr => "|"@,
            BinOp::BitAnd => "&"@,
            BinOp::ShiftLeft => "<<"@,
            BinOp::ShiftRight => ">>"@,
            BinOp::ShiftRightUnsigned => ">>>"@,
            BinOp::InstanceOf => "instanceof"@,
        }
    }
}

/// The precedence class of an expression's outermost construct.
pub open spec fn precedence_of(e: ExpView) -> Precedence {
    match e {
        ExpView::BinExp(_, o, _) => o.precedence_spec(),
        ExpView::BitNot(_) | ExpView::LogNot(_) | ExpView::Neg(_) | ExpView::Pos(_) => Precedence::Sign,
        ExpView::PostDec(_) | ExpView::PostInc(_) | ExpView::PreDec(_) | ExpView::PreInc(_) => Precedence::Inc,
        _ => Precedence::Const,
    }
}

/// `inner` in parentheses.
pub open spec fn parens(inner: Seq<Glyph>) -> Seq<Glyph> {
    chars("("@) + inner + chars(")"@)
}

/// Names separated by a comma and a space.
pub open spec fn name_list(names: Seq<Seq<char>>) -> Seq<Glyph>
    decreases names.len(),
{
    if names.len() == 0 {
        Seq::empty()
    } else if names.len() == 1 {
        chars(names[0])
    } else {
        name_list(names.drop_last()) + chars(", "@) + chars(names.last())
    }
}

/// The text of an expression at the indentation `indent`.
///
/// An operand is put in parentheses where it binds more loosely than the
/// construct around it; the right operand of a subtraction or a division
/// also where it binds just as tightly. A nested expression starts again
/// at no indentation, except for the values of an object literal and the
/// body of a function, which are one level further in.
pub open spec fn exp_text(e: ExpView, indent: int) -> Seq<Glyph>
    decreases e, 0int,
{
    match e {
        ExpView::Array(items) => chars("["@) + comma_list(items) + chars("]"@),
        ExpView::BinExp(l, o, r) => bin_left(*l, o) + chars(" "@) + chars(o.symbol_spec()) + chars(
            " "@,
        ) + bin_right(*r, o),
        ExpView::BitNot(a) => chars("~"@) + grouped(*a, Precedence::Sign),
        ExpView::Bool(b) => if b {
            chars("true"@)
        } else {
            chars("false"@)
        },
        ExpView::Call(f, args) => exp_text(*f, 0) + chars("("@) + comma_list(args) + chars(")"@),
        ExpView::Defun(name, params, body) => chars("function"@) + (match name {
            Some(n) => chars(" "@) + chars(n),
            None => Seq::empty(),
        }) + chars("("@) + name_list(params) + chars(") {\n"@) + block_text(body, deeper(indent))
            + spaces(indent) + chars("}"@),
        ExpView::Float(n) => number(n),
        ExpView::InstanceVar(o, name) => exp_text(*o, 0) + chars("."@) + chars(name),
        ExpView::KeyAccessor(o, k) => exp_text(*o, 0) + chars("["@) + exp_text(*k, 0) + chars(
            "]"@,
        ),
        ExpView::LogNot(a) => chars("!"@) + grouped(*a, Precedence::Sign),
        ExpView::Neg(a) => chars("-"@) + grouped(*a, Precedence::Sign),
        ExpView::Null => chars("null"@),
        ExpView::NewObject(f, args) => chars("new "@) + exp_text(*f, 0) + chars("("@) + comma_list(
            args,
        ) + chars(")"@),
        ExpView::Object(props) => if props.len() == 0 {
            chars("{}"@)
        } else {
            chars("{\n"@) + props_text(props, deeper(indent)) + chars("\n}"@)
        },
        ExpView::Pos(a) => chars("+"@) + grouped(*a, Precedence::Sign),
        ExpView::PostDec(a) => grouped(*a, Precedence::Inc) + chars("--"@),
        ExpView::PostInc(a) => grouped(*a, Precedence::Inc) + chars("++"@),
        ExpView::PreDec(a) => chars("--"@) + grouped(*a, Precedence::Inc),
        ExpView::PreInc(a) => chars("++"@) + grouped(*a, Precedence::Inc),
        ExpView::TypeOf(a) => chars("typeof "@) + exp_text(*a, 0),
        ExpView::Str(s) => chars("\""@) + chars(s) + chars("\""@),
        ExpView::Undefined => chars("undefined"@),
        ExpView::Var(v) => chars(v),
    }
}

/// The left operand `l` of the operator `o`: in parentheses if it binds more
/// loosely than the operator.
pub open spec fn bin_left(l: ExpView, o: BinOp) -> Seq<Glyph>
    decreases l, 1int,
{
    if o.precedence_spec().rank_spec() > precedence_of(l).rank_spec() {
        parens(exp_text(l, 0))
    } else {
        exp_text(l, 0)
    }
}

/// The right operand `r` of the operator `o`: in parentheses if it binds
/// more loosely than the operator, or just as tightly where the operator is
/// a subtraction or a division.
pub open spec fn bin_right(r: ExpView, o: BinOp) -> Seq<Glyph>
    decreases r, 1int,
{
    let prec = o.precedence_spec().rank_spec();
    let right_prec = precedence_of(r).rank_spec();
    if prec > right_prec || (!o.is_commutative_spec() && prec == right_prec) {
        parens(exp_text(r, 0))
    } else {
        exp_text(r, 0)
    }
}

/// The text of the operand `e` of a construct of precedence `p`: in
/// parentheses if `e` binds more loosely than `p`.
pub open spec fn grouped(e: ExpView, p: Precedence) -> Seq<Glyph>
    decreases e, 1int,
{
    if precedence_of(e).rank_spec() < p.rank_spec() {
        parens(exp_text(e, 0))
    } else {
        exp_text(e, 0)
    }
}

/// Expressions separated by a comma and a space.
pub open spec fn comma_list(items: Seq<ExpView>) -> Seq<Glyph>
    decreases items, 0int,
{
    if items.len() == 0 {
        Seq::empty()
    } else if items.len() == 1 {
        exp_text(items.last(), 0)
    } else {
        comma_list(items.drop_last()) + chars(", "@) + exp_text(items.last(), 0)
    }
}

/// The properties of an object literal, one to a line.
pub open spec fn props_text(props: Seq<(Seq<char>, ExpView)>, indent: int) -> Seq<Glyph>
    decreases props, 0int,
{
    if props.len() == 0 {
        Seq::empty()
    } else {
        props_text(props.drop_last(), indent) + (if props.len() == 1 {
            Seq::empty()
        } else {
            chars(",\n"@)
        }) + spaces(indent) + chars(props.last().0) + chars(": "@) + exp_text(
            props.last().1,
            indent,
        )
    }
}

/// The texts of statements, one after the other.
pub open spec fn block_text(stmts: Seq<StmtView>, indent: int) -> Seq<Glyph>
    decreases stmts, 0int,
{
    if stmts.len() == 0 {
        Seq::empty()
    } else {
        block_text(stmts.drop_last(), indent) + stmt_text(stmts.last(), indent)
    }
}

/// The handler of a `try`, or nothing where the handler is empty. It is
/// headed by the name of the caught value, the word `catch`, and the
/// indentation in parentheses.
pub open spec fn catch_text(v: Seq<char>, c: Seq<StmtView>, indent: int) -> Seq<Glyph>
    decreases c, 1int,
{
    if c.len() > 0 {
        chars(v) + chars("catch ("@) + spaces(indent) + chars(") {\n"@) + block_text(
            c,
            deeper(indent),
        ) + spaces(indent) + chars("}\n"@)
    } else {
        Seq::empty()
    }
}

/// The closing block of a `try`, or nothing where that block is empty.
pub open spec fn finally_text(f: Seq<StmtView>, indent: int) -> Seq<Glyph>
    decreases f, 1int,
{
    if f.len() > 0 {
        spaces(indent) + chars("finally {\n"@) + block_text(f, deeper(indent)) + spaces(indent)
            + chars("}\n"@)
    } else {
        Seq::empty()
    }
}

/// The text of a statement at the indentation `indent`.
///
/// Of a conditional only the condition and the first block are printed:
/// the second block is not, and where it is not empty the first is printed
/// once more in its place.
pub open spec fn stmt_text(s: StmtView, indent: int) -> Seq<Glyph>
    decreases s, 0int,
{
    match s {
        StmtView::Assign(v, e) => spaces(indent) + exp_text(v, 0) + chars(" = "@) + exp_text(
            e,
            indent,
        ) + chars(";\n"@),
        StmtView::BareExp(e) => spaces(indent) + exp_text(e, indent) + chars(";\n"@),
        StmtView::Break => chars("break;"@),
        StmtView::Continue => chars("continue;"@),
        StmtView::Decl(v, e) => spaces(indent) + chars("var "@) + chars(v) + chars(" = "@)
            + exp_text(e, indent) + chars(";\n"@),
        StmtView::Empty => Seq::empty(),
        StmtView::If(c, t, e) => spaces(indent) + chars("if ("@) + exp_text(c, deeper(indent))
            + chars(") {\n\n"@) + block_text(t, deeper(indent)) + (if e.len() > 0 {
            block_text(t, deeper(indent))
        } else {
            Seq::empty()
        }),
        StmtView::Ret(e) => spaces(indent) + chars("return "@) + exp_text(e, indent) + chars(
            ";\n"@,
        ),
        StmtView::Sequence(a, b) => stmt_text(*a, indent) + stmt_text(*b, indent),
        StmtView::Try(t, v, c, f) => spaces(indent) + chars("try {\n"@) + block_text(
            t,
            deeper(indent),
        ) + spaces(indent) + chars("}\n"@) + catch_text(v, c, indent) + finally_text(f, indent),
        StmtView::Throw(e) => spaces(indent) + chars("throw "@) + exp_text(*e, 0),
        StmtView::VarDecl(v) => chars("var "@) + chars(v) + chars(";"@),
        StmtView::While(c, b) => spaces(indent) + chars("while ("@) + exp_text(c, 0) + chars(
            ") {\n"@,
        ) + block_text(b, deeper(indent)) + spaces(indent) + chars("}\n"@),
    }
}

/// The view of an expression has the precedence of the expression.
pub proof fn lemma_precedence_of_view(e: Exp)
    ensures
        precedence_of(e@) == e.precedence_spec(),
{
}

/// The indentation one level further in.
fn deeper_level(indent: i32) -> (r: i32)
    ensures
        r == deeper(indent as int),
{
    if indent <= i32::MAX - 2 {
        indent + 2
    } else {
        i32::MAX
    }
}

impl BinOp {
    /// The operator as it is written.
    pub fn symbol(&self) -> (r: &'static str)
        ensures
            r@ == self.symbol_spec(),
    {
        match *self {
            BinOp::And => "&&",
            BinOp::Ge => ">=",
            BinOp::Gt => ">",
            BinOp::Eql => "==",
            BinOp::EqlStrict => "===",
            BinOp::Le => "<=",
            BinOp::Lt => "<",
            BinOp::Minus => "-",
            BinOp::Neq => "!=",
            BinOp::NeqStrict => "!==",
            BinOp::Or => "||",
            BinOp::Plus => "+",
            BinOp::Slash => "/",
            BinOp::Star => "*",
            BinOp::Exponent => "**",
            BinOp::Mod => "%",
            BinOp::BitXor => "^",
            BinOp::BitOr => "|",
            BinOp::BitAnd => "&",
            BinOp::ShiftLeft => "<<",
            BinOp::ShiftRight => ">>",
            BinOp::ShiftRightUnsigned => ">>>",
            BinOp::InstanceOf => "instanceof",
        }
    }

    /// The operator as it is written.
    pub fn to_string(&self) -> (r: String)
        ensures
            r@ == self.symbol_spec(),
    {
        self.symbol().to_owned()
    }
}

/// Writes names separated by a comma and a space.
pub fn write_names(names: &Vec<String>, out: &mut Rendering)
    ensures
        final(out)@ == old(out)@ + name_list(texts(names@)),
{
    let ghost start = out@;
    let mut i: usize = 0;
    assert(texts(names@.take(0)) =~= Seq::<Seq<char>>::empty());
    assert(start + name_list(texts(names@.take(0))) =~= start);
    while i < names.len()
        invariant
            i <= names@.len(),
            out@ == start + name_list(texts(names@.take(i as int))),
        decreases names@.len() - i,
    {
        let ghost before = texts(names@.take(i as int));
        let ghost after = texts(names@.take(i + 1));
        proof {
            assert(after.drop_last() =~= before);
            assert(after.last() == names@[i as int]@);
            assert(after.len() == i + 1);
        }
        if i != 0 {
            out.push_str(", ");
        }
        out.push_str(names[i].as_str());
        proof {
            if i == 0 {
                assert(after[0] == names@[0]@);
                assert(before =~= Seq::<Seq<char>>::empty());
                assert(out@ =~= start + name_list(after));
            } else {
                assert(out@ =~= start + name_list(after));
            }
        }
        i = i + 1;
    }
    assert(names@.take(names@.len() as int) =~= names@);
}

/// Writes the operand `e` of a construct of precedence `p`.
fn write_grouped(e: &Exp, p: Precedence, out: &mut Rendering)
    ensures
        final(out)@ == old(out)@ + grouped(e@, p),
    decreases e, 7int,
{
    proof {
        lemma_precedence_of_view(*e);
    }
    if e.precedence().rank() < p.rank() {
        write_in_parens(e, out);
    } else {
        e.fmt_helper(out, 0);
    }
}

/// Writes `e` in parentheses.
fn write_in_parens(e: &Exp, out: &mut Rendering)
    ensures
        final(out)@ == old(out)@ + parens(exp_text(e@, 0)),
    decreases e, 6int,
{
    let ghost start = out@;
    out.push_str("(");
    e.fmt_helper(out, 0);
    out.push_str(")");
    assert(out@ =~= start + parens(exp_text(e@, 0)));
}

/// Writes expressions separated by a comma and a space.
fn write_comma_list(items: &Vec<Box<Exp>>, out: &mut Rendering)
    ensures
        final(out)@ == old(out)@ + comma_list(exps_view(items@)),
    decreases items, 0int,
{
    let ghost start = out@;
    let mut i: usize = 0;
    assert(items@.take(0) =~= Seq::<Box<Exp>>::empty());
    assert(start + comma_list(exps_view(items@.take(0))) =~= start);
    while i < items.len()
        invariant
            i <= items@.len(),
            out@ == start + comma_list(exps_view(items@.take(i as int))),
            exps_view(items@.take(i as int)).len() == i,
        decreases items@.len() - i,
    {
        let ghost before = exps_view(items@.take(i as int));
        let ghost after = exps_view(items@.take(i + 1));
        proof {
            assert(items@.take(i + 1).drop_last() =~= items@.take(i as int));
            assert(items@.take(i + 1).last() == items@[i as int]);
            assert(after == before.push(exp_view(*items@[i as int])));
            assert(after.drop_last() =~= before);
        }
        if i != 0 {
            out.push_str(", ");
        }
        (*items[i]).fmt_helper(out, 0);
        proof {
            assert(out@ =~= start + comma_list(after));
        }
        i = i + 1;
    }
    assert(items@.take(items@.len() as int) =~= items@);
}

/// Writes the properties of an object literal, one to a line.
fn write_props(props: &Vec<(String, Box<Exp>)>, indent: i32, out: &mut Rendering)
    ensures
        final(out)@ == old(out)@ + props_text(props_view(props@), indent as int),
    decreases props, 0int,
{
    let ghost start = out@;
    let mut i: usize = 0;
    assert(props@.take(0) =~= Seq::<(String, Box<Exp>)>::empty());
    assert(start + props_text(props_view(props@.take(0)), indent as int) =~= start);
    while i < props.len()
        invariant
            i <= props@.len(),
            out@ == start + props_text(props_view(props@.take(i as int)), indent as int),
            props_view(props@.take(i as int)).len() == i,
        decreases props@.len() - i,
    {
        let ghost before = props_view(props@.take(i as int));
        let ghost after = props_view(props@.take(i + 1));
        proof {
            assert(props@.take(i + 1).drop_last() =~= props@.take(i as int));
            assert(props@.take(i + 1).last() == props@[i as int]);
            assert(after == before.push((props@[i as int].0@, exp_view(*props@[i as int].1))));
            assert(after.drop_last() =~= before);
        }
        if i != 0 {
            out.push_str(",\n");
        }
        out.push_spaces(indent);
        out.push_str(props[i].0.as_str());
        out.push_str(": ");
        (*props[i].1).fmt_helper(out, indent);
        proof {
            assert(out@ =~= start + props_text(after, indent as int));
        }
        i = i + 1;
    }
    assert(props@.take(props@.len() as int) =~= props@);
}

/// Writes statements one after the other.
fn write_block(stmts: &Vec<Stmt>, indent: i32, out: &mut Rendering)
    ensures
        final(out)@ == old(out)@ + block_text(stmts_view(stmts@), indent as int),
    decreases stmts, 0int,
{
    let ghost start = out@;
    let mut i: usize = 0;
    assert(stmts@.take(0) =~= Seq::<Stmt>::empty());
    assert(start + block_text(stmts_view(stmts@.take(0)), indent as int) =~= start);
    while i < stmts.len()
        invariant
            i <= stmts@.len(),
            out@ == start + block_text(stmts_view(stmts@.take(i as int)), indent as int),
        decreases stmts@.len() - i,
    {
        let ghost before = stmts_view(stmts@.take(i as int));
        let ghost after = stmts_view(stmts@.take(i + 1));
        proof {
            assert(stmts@.take(i + 1).drop_last() =~= stmts@.take(i as int));
            assert(stmts@.take(i + 1).last() == stmts@[i as int]);
            assert(after == before.push(stmt_view(stmts@[i as int])));
            assert(after.drop_last() =~= before);
        }
        stmts[i].fmt_helper(out, indent);
        proof {
            assert(out@ =~= start + block_text(after, indent as int));
        }
        i = i + 1;
    }
    assert(stmts@.take(stmts@.len() as int) =~= stmts@);
}

impl Exp {
    /// Writes an operation on two operands.
    fn write_bin_exp(&self, out: &mut Rendering, indent_level: i32)
        requires
            self is BinExp,
        ensures
            final(out)@ == old(out)@ + exp_text(self@, indent_level as int),
        decreases self, 4int,
    {
        let ghost start = out@;
        match self {
            Exp::BinExp(l, o, r) => {
                let ghost lv = exp_view(**l);
                let ghost rv = exp_view(**r);
                let ghost left = bin_left(lv, *o);
                let ghost right = bin_right(rv, *o);
                proof {
                    lemma_precedence_of_view(**l);
                    lemma_precedence_of_view(**r);
                }
                let prec = o.precedence().rank();
                if prec > l.precedence().rank() {
                    write_in_parens(l, out);
                } else {
                    l.fmt_helper(out, 0);
                }
                assert(out@ == start + left);
                out.push_str(" ");
                out.push_str(o.symbol());
                out.push_str(" ");
                let ghost middle = out@;
                let right_prec = r.precedence().rank();
                if prec > right_prec || (!o.is_commutative() && prec == right_prec) {
                    write_in_parens(r, out);
                } else {
                    r.fmt_helper(out, 0);
                }
                assert(out@ == middle + right);
                assert(self@ == ExpView::BinExp(Box::new(lv), *o, Box::new(rv)));
                assert(exp_text(self@, indent_level as int) == left + chars(" "@) + chars(
                    o.symbol_spec(),
                ) + chars(" "@) + right);
                assert(out@ =~= start + (left + chars(" "@) + chars(o.symbol_spec()) + chars(" "@)
                    + right));
            },
            _ => {},
        }
    }

    /// Writes an operation on one operand.
    fn write_unary(&self, out: &mut Rendering, indent_level: i32)
        requires
            self is BitNot || self is LogNot || self is Neg || self is Pos || self is PostDec
                || self is PostInc || self is PreDec || self is PreInc || self is TypeOf,
        ensures
            final(out)@ == old(out)@ + exp_text(self@, indent_level as int),
        decreases self, 4int,
    {
        let ghost start = out@;
        let ghost indent = indent_level as int;
        match self {
            Exp::BitNot(a) => {
                out.push_str("~");
                write_grouped(a, Precedence::Sign, out);
                assert(out@ =~= start + exp_text(self@, indent));
            },
            Exp::LogNot(a) => {
                out.push_str("!");
                write_grouped(a, Precedence::Sign, out);
                assert(out@ =~= start + exp_text(self@, indent));
            },
            Exp::Neg(a) => {
                out.push_str("-");
                write_grouped(a, Precedence::Sign, out);
                assert(out@ =~= start + exp_text(self@, indent));
            },
            Exp::Pos(a) => {
                out.push_str("+");
                write_grouped(a, Precedence::Sign, out);
                assert(out@ =~= start + exp_text(self@, indent));
            },
            Exp::PostDec(a) => {
                write_grouped(a, Precedence::Inc, out);
                out.push_str("--");
                assert(out@ =~= start + exp_text(self@, indent));
            },
            Exp::PostInc(a) => {
                write_grouped(a, Precedence::Inc, out);
                out.push_str("++");
                assert(out@ =~= start + exp_text(self@, indent));
            },
            Exp::PreDec(a) => {
                out.push_str("--");
                write_grouped(a, Precedence::Inc, out);
                assert(out@ =~= start + exp_text(self@, indent));
            },
            Exp::PreInc(a) => {
                out.push_str("++");
                write_grouped(a, Precedence::Inc, out);
                assert(out@ =~= start + exp_text(self@, indent));
            },
            Exp::TypeOf(a) => {
                out.push_str("typeof ");
                a.fmt_helper(out, 0);
                assert(out@ =~= start + exp_text(self@, indent));
            },
            _ => {},
        }
    }

    /// Writes a construct that holds a list of expressions.
    fn write_listed(&self, out: &mut Rendering, indent_level: i32)
        requires
            self is Array || self is Call || self is NewObject,
        ensures
            final(out)@ == old(out)@ + exp_text(self@, indent_level as int),
        decreases self, 4int,
    {
        let ghost start = out@;
        let ghost indent = indent_level as int;
        match self {
            Exp::Array(items) => {
                out.push_str("[");
                write_comma_list(items, out);
                out.push_str("]");
                assert(out@ =~= start + exp_text(self@, indent));
            },
            Exp::Call(f, args) => {
                f.fmt_helper(out, 0);
                out.push_str("(");
                write_comma_list(args, out);
                out.push_str(")");
                assert(out@ =~= start + exp_text(self@, indent));
            },
            Exp::NewObject(f, args) => {
                out.push_str("new ");
                f.fmt_helper(out, 0);
                out.push_str("(");
                write_comma_list(args, out);
                out.push_str(")");
                assert(out@ =~= start + exp_text(self@, indent));
            },
            _ => {},
        }
    }

    /// Writes a function definition.
    fn write_defun(&self, out: &mut Rendering, indent_level: i32)
        requires
            self is Defun,
        ensures
            final(out)@ == old(out)@ + exp_text(self@, indent_level as int),
        decreases self, 4int,
    {
        let ghost start = out@;
        match self {
            Exp::Defun(name, params, body) => {
                out.push_str("function");
                match name {
                    Some(n) => {
                        out.push_str(" ");
                        out.push_str(n.as_str());
                    },
                    None => {},
                }
                out.push_str("(");
                write_names(params, out);
                out.push_str(") {\n");
                write_block(body, deeper_level(indent_level), out);
                out.push_spaces(indent_level);
                out.push_str("}");
                assert(out@ =~= start + exp_text(self@, indent_level as int));
            },
            _ => {},
        }
    }

    /// Writes an object literal.
    fn write_object(&self, out: &mut Rendering, indent_level: i32)
        requires
            self is Object,
        ensures
            final(out)@ == old(out)@ + exp_text(self@, indent_level as int),
        decreases self, 4int,
    {
        let ghost start = out@;
        match self {
            Exp::Object(props) => {
                if props.len() == 0 {
                    assert(props_view(props@) =~= Seq::<(Seq<char>, ExpView)>::empty());
                    out.push_str("{}");
                } else {
                    assert(props_view(props@).len() > 0) by {
                        assert(props_view(props@) == props_view(props@.drop_last()).push(
                            (props@.last().0@, exp_view(*props@.last().1)),
                        ));
                    }
                    out.push_str("{\n");
                    write_props(props, deeper_level(indent_level), out);
                    out.push_str("\n}");
                    assert(out@ =~= start + exp_text(self@, indent_level as int));
                }
            },
            _ => {},
        }
    }

    /// Writes an access to a part of a value.
    fn write_access(&self, out: &mut Rendering, indent_level: i32)
        requires
            self is InstanceVar || self is KeyAccessor,
        ensures
            final(out)@ == old(out)@ + exp_text(self@, indent_level as int),
        decreases self, 4int,
    {
        let ghost start = out@;
        let ghost indent = indent_level as int;
        match self {
            Exp::InstanceVar(o, name) => {
                o.fmt_helper(out, 0);
                out.push_str(".");
                out.push_str(name.as_str());
                assert(out@ =~= start + exp_text(self@, indent));
            },
            Exp::KeyAccessor(o, k) => {
                o.fmt_helper(out, 0);
                out.push_str("[");
                k.fmt_helper(out, 0);
                out.push_str("]");
                assert(out@ =~= start + exp_text(self@, indent));
            },
            _ => {},
        }
    }

    /// Writes the expression at the indentation `indent_level`.
    pub fn fmt_helper(&self, out: &mut Rendering, indent_level: i32)
        ensures
            final(out)@ == old(out)@ + exp_text(self@, indent_level as int),
        decreases self, 5int,
    {
        let ghost start = out@;
        let ghost indent = indent_level as int;
        match self {
            Exp::Array(_) | Exp::Call(_, _) | Exp::NewObject(_, _) => {
                self.write_listed(out, indent_level);
            },
            Exp::BinExp(_, _, _) => {
                self.write_bin_exp(out, indent_level);
            },
            Exp::BitNot(_) | Exp::LogNot(_) | Exp::Neg(_) | Exp::Pos(_) | Exp::PostDec(_)
            | Exp::PostInc(_) | Exp::PreDec(_) | Exp::PreInc(_) | Exp::TypeOf(_) => {
                self.write_unary(out, indent_level);
            },
            Exp::Defun(_, _, _) => {
                self.write_defun(out, indent_level);
            },
            Exp::Object(_) => {
                self.write_object(out, indent_level);
            },
            Exp::InstanceVar(_, _) | Exp::KeyAccessor(_, _) => {
                self.write_access(out, indent_level);
            },
            Exp::Bool(b) => {
                if *b {
                    out.push_str("true");
                } else {
                    out.push_str("false");
                }
            },
            Exp::Float(n) => {
                out.push_number(*n);
            },
            Exp::Null => {
                out.push_str("null");
            },
            Exp::Str(s) => {
                out.push_str("\"");
                out.push_str(s.as_str());
                out.push_str("\"");
                assert(out@ =~= start + exp_text(self@, indent));
            },
            Exp::Undefined => {
                out.push_str("undefined");
            },
            Exp::Var(v) => {
                out.push_str(v.as_str());
            },
        }
    }

    /// The text of the expression.
    pub fn to_rendering(&self) -> (r: Rendering)
        ensures
            r@ == exp_text(self@, 0),
    {
        let mut out = Rendering::new();
        self.fmt_helper(&mut out, 0);
        assert(Seq::<Glyph>::empty() + exp_text(self@, 0) =~= exp_text(self@, 0));
        out
    }
}

impl Stmt {
    /// Writes a statement that is an expression with something before it.
    fn write_simple(&self, out: &mut Rendering, indent_level: i32)
        requires
            self is Assign || self is BareExp || self is Decl || self is Ret || self is Throw,
        ensures
            final(out)@ == old(out)@ + stmt_text(self@, indent_level as int),
        decreases self, 4int,
    {
        let ghost start = out@;
        let ghost indent = indent_level as int;
        match self {
            Stmt::Assign(v, e) => {
                out.push_spaces(indent_level);
                v.fmt_helper(out, 0);
                out.push_str(" = ");
                e.fmt_helper(out, indent_level);
                out.push_str(";\n");
                assert(out@ =~= start + stmt_text(self@, indent));
            },
            Stmt::BareExp(e) => {
                out.push_spaces(indent_level);
                e.fmt_helper(out, indent_level);
                out.push_str(";\n");
                assert(out@ =~= start + stmt_text(self@, indent));
            },
            Stmt::Decl(v, e) => {
                out.push_spaces(indent_level);
                out.push_str("var ");
                out.push_str(v.as_str());
                out.push_str(" = ");
                e.fmt_helper(out, indent_level);
                out.push_str(";\n");
                assert(out@ =~= start + stmt_text(self@, indent));
            },
            Stmt::Ret(e) => {
                out.push_spaces(indent_level);
                out.push_str("return ");
                e.fmt_helper(out, indent_level);
                out.push_str(";\n");
                assert(out@ =~= start + stmt_text(self@, indent));
            },
            Stmt::Throw(e) => {
                out.push_spaces(indent_level);
                out.push_str("throw ");
                e.fmt_helper(out, 0);
                assert(out@ =~= start + stmt_text(self@, indent));
            },
            _ => {},
        }
    }

    /// Writes a conditional.
    fn write_if(&self, out: &mut Rendering, indent_level: i32)
        requires
            self is If,
        ensures
            final(out)@ == old(out)@ + stmt_text(self@, indent_level as int),
        decreases self, 4int,
    {
        let ghost start = out@;
        match self {
            Stmt::If(c, t, e) => {
                let inner = deeper_level(indent_level);
                out.push_spaces(indent_level);
                out.push_str("if (");
                c.fmt_helper(out, inner);
                out.push_str(") {\n\n");
                write_block(t, inner, out);
                if e.len() > 0 {
                    assert(stmts_view(e@).len() > 0) by {
                        assert(stmts_view(e@) == stmts_view(e@.drop_last()).push(
                            stmt_view(e@.last()),
                        ));
                    }
                    write_block(t, inner, out);
                } else {
                    assert(stmts_view(e@) =~= Seq::<StmtView>::empty());
                }
                assert(out@ =~= start + stmt_text(self@, indent_level as int));
            },
            _ => {},
        }
    }

    /// Writes the handler of a `try`, if there is one.
    fn write_catch(v: &String, c: &Vec<Stmt>, out: &mut Rendering, indent_level: i32)
        ensures
            final(out)@ == old(out)@ + catch_text(
                v@,
                stmts_view(c@),
                indent_level as int,
            ),
        decreases c, 1int,
    {
        let ghost start = out@;
        if c.len() > 0 {
            assert(stmts_view(c@).len() > 0) by {
                assert(stmts_view(c@) == stmts_view(c@.drop_last()).push(stmt_view(c@.last())));
            }
            out.push_str(v.as_str());
            out.push_str("catch (");
            out.push_spaces(indent_level);
            out.push_str(") {\n");
            write_block(c, deeper_level(indent_level), out);
            out.push_spaces(indent_level);
            out.push_str("}\n");
            assert(out@ =~= start + catch_text(v@, stmts_view(c@), indent_level as int));
        } else {
            assert(stmts_view(c@) =~= Seq::<StmtView>::empty());
            assert(out@ =~= start + catch_text(v@, stmts_view(c@), indent_level as int));
        }
    }

    /// Writes the closing block of a `try`, if there is one.
    fn write_finally(f: &Vec<Stmt>, out: &mut Rendering, indent_level: i32)
        ensures
            final(out)@ == old(out)@ + finally_text(stmts_view(f@), indent_level as int),
        decreases f, 1int,
    {
        let ghost start = out@;
        if f.len() > 0 {
            assert(stmts_view(f@).len() > 0) by {
                assert(stmts_view(f@) == stmts_view(f@.drop_last()).push(stmt_view(f@.last())));
            }
            out.push_spaces(indent_level);
            out.push_str("finally {\n");
            write_block(f, deeper_level(indent_level), out);
            out.push_spaces(indent_level);
            out.push_str("}\n");
            assert(out@ =~= start + finally_text(stmts_view(f@), indent_level as int));
        } else {
            assert(stmts_view(f@) =~= Seq::<StmtView>::empty());
            assert(out@ =~= start + finally_text(stmts_view(f@), indent_level as int));
        }
    }

    /// Writes a `try`.
    fn write_try(&self, out: &mut Rendering, indent_level: i32)
        requires
            self is Try,
        ensures
            final(out)@ == old(out)@ + stmt_text(self@, indent_level as int),
        decreases self, 4int,
    {
        let ghost start = out@;
        match self {
            Stmt::Try(t, v, c, f) => {
                let ghost indent = indent_level as int;
                let ghost tv = stmts_view(t@);
                let ghost cv = stmts_view(c@);
                let ghost fv = stmts_view(f@);
                out.push_spaces(indent_level);
                out.push_str("try {\n");
                write_block(t, deeper_level(indent_level), out);
                out.push_spaces(indent_level);
                out.push_str("}\n");
                let ghost head = spaces(indent) + chars("try {\n"@) + block_text(tv, deeper(indent))
                    + spaces(indent) + chars("}\n"@);
                assert(out@ =~= start + head);
                Self::write_catch(v, c, out, indent_level);
                Self::write_finally(f, out, indent_level);
                assert(out@ == start + head + catch_text(v@, cv, indent) + finally_text(fv, indent));
                assert(self@ == StmtView::Try(tv, v@, cv, fv));
                assert(stmt_text(self@, indent) == head + catch_text(v@, cv, indent) + finally_text(
                    fv,
                    indent,
                ));
                assert(out@ =~= start + (head + catch_text(v@, cv, indent) + finally_text(
                    fv,
                    indent,
                )));
            },
            _ => {},
        }
    }

    /// Writes a loop.
    fn write_while(&self, out: &mut Rendering, indent_level: i32)
        requires
            self is While,
        ensures
            final(out)@ == old(out)@ + stmt_text(self@, indent_level as int),
        decreases self, 4int,
    {
        let ghost start = out@;
        match self {
            Stmt::While(c, b) => {
                out.push_spaces(indent_level);
                out.push_str("while (");
                c.fmt_helper(out, 0);
                out.push_str(") {\n");
                write_block(b, deeper_level(indent_level), out);
                out.push_spaces(indent_level);
                out.push_str("}\n");
                assert(out@ =~= start + stmt_text(self@, indent_level as int));
            },
            _ => {},
        }
    }

    /// Writes the statement at the indentation `indent_level`.
    pub fn fmt_helper(&self, out: &mut Rendering, indent_level: i32)
        ensures
            final(out)@ == old(out)@ + stmt_text(self@, indent_level as int),
        decreases self, 5int,
    {
        let ghost start = out@;
        let ghost indent = indent_level as int;
        match self {
            Stmt::Assign(_, _) | Stmt::BareExp(_) | Stmt::Decl(_, _) | Stmt::Ret(_) | Stmt::Throw(
                _,
            ) => {
                self.write_simple(out, indent_level);
            },
            Stmt::Break => {
                out.push_str("break;");
            },
            Stmt::Continue => {
                out.push_str("continue;");
            },
            Stmt::Empty => {
                assert(out@ =~= start + stmt_text(self@, indent));
            },
            Stmt::If(_, _, _) => {
                self.write_if(out, indent_level);
            },
            Stmt::Sequence(a, b) => {
                a.fmt_helper(out, indent_level);
                b.fmt_helper(out, indent_level);
                assert(out@ =~= start + stmt_text(self@, indent));
            },
            Stmt::Try(_, _, _, _) => {
                self.write_try(out, indent_level);
            },
            Stmt::VarDecl(v) => {
                out.push_str("var ");
                out.push_str(v.as_str());
                out.push_str(";");
                assert(out@ =~= start + stmt_text(self@, indent));
            },
            Stmt::While(_, _) => {
                self.write_while(out, indent_level);
            },
        }
    }

    /// The text of the statement.
    pub fn to_rendering(&self) -> (r: Rendering)
        ensures
            r@ == stmt_text(self@, 0),
    {
        let mut out = Rendering::new();
        self.fmt_helper(&mut out, 0);
        assert(Seq::<Glyph>::empty() + stmt_text(self@, 0) =~= stmt_text(self@, 0));
        out
    }
}

} // verus!
