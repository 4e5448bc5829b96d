use jsrs_common::ast::BinOp;
use jsrs_common::ast::BinOp::{And, Eql, Ge, Gt, Le, Lt, Minus, Neq, Or, Plus, Slash, Star};
use jsrs_common::ast::Exp;
use jsrs_common::ast::Exp::{BinExp, Bool, Neg, Pos, PostDec, PostInc, PreDec, PreInc, Undefined, Var};
use jsrs_common::ast::Stmt;
use jsrs_common::ast::Stmt::{Assign, BareExp, Decl, Sequence};
use jsrs_common::text::Piece;
use jsrs_common::text::Rendering;
use jsrs_common::types::number::JsNumber;
use std::f64::NAN;

fn join(r: Rendering) -> String {
    let mut s = String::new();
    for piece in r.pieces {
        match piece {
            Piece::Text(t) => s.push_str(&t),
            Piece::Number(n) => s.push_str(&format!("{}", f64::from_bits(n.bits))),
        }
    }
    s
}

fn show_exp(e: &Exp) -> String {
    join(e.to_rendering())
}

fn show_stmt(s: &Stmt) -> String {
    join(s.to_rendering())
}

fn float(x: f64) -> Exp {
    Exp::Float(JsNumber::from_bits(x.to_bits()))
}

fn exp(e1: Exp, o: BinOp, e2: Exp) -> Exp {
    BinExp(Box::new(e1), o, Box::new(e2))
}

fn var(s: &str) -> Exp {
    Var(String::from(s))
}

fn neg_var(s: &str) -> Exp {
    Neg(Box::new(var(s)))
}

fn pos_var(s: &str) -> Exp {
    Pos(Box::new(var(s)))
}

fn pos_float(x: f64) -> Exp {
    Pos(Box::new(float(x)))
}

fn post_dec(e: Exp) -> Exp {
    PostDec(Box::new(e))
}

fn post_inc(e: Exp) -> Exp {
    PostInc(Box::new(e))
}

fn pre_dec(e: Exp) -> Exp {
    PreDec(Box::new(e))
}

fn pre_inc(e: Exp) -> Exp {
    PreInc(Box::new(e))
}

fn assign(v: &str, e: Exp) -> Stmt {
    Assign(var(v), e)
}

fn decl(v: &str, e: Exp) -> Stmt {
    Decl(String::from(v), e)
}

fn seq(s1: Stmt, s2: Stmt) -> Stmt {
    Sequence(Box::new(s1), Box::new(s2))
}

fn format_exp(e1: Exp, o: BinOp, e2: Exp) -> String {
    show_exp(&exp(e1, o, e2))
}

fn format_assign(v: &str, e: Exp) -> String {
    show_stmt(&assign(v, e))
}

fn format_bare_exp(e: Exp) -> String {
    show_stmt(&BareExp(e))
}

fn format_decl(v: &str, e: Exp) -> String {
    show_stmt(&decl(v, e))
}

fn format_seq(s1: Stmt, s2: Stmt) -> String {
    show_stmt(&seq(s1, s2))
}

#[test]
fn constants() {
    // Floating point values specifically chosen so fractional part can be perfectly represented
    // by floating-point numbers.
    assert_eq!("12.25", show_exp(&float(12.25)));
    assert_eq!("-3.5", show_exp(&float(-3.5)));
    assert_eq!("NaN", show_exp(&float(NAN)));
    assert_eq!("undefined", show_exp(&Undefined));
    assert_eq!("false", show_exp(&Bool(false)));
    assert_eq!("true", show_exp(&Bool(true)));
}

#[test]
fn vars() {
    assert_eq!("x", show_exp(&var("x")));
    assert_eq!("X", show_exp(&var("X")));
    assert_eq!("_x", show_exp(&var("_x")));
    assert_eq!("_x2", show_exp(&var("_x2")));
    assert_eq!("xX_", show_exp(&var("xX_")));
    assert_eq!("X_x", show_exp(&var("X_x")));
    assert_eq!("-x", show_exp(&neg_var("x")));
    assert_eq!("+_2", show_exp(&pos_var("_2")));
}

#[test]
fn single_binop_exprs() {
    assert_eq!("-14 * -num", format_exp(float(-14.0), Star, neg_var("num")));
    assert_eq!("+z++ - -10", format_exp(post_inc(pos_var("z")), Minus, float(-10.0)));
    assert_eq!("12.25 + 72", format_exp(float(12.25), Plus, float(72.0)));
    assert_eq!("-3 * 42.5", format_exp(float(-3.0), Star, float(42.5)));
    assert_eq!("22 / x", format_exp(float(22.0), Slash, var("x")));
    assert_eq!("3 - -----y", format_exp(float(3.0), Minus, pre_dec(pre_dec(neg_var("y")))));
    assert_eq!("_L2-- == -55.5", format_exp(post_dec(var("_L2")), Eql, float(-55.5)));
    assert_eq!("+22 != Z", format_exp(pos_float(22.0), Neq, var("Z")));
    assert_eq!("-y > xX", format_exp(neg_var("y"), Gt, var("xX")));
    assert_eq!("39 >= -76.25", format_exp(float(39.0), Ge, float(-76.25)));
    assert_eq!("+++32 < -num--", format_exp(pre_inc(pos_float(32.0)), Lt, post_dec(neg_var("num"))));
    assert_eq!("X_x <= 54.5", format_exp(var("X_x"), Le, float(54.5)));
    assert_eq!("12++ && x_92", format_exp(post_inc(float(12.0)), And, var("x_92")));
    assert_eq!("99 || false", format_exp(float(99.0), Or, Bool(false)));
}

#[test]
fn multi_binop_exprs_no_grouping() {
    assert_eq!("x + 18.5 - 17",
        format_exp(exp(var("x"), Plus, float(18.5)), Minus, float(17.0)));
    assert_eq!("-10 / +num - 17",
        format_exp(exp(float(-10.0), Slash, pos_var("num")), Minus, float(17.0)));
    assert_eq!("-10 * 18.5 + -some_num",
        format_exp(exp(float(-10.0), Star, float(18.5)), Plus, neg_var("some_num")));
    assert_eq!("anotherNumber - _x / 17",
        format_exp(var("anotherNumber"), Minus, exp(var("_x"), Slash, float(17.0))));
    assert_eq!("x <= 32 && y++ == 88.5",
        format_exp(exp(var("x"), Le, float(32.0)), And, exp(post_inc(var("y")), Eql, float(88.5))));
    assert_eq!("17 < +NUMBER---- * -3 + w && false || some_bool",
        format_exp(exp(exp(float(17.0), Lt, exp(exp(post_dec(post_dec(pos_var("NUMBER"))), Star, float(-3.0)), Plus, var("w"))),
            And, Bool(false)), Or, var("some_bool")));
    assert_eq!("_ - 18.5 + x2 * -3.25",
        format_exp(exp(var("_"), Minus, float(18.5)), Plus, exp(var("x2"), Star, float(-3.25))));
    assert_eq!("NUMBER * 18.5 / 17 + ---N_4",
        format_exp(exp(exp(var("NUMBER"), Star, float(18.5)), Slash, float(17.0)), Plus, pre_dec(neg_var("N_4"))));
}

#[test]
fn multi_binop_exprs_with_grouping() {
    assert_eq!("_7 * (e_4_4 + OkDk)",
        format_exp(var("_7"), Star, exp(var("e_4_4"), Plus, var("OkDk"))));
    assert_eq!("(-10 - 18.5) / 17",
        format_exp(exp(float(-10.0), Minus, float(18.5)), Slash, float(17.0)));
    assert_eq!("-10 - (O_k + 17)",
        format_exp(float(-10.0), Minus, exp(var("O_k"), Plus, float(17.0))));
    assert_eq!("-10 / (O_k * 17)",
        format_exp(float(-10.0), Slash, exp(var("O_k"), Star, float(17.0))));
    assert_eq!("+(++(((((a || b) && c) == d) + e) * f))",
        &show_exp(&Pos(Box::new(pre_inc(
            exp(exp(exp(exp(exp(var("a"), Or, var("b")), And, var("c")), Eql, var("d")), Plus, var("e")), Star, var("f")))))));
    assert_eq!("(_Ok - h2o) * 17 / -3.25",
        format_exp(exp(var("_Ok"), Minus, var("h2o")), Star, exp(float(17.0), Slash, float(-3.25))));
    assert_eq!("(-10 + 18.5 - 17) * -3.25",
        format_exp(exp(exp(float(-10.0), Plus, float(18.5)), Minus, float(17.0)), Star, float(-3.25)));
    assert_eq!("(-10 - (18.5 - 17)) / -3.25",
        format_exp(exp(float(-10.0), Minus, exp(float(18.5), Minus, float(17.0))), Slash, float(-3.25)));
}

#[test]
fn assign_stmts() {
    assert_eq!("x = NaN;\n", format_assign("x", float(NAN)));
    assert_eq!("someThing = 8.25 - OTHER;\n",
        format_assign("someThing", exp(float(8.25), Minus, var("OTHER"))));
    assert_eq!("thing2 = r * -51 + 3.5;\n",
        format_assign("thing2", exp(exp(var("r"), Star, float(-51.0)), Plus, float(3.5))));
    assert_eq!("_2 = (-42.5 + undefined) / 7.125;\n",
        format_assign("_2", exp(exp(float(-42.5), Plus, Undefined), Slash, float(7.125))));
}

#[test]
fn bare_exp_stmts() {
    assert_eq!("-3.5;\n", format_bare_exp(float(-3.5)));
    assert_eq!("NaN;\n", format_bare_exp(float(NAN)));
    assert_eq!("x - -10;\n", format_bare_exp(exp(var("x"), Minus, float(-10.0))));
    assert_eq!("-3 * 42.5;\n", format_bare_exp(exp(float(-3.0), Star, float(42.5))));
    assert_eq!("-10 / num - 17;\n",
        format_bare_exp(exp(exp(float(-10.0), Slash, var("num")), Minus, float(17.0))));
    assert_eq!("NUMBER * 18.5 / 17 + N_4;\n",
        format_bare_exp(exp(exp(exp(var("NUMBER"), Star, float(18.5)), Slash, float(17.0)), Plus, var("N_4"))));
    assert_eq!("-10 / (O_k * 17);\n",
        format_bare_exp(exp(float(-10.0), Slash, exp(var("O_k"), Star, float(17.0)))));
    assert_eq!("(-10 - (18.5 - 17)) / -3.25;\n",
        format_bare_exp(exp(exp(float(-10.0), Minus, exp(float(18.5), Minus, float(17.0))), Slash, float(-3.25))));
}

#[test]
fn decl_stmts() {
    assert_eq!("var _Nu4 = 2.25;\n", format_decl("_Nu4", float(2.25)));
    assert_eq!("var nU_M = x * -72;\n", format_decl("nU_M", exp(var("x"), Star, float(-72.0))));
    assert_eq!("var NUM = -34.5 / _l4 + 8;\n",
        format_decl("NUM", exp(exp(float(-34.5), Slash, var("_l4")), Plus, float(8.0))));
    assert_eq!("var eleven = (Y + 3) * -11;\n",
        format_decl("eleven", exp(exp(var("Y"), Plus, float(3.0)), Star, float(-11.0))));
}

#[test]
fn seq_stmts() {
    assert_eq!("someThing = 8.25 - OTHER;\n-3 * 42.5;\n",
        format_seq(assign("someThing", exp(float(8.25), Minus, var("OTHER"))),
            BareExp(exp(float(-3.0), Star, float(42.5)))));
    assert_eq!("-10 / num - 17;\nvar NUM = -34.5 / _l4 + 8;\nthing2 = r * -51 + 3.5;\n", format_seq(
        BareExp(exp(exp(float(-10.0), Slash, var("num")), Minus, float(17.0))), seq(
            decl("NUM", exp(exp(float(-34.5), Slash, var("_l4")), Plus, float(8.0))),
            assign("thing2", exp(exp(var("r"), Star, float(-51.0)), Plus, float(3.5))))));
}
