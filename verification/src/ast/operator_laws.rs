//! Laws of the operators' texts: each operator has a text of its own, and
//! the texts of related operators are built from one another as Erlang
//! writes them.
use vstd::prelude::*;

use crate::ast::module::{ExprId, Module};
use crate::ast::nodes::Expr;
use crate::ast::operators::{BinaryOperator, UnaryOperator};
use crate::ast::print_laws::lemma_fields_differ;
use crate::ast::text_spec::{expr_node_text, expr_text};
use crate::ast::wf::{expr_refs, Ranking};

verus! {

/// Two different binary operators are written differently.
pub proof fn lemma_binary_texts_distinct(a: BinaryOperator, b: BinaryOperator)
    ensures
        a != b ==> a.text() != b.text(),
{
    reveal_strlit("==");
    reveal_strlit("/=");
    reveal_strlit("=<");
    reveal_strlit("<");
    reveal_strlit(">=");
    reveal_strlit(">");
    reveal_strlit("=:=");
    reveal_strlit("=/=");
    reveal_strlit("+");
    reveal_strlit("-");
    reveal_strlit("*");
    reveal_strlit("/");
    reveal_strlit("div");
    reveal_strlit("rem");
    reveal_strlit("band");
    reveal_strlit("bor");
    reveal_strlit("bxor");
    reveal_strlit("bsl");
    reveal_strlit("bsr");
    reveal_strlit("and");
    reveal_strlit("or");
    reveal_strlit("xor");
    reveal_strlit("andalso");
    reveal_strlit("orelse");
    reveal_strlit("++");
    reveal_strlit("--");
    match a {
        BinaryOperator::Eq => {
            if a != b && a.text() == b.text() {
                assert(a.text() =~= seq!['=', '=']);
                assert(b.text().len() == 2);
                assert(b.text()[0] == '=');
            }
        },
        BinaryOperator::NEq => {
            if a != b && a.text() == b.text() {
                assert(a.text() =~= seq!['/', '=']);
                assert(b.text().len() == 2);
                assert(b.text()[0] == '/');
            }
        },
        BinaryOperator::LTE => {
            if a != b && a.text() == b.text() {
                assert(a.text() =~= seq!['=', '<']);
                assert(b.text().len() == 2);
                assert(b.text()[0] == '=');
            }
        },
        BinaryOperator::LT => {
            if a != b && a.text() == b.text() {
                assert(a.text() =~= seq!['<']);
                assert(b.text().len() == 1);
                assert(b.text()[0] == '<');
            }
        },
        BinaryOperator::GTE => {
            if a != b && a.text() == b.text() {
                assert(a.text() =~= seq!['>', '=']);
                assert(b.text().len() == 2);
                assert(b.text()[0] == '>');
            }
        },
        BinaryOperator::GT => {
            if a != b && a.text() == b.text() {
                assert(a.text() =~= seq!['>']);
                assert(b.text().len() == 1);
                assert(b.text()[0] == '>');
            }
        },
        BinaryOperator::ExactlyEq => {
            if a != b && a.text() == b.text() {
                assert(a.text() =~= seq!['=', ':', '=']);
                assert(b.text().len() == 3);
                assert(b.text()[0] == '=');
            }
        },
        BinaryOperator::ExactlyNEq => {
            if a != b && a.text() == b.text() {
                assert(a.text() =~= seq!['=', '/', '=']);
                assert(b.text().len() == 3);
                assert(b.text()[0] == '=');
            }
        },
        BinaryOperator::BinaryPlus => {
            if a != b && a.text() == b.text() {
                assert(a.text() =~= seq!['+']);
                assert(b.text().len() == 1);
                assert(b.text()[0] == '+');
            }
        },
        BinaryOperator::BinaryMinus => {
            if a != b && a.text() == b.text() {
                assert(a.text() =~= seq!['-']);
                assert(b.text().len() == 1);
                assert(b.text()[0] == '-');
            }
        },
        BinaryOperator::Mult => {
            if a != b && a.text() == b.text() {
                assert(a.text() =~= seq!['*']);
                assert(b.text().len() == 1);
                assert(b.text()[0] == '*');
            }
        },
        BinaryOperator::Slash => {
            if a != b && a.text() == b.text() {
                assert(a.text() =~= seq!['/']);
                assert(b.text().len() == 1);
                assert(b.text()[0] == '/');
            }
        },
        BinaryOperator::Div => {
            if a != b && a.text() == b.text() {
                assert(a.text() =~= seq!['d', 'i', 'v']);
                assert(b.text().len() == 3);
                assert(b.text()[0] == 'd');
            }
        },
        BinaryOperator::Rem => {
            if a != b && a.text() == b.text() {
                assert(a.text() =~= seq!['r', 'e', 'm']);
                assert(b.text().len() == 3);
                assert(b.text()[0] == 'r');
            }
        },
        BinaryOperator::BAnd => {
            if a != b && a.text() == b.text() {
                assert(a.text() =~= seq!['b', 'a', 'n', 'd']);
                assert(b.text().len() == 4);
                assert(b.text()[0] == 'b');
            }
        },
        BinaryOperator::BOr => {
            if a != b && a.text() == b.text() {
                assert(a.text() =~= seq!['b', 'o', 'r']);
                assert(b.text().len() == 3);
                assert(b.text()[0] == 'b');
            }
        },
        BinaryOperator::BXor => {
            if a != b && a.text() == b.text() {
                assert(a.text() =~= seq!['b', 'x', 'o', 'r']);
                assert(b.text().len() == 4);
                assert(b.text()[0] == 'b');
            }
        },
        BinaryOperator::BSl => {
            if a != b && a.text() == b.text() {
                assert(a.text() =~= seq!['b', 's', 'l']);
                assert(b.text().len() == 3);
                assert(b.text()[0] == 'b');
            }
        },
        BinaryOperator::BSr => {
            if a != b && a.text() == b.text() {
                assert(a.text() =~= seq!['b', 's', 'r']);
                assert(b.text().len() == 3);
                assert(b.text()[0] == 'b');
            }
        },
        BinaryOperator::And => {
            if a != b && a.text() == b.text() {
                assert(a.text() =~= seq!['a', 'n', 'd']);
                assert(b.text().len() == 3);
                assert(b.text()[0] == 'a');
            }
        },
        BinaryOperator::Or => {
            if a != b && a.text() == b.text() {
                assert(a.text() =~= seq!['o', 'r']);
                assert(b.text().len() == 2);
                assert(b.text()[0] == 'o');
            }
        },
        BinaryOperator::Xor => {
            if a != b && a.text() == b.text() {
                assert(a.text() =~= seq!['x', 'o', 'r']);
                assert(b.text().len() == 3);
                assert(b.text()[0] == 'x');
            }
        },
        BinaryOperator::AndAlso => {
            if a != b && a.text() == b.text() {
                assert(a.text() =~= seq!['a', 'n', 'd', 'a', 'l', 's', 'o']);
                assert(b.text().len() == 7);
                assert(b.text()[0] == 'a');
            }
        },
        BinaryOperator::OrElse => {
            if a != b && a.text() == b.text() {
                assert(a.text() =~= seq!['o', 'r', 'e', 'l', 's', 'e']);
                assert(b.text().len() == 6);
                assert(b.text()[0] == 'o');
            }
        },
        BinaryOperator::PlusPlus => {
            if a != b && a.text() == b.text() {
                assert(a.text() =~= seq!['+', '+']);
                assert(b.text().len() == 2);
                assert(b.text()[0] == '+');
            }
        },
        BinaryOperator::MinusMinus => {
            if a != b && a.text() == b.text() {
                assert(a.text() =~= seq!['-', '-']);
                assert(b.text().len() == 2);
                assert(b.text()[0] == '-');
            }
        },
    }
}

/// Two different unary operators are written differently, and the unary
/// operators that are also binary are written as their binary forms.
pub proof fn lemma_unary_texts(a: UnaryOperator, b: UnaryOperator)
    ensures
        a != b ==> a.text() != b.text(),
        UnaryOperator::UnaryPlus.text() == BinaryOperator::BinaryPlus.text(),
        UnaryOperator::UnaryMinus.text() == BinaryOperator::BinaryMinus.text(),
        UnaryOperator::BitwiseNot.text() == "b"@ + UnaryOperator::BooleanNot.text(),
{
    reveal_strlit("+");
    reveal_strlit("-");
    reveal_strlit("not");
    reveal_strlit("bnot");
    reveal_strlit("b");
    assert("bnot"@ =~= "b"@ + "not"@);
    if a != b && a.text() == b.text() {
        match a {
            UnaryOperator::UnaryPlus => assert(b.text().len() == 1 && b.text()[0] == '+'),
            UnaryOperator::UnaryMinus => assert(b.text().len() == 1 && b.text()[0] == '-'),
            UnaryOperator::BooleanNot => assert(b.text().len() == 3 && b.text()[0] == 'n'),
            UnaryOperator::BitwiseNot => assert(b.text().len() == 4 && b.text()[0] == 'b'),
        }
    }
}

/// The operators that Erlang writes by combining others are written so:
/// the non-strict comparisons add `=` to the strict ones, `/=` and `=/=`
/// build on `/`, `++` and `--` double `+` and `-`, `andalso` and `orelse`
/// extend `and` and `or`, and the bitwise forms put `b` before the boolean
/// ones.
pub proof fn lemma_binary_texts_related()
    ensures
        BinaryOperator::GTE.text() == BinaryOperator::GT.text() + "="@,
        BinaryOperator::LTE.text() == "="@ + BinaryOperator::LT.text(),
        BinaryOperator::Eq.text() == "="@ + "="@,
        BinaryOperator::NEq.text() == BinaryOperator::Slash.text() + "="@,
        BinaryOperator::ExactlyNEq.text() == "="@ + BinaryOperator::Slash.text() + "="@,
        BinaryOperator::ExactlyEq.text() == "=:="@,
        BinaryOperator::PlusPlus.text() == BinaryOperator::BinaryPlus.text() + BinaryOperator::BinaryPlus.text(),
        BinaryOperator::MinusMinus.text() == BinaryOperator::BinaryMinus.text() + BinaryOperator::BinaryMinus.text(),
        BinaryOperator::AndAlso.text() == BinaryOperator::And.text() + "also"@,
        BinaryOperator::OrElse.text() == BinaryOperator::Or.text() + "else"@,
        BinaryOperator::BAnd.text() == "b"@ + BinaryOperator::And.text(),
        BinaryOperator::BOr.text() == "b"@ + BinaryOperator::Or.text(),
        BinaryOperator::BXor.text() == "b"@ + BinaryOperator::Xor.text(),
{
    reveal_strlit("==");
    reveal_strlit("/=");
    reveal_strlit("=<");
    reveal_strlit("<");
    reveal_strlit(">=");
    reveal_strlit(">");
    reveal_strlit("=:=");
    reveal_strlit("=/=");
    reveal_strlit("+");
    reveal_strlit("-");
    reveal_strlit("/");
    reveal_strlit("band");
    reveal_strlit("bor");
    reveal_strlit("bxor");
    reveal_strlit("and");
    reveal_strlit("or");
    reveal_strlit("xor");
    reveal_strlit("andalso");
    reveal_strlit("orelse");
    reveal_strlit("++");
    reveal_strlit("--");
    reveal_strlit("=");
    reveal_strlit("also");
    reveal_strlit("else");
    reveal_strlit("b");
    assert(">="@ =~= ">"@ + "="@);
    assert("=<"@ =~= "="@ + "<"@);
    assert("=="@ =~= "="@ + "="@);
    assert("/="@ =~= "/"@ + "="@);
    assert("=/="@ =~= "="@ + "/"@ + "="@);
    assert("++"@ =~= "+"@ + "+"@);
    assert("--"@ =~= "-"@ + "-"@);
    assert("andalso"@ =~= "and"@ + "also"@);
    assert("orelse"@ =~= "or"@ + "else"@);
    assert("band"@ =~= "b"@ + "and"@);
    assert("bor"@ =~= "b"@ + "or"@);
    assert("bxor"@ =~= "b"@ + "xor"@);
}

/// No operator's text holds a space.
pub proof fn lemma_operator_texts_unspaced(b: BinaryOperator, u: UnaryOperator)
    ensures
        !b.text().contains(' '),
        !u.text().contains(' '),
{
    reveal_strlit("==");
    reveal_strlit("/=");
    reveal_strlit("=<");
    reveal_strlit("<");
    reveal_strlit(">=");
    reveal_strlit(">");
    reveal_strlit("=:=");
    reveal_strlit("=/=");
    reveal_strlit("+");
    reveal_strlit("-");
    reveal_strlit("*");
    reveal_strlit("/");
    reveal_strlit("div");
    reveal_strlit("rem");
    reveal_strlit("band");
    reveal_strlit("bor");
    reveal_strlit("bxor");
    reveal_strlit("bsl");
    reveal_strlit("bsr");
    reveal_strlit("and");
    reveal_strlit("or");
    reveal_strlit("xor");
    reveal_strlit("andalso");
    reveal_strlit("orelse");
    reveal_strlit("++");
    reveal_strlit("--");
    reveal_strlit("not");
    reveal_strlit("bnot");
    assert forall|i: int| 0 <= i < b.text().len() implies b.text()[i] != ' ' by {}
    assert forall|i: int| 0 <= i < u.text().len() implies u.text()[i] != ' ' by {}
}

proof fn lemma_space_first(r: Seq<char>)
    ensures
        (" "@ + r).len() > 0,
        (" "@ + r)[0] == ' ',
{
    reveal_strlit(" ");
}

/// Binary operations on the same operands with different operators are
/// written differently.
pub proof fn lemma_binary_operations_distinct(
    m: &Module,
    rk: Ranking,
    k: nat,
    op1: BinaryOperator,
    op2: BinaryOperator,
    a: ExprId,
    b: ExprId,
)
    requires
        op1 != op2,
        expr_refs(Expr::BinaryOperation(op1, a, b), rk.below(k)),
    ensures
        expr_node_text(m, rk, Expr::BinaryOperation(op1, a, b), k) != expr_node_text(
            m,
            rk,
            Expr::BinaryOperation(op2, a, b),
            k,
        ),
{
    let p = "("@ + expr_text(m, rk, a) + " "@;
    let r = " "@ + (expr_text(m, rk, b) + ")"@);
    let x = expr_node_text(m, rk, Expr::BinaryOperation(op1, a, b), k);
    let y = expr_node_text(m, rk, Expr::BinaryOperation(op2, a, b), k);
    assert(expr_refs(Expr::BinaryOperation(op2, a, b), rk.below(k)));
    assert(x =~= p + op1.text() + r);
    assert(y =~= p + op2.text() + r);
    lemma_binary_texts_distinct(op1, op2);
    lemma_operator_texts_unspaced(op1, UnaryOperator::UnaryPlus);
    lemma_operator_texts_unspaced(op2, UnaryOperator::UnaryPlus);
    lemma_space_first(expr_text(m, rk, b) + ")"@);
    assert forall|i: int| 0 <= i < op1.text().len() implies x[p.len() + i] == #[trigger] op1.text()[i] by {}
    assert forall|i: int| 0 <= i < op2.text().len() implies y[p.len() + i] == #[trigger] op2.text()[i] by {}
    lemma_fields_differ(x, y, Seq::empty(), Seq::empty(), p.len() as int, op1.text(), op2.text(), ' ');
    assert(x + Seq::<char>::empty() =~= x);
    assert(y + Seq::<char>::empty() =~= y);
}

/// Unary operations on the same operand with different operators are
/// written differently.
pub proof fn lemma_unary_operations_distinct(
    m: &Module,
    rk: Ranking,
    k: nat,
    op1: UnaryOperator,
    op2: UnaryOperator,
    a: ExprId,
)
    requires
        op1 != op2,
        expr_refs(Expr::UnaryOperation(op1, a), rk.below(k)),
    ensures
        expr_node_text(m, rk, Expr::UnaryOperation(op1, a), k) != expr_node_text(m, rk, Expr::UnaryOperation(op2, a), k),
{
    let p = "("@;
    let r = " "@ + (expr_text(m, rk, a) + ")"@);
    let x = expr_node_text(m, rk, Expr::UnaryOperation(op1, a), k);
    let y = expr_node_text(m, rk, Expr::UnaryOperation(op2, a), k);
    assert(expr_refs(Expr::UnaryOperation(op2, a), rk.below(k)));
    assert(x =~= p + op1.text() + r);
    assert(y =~= p + op2.text() + r);
    lemma_unary_texts(op1, op2);
    lemma_operator_texts_unspaced(BinaryOperator::Eq, op1);
    lemma_operator_texts_unspaced(BinaryOperator::Eq, op2);
    lemma_space_first(expr_text(m, rk, a) + ")"@);
    assert forall|i: int| 0 <= i < op1.text().len() implies x[p.len() + i] == #[trigger] op1.text()[i] by {}
    assert forall|i: int| 0 <= i < op2.text().len() implies y[p.len() + i] == #[trigger] op2.text()[i] by {}
    lemma_fields_differ(x, y, Seq::empty(), Seq::empty(), p.len() as int, op1.text(), op2.text(), ' ');
}

} // verus!
