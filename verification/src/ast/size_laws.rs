//! Laws of sizes: a node is at least as big as each expression it is built
//! from, and bigger unless it is a unary operation.
use vstd::prelude::*;

use crate::ast::module::{ExprId, Module, PatternId};
use crate::ast::nodes::{Body, Expr, FunctionClause, GuardSeq, Pattern};
use crate::ast::size::{
    body_node_size, body_size, clause_node_size, expr_node_size, expr_size, expr_sizes, guard_node_size, guard_size,
    lemma_sum_prefix, pattern_node_size, pattern_size, pattern_sizes, sum_sizes,
};
use crate::ast::traits::SizedAst;
use crate::ast::wf::{
    body_refs, canonical_ranking, clause_refs, expr_refs, guard_refs, lemma_canonical_ranking, pattern_refs, NodeRef,
    Ranking,
};

verus! {

/// Whether `c` is one of the expressions that `e` is directly built from:
/// an argument, a tuple element, an operand, the expression matched by a
/// `case`, the value of a match, the parts of a map update, or the head or
/// key and value of a comprehension.
pub open spec fn direct_expr_child(e: Expr, c: ExprId) -> bool {
    match e {
        Expr::LocalCall(_, args) => args@.contains(c),
        Expr::RemoteCall(_, _, args) => args@.contains(c),
        Expr::Tuple(es) => es@.contains(c),
        Expr::Catch(x) => x == c,
        Expr::UnaryOperation(_, x) => x == c,
        Expr::BinaryOperation(_, a, b) => a == c || b == c,
        Expr::Case(x, _) => x == c,
        Expr::Assignment(_, x) => x == c,
        Expr::MapInsertion(a, b, d) => a == c || b == c || d == c,
        Expr::MapUpdate(a, b, d) => a == c || b == c || d == c,
        Expr::Comprehension(_, h, _) => h == c,
        Expr::MapComprehension(a, b, _) => a == c || b == c,
        _ => false,
    }
}

/// A sum of sizes is at least each of them.
pub proof fn lemma_sum_at_least(s: Seq<nat>, i: int)
    requires
        0 <= i < s.len(),
    ensures
        s[i] <= sum_sizes(s),
{
    lemma_sum_prefix(s, i);
}

/// The size of an element of a list of expressions is at most the sum of
/// the list's sizes.
proof fn lemma_list_member_size(m: &Module, rk: Ranking, ids: Seq<ExprId>, k: nat, c: ExprId)
    requires
        forall|i: int| 0 <= i < ids.len() ==> rk.below(k)(NodeRef::Expr(#[trigger] ids[i].index())),
        ids.contains(c),
    ensures
        expr_size(m, rk, c) <= sum_sizes(expr_sizes(m, rk, ids, k)),
{
    let i = choose|i: int| 0 <= i < ids.len() && ids[i] == c;
    let s = expr_sizes(m, rk, ids, k);
    assert(s[i] == expr_size(m, rk, ids[i]));
    lemma_sum_at_least(s, i);
}

/// An expression is at least as big as each expression it is directly built
/// from, and bigger unless it is a unary operation.
pub proof fn lemma_size_above_children(m: &Module, rk: Ranking, e: Expr, k: nat, c: ExprId)
    requires
        expr_refs(e, rk.below(k)),
        direct_expr_child(e, c),
    ensures
        expr_size(m, rk, c) <= expr_node_size(m, rk, e, k),
        !(e is UnaryOperation) ==> expr_size(m, rk, c) < expr_node_size(m, rk, e, k),
{
    match e {
        Expr::LocalCall(_, args) => lemma_list_member_size(m, rk, args@, k, c),
        Expr::RemoteCall(_, _, args) => lemma_list_member_size(m, rk, args@, k, c),
        Expr::Tuple(es) => lemma_list_member_size(m, rk, es@, k, c),
        _ => {},
    }
}

/// The same, for the sizes a module gives its expressions: a measurable
/// expression is at least as big as each expression it is directly built
/// from, and bigger unless it is a unary operation.
pub proof fn lemma_measured_size_above_children(m: &Module, e: Expr, c: ExprId)
    requires
        e.measurable(m),
        direct_expr_child(e, c),
    ensures
        c.spec_size(m) <= e.spec_size(m),
        !(e is UnaryOperation) ==> c.spec_size(m) < e.spec_size(m),
{
    lemma_canonical_ranking(m);
    let k = crate::ast::wf::fuel_for(m, |p: spec_fn(NodeRef) -> bool| expr_refs(e, p));
    assert(expr_refs(e, canonical_ranking(m).below(k)));
    lemma_size_above_children(m, canonical_ranking(m), e, k, c);
}

/// The size of an element of a list of patterns is at most the sum of the
/// list's sizes.
proof fn lemma_pattern_list_member_size(m: &Module, rk: Ranking, ids: Seq<PatternId>, k: nat, c: PatternId)
    requires
        forall|i: int| 0 <= i < ids.len() ==> rk.below(k)(NodeRef::Pattern(#[trigger] ids[i].index())),
        ids.contains(c),
    ensures
        pattern_size(m, rk, c) <= sum_sizes(pattern_sizes(m, rk, ids, k)),
{
    let i = choose|i: int| 0 <= i < ids.len() && ids[i] == c;
    let s = pattern_sizes(m, rk, ids, k);
    assert(s[i] == pattern_size(m, rk, ids[i]));
    lemma_sum_at_least(s, i);
}

/// A body, and a guard sequence, are at least as big as each expression in
/// them.
pub proof fn lemma_body_guard_sizes(m: &Module, rk: Ranking, b: Body, g: GuardSeq, k: nat, c: ExprId)
    ensures
        body_refs(b, rk.below(k)) && b.exprs@.contains(c) ==> expr_size(m, rk, c) <= body_node_size(m, rk, b, k),
        guard_refs(g, rk.below(k)) && g.guards@.contains(c) ==> expr_size(m, rk, c) <= guard_node_size(m, rk, g, k),
{
    if body_refs(b, rk.below(k)) && b.exprs@.contains(c) {
        lemma_list_member_size(m, rk, b.exprs@, k, c);
    }
    if guard_refs(g, rk.below(k)) && g.guards@.contains(c) {
        lemma_list_member_size(m, rk, g.guards@, k, c);
    }
}

/// A function clause is bigger than each of its argument patterns, its guard
/// sequence and its body.
pub proof fn lemma_clause_size_above_parts(m: &Module, rk: Ranking, c: FunctionClause, k: nat, q: PatternId)
    requires
        clause_refs(c, rk.below(k)),
    ensures
        c.args@.contains(q) ==> pattern_size(m, rk, q) < clause_node_size(m, rk, c, k),
        guard_size(m, rk, c.guard) < clause_node_size(m, rk, c, k),
        body_size(m, rk, c.body) < clause_node_size(m, rk, c, k),
{
    if c.args@.contains(q) {
        lemma_pattern_list_member_size(m, rk, c.args@, k, q);
    }
}

/// Whether `c` is one of the patterns that `p` is directly built from.
pub open spec fn direct_pattern_child(p: Pattern, c: PatternId) -> bool {
    match p {
        Pattern::EqualPatterns(a, b) => a == c || b == c,
        Pattern::List(a, b) => a == c || b == c,
        Pattern::Tuple(ps) => ps@.contains(c),
        _ => false,
    }
}

/// A pattern is at least as big as each pattern it is directly built from,
/// and bigger unless it is a tuple.
pub proof fn lemma_pattern_size_above_children(m: &Module, rk: Ranking, p: Pattern, k: nat, c: PatternId)
    requires
        pattern_refs(p, rk.below(k)),
        direct_pattern_child(p, c),
    ensures
        pattern_size(m, rk, c) <= pattern_node_size(m, rk, p, k),
        !(p is Tuple) ==> pattern_size(m, rk, c) < pattern_node_size(m, rk, p, k),
{
    match p {
        Pattern::Tuple(ps) => lemma_pattern_list_member_size(m, rk, ps@, k, c),
        _ => {},
    }
}

} // verus!
