//! Laws of a module's arenas: what reading a node gives back after adding
//! or changing nodes.
use vstd::prelude::*;

use crate::ast::module::{BodyId, ExprId, FunctionClauseId, GuardSeqId, Module, PatternId};
use crate::ast::nodes::{Body, Expr, FunctionClause, GuardSeq, Pattern};
use crate::ast::traits::NodeId;

verus! {

/// Reading through the identifier that adding a expression returned gives that
/// expression, and every expression that was there before reads back unchanged
/// (`before` and `after` are the module around a call of `add_expr`).
pub proof fn lemma_read_after_add_expr(before: &Module, after: &Module, added: Expr, id: ExprId)
    requires
        after.spec_exprs() == before.spec_exprs().push(added),
        id.index() == before.spec_exprs().len(),
    ensures
        id.in_module(after),
        id.node(after) == added,
        forall|other: ExprId| #[trigger] other.in_module(before) ==> other.in_module(after) && other.node(after)
            == other.node(before),
{
}

/// Reading through an identifier after a change through `expr_mut` gives the
/// new expression for that identifier and the old one for every other
/// (`before` and `after` are the module around the change).
pub proof fn lemma_read_after_change_expr(before: &Module, after: &Module, id: ExprId, changed: Expr)
    requires
        id.in_module(before),
        after.spec_exprs() == before.spec_exprs().update(id.index() as int, changed),
    ensures
        id.in_module(after),
        id.node(after) == changed,
        forall|other: ExprId| #[trigger] other.in_module(before) && other.index() != id.index() ==> other.in_module(after)
            && other.node(after) == other.node(before),
{
}

/// Reading through the identifier that adding a pattern returned gives that
/// pattern, and every pattern that was there before reads back unchanged
/// (`before` and `after` are the module around a call of `add_pattern`).
pub proof fn lemma_read_after_add_pattern(before: &Module, after: &Module, added: Pattern, id: PatternId)
    requires
        after.spec_patterns() == before.spec_patterns().push(added),
        id.index() == before.spec_patterns().len(),
    ensures
        id.in_module(after),
        id.node(after) == added,
        forall|other: PatternId| #[trigger] other.in_module(before) ==> other.in_module(after) && other.node(after)
            == other.node(before),
{
}

/// Reading through an identifier after a change through `pattern_mut` gives the
/// new pattern for that identifier and the old one for every other
/// (`before` and `after` are the module around the change).
pub proof fn lemma_read_after_change_pattern(before: &Module, after: &Module, id: PatternId, changed: Pattern)
    requires
        id.in_module(before),
        after.spec_patterns() == before.spec_patterns().update(id.index() as int, changed),
    ensures
        id.in_module(after),
        id.node(after) == changed,
        forall|other: PatternId| #[trigger] other.in_module(before) && other.index() != id.index() ==> other.in_module(after)
            && other.node(after) == other.node(before),
{
}

/// Reading through the identifier that adding a function clause returned gives that
/// function clause, and every function clause that was there before reads back unchanged
/// (`before` and `after` are the module around a call of `add_function_clause`).
pub proof fn lemma_read_after_add_function_clause(before: &Module, after: &Module, added: FunctionClause, id: FunctionClauseId)
    requires
        after.spec_function_clauses() == before.spec_function_clauses().push(added),
        id.index() == before.spec_function_clauses().len(),
    ensures
        id.in_module(after),
        id.node(after) == added,
        forall|other: FunctionClauseId| #[trigger] other.in_module(before) ==> other.in_module(after) && other.node(after)
            == other.node(before),
{
}

/// Reading through an identifier after a change through `function_clause_mut` gives the
/// new function clause for that identifier and the old one for every other
/// (`before` and `after` are the module around the change).
pub proof fn lemma_read_after_change_function_clause(before: &Module, after: &Module, id: FunctionClauseId, changed: FunctionClause)
    requires
        id.in_module(before),
        after.spec_function_clauses() == before.spec_function_clauses().update(id.index() as int, changed),
    ensures
        id.in_module(after),
        id.node(after) == changed,
        forall|other: FunctionClauseId| #[trigger] other.in_module(before) && other.index() != id.index() ==> other.in_module(after)
            && other.node(after) == other.node(before),
{
}

/// Reading through the identifier that adding a body returned gives that
/// body, and every body that was there before reads back unchanged
/// (`before` and `after` are the module around a call of `add_body`).
pub proof fn lemma_read_after_add_body(before: &Module, after: &Module, added: Body, id: BodyId)
    requires
        after.spec_bodies() == before.spec_bodies().push(added),
        id.index() == before.spec_bodies().len(),
    ensures
        id.in_module(after),
        id.node(after) == added,
        forall|other: BodyId| #[trigger] other.in_module(before) ==> other.in_module(after) && other.node(after)
            == other.node(before),
{
}

/// Reading through an identifier after a change through `body_mut` gives the
/// new body for that identifier and the old one for every other
/// (`before` and `after` are the module around the change).
pub proof fn lemma_read_after_change_body(before: &Module, after: &Module, id: BodyId, changed: Body)
    requires
        id.in_module(before),
        after.spec_bodies() == before.spec_bodies().update(id.index() as int, changed),
    ensures
        id.in_module(after),
        id.node(after) == changed,
        forall|other: BodyId| #[trigger] other.in_module(before) && other.index() != id.index() ==> other.in_module(after)
            && other.node(after) == other.node(before),
{
}

/// Reading through the identifier that adding a guard sequence returned gives that
/// guard sequence, and every guard sequence that was there before reads back unchanged
/// (`before` and `after` are the module around a call of `add_guard_seq`).
pub proof fn lemma_read_after_add_guard_seq(before: &Module, after: &Module, added: GuardSeq, id: GuardSeqId)
    requires
        after.spec_guard_seqs() == before.spec_guard_seqs().push(added),
        id.index() == before.spec_guard_seqs().len(),
    ensures
        id.in_module(after),
        id.node(after) == added,
        forall|other: GuardSeqId| #[trigger] other.in_module(before) ==> other.in_module(after) && other.node(after)
            == other.node(before),
{
}

/// Reading through an identifier after a change through `guard_seq_mut` gives the
/// new guard sequence for that identifier and the old one for every other
/// (`before` and `after` are the module around the change).
pub proof fn lemma_read_after_change_guard_seq(before: &Module, after: &Module, id: GuardSeqId, changed: GuardSeq)
    requires
        id.in_module(before),
        after.spec_guard_seqs() == before.spec_guard_seqs().update(id.index() as int, changed),
    ensures
        id.in_module(after),
        id.node(after) == changed,
        forall|other: GuardSeqId| #[trigger] other.in_module(before) && other.index() != id.index() ==> other.in_module(after)
            && other.node(after) == other.node(before),
{
}

/// `b` holds the elements of `a` at the same places, and possibly more after them.
pub open spec fn seq_extends<T>(a: Seq<T>, b: Seq<T>) -> bool {
    a.len() <= b.len() && forall|i: int| 0 <= i < a.len() ==> #[trigger] b[i] == a[i]
}

/// `after` holds every node of `before` at the same place in the same arena:
/// what any number of additions leaves.
pub open spec fn grows(before: &Module, after: &Module) -> bool {
    &&& seq_extends(before.spec_exprs(), after.spec_exprs())
    &&& seq_extends(before.spec_patterns(), after.spec_patterns())
    &&& seq_extends(before.spec_function_clauses(), after.spec_function_clauses())
    &&& seq_extends(before.spec_bodies(), after.spec_bodies())
    &&& seq_extends(before.spec_guard_seqs(), after.spec_guard_seqs())
}

/// Growth is transitive: a module grown from a module grown from `a` is grown
/// from `a`.
pub proof fn lemma_grows_transitive(a: &Module, b: &Module, c: &Module)
    requires
        grows(a, b),
        grows(b, c),
    ensures
        grows(a, c),
{
}

/// Adding a expression grows the module (`before` and `after` are the module
/// around a call of `add_expr`).
pub proof fn lemma_add_expr_grows(before: &Module, after: &Module, added: Expr)
    requires
        after.spec_exprs() == before.spec_exprs().push(added),
        after.spec_patterns() == before.spec_patterns(),
        after.spec_function_clauses() == before.spec_function_clauses(),
        after.spec_bodies() == before.spec_bodies(),
        after.spec_guard_seqs() == before.spec_guard_seqs(),
    ensures
        grows(before, after),
{
}

/// Reading through an identifier of a expression of `before` in a module grown
/// from it, by any number of additions, gives the same expression.
pub proof fn lemma_read_after_growth_expr(before: &Module, after: &Module, id: ExprId)
    requires
        grows(before, after),
        id.in_module(before),
    ensures
        id.in_module(after),
        id.node(after) == id.node(before),
{
    assert(after.spec_exprs()[id.index() as int] == before.spec_exprs()[id.index() as int]);
}

/// Adding a pattern grows the module (`before` and `after` are the module
/// around a call of `add_pattern`).
pub proof fn lemma_add_pattern_grows(before: &Module, after: &Module, added: Pattern)
    requires
        after.spec_patterns() == before.spec_patterns().push(added),
        after.spec_exprs() == before.spec_exprs(),
        after.spec_function_clauses() == before.spec_function_clauses(),
        after.spec_bodies() == before.spec_bodies(),
        after.spec_guard_seqs() == before.spec_guard_seqs(),
    ensures
        grows(before, after),
{
}

/// Reading through an identifier of a pattern of `before` in a module grown
/// from it, by any number of additions, gives the same pattern.
pub proof fn lemma_read_after_growth_pattern(before: &Module, after: &Module, id: PatternId)
    requires
        grows(before, after),
        id.in_module(before),
    ensures
        id.in_module(after),
        id.node(after) == id.node(before),
{
    assert(after.spec_patterns()[id.index() as int] == before.spec_patterns()[id.index() as int]);
}

/// Adding a function clause grows the module (`before` and `after` are the module
/// around a call of `add_function_clause`).
pub proof fn lemma_add_function_clause_grows(before: &Module, after: &Module, added: FunctionClause)
    requires
        after.spec_function_clauses() == before.spec_function_clauses().push(added),
        after.spec_exprs() == before.spec_exprs(),
        after.spec_patterns() == before.spec_patterns(),
        after.spec_bodies() == before.spec_bodies(),
        after.spec_guard_seqs() == before.spec_guard_seqs(),
    ensures
        grows(before, after),
{
}

/// Reading through an identifier of a function clause of `before` in a module grown
/// from it, by any number of additions, gives the same function clause.
pub proof fn lemma_read_after_growth_function_clause(before: &Module, after: &Module, id: FunctionClauseId)
    requires
        grows(before, after),
        id.in_module(before),
    ensures
        id.in_module(after),
        id.node(after) == id.node(before),
{
    assert(after.spec_function_clauses()[id.index() as int] == before.spec_function_clauses()[id.index() as int]);
}

/// Adding a body grows the module (`before` and `after` are the module
/// around a call of `add_body`).
pub proof fn lemma_add_body_grows(before: &Module, after: &Module, added: Body)
    requires
        after.spec_bodies() == before.spec_bodies().push(added),
        after.spec_exprs() == before.spec_exprs(),
        after.spec_patterns() == before.spec_patterns(),
        after.spec_function_clauses() == before.spec_function_clauses(),
        after.spec_guard_seqs() == before.spec_guard_seqs(),
    ensures
        grows(before, after),
{
}

/// Reading through an identifier of a body of `before` in a module grown
/// from it, by any number of additions, gives the same body.
pub proof fn lemma_read_after_growth_body(before: &Module, after: &Module, id: BodyId)
    requires
        grows(before, after),
        id.in_module(before),
    ensures
        id.in_module(after),
        id.node(after) == id.node(before),
{
    assert(after.spec_bodies()[id.index() as int] == before.spec_bodies()[id.index() as int]);
}

/// Adding a guard sequence grows the module (`before` and `after` are the module
/// around a call of `add_guard_seq`).
pub proof fn lemma_add_guard_seq_grows(before: &Module, after: &Module, added: GuardSeq)
    requires
        after.spec_guard_seqs() == before.spec_guard_seqs().push(added),
        after.spec_exprs() == before.spec_exprs(),
        after.spec_patterns() == before.spec_patterns(),
        after.spec_function_clauses() == before.spec_function_clauses(),
        after.spec_bodies() == before.spec_bodies(),
    ensures
        grows(before, after),
{
}

/// Reading through an identifier of a guard sequence of `before` in a module grown
/// from it, by any number of additions, gives the same guard sequence.
pub proof fn lemma_read_after_growth_guard_seq(before: &Module, after: &Module, id: GuardSeqId)
    requires
        grows(before, after),
        id.in_module(before),
    ensures
        id.in_module(after),
        id.node(after) == id.node(before),
{
    assert(after.spec_guard_seqs()[id.index() as int] == before.spec_guard_seqs()[id.index() as int]);
}

} // verus!
