//! The size of nodes: roughly, how many nodes a tree holds.
use vstd::prelude::*;

use crate::ast::operators::TypeSpecifier;
use crate::ast::traits::SizedAst;
use crate::ast::module::{BodyId, ExprId, FunctionClauseId, GuardSeqId, Module, PatternId};
use crate::ast::nodes::{
    ASTSize, BitstringElement, BitstringPatternElement, Body, CaseClause, ComprehensionElement, Expr,
    FunctionClause, FunctionDeclaration, GuardSeq, MaybeExpr, Pattern,
};
use crate::ast::wf::{
    canonical_ranking, fuel_for, lemma_canonical_ranking, lemma_ranking_nodes, rankable, ranked_for, Ranking,
};
use crate::ast::wf::{
    bitstring_pattern_refs, bitstring_refs, body_refs, cases_refs, celem_refs, celems_refs,
    clause_refs, declaration_refs, expr_refs, guard_refs, map_pairs_refs, map_pattern_pairs_refs,
    maybe_refs, opt_cases_refs, pattern_refs, size_refs, NodeRef,
};

verus! {

/// The sum of a sequence of sizes.
pub open spec fn sum_sizes(s: Seq<nat>) -> nat
    decreases s.len(),
{
    if s.len() == 0 {
        0
    } else {
        sum_sizes(s.drop_last()) + s.last()
    }
}

/// A prefix sums to no more than the whole, and one more element adds it.
pub proof fn lemma_sum_prefix(s: Seq<nat>, i: int)
    requires
        0 <= i < s.len(),
    ensures
        sum_sizes(s.take(i + 1)) == sum_sizes(s.take(i)) + s[i],
        sum_sizes(s.take(i + 1)) <= sum_sizes(s),
    decreases s.len(),
{
    assert(s.take(i + 1).drop_last() =~= s.take(i));
    if i + 1 < s.len() {
        lemma_sum_prefix(s.drop_last(), i);
        assert(s.drop_last().take(i + 1) =~= s.take(i + 1));
        assert(s.drop_last().take(i) =~= s.take(i));
    } else {
        assert(s.take(i + 1) =~= s);
    }
}

/// The sum of the first elements of a sequence, all of it when it is whole.
pub proof fn lemma_sum_whole(s: Seq<nat>)
    ensures
        sum_sizes(s.take(s.len() as int)) == sum_sizes(s),
        sum_sizes(s.take(0)) == 0,
{
    assert(s.take(s.len() as int) =~= s);
}

/// The size of the expr `id` refers to.
pub open spec fn expr_size(m: &Module, rk: Ranking, id: ExprId) -> nat
    decreases rk.rank_of(NodeRef::Expr(id.index())), 2nat, 0nat,
{
    if id.index() < m.spec_exprs().len() {
        expr_node_size(m, rk, m.spec_exprs()[id.index() as int], rk.rank_of(NodeRef::Expr(id.index())))
    } else {
        0
    }
}

/// The size of the pattern `id` refers to.
pub open spec fn pattern_size(m: &Module, rk: Ranking, id: PatternId) -> nat
    decreases rk.rank_of(NodeRef::Pattern(id.index())), 2nat, 0nat,
{
    if id.index() < m.spec_patterns().len() {
        pattern_node_size(m, rk, m.spec_patterns()[id.index() as int], rk.rank_of(NodeRef::Pattern(id.index())))
    } else {
        0
    }
}

/// The size of the body `id` refers to.
pub open spec fn body_size(m: &Module, rk: Ranking, id: BodyId) -> nat
    decreases rk.rank_of(NodeRef::Body(id.index())), 2nat, 0nat,
{
    if id.index() < m.spec_bodies().len() {
        body_node_size(m, rk, m.spec_bodies()[id.index() as int], rk.rank_of(NodeRef::Body(id.index())))
    } else {
        0
    }
}

/// The size of the guard `id` refers to.
pub open spec fn guard_size(m: &Module, rk: Ranking, id: GuardSeqId) -> nat
    decreases rk.rank_of(NodeRef::Guard(id.index())), 2nat, 0nat,
{
    if id.index() < m.spec_guard_seqs().len() {
        guard_node_size(m, rk, m.spec_guard_seqs()[id.index() as int], rk.rank_of(NodeRef::Guard(id.index())))
    } else {
        0
    }
}

/// The size of the clause `id` refers to.
pub open spec fn clause_size(m: &Module, rk: Ranking, id: FunctionClauseId) -> nat
    decreases rk.rank_of(NodeRef::Clause(id.index())), 2nat, 0nat,
{
    if id.index() < m.spec_function_clauses().len() {
        clause_node_size(m, rk, m.spec_function_clauses()[id.index() as int], rk.rank_of(NodeRef::Clause(id.index())))
    } else {
        0
    }
}

/// The sizes of the nodes `ids` refer to.
pub open spec fn expr_sizes(m: &Module, rk: Ranking, ids: Seq<ExprId>, k: nat) -> Seq<nat>
    decreases k, 0nat, 1nat,
{
    if forall|i: int| 0 <= i < ids.len() ==> rk.below(k)(NodeRef::Expr(#[trigger] ids[i].index())) {
        Seq::new(
            ids.len(),
            |i: int|
                if 0 <= i < ids.len() {
                    expr_size(m, rk, ids[i])
                } else {
                    0
                },
        )
    } else {
        Seq::empty()
    }
}

/// The sizes of the nodes `ids` refer to.
pub open spec fn pattern_sizes(m: &Module, rk: Ranking, ids: Seq<PatternId>, k: nat) -> Seq<nat>
    decreases k, 0nat, 1nat,
{
    if forall|i: int| 0 <= i < ids.len() ==> rk.below(k)(NodeRef::Pattern(#[trigger] ids[i].index())) {
        Seq::new(
            ids.len(),
            |i: int|
                if 0 <= i < ids.len() {
                    pattern_size(m, rk, ids[i])
                } else {
                    0
                },
        )
    } else {
        Seq::empty()
    }
}

/// The sizes of the nodes `ids` refer to.
pub open spec fn clause_sizes(m: &Module, rk: Ranking, ids: Seq<FunctionClauseId>, k: nat) -> Seq<nat>
    decreases k, 0nat, 1nat,
{
    if forall|i: int| 0 <= i < ids.len() ==> rk.below(k)(NodeRef::Clause(#[trigger] ids[i].index())) {
        Seq::new(
            ids.len(),
            |i: int|
                if 0 <= i < ids.len() {
                    clause_size(m, rk, ids[i])
                } else {
                    0
                },
        )
    } else {
        Seq::empty()
    }
}

/// The size of a clause of a `case`, `try` or `maybe`: its pattern, guard and body.
pub open spec fn case_size(m: &Module, rk: Ranking, c: CaseClause, k: nat) -> nat
    decreases k, 0nat, 0nat,
{
    if rk.below(k)(NodeRef::Pattern(c.0.index())) && rk.below(k)(NodeRef::Guard(c.1.index())) && rk.below(k)(NodeRef::Body(c.2.index())) {
        pattern_size(m, rk, c.0) + guard_size(m, rk, c.1) + body_size(m, rk, c.2)
    } else {
        0
    }
}

/// The sizes of a sequence of cases.
pub open spec fn case_sizes(m: &Module, rk: Ranking, items: Seq<CaseClause>, k: nat) -> Seq<nat>
    decreases k, 0nat, 1nat,
{
    Seq::new(
        items.len(),
        |i: int|
            if 0 <= i < items.len() {
                case_size(m, rk, items[i], k)
            } else {
                0
            },
    )
}

/// The size of optional case clauses: nothing when absent.
pub open spec fn opt_cases_size(m: &Module, rk: Ranking, o: Option<Vec<CaseClause>>, k: nat) -> nat
    decreases k, 0nat, 2nat,
{
    match o {
        Some(cs) => sum_sizes(case_sizes(m, rk, cs@, k)),
        None => 0,
    }
}

/// The size of an association of a map literal: key and value.
pub open spec fn map_pair_size(m: &Module, rk: Ranking, kv: (ExprId, ExprId), k: nat) -> nat
    decreases k, 0nat, 0nat,
{
    if rk.below(k)(NodeRef::Expr(kv.0.index())) && rk.below(k)(NodeRef::Expr(kv.1.index())) {
        expr_size(m, rk, kv.0) + expr_size(m, rk, kv.1)
    } else {
        0
    }
}

/// The sizes of a sequence of map pairs.
pub open spec fn map_pair_sizes(m: &Module, rk: Ranking, items: Seq<(ExprId, ExprId)>, k: nat) -> Seq<nat>
    decreases k, 0nat, 1nat,
{
    Seq::new(
        items.len(),
        |i: int|
            if 0 <= i < items.len() {
                map_pair_size(m, rk, items[i], k)
            } else {
                0
            },
    )
}

/// The size of an optional expression: nothing when absent.
pub open spec fn opt_expr_size(m: &Module, rk: Ranking, o: Option<ExprId>, k: nat) -> nat
    decreases k, 0nat, 0nat,
{
    match o {
        Some(e) => if rk.below(k)(NodeRef::Expr(e.index())) {
            expr_size(m, rk, e)
        } else {
            0
        },
        None => 0,
    }
}

/// The size of a segment of a bitstring construction: value, size and type.
pub open spec fn bitstring_elem_size(m: &Module, rk: Ranking, el: BitstringElement, k: nat) -> nat
    decreases k, 0nat, 1nat,
{
    if rk.below(k)(NodeRef::Expr(el.0.index())) {
        expr_size(m, rk, el.0) + opt_expr_size(m, rk, el.1, k) + el.2.node_count()
    } else {
        0
    }
}

/// The sizes of a sequence of bitstring elems.
pub open spec fn bitstring_elem_sizes(m: &Module, rk: Ranking, items: Seq<BitstringElement>, k: nat) -> Seq<nat>
    decreases k, 0nat, 2nat,
{
    Seq::new(
        items.len(),
        |i: int|
            if 0 <= i < items.len() {
                bitstring_elem_size(m, rk, items[i], k)
            } else {
                0
            },
    )
}

/// The size of a segment of a bitstring pattern: pattern, size and type.
pub open spec fn bitstring_pattern_elem_size(m: &Module, rk: Ranking, el: BitstringPatternElement, k: nat) -> nat
    decreases k, 0nat, 1nat,
{
    if rk.below(k)(NodeRef::Pattern(el.0.index())) {
        pattern_size(m, rk, el.0) + opt_expr_size(m, rk, el.1, k) + el.2.node_count()
    } else {
        0
    }
}

/// The sizes of a sequence of bitstring pattern elems.
pub open spec fn bitstring_pattern_elem_sizes(m: &Module, rk: Ranking, items: Seq<BitstringPatternElement>, k: nat) -> Seq<nat>
    decreases k, 0nat, 2nat,
{
    Seq::new(
        items.len(),
        |i: int|
            if 0 <= i < items.len() {
                bitstring_pattern_elem_size(m, rk, items[i], k)
            } else {
                0
            },
    )
}

/// The size of an association of a map pattern: key and pattern.
pub open spec fn map_pattern_pair_size(m: &Module, rk: Ranking, kv: (ExprId, PatternId), k: nat) -> nat
    decreases k, 0nat, 0nat,
{
    if rk.below(k)(NodeRef::Expr(kv.0.index())) && rk.below(k)(NodeRef::Pattern(kv.1.index())) {
        expr_size(m, rk, kv.0) + pattern_size(m, rk, kv.1)
    } else {
        0
    }
}

/// The sizes of a sequence of map pattern pairs.
pub open spec fn map_pattern_pair_sizes(m: &Module, rk: Ranking, items: Seq<(ExprId, PatternId)>, k: nat) -> Seq<nat>
    decreases k, 0nat, 1nat,
{
    Seq::new(
        items.len(),
        |i: int|
            if 0 <= i < items.len() {
                map_pattern_pair_size(m, rk, items[i], k)
            } else {
                0
            },
    )
}

/// The size of a generator (one more than its parts) or of a filter (its
/// expression's size).
pub open spec fn celem_size(m: &Module, rk: Ranking, ce: ComprehensionElement, k: nat) -> nat
    decreases k, 0nat, 0nat,
{
    if celem_refs(ce, rk.below(k)) {
        match ce {
            ComprehensionElement::ListGenerator(p, e) => 1 + pattern_size(m, rk, p) + expr_size(m, rk, e),
            ComprehensionElement::BitstringGenerator(p, e) => 1 + pattern_size(m, rk, p) + expr_size(m, rk, e),
            ComprehensionElement::MapGenerator(kp, vp, e) => 1 + pattern_size(m, rk, kp) + pattern_size(m, rk, vp)
                + expr_size(m, rk, e),
            ComprehensionElement::Filter(e) => expr_size(m, rk, e),
        }
    } else {
        0
    }
}

/// The sizes of a sequence of celems.
pub open spec fn celem_sizes(m: &Module, rk: Ranking, items: Seq<ComprehensionElement>, k: nat) -> Seq<nat>
    decreases k, 0nat, 1nat,
{
    Seq::new(
        items.len(),
        |i: int|
            if 0 <= i < items.len() {
                celem_size(m, rk, items[i], k)
            } else {
                0
            },
    )
}

/// The size of an expression of a `maybe` block.
pub open spec fn maybe_size(m: &Module, rk: Ranking, me: MaybeExpr, k: nat) -> nat
    decreases k, 0nat, 0nat,
{
    if maybe_refs(me, rk.below(k)) {
        match me {
            MaybeExpr::MaybeAssignment(p, e) => 1 + pattern_size(m, rk, p) + expr_size(m, rk, e),
            MaybeExpr::Normal(e) => expr_size(m, rk, e),
        }
    } else {
        0
    }
}

/// The sizes of a sequence of maybes.
pub open spec fn maybe_sizes(m: &Module, rk: Ranking, items: Seq<MaybeExpr>, k: nat) -> Seq<nat>
    decreases k, 0nat, 1nat,
{
    Seq::new(
        items.len(),
        |i: int|
            if 0 <= i < items.len() {
                maybe_size(m, rk, items[i], k)
            } else {
                0
            },
    )
}

/// The size of an optional body: nothing when absent.
pub open spec fn opt_body_size(m: &Module, rk: Ranking, o: Option<BodyId>, k: nat) -> nat
    decreases k, 0nat, 0nat,
{
    match o {
        Some(b) => if rk.below(k)(NodeRef::Body(b.index())) {
            body_size(m, rk, b)
        } else {
            0
        },
        None => 0,
    }
}

/// The size of an expression whose references rank below `k`: one more than
/// the sizes of its parts, except that a unary operation counts as its
/// operand and a leaf counts one.
pub open spec fn expr_node_size(m: &Module, rk: Ranking, e: Expr, k: nat) -> nat
    decreases k, 1nat, 0nat,
{
    if expr_refs(e, rk.below(k)) {
        match e {
            Expr::LocalCall(_, args) => 1 + sum_sizes(expr_sizes(m, rk, args@, k)),
            Expr::RemoteCall(_, _, args) => 1 + sum_sizes(expr_sizes(m, rk, args@, k)),
            Expr::Tuple(es) => 1 + sum_sizes(expr_sizes(m, rk, es@, k)),
            Expr::Catch(e1) => 1 + expr_size(m, rk, e1),
            Expr::BinaryOperation(_, e1, e2) => 1 + expr_size(m, rk, e1) + expr_size(m, rk, e2),
            Expr::UnaryOperation(_, e1) => expr_size(m, rk, e1),
            Expr::Case(e1, cases) => 1 + expr_size(m, rk, e1) + sum_sizes(case_sizes(m, rk, cases@, k)),
            Expr::Assignment(p, e1) => 1 + pattern_size(m, rk, p) + expr_size(m, rk, e1),
            Expr::MapLiteral(pairs) => 1 + sum_sizes(map_pair_sizes(m, rk, pairs@, k)),
            Expr::MapInsertion(map, key, v) => 1 + expr_size(m, rk, map) + expr_size(m, rk, key) + expr_size(m, rk, v),
            Expr::MapUpdate(map, key, v) => 1 + expr_size(m, rk, map) + expr_size(m, rk, key) + expr_size(m, rk, v),
            Expr::BitstringConstruction(els) => 1 + sum_sizes(bitstring_elem_sizes(m, rk, els@, k)),
            Expr::Comprehension(_, head, els) => 1 + expr_size(m, rk, head) + sum_sizes(celem_sizes(m, rk, els@, k)),
            Expr::MapComprehension(key, v, els) => 1 + expr_size(m, rk, key) + expr_size(m, rk, v) + sum_sizes(
                celem_sizes(m, rk, els@, k),
            ),
            Expr::Fun(_, clauses) => 1 + sum_sizes(clause_sizes(m, rk, clauses@, k)),
            Expr::Try(b, of, catch, after) => 1 + body_size(m, rk, b) + opt_cases_size(m, rk, of, k) + opt_cases_size(
                m,
                rk,
                catch,
                k,
            ) + opt_body_size(m, rk, after, k),
            Expr::Maybe(es, otherwise) => 1 + sum_sizes(maybe_sizes(m, rk, es@, k)) + opt_cases_size(
                m,
                rk,
                otherwise,
                k,
            ),
            Expr::Block(b) => 1 + body_size(m, rk, b),
            Expr::Var(_) | Expr::Nil() | Expr::Atom(_) | Expr::Integer(_) | Expr::Float(_) | Expr::String(
                _,
            ) => 1,
        }
    } else {
        0
    }
}

/// The size of a pattern whose references rank below `k`: one more than the
/// sizes of its parts, except that a tuple counts its elements only and a
/// leaf counts one.
pub open spec fn pattern_node_size(m: &Module, rk: Ranking, p: Pattern, k: nat) -> nat
    decreases k, 1nat, 0nat,
{
    if pattern_refs(p, rk.below(k)) {
        match p {
            Pattern::EqualPatterns(p1, p2) => 1 + pattern_size(m, rk, p1) + pattern_size(m, rk, p2),
            Pattern::Tuple(ps) => sum_sizes(pattern_sizes(m, rk, ps@, k)),
            Pattern::List(h, t) => 1 + pattern_size(m, rk, h) + pattern_size(m, rk, t),
            Pattern::Bitstring(els) => 1 + sum_sizes(bitstring_pattern_elem_sizes(m, rk, els@, k)),
            Pattern::MapPattern(pairs) => 1 + sum_sizes(map_pattern_pair_sizes(m, rk, pairs@, k)),
            Pattern::Nil() | Pattern::Atom(_) | Pattern::Integer(_) | Pattern::Underscore()
            | Pattern::NamedVar(_) => 1,
        }
    } else {
        0
    }
}

/// The size of a body: the sum of its expressions' sizes.
pub open spec fn body_node_size(m: &Module, rk: Ranking, b: Body, k: nat) -> nat
    decreases k, 1nat, 0nat,
{
    sum_sizes(expr_sizes(m, rk, b.exprs@, k))
}

/// The size of a guard sequence: the sum of its guards' sizes.
pub open spec fn guard_node_size(m: &Module, rk: Ranking, g: GuardSeq, k: nat) -> nat
    decreases k, 1nat, 0nat,
{
    sum_sizes(expr_sizes(m, rk, g.guards@, k))
}

/// The size of a function clause: one more than its arguments, guard and body.
pub open spec fn clause_node_size(m: &Module, rk: Ranking, c: FunctionClause, k: nat) -> nat
    decreases k, 1nat, 0nat,
{
    if clause_refs(c, rk.below(k)) {
        1 + sum_sizes(pattern_sizes(m, rk, c.args@, k)) + guard_size(m, rk, c.guard) + body_size(m, rk, c.body)
    } else {
        0
    }
}

/// The size of a function declaration: the sum of its clauses' sizes.
pub open spec fn declaration_size(m: &Module, rk: Ranking, d: FunctionDeclaration, k: nat) -> nat {
    sum_sizes(clause_sizes(m, rk, d.clauses@, k))
}

/// The size of the expr `id` refers to.
fn size_expr_id(id: ExprId, m: &Module, Ghost(rk): Ghost<Ranking>) -> (r: usize)
    requires
        rk.valid(m),
        rk.contains(NodeRef::Expr(id.index())),
        expr_size(m, rk, id) <= usize::MAX,
    ensures
        r == expr_size(m, rk, id),
    decreases rk.rank_of(NodeRef::Expr(id.index())), 2nat, 0nat,
{
    proof {
        lemma_ranking_nodes(m, rk);
    }
    let x = m.expr(id);
    size_expr_node(x, m, Ghost(rk.rank_of(NodeRef::Expr(id.index()))), Ghost(rk))
}

/// The size of the pattern `id` refers to.
fn size_pattern_id(id: PatternId, m: &Module, Ghost(rk): Ghost<Ranking>) -> (r: usize)
    requires
        rk.valid(m),
        rk.contains(NodeRef::Pattern(id.index())),
        pattern_size(m, rk, id) <= usize::MAX,
    ensures
        r == pattern_size(m, rk, id),
    decreases rk.rank_of(NodeRef::Pattern(id.index())), 2nat, 0nat,
{
    proof {
        lemma_ranking_nodes(m, rk);
    }
    let x = m.pattern(id);
    size_pattern_node(x, m, Ghost(rk.rank_of(NodeRef::Pattern(id.index()))), Ghost(rk))
}

/// The size of the body `id` refers to.
fn size_body_id(id: BodyId, m: &Module, Ghost(rk): Ghost<Ranking>) -> (r: usize)
    requires
        rk.valid(m),
        rk.contains(NodeRef::Body(id.index())),
        body_size(m, rk, id) <= usize::MAX,
    ensures
        r == body_size(m, rk, id),
    decreases rk.rank_of(NodeRef::Body(id.index())), 2nat, 0nat,
{
    proof {
        lemma_ranking_nodes(m, rk);
    }
    let x = m.body(id);
    size_body_node(x, m, Ghost(rk.rank_of(NodeRef::Body(id.index()))), Ghost(rk))
}

/// The size of the guard `id` refers to.
fn size_guard_id(id: GuardSeqId, m: &Module, Ghost(rk): Ghost<Ranking>) -> (r: usize)
    requires
        rk.valid(m),
        rk.contains(NodeRef::Guard(id.index())),
        guard_size(m, rk, id) <= usize::MAX,
    ensures
        r == guard_size(m, rk, id),
    decreases rk.rank_of(NodeRef::Guard(id.index())), 2nat, 0nat,
{
    proof {
        lemma_ranking_nodes(m, rk);
    }
    let x = m.guard_seq(id);
    size_guard_node(x, m, Ghost(rk.rank_of(NodeRef::Guard(id.index()))), Ghost(rk))
}

/// The size of the clause `id` refers to.
fn size_clause_id(id: FunctionClauseId, m: &Module, Ghost(rk): Ghost<Ranking>) -> (r: usize)
    requires
        rk.valid(m),
        rk.contains(NodeRef::Clause(id.index())),
        clause_size(m, rk, id) <= usize::MAX,
    ensures
        r == clause_size(m, rk, id),
    decreases rk.rank_of(NodeRef::Clause(id.index())), 2nat, 0nat,
{
    proof {
        lemma_ranking_nodes(m, rk);
    }
    let x = m.function_clause(id);
    size_clause_node(x, m, Ghost(rk.rank_of(NodeRef::Clause(id.index()))), Ghost(rk))
}

/// The sum of the sizes of `items`.
fn size_expr_ids(items: &Vec<ExprId>, m: &Module, Ghost(k): Ghost<nat>, Ghost(rk): Ghost<Ranking>) -> (r: usize)
    requires
        rk.valid(m),
        forall|i: int| 0 <= i < items@.len() ==> rk.below(k)(NodeRef::Expr(#[trigger] items@[i].index())),
        sum_sizes(expr_sizes(m, rk, items@, k)) <= usize::MAX,
    ensures
        r == sum_sizes(expr_sizes(m, rk, items@, k)),
    decreases k, 0nat, 1nat,
{
    let ghost sizes = expr_sizes(m, rk, items@, k);
    proof {
        lemma_sum_whole(sizes);
    }
    let mut total: usize = 0;
    let n = items.len();
    for i in 0..n
        invariant
            n == items@.len(),
            rk.valid(m),
            forall|j: int| 0 <= j < items@.len() ==> rk.below(k)(NodeRef::Expr(#[trigger] items@[j].index())),
            sizes == expr_sizes(m, rk, items@, k),
            sizes.len() == n,
            sum_sizes(sizes) <= usize::MAX,
            total == sum_sizes(sizes.take(i as int)),
    {
        proof {
            lemma_sum_prefix(sizes, i as int);
            assert(rk.below(k)(NodeRef::Expr(items@[i as int].index())));
        }
        let s = size_expr_id(items[i], m, Ghost(rk));
        total = total + s;
    }
    proof {
        lemma_sum_whole(sizes);
    }
    total
}

/// The sum of the sizes of `items`.
fn size_pattern_ids(items: &Vec<PatternId>, m: &Module, Ghost(k): Ghost<nat>, Ghost(rk): Ghost<Ranking>) -> (r: usize)
    requires
        rk.valid(m),
        forall|i: int| 0 <= i < items@.len() ==> rk.below(k)(NodeRef::Pattern(#[trigger] items@[i].index())),
        sum_sizes(pattern_sizes(m, rk, items@, k)) <= usize::MAX,
    ensures
        r == sum_sizes(pattern_sizes(m, rk, items@, k)),
    decreases k, 0nat, 1nat,
{
    let ghost sizes = pattern_sizes(m, rk, items@, k);
    proof {
        lemma_sum_whole(sizes);
    }
    let mut total: usize = 0;
    let n = items.len();
    for i in 0..n
        invariant
            n == items@.len(),
            rk.valid(m),
            forall|j: int| 0 <= j < items@.len() ==> rk.below(k)(NodeRef::Pattern(#[trigger] items@[j].index())),
            sizes == pattern_sizes(m, rk, items@, k),
            sizes.len() == n,
            sum_sizes(sizes) <= usize::MAX,
            total == sum_sizes(sizes.take(i as int)),
    {
        proof {
            lemma_sum_prefix(sizes, i as int);
            assert(rk.below(k)(NodeRef::Pattern(items@[i as int].index())));
        }
        let s = size_pattern_id(items[i], m, Ghost(rk));
        total = total + s;
    }
    proof {
        lemma_sum_whole(sizes);
    }
    total
}

/// The sum of the sizes of `items`.
fn size_clause_ids(items: &Vec<FunctionClauseId>, m: &Module, Ghost(k): Ghost<nat>, Ghost(rk): Ghost<Ranking>) -> (r: usize)
    requires
        rk.valid(m),
        forall|i: int| 0 <= i < items@.len() ==> rk.below(k)(NodeRef::Clause(#[trigger] items@[i].index())),
        sum_sizes(clause_sizes(m, rk, items@, k)) <= usize::MAX,
    ensures
        r == sum_sizes(clause_sizes(m, rk, items@, k)),
    decreases k, 0nat, 1nat,
{
    let ghost sizes = clause_sizes(m, rk, items@, k);
    proof {
        lemma_sum_whole(sizes);
    }
    let mut total: usize = 0;
    let n = items.len();
    for i in 0..n
        invariant
            n == items@.len(),
            rk.valid(m),
            forall|j: int| 0 <= j < items@.len() ==> rk.below(k)(NodeRef::Clause(#[trigger] items@[j].index())),
            sizes == clause_sizes(m, rk, items@, k),
            sizes.len() == n,
            sum_sizes(sizes) <= usize::MAX,
            total == sum_sizes(sizes.take(i as int)),
    {
        proof {
            lemma_sum_prefix(sizes, i as int);
            assert(rk.below(k)(NodeRef::Clause(items@[i as int].index())));
        }
        let s = size_clause_id(items[i], m, Ghost(rk));
        total = total + s;
    }
    proof {
        lemma_sum_whole(sizes);
    }
    total
}

/// The sum of the sizes of `items`.
fn size_cases(items: &Vec<CaseClause>, m: &Module, Ghost(k): Ghost<nat>, Ghost(rk): Ghost<Ranking>) -> (r: usize)
    requires
        rk.valid(m),
        cases_refs(items@, rk.below(k)),
        sum_sizes(case_sizes(m, rk, items@, k)) <= usize::MAX,
    ensures
        r == sum_sizes(case_sizes(m, rk, items@, k)),
    decreases k, 0nat, 1nat,
{
    let ghost sizes = case_sizes(m, rk, items@, k);
    proof {
        lemma_sum_whole(sizes);
    }
    let mut total: usize = 0;
    let n = items.len();
    for i in 0..n
        invariant
            n == items@.len(),
            rk.valid(m),
            cases_refs(items@, rk.below(k)),
            sizes == case_sizes(m, rk, items@, k),
            sizes.len() == n,
            sum_sizes(sizes) <= usize::MAX,
            total == sum_sizes(sizes.take(i as int)),
    {
        proof {
            lemma_sum_prefix(sizes, i as int);
            assert(rk.below(k)(NodeRef::Pattern(items@[i as int].0.index())));
        }
        let s = size_case(&items[i], m, Ghost(k), Ghost(rk));
        total = total + s;
    }
    proof {
        lemma_sum_whole(sizes);
    }
    total
}

/// The sum of the sizes of `items`.
fn size_map_pairs(items: &Vec<(ExprId, ExprId)>, m: &Module, Ghost(k): Ghost<nat>, Ghost(rk): Ghost<Ranking>) -> (r: usize)
    requires
        rk.valid(m),
        map_pairs_refs(items@, rk.below(k)),
        sum_sizes(map_pair_sizes(m, rk, items@, k)) <= usize::MAX,
    ensures
        r == sum_sizes(map_pair_sizes(m, rk, items@, k)),
    decreases k, 0nat, 1nat,
{
    let ghost sizes = map_pair_sizes(m, rk, items@, k);
    proof {
        lemma_sum_whole(sizes);
    }
    let mut total: usize = 0;
    let n = items.len();
    for i in 0..n
        invariant
            n == items@.len(),
            rk.valid(m),
            map_pairs_refs(items@, rk.below(k)),
            sizes == map_pair_sizes(m, rk, items@, k),
            sizes.len() == n,
            sum_sizes(sizes) <= usize::MAX,
            total == sum_sizes(sizes.take(i as int)),
    {
        proof {
            lemma_sum_prefix(sizes, i as int);
            assert(rk.below(k)(NodeRef::Expr(items@[i as int].0.index())));
        }
        let s = size_map_pair(&items[i], m, Ghost(k), Ghost(rk));
        total = total + s;
    }
    proof {
        lemma_sum_whole(sizes);
    }
    total
}

/// The sum of the sizes of `items`.
fn size_bitstring_elems(items: &Vec<BitstringElement>, m: &Module, Ghost(k): Ghost<nat>, Ghost(rk): Ghost<Ranking>) -> (r: usize)
    requires
        rk.valid(m),
        bitstring_refs(items@, rk.below(k)),
        sum_sizes(bitstring_elem_sizes(m, rk, items@, k)) <= usize::MAX,
    ensures
        r == sum_sizes(bitstring_elem_sizes(m, rk, items@, k)),
    decreases k, 0nat, 2nat,
{
    let ghost sizes = bitstring_elem_sizes(m, rk, items@, k);
    proof {
        lemma_sum_whole(sizes);
    }
    let mut total: usize = 0;
    let n = items.len();
    for i in 0..n
        invariant
            n == items@.len(),
            rk.valid(m),
            bitstring_refs(items@, rk.below(k)),
            sizes == bitstring_elem_sizes(m, rk, items@, k),
            sizes.len() == n,
            sum_sizes(sizes) <= usize::MAX,
            total == sum_sizes(sizes.take(i as int)),
    {
        proof {
            lemma_sum_prefix(sizes, i as int);
            assert(rk.below(k)(NodeRef::Expr(items@[i as int].0.index())));
        }
        let s = size_bitstring_elem(&items[i], m, Ghost(k), Ghost(rk));
        total = total + s;
    }
    proof {
        lemma_sum_whole(sizes);
    }
    total
}

/// The sum of the sizes of `items`.
fn size_bitstring_pattern_elems(items: &Vec<BitstringPatternElement>, m: &Module, Ghost(k): Ghost<nat>, Ghost(rk): Ghost<Ranking>) -> (r: usize)
    requires
        rk.valid(m),
        bitstring_pattern_refs(items@, rk.below(k)),
        sum_sizes(bitstring_pattern_elem_sizes(m, rk, items@, k)) <= usize::MAX,
    ensures
        r == sum_sizes(bitstring_pattern_elem_sizes(m, rk, items@, k)),
    decreases k, 0nat, 2nat,
{
    let ghost sizes = bitstring_pattern_elem_sizes(m, rk, items@, k);
    proof {
        lemma_sum_whole(sizes);
    }
    let mut total: usize = 0;
    let n = items.len();
    for i in 0..n
        invariant
            n == items@.len(),
            rk.valid(m),
            bitstring_pattern_refs(items@, rk.below(k)),
            sizes == bitstring_pattern_elem_sizes(m, rk, items@, k),
            sizes.len() == n,
            sum_sizes(sizes) <= usize::MAX,
            total == sum_sizes(sizes.take(i as int)),
    {
        proof {
            lemma_sum_prefix(sizes, i as int);
            assert(rk.below(k)(NodeRef::Pattern(items@[i as int].0.index())));
        }
        let s = size_bitstring_pattern_elem(&items[i], m, Ghost(k), Ghost(rk));
        total = total + s;
    }
    proof {
        lemma_sum_whole(sizes);
    }
    total
}

/// The sum of the sizes of `items`.
fn size_map_pattern_pairs(items: &Vec<(ExprId, PatternId)>, m: &Module, Ghost(k): Ghost<nat>, Ghost(rk): Ghost<Ranking>) -> (r: usize)
    requires
        rk.valid(m),
        map_pattern_pairs_refs(items@, rk.below(k)),
        sum_sizes(map_pattern_pair_sizes(m, rk, items@, k)) <= usize::MAX,
    ensures
        r == sum_sizes(map_pattern_pair_sizes(m, rk, items@, k)),
    decreases k, 0nat, 1nat,
{
    let ghost sizes = map_pattern_pair_sizes(m, rk, items@, k);
    proof {
        lemma_sum_whole(sizes);
    }
    let mut total: usize = 0;
    let n = items.len();
    for i in 0..n
        invariant
            n == items@.len(),
            rk.valid(m),
            map_pattern_pairs_refs(items@, rk.below(k)),
            sizes == map_pattern_pair_sizes(m, rk, items@, k),
            sizes.len() == n,
            sum_sizes(sizes) <= usize::MAX,
            total == sum_sizes(sizes.take(i as int)),
    {
        proof {
            lemma_sum_prefix(sizes, i as int);
            assert(rk.below(k)(NodeRef::Expr(items@[i as int].0.index())));
        }
        let s = size_map_pattern_pair(&items[i], m, Ghost(k), Ghost(rk));
        total = total + s;
    }
    proof {
        lemma_sum_whole(sizes);
    }
    total
}

/// The sum of the sizes of `items`.
fn size_celems(items: &Vec<ComprehensionElement>, m: &Module, Ghost(k): Ghost<nat>, Ghost(rk): Ghost<Ranking>) -> (r: usize)
    requires
        rk.valid(m),
        celems_refs(items@, rk.below(k)),
        sum_sizes(celem_sizes(m, rk, items@, k)) <= usize::MAX,
    ensures
        r == sum_sizes(celem_sizes(m, rk, items@, k)),
    decreases k, 0nat, 1nat,
{
    let ghost sizes = celem_sizes(m, rk, items@, k);
    proof {
        lemma_sum_whole(sizes);
    }
    let mut total: usize = 0;
    let n = items.len();
    for i in 0..n
        invariant
            n == items@.len(),
            rk.valid(m),
            celems_refs(items@, rk.below(k)),
            sizes == celem_sizes(m, rk, items@, k),
            sizes.len() == n,
            sum_sizes(sizes) <= usize::MAX,
            total == sum_sizes(sizes.take(i as int)),
    {
        proof {
            lemma_sum_prefix(sizes, i as int);
            assert(celem_refs(items@[i as int], rk.below(k)));
        }
        let s = size_celem(&items[i], m, Ghost(k), Ghost(rk));
        total = total + s;
    }
    proof {
        lemma_sum_whole(sizes);
    }
    total
}

/// The sum of the sizes of `items`.
fn size_maybes(items: &Vec<MaybeExpr>, m: &Module, Ghost(k): Ghost<nat>, Ghost(rk): Ghost<Ranking>) -> (r: usize)
    requires
        rk.valid(m),
        forall|i: int| 0 <= i < items@.len() ==> maybe_refs(#[trigger] items@[i], rk.below(k)),
        sum_sizes(maybe_sizes(m, rk, items@, k)) <= usize::MAX,
    ensures
        r == sum_sizes(maybe_sizes(m, rk, items@, k)),
    decreases k, 0nat, 1nat,
{
    let ghost sizes = maybe_sizes(m, rk, items@, k);
    proof {
        lemma_sum_whole(sizes);
    }
    let mut total: usize = 0;
    let n = items.len();
    for i in 0..n
        invariant
            n == items@.len(),
            rk.valid(m),
            forall|j: int| 0 <= j < items@.len() ==> maybe_refs(#[trigger] items@[j], rk.below(k)),
            sizes == maybe_sizes(m, rk, items@, k),
            sizes.len() == n,
            sum_sizes(sizes) <= usize::MAX,
            total == sum_sizes(sizes.take(i as int)),
    {
        proof {
            lemma_sum_prefix(sizes, i as int);
            assert(maybe_refs(items@[i as int], rk.below(k)));
        }
        let s = size_maybe(&items[i], m, Ghost(k), Ghost(rk));
        total = total + s;
    }
    proof {
        lemma_sum_whole(sizes);
    }
    total
}

/// The size of a clause of a `case`, `try` or `maybe`.
fn size_case(c: &CaseClause, m: &Module, Ghost(k): Ghost<nat>, Ghost(rk): Ghost<Ranking>) -> (r: usize)
    requires
        rk.valid(m),
        rk.below(k)(NodeRef::Pattern(c.0.index())),
        rk.below(k)(NodeRef::Guard(c.1.index())),
        rk.below(k)(NodeRef::Body(c.2.index())),
        case_size(m, rk, *c, k) <= usize::MAX,
    ensures
        r == case_size(m, rk, *c, k),
    decreases k, 0nat, 0nat,
{
    let a = size_pattern_id(c.0, m, Ghost(rk));
    let b = size_guard_id(c.1, m, Ghost(rk));
    let d = size_body_id(c.2, m, Ghost(rk));
    a + b + d
}

/// The size of an association of a map literal.
fn size_map_pair(kv: &(ExprId, ExprId), m: &Module, Ghost(k): Ghost<nat>, Ghost(rk): Ghost<Ranking>) -> (r: usize)
    requires
        rk.valid(m),
        rk.below(k)(NodeRef::Expr(kv.0.index())),
        rk.below(k)(NodeRef::Expr(kv.1.index())),
        map_pair_size(m, rk, *kv, k) <= usize::MAX,
    ensures
        r == map_pair_size(m, rk, *kv, k),
    decreases k, 0nat, 0nat,
{
    let a = size_expr_id(kv.0, m, Ghost(rk));
    let b = size_expr_id(kv.1, m, Ghost(rk));
    a + b
}

/// The size of an association of a map pattern.
fn size_map_pattern_pair(kv: &(ExprId, PatternId), m: &Module, Ghost(k): Ghost<nat>, Ghost(rk): Ghost<Ranking>) -> (r: usize)
    requires
        rk.valid(m),
        rk.below(k)(NodeRef::Expr(kv.0.index())),
        rk.below(k)(NodeRef::Pattern(kv.1.index())),
        map_pattern_pair_size(m, rk, *kv, k) <= usize::MAX,
    ensures
        r == map_pattern_pair_size(m, rk, *kv, k),
    decreases k, 0nat, 0nat,
{
    let a = size_expr_id(kv.0, m, Ghost(rk));
    let b = size_pattern_id(kv.1, m, Ghost(rk));
    a + b
}

/// The size of an optional expression.
fn size_opt_expr(o: &Option<ExprId>, m: &Module, Ghost(k): Ghost<nat>, Ghost(rk): Ghost<Ranking>) -> (r: usize)
    requires
        rk.valid(m),
        size_refs(*o, rk.below(k)),
        opt_expr_size(m, rk, *o, k) <= usize::MAX,
    ensures
        r == opt_expr_size(m, rk, *o, k),
    decreases k, 0nat, 0nat,
{
    match o {
        Some(e) => size_expr_id(*e, m, Ghost(rk)),
        None => 0,
    }
}

/// The size of an optional body.
fn size_opt_body(o: &Option<BodyId>, m: &Module, Ghost(k): Ghost<nat>, Ghost(rk): Ghost<Ranking>) -> (r: usize)
    requires
        rk.valid(m),
        match *o {
            Some(b) => rk.below(k)(NodeRef::Body(b.index())),
            None => true,
        },
        opt_body_size(m, rk, *o, k) <= usize::MAX,
    ensures
        r == opt_body_size(m, rk, *o, k),
    decreases k, 0nat, 0nat,
{
    match o {
        Some(b) => size_body_id(*b, m, Ghost(rk)),
        None => 0,
    }
}

/// The size of optional case clauses.
fn size_opt_cases(o: &Option<Vec<CaseClause>>, m: &Module, Ghost(k): Ghost<nat>, Ghost(rk): Ghost<Ranking>) -> (r: usize)
    requires
        rk.valid(m),
        opt_cases_refs(*o, rk.below(k)),
        opt_cases_size(m, rk, *o, k) <= usize::MAX,
    ensures
        r == opt_cases_size(m, rk, *o, k),
    decreases k, 0nat, 2nat,
{
    match o {
        Some(cs) => size_cases(cs, m, Ghost(k), Ghost(rk)),
        None => 0,
    }
}

/// The size of a segment of a bitstring construction.
fn size_bitstring_elem(el: &BitstringElement, m: &Module, Ghost(k): Ghost<nat>, Ghost(rk): Ghost<Ranking>) -> (r: usize)
    requires
        rk.valid(m),
        rk.below(k)(NodeRef::Expr(el.0.index())),
        size_refs(el.1, rk.below(k)),
        bitstring_elem_size(m, rk, *el, k) <= usize::MAX,
    ensures
        r == bitstring_elem_size(m, rk, *el, k),
    decreases k, 0nat, 1nat,
{
    let a = size_expr_id(el.0, m, Ghost(rk));
    let b = size_opt_expr(&el.1, m, Ghost(k), Ghost(rk));
    let c = el.2.size(m);
    a + b + c
}

/// The size of a segment of a bitstring pattern.
fn size_bitstring_pattern_elem(el: &BitstringPatternElement, m: &Module, Ghost(k): Ghost<nat>, Ghost(rk): Ghost<Ranking>) -> (r: usize)
    requires
        rk.valid(m),
        rk.below(k)(NodeRef::Pattern(el.0.index())),
        size_refs(el.1, rk.below(k)),
        bitstring_pattern_elem_size(m, rk, *el, k) <= usize::MAX,
    ensures
        r == bitstring_pattern_elem_size(m, rk, *el, k),
    decreases k, 0nat, 1nat,
{
    let a = size_pattern_id(el.0, m, Ghost(rk));
    let b = size_opt_expr(&el.1, m, Ghost(k), Ghost(rk));
    let c = el.2.size(m);
    a + b + c
}

/// The size of a generator or filter of a comprehension.
fn size_celem(ce: &ComprehensionElement, m: &Module, Ghost(k): Ghost<nat>, Ghost(rk): Ghost<Ranking>) -> (r: usize)
    requires
        rk.valid(m),
        celem_refs(*ce, rk.below(k)),
        celem_size(m, rk, *ce, k) <= usize::MAX,
    ensures
        r == celem_size(m, rk, *ce, k),
    decreases k, 0nat, 0nat,
{
    match ce {
        ComprehensionElement::ListGenerator(p, e) => {
            let a = size_pattern_id(*p, m, Ghost(rk));
            let b = size_expr_id(*e, m, Ghost(rk));
            1 + a + b
        },
        ComprehensionElement::BitstringGenerator(p, e) => {
            let a = size_pattern_id(*p, m, Ghost(rk));
            let b = size_expr_id(*e, m, Ghost(rk));
            1 + a + b
        },
        ComprehensionElement::MapGenerator(kp, vp, e) => {
            let a = size_pattern_id(*kp, m, Ghost(rk));
            let b = size_pattern_id(*vp, m, Ghost(rk));
            let c = size_expr_id(*e, m, Ghost(rk));
            1 + a + b + c
        },
        ComprehensionElement::Filter(e) => size_expr_id(*e, m, Ghost(rk)),
    }
}

/// The size of an expression of a `maybe` block.
fn size_maybe(me: &MaybeExpr, m: &Module, Ghost(k): Ghost<nat>, Ghost(rk): Ghost<Ranking>) -> (r: usize)
    requires
        rk.valid(m),
        maybe_refs(*me, rk.below(k)),
        maybe_size(m, rk, *me, k) <= usize::MAX,
    ensures
        r == maybe_size(m, rk, *me, k),
    decreases k, 0nat, 0nat,
{
    match me {
        MaybeExpr::MaybeAssignment(p, e) => {
            let a = size_pattern_id(*p, m, Ghost(rk));
            let b = size_expr_id(*e, m, Ghost(rk));
            1 + a + b
        },
        MaybeExpr::Normal(e) => size_expr_id(*e, m, Ghost(rk)),
    }
}

/// The size of a body whose expressions rank below `k`.
fn size_body_node(b: &Body, m: &Module, Ghost(k): Ghost<nat>, Ghost(rk): Ghost<Ranking>) -> (r: usize)
    requires
        rk.valid(m),
        body_refs(*b, rk.below(k)),
        body_node_size(m, rk, *b, k) <= usize::MAX,
    ensures
        r == body_node_size(m, rk, *b, k),
    decreases k, 1nat, 0nat,
{
    size_expr_ids(&b.exprs, m, Ghost(k), Ghost(rk))
}

/// The size of a guard sequence whose guards rank below `k`.
fn size_guard_node(g: &GuardSeq, m: &Module, Ghost(k): Ghost<nat>, Ghost(rk): Ghost<Ranking>) -> (r: usize)
    requires
        rk.valid(m),
        guard_refs(*g, rk.below(k)),
        guard_node_size(m, rk, *g, k) <= usize::MAX,
    ensures
        r == guard_node_size(m, rk, *g, k),
    decreases k, 1nat, 0nat,
{
    size_expr_ids(&g.guards, m, Ghost(k), Ghost(rk))
}

/// The size of a function clause whose references rank below `k`.
fn size_clause_node(c: &FunctionClause, m: &Module, Ghost(k): Ghost<nat>, Ghost(rk): Ghost<Ranking>) -> (r: usize)
    requires
        rk.valid(m),
        clause_refs(*c, rk.below(k)),
        clause_node_size(m, rk, *c, k) <= usize::MAX,
    ensures
        r == clause_node_size(m, rk, *c, k),
    decreases k, 1nat, 0nat,
{
    let a = size_pattern_ids(&c.args, m, Ghost(k), Ghost(rk));
    let b = size_guard_id(c.guard, m, Ghost(rk));
    let d = size_body_id(c.body, m, Ghost(rk));
    1 + a + b + d
}

/// The size of a pattern whose references rank below `k`.
fn size_pattern_node(p: &Pattern, m: &Module, Ghost(k): Ghost<nat>, Ghost(rk): Ghost<Ranking>) -> (r: usize)
    requires
        rk.valid(m),
        pattern_refs(*p, rk.below(k)),
        pattern_node_size(m, rk, *p, k) <= usize::MAX,
    ensures
        r == pattern_node_size(m, rk, *p, k),
    decreases k, 1nat, 0nat,
{
    match p {
        Pattern::EqualPatterns(p1, p2) => {
            let a = size_pattern_id(*p1, m, Ghost(rk));
            let b = size_pattern_id(*p2, m, Ghost(rk));
            1 + a + b
        },
        Pattern::Tuple(ps) => size_pattern_ids(ps, m, Ghost(k), Ghost(rk)),
        Pattern::List(h, t) => {
            let a = size_pattern_id(*h, m, Ghost(rk));
            let b = size_pattern_id(*t, m, Ghost(rk));
            1 + a + b
        },
        Pattern::Bitstring(els) => 1 + size_bitstring_pattern_elems(els, m, Ghost(k), Ghost(rk)),
        Pattern::MapPattern(pairs) => 1 + size_map_pattern_pairs(pairs, m, Ghost(k), Ghost(rk)),
        Pattern::Nil() | Pattern::Atom(_) | Pattern::Integer(_) | Pattern::Underscore()
        | Pattern::NamedVar(_) => 1,
    }
}

/// The size of an expression whose references rank below `k`.
#[verifier::spinoff_prover]
#[verifier::rlimit(50)]
fn size_expr_node(e: &Expr, m: &Module, Ghost(k): Ghost<nat>, Ghost(rk): Ghost<Ranking>) -> (r: usize)
    requires
        rk.valid(m),
        expr_refs(*e, rk.below(k)),
        expr_node_size(m, rk, *e, k) <= usize::MAX,
    ensures
        r == expr_node_size(m, rk, *e, k),
    decreases k, 1nat, 0nat,
{
    match e {
        Expr::LocalCall(_, args) => 1 + size_expr_ids(args, m, Ghost(k), Ghost(rk)),
        Expr::RemoteCall(_, _, args) => 1 + size_expr_ids(args, m, Ghost(k), Ghost(rk)),
        Expr::Tuple(es) => 1 + size_expr_ids(es, m, Ghost(k), Ghost(rk)),
        Expr::Catch(e1) => 1 + size_expr_id(*e1, m, Ghost(rk)),
        Expr::BinaryOperation(_, e1, e2) => {
            let a = size_expr_id(*e1, m, Ghost(rk));
            let b = size_expr_id(*e2, m, Ghost(rk));
            1 + a + b
        },
        Expr::UnaryOperation(_, e1) => size_expr_id(*e1, m, Ghost(rk)),
        Expr::Case(e1, cases) => {
            let a = size_expr_id(*e1, m, Ghost(rk));
            let b = size_cases(cases, m, Ghost(k), Ghost(rk));
            1 + a + b
        },
        Expr::Assignment(p, e1) => {
            let a = size_pattern_id(*p, m, Ghost(rk));
            let b = size_expr_id(*e1, m, Ghost(rk));
            1 + a + b
        },
        Expr::MapLiteral(pairs) => 1 + size_map_pairs(pairs, m, Ghost(k), Ghost(rk)),
        Expr::MapInsertion(map, key, v) | Expr::MapUpdate(map, key, v) => {
            let a = size_expr_id(*map, m, Ghost(rk));
            let b = size_expr_id(*key, m, Ghost(rk));
            let c = size_expr_id(*v, m, Ghost(rk));
            1 + a + b + c
        },
        Expr::BitstringConstruction(els) => 1 + size_bitstring_elems(els, m, Ghost(k), Ghost(rk)),
        Expr::Comprehension(_, head, els) => {
            let a = size_expr_id(*head, m, Ghost(rk));
            let b = size_celems(els, m, Ghost(k), Ghost(rk));
            1 + a + b
        },
        Expr::MapComprehension(key, v, els) => {
            let a = size_expr_id(*key, m, Ghost(rk));
            let b = size_expr_id(*v, m, Ghost(rk));
            let c = size_celems(els, m, Ghost(k), Ghost(rk));
            1 + a + b + c
        },
        Expr::Fun(_, clauses) => 1 + size_clause_ids(clauses, m, Ghost(k), Ghost(rk)),
        Expr::Try(b, of, catch, after) => {
            let a = size_body_id(*b, m, Ghost(rk));
            let c = size_opt_cases(of, m, Ghost(k), Ghost(rk));
            let d = size_opt_cases(catch, m, Ghost(k), Ghost(rk));
            let g = size_opt_body(after, m, Ghost(k), Ghost(rk));
            1 + a + c + d + g
        },
        Expr::Maybe(es, otherwise) => {
            let a = size_maybes(es, m, Ghost(k), Ghost(rk));
            let b = size_opt_cases(otherwise, m, Ghost(k), Ghost(rk));
            1 + a + b
        },
        Expr::Block(b) => 1 + size_body_id(*b, m, Ghost(rk)),
        Expr::Var(_) | Expr::Nil() | Expr::Atom(_) | Expr::Integer(_) | Expr::Float(_) | Expr::String(_) => 1,
    }
}

impl SizedAst for ExprId {
    /// Following references from the node ends, at nodes of the module:
    /// some valid ranking of the module ranks it.
    open spec fn measurable(&self, module: &Module) -> bool {
        rankable(module, NodeRef::Expr(self.index()))
    }

    /// The size of the expression.
    open spec fn spec_size(&self, module: &Module) -> nat {
        expr_size(module, canonical_ranking(module), *self)
    }

    fn size(&self, module: &Module) -> (r: ASTSize) {
        proof {
            lemma_canonical_ranking(module);
        }
        size_expr_id(*self, module, Ghost(canonical_ranking(module)))
    }
}

impl SizedAst for PatternId {
    /// Following references from the node ends, at nodes of the module:
    /// some valid ranking of the module ranks it.
    open spec fn measurable(&self, module: &Module) -> bool {
        rankable(module, NodeRef::Pattern(self.index()))
    }

    /// The size of the pattern.
    open spec fn spec_size(&self, module: &Module) -> nat {
        pattern_size(module, canonical_ranking(module), *self)
    }

    fn size(&self, module: &Module) -> (r: ASTSize) {
        proof {
            lemma_canonical_ranking(module);
        }
        size_pattern_id(*self, module, Ghost(canonical_ranking(module)))
    }
}

impl SizedAst for BodyId {
    /// Following references from the node ends, at nodes of the module:
    /// some valid ranking of the module ranks it.
    open spec fn measurable(&self, module: &Module) -> bool {
        rankable(module, NodeRef::Body(self.index()))
    }

    /// The size of the body.
    open spec fn spec_size(&self, module: &Module) -> nat {
        body_size(module, canonical_ranking(module), *self)
    }

    fn size(&self, module: &Module) -> (r: ASTSize) {
        proof {
            lemma_canonical_ranking(module);
        }
        size_body_id(*self, module, Ghost(canonical_ranking(module)))
    }
}

impl SizedAst for GuardSeqId {
    /// Following references from the node ends, at nodes of the module:
    /// some valid ranking of the module ranks it.
    open spec fn measurable(&self, module: &Module) -> bool {
        rankable(module, NodeRef::Guard(self.index()))
    }

    /// The size of the guard sequence.
    open spec fn spec_size(&self, module: &Module) -> nat {
        guard_size(module, canonical_ranking(module), *self)
    }

    fn size(&self, module: &Module) -> (r: ASTSize) {
        proof {
            lemma_canonical_ranking(module);
        }
        size_guard_id(*self, module, Ghost(canonical_ranking(module)))
    }
}

impl SizedAst for FunctionClauseId {
    /// Following references from the node ends, at nodes of the module:
    /// some valid ranking of the module ranks it.
    open spec fn measurable(&self, module: &Module) -> bool {
        rankable(module, NodeRef::Clause(self.index()))
    }

    /// The size of the function clause.
    open spec fn spec_size(&self, module: &Module) -> nat {
        clause_size(module, canonical_ranking(module), *self)
    }

    fn size(&self, module: &Module) -> (r: ASTSize) {
        proof {
            lemma_canonical_ranking(module);
        }
        size_clause_id(*self, module, Ghost(canonical_ranking(module)))
    }
}

impl SizedAst for Expr {
    /// Following references from the node ends, at nodes of the module:
    /// the canonical ranking ranks what it refers to, below some bound.
    open spec fn measurable(&self, module: &Module) -> bool {
        ranked_for(module, |p: spec_fn(NodeRef) -> bool| expr_refs(*self, p))
    }

    /// The size of the expression.
    open spec fn spec_size(&self, module: &Module) -> nat {
        expr_node_size(module, canonical_ranking(module), *self, fuel_for(module, |p: spec_fn(NodeRef) -> bool| expr_refs(*self, p)))
    }

    fn size(&self, module: &Module) -> (r: ASTSize) {
        proof {
            lemma_canonical_ranking(module);
        }
        let ghost k = fuel_for(module, |p: spec_fn(NodeRef) -> bool| expr_refs(*self, p));
        size_expr_node(self, module, Ghost(k), Ghost(canonical_ranking(module)))
    }
}

impl SizedAst for Pattern {
    /// Following references from the node ends, at nodes of the module:
    /// the canonical ranking ranks what it refers to, below some bound.
    open spec fn measurable(&self, module: &Module) -> bool {
        ranked_for(module, |p: spec_fn(NodeRef) -> bool| pattern_refs(*self, p))
    }

    /// The size of the pattern.
    open spec fn spec_size(&self, module: &Module) -> nat {
        pattern_node_size(module, canonical_ranking(module), *self, fuel_for(module, |p: spec_fn(NodeRef) -> bool| pattern_refs(*self, p)))
    }

    fn size(&self, module: &Module) -> (r: ASTSize) {
        proof {
            lemma_canonical_ranking(module);
        }
        let ghost k = fuel_for(module, |p: spec_fn(NodeRef) -> bool| pattern_refs(*self, p));
        size_pattern_node(self, module, Ghost(k), Ghost(canonical_ranking(module)))
    }
}

impl SizedAst for Body {
    /// Following references from the node ends, at nodes of the module:
    /// the canonical ranking ranks what it refers to, below some bound.
    open spec fn measurable(&self, module: &Module) -> bool {
        ranked_for(module, |p: spec_fn(NodeRef) -> bool| body_refs(*self, p))
    }

    /// The size of the body.
    open spec fn spec_size(&self, module: &Module) -> nat {
        body_node_size(module, canonical_ranking(module), *self, fuel_for(module, |p: spec_fn(NodeRef) -> bool| body_refs(*self, p)))
    }

    fn size(&self, module: &Module) -> (r: ASTSize) {
        proof {
            lemma_canonical_ranking(module);
        }
        let ghost k = fuel_for(module, |p: spec_fn(NodeRef) -> bool| body_refs(*self, p));
        size_body_node(self, module, Ghost(k), Ghost(canonical_ranking(module)))
    }
}

impl SizedAst for GuardSeq {
    /// Following references from the node ends, at nodes of the module:
    /// the canonical ranking ranks what it refers to, below some bound.
    open spec fn measurable(&self, module: &Module) -> bool {
        ranked_for(module, |p: spec_fn(NodeRef) -> bool| guard_refs(*self, p))
    }

    /// The size of the guard sequence.
    open spec fn spec_size(&self, module: &Module) -> nat {
        guard_node_size(module, canonical_ranking(module), *self, fuel_for(module, |p: spec_fn(NodeRef) -> bool| guard_refs(*self, p)))
    }

    fn size(&self, module: &Module) -> (r: ASTSize) {
        proof {
            lemma_canonical_ranking(module);
        }
        let ghost k = fuel_for(module, |p: spec_fn(NodeRef) -> bool| guard_refs(*self, p));
        size_guard_node(self, module, Ghost(k), Ghost(canonical_ranking(module)))
    }
}

impl SizedAst for FunctionClause {
    /// Following references from the node ends, at nodes of the module:
    /// the canonical ranking ranks what it refers to, below some bound.
    open spec fn measurable(&self, module: &Module) -> bool {
        ranked_for(module, |p: spec_fn(NodeRef) -> bool| clause_refs(*self, p))
    }

    /// The size of the function clause.
    open spec fn spec_size(&self, module: &Module) -> nat {
        clause_node_size(module, canonical_ranking(module), *self, fuel_for(module, |p: spec_fn(NodeRef) -> bool| clause_refs(*self, p)))
    }

    fn size(&self, module: &Module) -> (r: ASTSize) {
        proof {
            lemma_canonical_ranking(module);
        }
        let ghost k = fuel_for(module, |p: spec_fn(NodeRef) -> bool| clause_refs(*self, p));
        size_clause_node(self, module, Ghost(k), Ghost(canonical_ranking(module)))
    }
}

impl SizedAst for ComprehensionElement {
    /// Following references from the node ends, at nodes of the module:
    /// the canonical ranking ranks what it refers to, below some bound.
    open spec fn measurable(&self, module: &Module) -> bool {
        ranked_for(module, |p: spec_fn(NodeRef) -> bool| celem_refs(*self, p))
    }

    /// The size of the generator or filter.
    open spec fn spec_size(&self, module: &Module) -> nat {
        celem_size(module, canonical_ranking(module), *self, fuel_for(module, |p: spec_fn(NodeRef) -> bool| celem_refs(*self, p)))
    }

    fn size(&self, module: &Module) -> (r: ASTSize) {
        proof {
            lemma_canonical_ranking(module);
        }
        let ghost k = fuel_for(module, |p: spec_fn(NodeRef) -> bool| celem_refs(*self, p));
        size_celem(self, module, Ghost(k), Ghost(canonical_ranking(module)))
    }
}

impl SizedAst for MaybeExpr {
    /// Following references from the node ends, at nodes of the module:
    /// the canonical ranking ranks what it refers to, below some bound.
    open spec fn measurable(&self, module: &Module) -> bool {
        ranked_for(module, |p: spec_fn(NodeRef) -> bool| maybe_refs(*self, p))
    }

    /// The size of the expression.
    open spec fn spec_size(&self, module: &Module) -> nat {
        maybe_size(module, canonical_ranking(module), *self, fuel_for(module, |p: spec_fn(NodeRef) -> bool| maybe_refs(*self, p)))
    }

    fn size(&self, module: &Module) -> (r: ASTSize) {
        proof {
            lemma_canonical_ranking(module);
        }
        let ghost k = fuel_for(module, |p: spec_fn(NodeRef) -> bool| maybe_refs(*self, p));
        size_maybe(self, module, Ghost(k), Ghost(canonical_ranking(module)))
    }
}

impl SizedAst for FunctionDeclaration {
    /// Following references from the clauses ends, at nodes of the module:
    /// the canonical ranking ranks the clauses, below some bound.
    open spec fn measurable(&self, module: &Module) -> bool {
        ranked_for(module, |p: spec_fn(NodeRef) -> bool| declaration_refs(*self, p))
    }

    /// The size of the declaration: the sum of its clauses' sizes.
    open spec fn spec_size(&self, module: &Module) -> nat {
        declaration_size(
            module,
            canonical_ranking(module),
            *self,
            fuel_for(module, |p: spec_fn(NodeRef) -> bool| declaration_refs(*self, p)),
        )
    }

    fn size(&self, module: &Module) -> (r: ASTSize) {
        proof {
            lemma_canonical_ranking(module);
        }
        let ghost k = fuel_for(module, |p: spec_fn(NodeRef) -> bool| declaration_refs(*self, p));
        size_clause_ids(&self.clauses, module, Ghost(k), Ghost(canonical_ranking(module)))
    }
}

impl SizedAst for TypeSpecifier {
    /// A type specifier refers to no node.
    open spec fn measurable(&self, module: &Module) -> bool {
        true
    }

    /// The number of nodes of the specifier (see `node_count`).
    open spec fn spec_size(&self, module: &Module) -> nat {
        self.node_count()
    }

    fn size(&self, module: &Module) -> (r: ASTSize) {
        self.count_nodes()
    }
}

} // verus!
