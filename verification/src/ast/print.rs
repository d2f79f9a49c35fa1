//! Writing nodes as Erlang text.
use vstd::prelude::*;

use crate::ast::module::{BodyId, ExprId, FunctionClauseId, GuardSeqId, Module, PatternId};
use crate::ast::nodes::{
    BitstringElement, BitstringPatternElement, Body, CaseClause, ComprehensionElement, Expr,
    FunctionClause, FunctionDeclaration, GuardSeq, MaybeExpr, Pattern,
};
use crate::ast::operators::ComprehensionKind;
use crate::ast::traits::AstNode;
use crate::ast::text_spec::{
    bitstring_elem_text, bitstring_elem_texts, bitstring_pattern_elem_text,
    bitstring_pattern_elem_texts, body_node_text, body_text, case_text, case_texts, cases_text,
    celem_text, celem_texts, clause_node_text, clause_text, clause_texts, declaration_text,
    expr_node_text, expr_text, expr_texts, guard_node_text, guard_text, map_pair_text,
    map_pair_texts, map_pattern_pair_text, map_pattern_pair_texts, maybe_text, maybe_texts,
    pattern_node_text, pattern_text, pattern_texts, size_part,
};
use crate::ast::wf::{
    bitstring_pattern_refs, bitstring_refs, body_refs, cases_refs, celem_refs, celems_refs,
    clause_refs, declaration_refs, expr_refs, guard_refs, map_pairs_refs, map_pattern_pairs_refs,
    maybe_refs, opt_cases_refs, pattern_refs, size_refs, NodeRef,
};
use crate::ast::wf::{
    canonical_ranking, fuel_for, lemma_canonical_ranking, lemma_ranking_nodes, rankable, ranked_for, Ranking,
};
use crate::text::{decimal, lemma_seq_join_push, seq_join, write_decimal};

verus! {

/// Appends the text of the expression `id` refers to.
fn fmt_expr_id(id: ExprId, m: &Module, f: &mut String, Ghost(rk): Ghost<Ranking>)
    requires
        rk.valid(m),
        rk.contains(NodeRef::Expr(id.index())),
    ensures
        final(f)@ == old(f)@ + expr_text(m, rk, id),
    decreases rk.rank_of(NodeRef::Expr(id.index())), 2nat, 0nat,
{
    proof {
        lemma_ranking_nodes(m, rk);
    }
    let e = m.expr(id);
    fmt_expr_node(e, m, f, Ghost(rk.rank_of(NodeRef::Expr(id.index()))), Ghost(rk));
}

/// Appends the text of the pattern `id` refers to.
fn fmt_pattern_id(id: PatternId, m: &Module, f: &mut String, Ghost(rk): Ghost<Ranking>)
    requires
        rk.valid(m),
        rk.contains(NodeRef::Pattern(id.index())),
    ensures
        final(f)@ == old(f)@ + pattern_text(m, rk, id),
    decreases rk.rank_of(NodeRef::Pattern(id.index())), 2nat, 0nat,
{
    proof {
        lemma_ranking_nodes(m, rk);
    }
    let p = m.pattern(id);
    fmt_pattern_node(p, m, f, Ghost(rk.rank_of(NodeRef::Pattern(id.index()))), Ghost(rk));
}

/// Appends the text of the body `id` refers to.
fn fmt_body_id(id: BodyId, m: &Module, f: &mut String, Ghost(rk): Ghost<Ranking>)
    requires
        rk.valid(m),
        rk.contains(NodeRef::Body(id.index())),
    ensures
        final(f)@ == old(f)@ + body_text(m, rk, id),
    decreases rk.rank_of(NodeRef::Body(id.index())), 2nat, 0nat,
{
    proof {
        lemma_ranking_nodes(m, rk);
    }
    let b = m.body(id);
    fmt_body_node(b, m, f, Ghost(rk.rank_of(NodeRef::Body(id.index()))), Ghost(rk));
}

/// Appends the text of the guard sequence `id` refers to.
fn fmt_guard_id(id: GuardSeqId, m: &Module, f: &mut String, Ghost(rk): Ghost<Ranking>)
    requires
        rk.valid(m),
        rk.contains(NodeRef::Guard(id.index())),
    ensures
        final(f)@ == old(f)@ + guard_text(m, rk, id),
    decreases rk.rank_of(NodeRef::Guard(id.index())), 2nat, 0nat,
{
    proof {
        lemma_ranking_nodes(m, rk);
    }
    let g = m.guard_seq(id);
    fmt_guard_node(g, m, f, Ghost(rk.rank_of(NodeRef::Guard(id.index()))), Ghost(rk));
}

/// Appends the text of the function clause `id` refers to.
fn fmt_clause_id(id: FunctionClauseId, m: &Module, f: &mut String, Ghost(rk): Ghost<Ranking>)
    requires
        rk.valid(m),
        rk.contains(NodeRef::Clause(id.index())),
    ensures
        final(f)@ == old(f)@ + clause_text(m, rk, id),
    decreases rk.rank_of(NodeRef::Clause(id.index())), 2nat, 0nat,
{
    proof {
        lemma_ranking_nodes(m, rk);
    }
    let c = m.function_clause(id);
    fmt_clause_node(c, m, f, Ghost(rk.rank_of(NodeRef::Clause(id.index()))), Ghost(rk));
}

/// Appends the text of a body whose expressions rank below `k`.
fn fmt_body_node(b: &Body, m: &Module, f: &mut String, Ghost(k): Ghost<nat>, Ghost(rk): Ghost<Ranking>)
    requires
        rk.valid(m),
        body_refs(*b, rk.below(k)),
    ensures
        final(f)@ == old(f)@ + body_node_text(m, rk, *b, k),
    decreases k, 1nat, 0nat,
{
    fmt_expr_ids(&b.exprs, ",\n\t", m, f, Ghost(k), Ghost(rk));
}

/// Appends the text of a guard sequence whose guards rank below `k`.
fn fmt_guard_node(g: &GuardSeq, m: &Module, f: &mut String, Ghost(k): Ghost<nat>, Ghost(rk): Ghost<Ranking>)
    requires
        rk.valid(m),
        guard_refs(*g, rk.below(k)),
    ensures
        final(f)@ == old(f)@ + guard_node_text(m, rk, *g, k),
    decreases k, 1nat, 0nat,
{
    let ghost start = f@;
    if g.guards.len() > 0 {
        f.append(" when ");
        fmt_expr_ids(&g.guards, "; ", m, f, Ghost(k), Ghost(rk));
        assert(f@ =~= start + guard_node_text(m, rk, *g, k));
    } else {
        assert(f@ =~= start + guard_node_text(m, rk, *g, k));
    }
}

/// Appends the text of a function clause whose references rank below `k`.
fn fmt_clause_node(c: &FunctionClause, m: &Module, f: &mut String, Ghost(k): Ghost<nat>, Ghost(rk): Ghost<Ranking>)
    requires
        rk.valid(m),
        clause_refs(*c, rk.below(k)),
    ensures
        final(f)@ == old(f)@ + clause_node_text(m, rk, *c, k),
    decreases k, 1nat, 0nat,
{
    let ghost start = f@;
    f.append(c.name.as_str());
    f.append("(");
    fmt_pattern_ids(&c.args, ", ", m, f, Ghost(k), Ghost(rk));
    f.append(") ");
    fmt_guard_id(c.guard, m, f, Ghost(rk));
    f.append(" -> \n\t");
    fmt_body_id(c.body, m, f, Ghost(rk));
    assert(f@ =~= start + clause_node_text(m, rk, *c, k));
}

/// Appends the text of a clause of a `case`, `try` or `maybe`.
fn fmt_case(c: &CaseClause, m: &Module, f: &mut String, Ghost(k): Ghost<nat>, Ghost(rk): Ghost<Ranking>)
    requires
        rk.valid(m),
        rk.below(k)(NodeRef::Pattern(c.0.index())),
        rk.below(k)(NodeRef::Guard(c.1.index())),
        rk.below(k)(NodeRef::Body(c.2.index())),
    ensures
        final(f)@ == old(f)@ + case_text(m, rk, *c, k),
    decreases k, 0nat, 0nat,
{
    let ghost start = f@;
    fmt_pattern_id(c.0, m, f, Ghost(rk));
    f.append(" ");
    fmt_guard_id(c.1, m, f, Ghost(rk));
    f.append(" ->\n\t");
    fmt_body_id(c.2, m, f, Ghost(rk));
    assert(f@ =~= start + case_text(m, rk, *c, k));
}

/// Appends the text of an association of a map literal.
fn fmt_map_pair(kv: &(ExprId, ExprId), m: &Module, f: &mut String, Ghost(k): Ghost<nat>, Ghost(rk): Ghost<Ranking>)
    requires
        rk.valid(m),
        rk.below(k)(NodeRef::Expr(kv.0.index())),
        rk.below(k)(NodeRef::Expr(kv.1.index())),
    ensures
        final(f)@ == old(f)@ + map_pair_text(m, rk, *kv, k),
    decreases k, 0nat, 0nat,
{
    let ghost start = f@;
    fmt_expr_id(kv.0, m, f, Ghost(rk));
    f.append(" => ");
    fmt_expr_id(kv.1, m, f, Ghost(rk));
    assert(f@ =~= start + map_pair_text(m, rk, *kv, k));
}

/// Appends the text of an association of a map pattern.
fn fmt_map_pattern_pair(kv: &(ExprId, PatternId), m: &Module, f: &mut String, Ghost(k): Ghost<nat>, Ghost(rk): Ghost<Ranking>)
    requires
        rk.valid(m),
        rk.below(k)(NodeRef::Expr(kv.0.index())),
        rk.below(k)(NodeRef::Pattern(kv.1.index())),
    ensures
        final(f)@ == old(f)@ + map_pattern_pair_text(m, rk, *kv, k),
    decreases k, 0nat, 0nat,
{
    let ghost start = f@;
    fmt_expr_id(kv.0, m, f, Ghost(rk));
    f.append(" := ");
    fmt_pattern_id(kv.1, m, f, Ghost(rk));
    assert(f@ =~= start + map_pattern_pair_text(m, rk, *kv, k));
}

/// Appends the size part of a bitstring segment.
fn fmt_size_part(size: &Option<ExprId>, m: &Module, f: &mut String, Ghost(k): Ghost<nat>, Ghost(rk): Ghost<Ranking>)
    requires
        rk.valid(m),
        size_refs(*size, rk.below(k)),
    ensures
        final(f)@ == old(f)@ + size_part(m, rk, *size, k),
    decreases k, 0nat, 0nat,
{
    let ghost start = f@;
    if let Some(s) = size {
        f.append(":(");
        fmt_expr_id(*s, m, f, Ghost(rk));
        f.append(")");
        assert(f@ =~= start + size_part(m, rk, *size, k));
    } else {
        assert(f@ =~= start + size_part(m, rk, *size, k));
    }
}

/// Appends the text of a segment of a bitstring construction.
fn fmt_bitstring_elem(el: &BitstringElement, m: &Module, f: &mut String, Ghost(k): Ghost<nat>, Ghost(rk): Ghost<Ranking>)
    requires
        rk.valid(m),
        rk.below(k)(NodeRef::Expr(el.0.index())),
        size_refs(el.1, rk.below(k)),
    ensures
        final(f)@ == old(f)@ + bitstring_elem_text(m, rk, *el, k),
    decreases k, 0nat, 1nat,
{
    let ghost start = f@;
    f.append("(");
    fmt_expr_id(el.0, m, f, Ghost(rk));
    f.append(")");
    fmt_size_part(&el.1, m, f, Ghost(k), Ghost(rk));
    el.2.fmt(f);
    assert(f@ =~= start + bitstring_elem_text(m, rk, *el, k));
}

/// Appends the text of a segment of a bitstring pattern.
fn fmt_bitstring_pattern_elem(el: &BitstringPatternElement, m: &Module, f: &mut String, Ghost(k): Ghost<nat>, Ghost(rk): Ghost<Ranking>)
    requires
        rk.valid(m),
        rk.below(k)(NodeRef::Pattern(el.0.index())),
        size_refs(el.1, rk.below(k)),
    ensures
        final(f)@ == old(f)@ + bitstring_pattern_elem_text(m, rk, *el, k),
    decreases k, 0nat, 1nat,
{
    let ghost start = f@;
    fmt_pattern_id(el.0, m, f, Ghost(rk));
    fmt_size_part(&el.1, m, f, Ghost(k), Ghost(rk));
    el.2.fmt(f);
    assert(f@ =~= start + bitstring_pattern_elem_text(m, rk, *el, k));
}

/// Appends the text of a generator or filter of a comprehension.
fn fmt_celem(ce: &ComprehensionElement, m: &Module, f: &mut String, Ghost(k): Ghost<nat>, Ghost(rk): Ghost<Ranking>)
    requires
        rk.valid(m),
        celem_refs(*ce, rk.below(k)),
    ensures
        final(f)@ == old(f)@ + celem_text(m, rk, *ce, k),
    decreases k, 0nat, 0nat,
{
    let ghost start = f@;
    match ce {
        ComprehensionElement::ListGenerator(p, e) => {
            fmt_pattern_id(*p, m, f, Ghost(rk));
            f.append(" <- ");
            fmt_expr_id(*e, m, f, Ghost(rk));
        },
        ComprehensionElement::BitstringGenerator(p, e) => {
            fmt_pattern_id(*p, m, f, Ghost(rk));
            f.append(" <= ");
            fmt_expr_id(*e, m, f, Ghost(rk));
        },
        ComprehensionElement::MapGenerator(kp, vp, e) => {
            fmt_pattern_id(*kp, m, f, Ghost(rk));
            f.append(" := ");
            fmt_pattern_id(*vp, m, f, Ghost(rk));
            f.append(" <- ");
            fmt_expr_id(*e, m, f, Ghost(rk));
        },
        ComprehensionElement::Filter(e) => {
            fmt_expr_id(*e, m, f, Ghost(rk));
        },
    }
    assert(f@ =~= start + celem_text(m, rk, *ce, k));
}

/// Appends the text of an expression of a `maybe` block.
fn fmt_maybe(me: &MaybeExpr, m: &Module, f: &mut String, Ghost(k): Ghost<nat>, Ghost(rk): Ghost<Ranking>)
    requires
        rk.valid(m),
        maybe_refs(*me, rk.below(k)),
    ensures
        final(f)@ == old(f)@ + maybe_text(m, rk, *me, k),
    decreases k, 0nat, 0nat,
{
    let ghost start = f@;
    match me {
        MaybeExpr::Normal(e) => {
            fmt_expr_id(*e, m, f, Ghost(rk));
        },
        MaybeExpr::MaybeAssignment(p, e) => {
            fmt_pattern_id(*p, m, f, Ghost(rk));
            f.append(" ?= ");
            fmt_expr_id(*e, m, f, Ghost(rk));
        },
    }
    assert(f@ =~= start + maybe_text(m, rk, *me, k));
}

/// Appends the text of a pattern whose references rank below `k`.
fn fmt_pattern_node(p: &Pattern, m: &Module, f: &mut String, Ghost(k): Ghost<nat>, Ghost(rk): Ghost<Ranking>)
    requires
        rk.valid(m),
        pattern_refs(*p, rk.below(k)),
    ensures
        final(f)@ == old(f)@ + pattern_node_text(m, rk, *p, k),
    decreases k, 1nat, 0nat,
{
    let ghost start = f@;
    match p {
        Pattern::Underscore() => {
            f.append("_");
        },
        Pattern::NamedVar(v) => {
            f.append("_V");
            write_decimal(f, *v as u64);
        },
        Pattern::EqualPatterns(p1, p2) => {
            f.append("(");
            fmt_pattern_id(*p1, m, f, Ghost(rk));
            f.append(" = ");
            fmt_pattern_id(*p2, m, f, Ghost(rk));
            f.append(")");
        },
        Pattern::Tuple(ps) => {
            f.append("{");
            fmt_pattern_ids(ps, ", ", m, f, Ghost(k), Ghost(rk));
            f.append("}");
        },
        Pattern::List(h, t) => {
            f.append("[");
            fmt_pattern_id(*h, m, f, Ghost(rk));
            f.append(" | ");
            fmt_pattern_id(*t, m, f, Ghost(rk));
            f.append("]");
        },
        Pattern::Bitstring(els) => {
            f.append("<<");
            fmt_bitstring_pattern_elems(els, ", ", m, f, Ghost(k), Ghost(rk));
            f.append(">>");
        },
        Pattern::MapPattern(pairs) => {
            f.append("#{");
            fmt_map_pattern_pairs(pairs, ", ", m, f, Ghost(k), Ghost(rk));
            f.append("}");
        },
        Pattern::Nil() => {
            f.append("[]");
        },
        Pattern::Atom(a) => {
            f.append(a.as_str());
        },
        Pattern::Integer(n) => {
            let s = n.to_string();
            f.append(s.as_str());
        },
    }
    assert(f@ =~= start + pattern_node_text(m, rk, *p, k));
}

/// Which of the printing helpers handles an expression.
spec fn expr_group(e: Expr) -> nat {
    match e {
        Expr::Var(..) => 0,
        Expr::Nil() => 0,
        Expr::Atom(..) => 0,
        Expr::Integer(..) => 0,
        Expr::Float(..) => 0,
        Expr::String(..) => 0,
        Expr::LocalCall(..) => 1,
        Expr::RemoteCall(..) => 1,
        Expr::Tuple(..) => 1,
        Expr::Catch(..) => 1,
        Expr::BinaryOperation(..) => 2,
        Expr::UnaryOperation(..) => 2,
        Expr::Assignment(..) => 2,
        Expr::Block(..) => 2,
        Expr::Case(..) => 3,
        Expr::MapLiteral(..) => 3,
        Expr::MapInsertion(..) => 3,
        Expr::MapUpdate(..) => 3,
        Expr::BitstringConstruction(..) => 4,
        Expr::Comprehension(..) => 4,
        Expr::MapComprehension(..) => 4,
        Expr::Fun(..) => 4,
        Expr::Try(..) => 5,
        Expr::Maybe(..) => 6,
    }
}

/// Appends the text of an expression of group 0 (see `expr_group`).
fn fmt_expr_group0(e: &Expr, m: &Module, f: &mut String, Ghost(k): Ghost<nat>, Ghost(rk): Ghost<Ranking>)
    requires
        rk.valid(m),
        expr_refs(*e, rk.below(k)),
        expr_group(*e) == 0,
    ensures
        final(f)@ == old(f)@ + expr_node_text(m, rk, *e, k),
    decreases k, 1nat, 0nat,
{
    let ghost start = f@;
    match e {
        Expr::Var(v) => {
            f.append("_V");
            write_decimal(f, *v as u64);
            assert(f@ =~= start + expr_node_text(m, rk, *e, k));
        },
        Expr::Nil() => {
            f.append("[]");
            assert(f@ =~= start + expr_node_text(m, rk, *e, k));
        },
        Expr::Atom(a) => {
            f.append(a.as_str());
            assert(f@ =~= start + expr_node_text(m, rk, *e, k));
        },
        Expr::Integer(n) => {
            let s = n.to_string();
            f.append(s.as_str());
            assert(f@ =~= start + expr_node_text(m, rk, *e, k));
        },
        Expr::Float(x) => {
            f.append(x.as_str());
            assert(f@ =~= start + expr_node_text(m, rk, *e, k));
        },
        Expr::String(s) => {
            f.append("\"");
            f.append(s.as_str());
            f.append("\"");
            assert(f@ =~= start + expr_node_text(m, rk, *e, k));
        },
        _ => {},
    }
}

/// Appends the text of an expression of group 1 (see `expr_group`).
fn fmt_expr_group1(e: &Expr, m: &Module, f: &mut String, Ghost(k): Ghost<nat>, Ghost(rk): Ghost<Ranking>)
    requires
        rk.valid(m),
        expr_refs(*e, rk.below(k)),
        expr_group(*e) == 1,
    ensures
        final(f)@ == old(f)@ + expr_node_text(m, rk, *e, k),
    decreases k, 1nat, 0nat,
{
    let ghost start = f@;
    match e {
        Expr::LocalCall(name, args) => {
            f.append("(");
            f.append(name.as_str());
            f.append("(");
            fmt_expr_ids(args, ", ", m, f, Ghost(k), Ghost(rk));
            f.append("))");
            assert(f@ =~= start + expr_node_text(m, rk, *e, k));
        },
        Expr::RemoteCall(module_name, name, args) => {
            f.append("(");
            f.append(module_name.as_str());
            f.append(":");
            f.append(name.as_str());
            f.append("(");
            fmt_expr_ids(args, ", ", m, f, Ghost(k), Ghost(rk));
            f.append("))");
            assert(f@ =~= start + expr_node_text(m, rk, *e, k));
        },
        Expr::Tuple(es) => {
            f.append("{");
            fmt_expr_ids(es, ", ", m, f, Ghost(k), Ghost(rk));
            f.append("}");
            assert(f@ =~= start + expr_node_text(m, rk, *e, k));
        },
        Expr::Catch(e1) => {
            f.append("(catch ");
            fmt_expr_id(*e1, m, f, Ghost(rk));
            f.append(")");
            assert(f@ =~= start + expr_node_text(m, rk, *e, k));
        },
        _ => {},
    }
}

/// Appends the text of an expression of group 2 (see `expr_group`).
fn fmt_expr_group2(e: &Expr, m: &Module, f: &mut String, Ghost(k): Ghost<nat>, Ghost(rk): Ghost<Ranking>)
    requires
        rk.valid(m),
        expr_refs(*e, rk.below(k)),
        expr_group(*e) == 2,
    ensures
        final(f)@ == old(f)@ + expr_node_text(m, rk, *e, k),
    decreases k, 1nat, 0nat,
{
    let ghost start = f@;
    match e {
        Expr::BinaryOperation(op, e1, e2) => {
            f.append("(");
            fmt_expr_id(*e1, m, f, Ghost(rk));
            f.append(" ");
            let o = op.to_string();
            f.append(o.as_str());
            f.append(" ");
            fmt_expr_id(*e2, m, f, Ghost(rk));
            f.append(")");
            assert(f@ =~= start + expr_node_text(m, rk, *e, k));
        },
        Expr::UnaryOperation(op, e1) => {
            f.append("(");
            let o = op.to_string();
            f.append(o.as_str());
            f.append(" ");
            fmt_expr_id(*e1, m, f, Ghost(rk));
            f.append(")");
            assert(f@ =~= start + expr_node_text(m, rk, *e, k));
        },
        Expr::Assignment(p, e1) => {
            f.append("(");
            fmt_pattern_id(*p, m, f, Ghost(rk));
            f.append(" = ");
            fmt_expr_id(*e1, m, f, Ghost(rk));
            f.append(")");
            assert(f@ =~= start + expr_node_text(m, rk, *e, k));
        },
        Expr::Block(b) => {
            f.append("begin ");
            fmt_body_id(*b, m, f, Ghost(rk));
            f.append(" end");
            assert(f@ =~= start + expr_node_text(m, rk, *e, k));
        },
        _ => {},
    }
}

/// Appends the text of an expression of group 3 (see `expr_group`).
fn fmt_expr_group3(e: &Expr, m: &Module, f: &mut String, Ghost(k): Ghost<nat>, Ghost(rk): Ghost<Ranking>)
    requires
        rk.valid(m),
        expr_refs(*e, rk.below(k)),
        expr_group(*e) == 3,
    ensures
        final(f)@ == old(f)@ + expr_node_text(m, rk, *e, k),
    decreases k, 1nat, 0nat,
{
    let ghost start = f@;
    match e {
        Expr::Case(e1, cases) => {
            f.append("(case ");
            fmt_expr_id(*e1, m, f, Ghost(rk));
            f.append(" of\n\t");
            fmt_case_list(cases, ";\n\t", m, f, Ghost(k), Ghost(rk));
            f.append("\n\tend)");
            assert(f@ =~= start + expr_node_text(m, rk, *e, k));
        },
        Expr::MapLiteral(pairs) => {
            f.append("#{");
            fmt_map_pairs(pairs, ", ", m, f, Ghost(k), Ghost(rk));
            f.append("}");
            assert(f@ =~= start + expr_node_text(m, rk, *e, k));
        },
        Expr::MapInsertion(map, key, v) => {
            f.append("(");
            fmt_expr_id(*map, m, f, Ghost(rk));
            f.append(" #{ ");
            fmt_expr_id(*key, m, f, Ghost(rk));
            f.append(" => ");
            fmt_expr_id(*v, m, f, Ghost(rk));
            f.append(" })");
            assert(f@ =~= start + expr_node_text(m, rk, *e, k));
        },
        Expr::MapUpdate(map, key, v) => {
            f.append("(");
            fmt_expr_id(*map, m, f, Ghost(rk));
            f.append(" #{ ");
            fmt_expr_id(*key, m, f, Ghost(rk));
            f.append(" := ");
            fmt_expr_id(*v, m, f, Ghost(rk));
            f.append(" })");
            assert(f@ =~= start + expr_node_text(m, rk, *e, k));
        },
        _ => {},
    }
}

/// Appends the text of an expression of group 4 (see `expr_group`).
fn fmt_expr_group4(e: &Expr, m: &Module, f: &mut String, Ghost(k): Ghost<nat>, Ghost(rk): Ghost<Ranking>)
    requires
        rk.valid(m),
        expr_refs(*e, rk.below(k)),
        expr_group(*e) == 4,
    ensures
        final(f)@ == old(f)@ + expr_node_text(m, rk, *e, k),
    decreases k, 1nat, 0nat,
{
    let ghost start = f@;
    match e {
        Expr::BitstringConstruction(els) => {
            f.append("(<<");
            fmt_bitstring_elems(els, ", ", m, f, Ghost(k), Ghost(rk));
            f.append(">>)");
            assert(f@ =~= start + expr_node_text(m, rk, *e, k));
        },
        Expr::Comprehension(kind, e1, els) => {
            match kind {
                ComprehensionKind::List => f.append("["),
                ComprehensionKind::Bitstring => f.append("<<"),
            }
            f.append(" (");
            fmt_expr_id(*e1, m, f, Ghost(rk));
            f.append(") || ");
            fmt_celems(els, ", ", m, f, Ghost(k), Ghost(rk));
            match kind {
                ComprehensionKind::List => f.append("]"),
                ComprehensionKind::Bitstring => f.append(">>"),
            }
            assert(f@ =~= start + expr_node_text(m, rk, *e, k));
        },
        Expr::MapComprehension(key, v, els) => {
            f.append("#{ ");
            fmt_expr_id(*key, m, f, Ghost(rk));
            f.append(" => ");
            fmt_expr_id(*v, m, f, Ghost(rk));
            f.append(" || ");
            fmt_celems(els, ", ", m, f, Ghost(k), Ghost(rk));
            f.append("}");
            assert(f@ =~= start + expr_node_text(m, rk, *e, k));
        },
        Expr::Fun(_, clauses) => {
            f.append("fun ");
            fmt_clause_ids(clauses, "; ", m, f, Ghost(k), Ghost(rk));
            f.append(" end");
            assert(f@ =~= start + expr_node_text(m, rk, *e, k));
        },
        _ => {},
    }
}

/// Appends the text of an expression of group 5 (see `expr_group`).
#[verifier::rlimit(50)]
fn fmt_expr_group5(e: &Expr, m: &Module, f: &mut String, Ghost(k): Ghost<nat>, Ghost(rk): Ghost<Ranking>)
    requires
        rk.valid(m),
        expr_refs(*e, rk.below(k)),
        expr_group(*e) == 5,
    ensures
        final(f)@ == old(f)@ + expr_node_text(m, rk, *e, k),
    decreases k, 1nat, 0nat,
{
    let ghost start = f@;
    match e {
        Expr::Try(b, of, catch, after) => {
            f.append("(try ");
            fmt_body_id(*b, m, f, Ghost(rk));
            let ghost s1 = f@;
            if let Some(cs) = of {
                f.append(" of\n\t");
                fmt_case_list(cs, ";\n\t", m, f, Ghost(k), Ghost(rk));
            }
            assert(f@ =~= s1 + match *of {
                Some(cs) => " of\n\t"@ + cases_text(m, rk, cs@, k),
                None => Seq::empty(),
            });
            let ghost s2 = f@;
            if let Some(cs) = catch {
                f.append("\ncatch\n\t");
                fmt_case_list(cs, ";\n\t", m, f, Ghost(k), Ghost(rk));
            }
            assert(f@ =~= s2 + match *catch {
                Some(cs) => "\ncatch\n\t"@ + cases_text(m, rk, cs@, k),
                None => Seq::empty(),
            });
            let ghost s3 = f@;
            if let Some(a) = after {
                f.append("\nafter\n");
                fmt_body_id(*a, m, f, Ghost(rk));
            }
            assert(f@ =~= s3 + match *after {
                Some(a) => "\nafter\n"@ + body_text(m, rk, a),
                None => Seq::empty(),
            });
            f.append("\nend)");
            assert(f@ =~= start + expr_node_text(m, rk, *e, k));
        },
        _ => {},
    }
}

/// Appends the text of an expression of group 6 (see `expr_group`).
fn fmt_expr_group6(e: &Expr, m: &Module, f: &mut String, Ghost(k): Ghost<nat>, Ghost(rk): Ghost<Ranking>)
    requires
        rk.valid(m),
        expr_refs(*e, rk.below(k)),
        expr_group(*e) == 6,
    ensures
        final(f)@ == old(f)@ + expr_node_text(m, rk, *e, k),
    decreases k, 1nat, 0nat,
{
    let ghost start = f@;
    match e {
        Expr::Maybe(es, otherwise) => {
            f.append("(maybe \n\t");
            fmt_maybes(es, ",\n\t", m, f, Ghost(k), Ghost(rk));
            let ghost s1 = f@;
            if let Some(cs) = otherwise {
                f.append("\nelse\n\t");
                fmt_case_list(cs, ";\n\t", m, f, Ghost(k), Ghost(rk));
            }
            assert(f@ =~= s1 + match *otherwise {
                Some(cs) => "\nelse\n\t"@ + cases_text(m, rk, cs@, k),
                None => Seq::empty(),
            });
            f.append("\n\tend)");
            assert(f@ =~= start + expr_node_text(m, rk, *e, k));
        },
        _ => {},
    }
}

/// Appends the text of an expression whose references rank below `k`.
fn fmt_expr_node(e: &Expr, m: &Module, f: &mut String, Ghost(k): Ghost<nat>, Ghost(rk): Ghost<Ranking>)
    requires
        rk.valid(m),
        expr_refs(*e, rk.below(k)),
    ensures
        final(f)@ == old(f)@ + expr_node_text(m, rk, *e, k),
    decreases k, 1nat, 1nat,
{
    match e {
        Expr::Var(..) | Expr::Nil() | Expr::Atom(..) | Expr::Integer(..) | Expr::Float(..) | Expr::String(..) => fmt_expr_group0(e, m, f, Ghost(k), Ghost(rk)),
        Expr::LocalCall(..) | Expr::RemoteCall(..) | Expr::Tuple(..) | Expr::Catch(..) => fmt_expr_group1(e, m, f, Ghost(k), Ghost(rk)),
        Expr::BinaryOperation(..) | Expr::UnaryOperation(..) | Expr::Assignment(..) | Expr::Block(..) => fmt_expr_group2(e, m, f, Ghost(k), Ghost(rk)),
        Expr::Case(..) | Expr::MapLiteral(..) | Expr::MapInsertion(..) | Expr::MapUpdate(..) => fmt_expr_group3(e, m, f, Ghost(k), Ghost(rk)),
        Expr::BitstringConstruction(..) | Expr::Comprehension(..) | Expr::MapComprehension(..) | Expr::Fun(..) => fmt_expr_group4(e, m, f, Ghost(k), Ghost(rk)),
        Expr::Try(..) => fmt_expr_group5(e, m, f, Ghost(k), Ghost(rk)),
        Expr::Maybe(..) => fmt_expr_group6(e, m, f, Ghost(k), Ghost(rk)),
    }
}

/// Appends the texts of the nodes `ids` refers to, with `sep` between them.
fn fmt_expr_ids(ids: &Vec<ExprId>, sep: &str, m: &Module, f: &mut String, Ghost(k): Ghost<nat>, Ghost(rk): Ghost<Ranking>)
    requires
        rk.valid(m),
        forall|i: int| 0 <= i < ids@.len() ==> rk.below(k)(NodeRef::Expr(#[trigger] ids@[i].index())),
    ensures
        final(f)@ == old(f)@ + seq_join(expr_texts(m, rk, ids@, k), sep@),
    decreases k, 0nat, 1nat,
{
    let ghost start = f@;
    let ghost texts = expr_texts(m, rk, ids@, k);
    let n = ids.len();
    for i in 0..n
        invariant
            n == ids@.len(),
            rk.valid(m),
            forall|j: int| 0 <= j < ids@.len() ==> rk.below(k)(NodeRef::Expr(#[trigger] ids@[j].index())),
            texts == expr_texts(m, rk, ids@, k),
            texts.len() == n,
            f@ == start + seq_join(texts.take(i as int), sep@),
    {
        proof {
            assert(texts.take(i + 1) =~= texts.take(i as int).push(texts[i as int]));
            lemma_seq_join_push(texts.take(i as int), texts[i as int], sep@);
            assert(rk.below(k)(NodeRef::Expr(ids@[i as int].index())));
            if i == 0 {
                assert(texts.take(0) =~= Seq::<Seq<char>>::empty());
            }
        }
        if i > 0 {
            f.append(sep);
        }
        fmt_expr_id(ids[i], m, f, Ghost(rk));
        proof {
            assert(f@ =~= start + seq_join(texts.take(i + 1), sep@));
        }
    }
    assert(texts.take(n as int) =~= texts);
}

/// Appends the texts of the nodes `ids` refers to, with `sep` between them.
fn fmt_pattern_ids(ids: &Vec<PatternId>, sep: &str, m: &Module, f: &mut String, Ghost(k): Ghost<nat>, Ghost(rk): Ghost<Ranking>)
    requires
        rk.valid(m),
        forall|i: int| 0 <= i < ids@.len() ==> rk.below(k)(NodeRef::Pattern(#[trigger] ids@[i].index())),
    ensures
        final(f)@ == old(f)@ + seq_join(pattern_texts(m, rk, ids@, k), sep@),
    decreases k, 0nat, 1nat,
{
    let ghost start = f@;
    let ghost texts = pattern_texts(m, rk, ids@, k);
    let n = ids.len();
    for i in 0..n
        invariant
            n == ids@.len(),
            rk.valid(m),
            forall|j: int| 0 <= j < ids@.len() ==> rk.below(k)(NodeRef::Pattern(#[trigger] ids@[j].index())),
            texts == pattern_texts(m, rk, ids@, k),
            texts.len() == n,
            f@ == start + seq_join(texts.take(i as int), sep@),
    {
        proof {
            assert(texts.take(i + 1) =~= texts.take(i as int).push(texts[i as int]));
            lemma_seq_join_push(texts.take(i as int), texts[i as int], sep@);
            assert(rk.below(k)(NodeRef::Pattern(ids@[i as int].index())));
            if i == 0 {
                assert(texts.take(0) =~= Seq::<Seq<char>>::empty());
            }
        }
        if i > 0 {
            f.append(sep);
        }
        fmt_pattern_id(ids[i], m, f, Ghost(rk));
        proof {
            assert(f@ =~= start + seq_join(texts.take(i + 1), sep@));
        }
    }
    assert(texts.take(n as int) =~= texts);
}

/// Appends the texts of the nodes `ids` refers to, with `sep` between them.
fn fmt_clause_ids(ids: &Vec<FunctionClauseId>, sep: &str, m: &Module, f: &mut String, Ghost(k): Ghost<nat>, Ghost(rk): Ghost<Ranking>)
    requires
        rk.valid(m),
        forall|i: int| 0 <= i < ids@.len() ==> rk.below(k)(NodeRef::Clause(#[trigger] ids@[i].index())),
    ensures
        final(f)@ == old(f)@ + seq_join(clause_texts(m, rk, ids@, k), sep@),
    decreases k, 0nat, 1nat,
{
    let ghost start = f@;
    let ghost texts = clause_texts(m, rk, ids@, k);
    let n = ids.len();
    for i in 0..n
        invariant
            n == ids@.len(),
            rk.valid(m),
            forall|j: int| 0 <= j < ids@.len() ==> rk.below(k)(NodeRef::Clause(#[trigger] ids@[j].index())),
            texts == clause_texts(m, rk, ids@, k),
            texts.len() == n,
            f@ == start + seq_join(texts.take(i as int), sep@),
    {
        proof {
            assert(texts.take(i + 1) =~= texts.take(i as int).push(texts[i as int]));
            lemma_seq_join_push(texts.take(i as int), texts[i as int], sep@);
            assert(rk.below(k)(NodeRef::Clause(ids@[i as int].index())));
            if i == 0 {
                assert(texts.take(0) =~= Seq::<Seq<char>>::empty());
            }
        }
        if i > 0 {
            f.append(sep);
        }
        fmt_clause_id(ids[i], m, f, Ghost(rk));
        proof {
            assert(f@ =~= start + seq_join(texts.take(i + 1), sep@));
        }
    }
    assert(texts.take(n as int) =~= texts);
}

/// Appends the texts of `items`, with `sep` between them.
fn fmt_case_list(items: &Vec<CaseClause>, sep: &str, m: &Module, f: &mut String, Ghost(k): Ghost<nat>, Ghost(rk): Ghost<Ranking>)
    requires
        rk.valid(m),
        cases_refs(items@, rk.below(k)),
    ensures
        final(f)@ == old(f)@ + seq_join(case_texts(m, rk, items@, k), sep@),
    decreases k, 0nat, 1nat,
{
    let ghost start = f@;
    let ghost texts = case_texts(m, rk, items@, k);
    let n = items.len();
    for i in 0..n
        invariant
            n == items@.len(),
            rk.valid(m),
            cases_refs(items@, rk.below(k)),
            texts == case_texts(m, rk, items@, k),
            texts.len() == n,
            f@ == start + seq_join(texts.take(i as int), sep@),
    {
        proof {
            assert(texts.take(i + 1) =~= texts.take(i as int).push(texts[i as int]));
            lemma_seq_join_push(texts.take(i as int), texts[i as int], sep@);
            if i == 0 {
                assert(texts.take(0) =~= Seq::<Seq<char>>::empty());
            }
            assert(rk.below(k)(NodeRef::Pattern(items@[i as int].0.index())));
        }
        if i > 0 {
            f.append(sep);
        }
        fmt_case(&items[i], m, f, Ghost(k), Ghost(rk));
        proof {
            assert(f@ =~= start + seq_join(texts.take(i + 1), sep@));
        }
    }
    assert(texts.take(n as int) =~= texts);
}

/// Appends the texts of `items`, with `sep` between them.
fn fmt_map_pairs(items: &Vec<(ExprId, ExprId)>, sep: &str, m: &Module, f: &mut String, Ghost(k): Ghost<nat>, Ghost(rk): Ghost<Ranking>)
    requires
        rk.valid(m),
        map_pairs_refs(items@, rk.below(k)),
    ensures
        final(f)@ == old(f)@ + seq_join(map_pair_texts(m, rk, items@, k), sep@),
    decreases k, 0nat, 1nat,
{
    let ghost start = f@;
    let ghost texts = map_pair_texts(m, rk, items@, k);
    let n = items.len();
    for i in 0..n
        invariant
            n == items@.len(),
            rk.valid(m),
            map_pairs_refs(items@, rk.below(k)),
            texts == map_pair_texts(m, rk, items@, k),
            texts.len() == n,
            f@ == start + seq_join(texts.take(i as int), sep@),
    {
        proof {
            assert(texts.take(i + 1) =~= texts.take(i as int).push(texts[i as int]));
            lemma_seq_join_push(texts.take(i as int), texts[i as int], sep@);
            if i == 0 {
                assert(texts.take(0) =~= Seq::<Seq<char>>::empty());
            }
            assert(rk.below(k)(NodeRef::Expr(items@[i as int].0.index())));
        }
        if i > 0 {
            f.append(sep);
        }
        fmt_map_pair(&items[i], m, f, Ghost(k), Ghost(rk));
        proof {
            assert(f@ =~= start + seq_join(texts.take(i + 1), sep@));
        }
    }
    assert(texts.take(n as int) =~= texts);
}

/// Appends the texts of `items`, with `sep` between them.
fn fmt_bitstring_elems(items: &Vec<BitstringElement>, sep: &str, m: &Module, f: &mut String, Ghost(k): Ghost<nat>, Ghost(rk): Ghost<Ranking>)
    requires
        rk.valid(m),
        bitstring_refs(items@, rk.below(k)),
    ensures
        final(f)@ == old(f)@ + seq_join(bitstring_elem_texts(m, rk, items@, k), sep@),
    decreases k, 0nat, 2nat,
{
    let ghost start = f@;
    let ghost texts = bitstring_elem_texts(m, rk, items@, k);
    let n = items.len();
    for i in 0..n
        invariant
            n == items@.len(),
            rk.valid(m),
            bitstring_refs(items@, rk.below(k)),
            texts == bitstring_elem_texts(m, rk, items@, k),
            texts.len() == n,
            f@ == start + seq_join(texts.take(i as int), sep@),
    {
        proof {
            assert(texts.take(i + 1) =~= texts.take(i as int).push(texts[i as int]));
            lemma_seq_join_push(texts.take(i as int), texts[i as int], sep@);
            if i == 0 {
                assert(texts.take(0) =~= Seq::<Seq<char>>::empty());
            }
            assert(rk.below(k)(NodeRef::Expr(items@[i as int].0.index())));
        }
        if i > 0 {
            f.append(sep);
        }
        fmt_bitstring_elem(&items[i], m, f, Ghost(k), Ghost(rk));
        proof {
            assert(f@ =~= start + seq_join(texts.take(i + 1), sep@));
        }
    }
    assert(texts.take(n as int) =~= texts);
}

/// Appends the texts of `items`, with `sep` between them.
fn fmt_bitstring_pattern_elems(items: &Vec<BitstringPatternElement>, sep: &str, m: &Module, f: &mut String, Ghost(k): Ghost<nat>, Ghost(rk): Ghost<Ranking>)
    requires
        rk.valid(m),
        bitstring_pattern_refs(items@, rk.below(k)),
    ensures
        final(f)@ == old(f)@ + seq_join(bitstring_pattern_elem_texts(m, rk, items@, k), sep@),
    decreases k, 0nat, 2nat,
{
    let ghost start = f@;
    let ghost texts = bitstring_pattern_elem_texts(m, rk, items@, k);
    let n = items.len();
    for i in 0..n
        invariant
            n == items@.len(),
            rk.valid(m),
            bitstring_pattern_refs(items@, rk.below(k)),
            texts == bitstring_pattern_elem_texts(m, rk, items@, k),
            texts.len() == n,
            f@ == start + seq_join(texts.take(i as int), sep@),
    {
        proof {
            assert(texts.take(i + 1) =~= texts.take(i as int).push(texts[i as int]));
            lemma_seq_join_push(texts.take(i as int), texts[i as int], sep@);
            if i == 0 {
                assert(texts.take(0) =~= Seq::<Seq<char>>::empty());
            }
            assert(rk.below(k)(NodeRef::Pattern(items@[i as int].0.index())));
        }
        if i > 0 {
            f.append(sep);
        }
        fmt_bitstring_pattern_elem(&items[i], m, f, Ghost(k), Ghost(rk));
        proof {
            assert(f@ =~= start + seq_join(texts.take(i + 1), sep@));
        }
    }
    assert(texts.take(n as int) =~= texts);
}

/// Appends the texts of `items`, with `sep` between them.
fn fmt_map_pattern_pairs(items: &Vec<(ExprId, PatternId)>, sep: &str, m: &Module, f: &mut String, Ghost(k): Ghost<nat>, Ghost(rk): Ghost<Ranking>)
    requires
        rk.valid(m),
        map_pattern_pairs_refs(items@, rk.below(k)),
    ensures
        final(f)@ == old(f)@ + seq_join(map_pattern_pair_texts(m, rk, items@, k), sep@),
    decreases k, 0nat, 1nat,
{
    let ghost start = f@;
    let ghost texts = map_pattern_pair_texts(m, rk, items@, k);
    let n = items.len();
    for i in 0..n
        invariant
            n == items@.len(),
            rk.valid(m),
            map_pattern_pairs_refs(items@, rk.below(k)),
            texts == map_pattern_pair_texts(m, rk, items@, k),
            texts.len() == n,
            f@ == start + seq_join(texts.take(i as int), sep@),
    {
        proof {
            assert(texts.take(i + 1) =~= texts.take(i as int).push(texts[i as int]));
            lemma_seq_join_push(texts.take(i as int), texts[i as int], sep@);
            if i == 0 {
                assert(texts.take(0) =~= Seq::<Seq<char>>::empty());
            }
            assert(rk.below(k)(NodeRef::Expr(items@[i as int].0.index())));
        }
        if i > 0 {
            f.append(sep);
        }
        fmt_map_pattern_pair(&items[i], m, f, Ghost(k), Ghost(rk));
        proof {
            assert(f@ =~= start + seq_join(texts.take(i + 1), sep@));
        }
    }
    assert(texts.take(n as int) =~= texts);
}

/// Appends the texts of `items`, with `sep` between them.
fn fmt_celems(items: &Vec<ComprehensionElement>, sep: &str, m: &Module, f: &mut String, Ghost(k): Ghost<nat>, Ghost(rk): Ghost<Ranking>)
    requires
        rk.valid(m),
        celems_refs(items@, rk.below(k)),
    ensures
        final(f)@ == old(f)@ + seq_join(celem_texts(m, rk, items@, k), sep@),
    decreases k, 0nat, 1nat,
{
    let ghost start = f@;
    let ghost texts = celem_texts(m, rk, items@, k);
    let n = items.len();
    for i in 0..n
        invariant
            n == items@.len(),
            rk.valid(m),
            celems_refs(items@, rk.below(k)),
            texts == celem_texts(m, rk, items@, k),
            texts.len() == n,
            f@ == start + seq_join(texts.take(i as int), sep@),
    {
        proof {
            assert(texts.take(i + 1) =~= texts.take(i as int).push(texts[i as int]));
            lemma_seq_join_push(texts.take(i as int), texts[i as int], sep@);
            if i == 0 {
                assert(texts.take(0) =~= Seq::<Seq<char>>::empty());
            }
            assert(celem_refs(items@[i as int], rk.below(k)));
        }
        if i > 0 {
            f.append(sep);
        }
        fmt_celem(&items[i], m, f, Ghost(k), Ghost(rk));
        proof {
            assert(f@ =~= start + seq_join(texts.take(i + 1), sep@));
        }
    }
    assert(texts.take(n as int) =~= texts);
}

/// Appends the texts of `items`, with `sep` between them.
fn fmt_maybes(items: &Vec<MaybeExpr>, sep: &str, m: &Module, f: &mut String, Ghost(k): Ghost<nat>, Ghost(rk): Ghost<Ranking>)
    requires
        rk.valid(m),
        forall|i: int| 0 <= i < items@.len() ==> maybe_refs(#[trigger] items@[i], rk.below(k)),
    ensures
        final(f)@ == old(f)@ + seq_join(maybe_texts(m, rk, items@, k), sep@),
    decreases k, 0nat, 1nat,
{
    let ghost start = f@;
    let ghost texts = maybe_texts(m, rk, items@, k);
    let n = items.len();
    for i in 0..n
        invariant
            n == items@.len(),
            rk.valid(m),
            forall|j: int| 0 <= j < items@.len() ==> maybe_refs(#[trigger] items@[j], rk.below(k)),
            texts == maybe_texts(m, rk, items@, k),
            texts.len() == n,
            f@ == start + seq_join(texts.take(i as int), sep@),
    {
        proof {
            assert(texts.take(i + 1) =~= texts.take(i as int).push(texts[i as int]));
            lemma_seq_join_push(texts.take(i as int), texts[i as int], sep@);
            if i == 0 {
                assert(texts.take(0) =~= Seq::<Seq<char>>::empty());
            }
            assert(maybe_refs(items@[i as int], rk.below(k)));
        }
        if i > 0 {
            f.append(sep);
        }
        fmt_maybe(&items[i], m, f, Ghost(k), Ghost(rk));
        proof {
            assert(f@ =~= start + seq_join(texts.take(i + 1), sep@));
        }
    }
    assert(texts.take(n as int) =~= texts);
}

impl AstNode for ExprId {
    /// The text of the expression.
    open spec fn text(&self, module: &Module) -> Seq<char> {
        expr_text(module, canonical_ranking(module), *self)
    }

    fn fmt(&self, module: &Module, f: &mut String) {
        proof {
            lemma_canonical_ranking(module);
        }
        fmt_expr_id(*self, module, f, Ghost(canonical_ranking(module)));
    }
}

impl AstNode for PatternId {
    /// The text of the pattern.
    open spec fn text(&self, module: &Module) -> Seq<char> {
        pattern_text(module, canonical_ranking(module), *self)
    }

    fn fmt(&self, module: &Module, f: &mut String) {
        proof {
            lemma_canonical_ranking(module);
        }
        fmt_pattern_id(*self, module, f, Ghost(canonical_ranking(module)));
    }
}

impl AstNode for BodyId {
    /// The text of the body.
    open spec fn text(&self, module: &Module) -> Seq<char> {
        body_text(module, canonical_ranking(module), *self)
    }

    fn fmt(&self, module: &Module, f: &mut String) {
        proof {
            lemma_canonical_ranking(module);
        }
        fmt_body_id(*self, module, f, Ghost(canonical_ranking(module)));
    }
}

impl AstNode for GuardSeqId {
    /// The text of the guard sequence.
    open spec fn text(&self, module: &Module) -> Seq<char> {
        guard_text(module, canonical_ranking(module), *self)
    }

    fn fmt(&self, module: &Module, f: &mut String) {
        proof {
            lemma_canonical_ranking(module);
        }
        fmt_guard_id(*self, module, f, Ghost(canonical_ranking(module)));
    }
}

impl AstNode for FunctionClauseId {
    /// The text of the function clause.
    open spec fn text(&self, module: &Module) -> Seq<char> {
        clause_text(module, canonical_ranking(module), *self)
    }

    fn fmt(&self, module: &Module, f: &mut String) {
        proof {
            lemma_canonical_ranking(module);
        }
        fmt_clause_id(*self, module, f, Ghost(canonical_ranking(module)));
    }
}

impl AstNode for Expr {
    /// The text of the expression.
    open spec fn text(&self, module: &Module) -> Seq<char> {
        expr_node_text(module, canonical_ranking(module), *self, fuel_for(module, |p: spec_fn(NodeRef) -> bool| expr_refs(*self, p)))
    }

    fn fmt(&self, module: &Module, f: &mut String) {
        proof {
            lemma_canonical_ranking(module);
        }
        let ghost k = fuel_for(module, |p: spec_fn(NodeRef) -> bool| expr_refs(*self, p));
        fmt_expr_node(self, module, f, Ghost(k), Ghost(canonical_ranking(module)));
    }
}

impl AstNode for Pattern {
    /// The text of the pattern.
    open spec fn text(&self, module: &Module) -> Seq<char> {
        pattern_node_text(module, canonical_ranking(module), *self, fuel_for(module, |p: spec_fn(NodeRef) -> bool| pattern_refs(*self, p)))
    }

    fn fmt(&self, module: &Module, f: &mut String) {
        proof {
            lemma_canonical_ranking(module);
        }
        let ghost k = fuel_for(module, |p: spec_fn(NodeRef) -> bool| pattern_refs(*self, p));
        fmt_pattern_node(self, module, f, Ghost(k), Ghost(canonical_ranking(module)));
    }
}

impl AstNode for Body {
    /// The text of the body.
    open spec fn text(&self, module: &Module) -> Seq<char> {
        body_node_text(module, canonical_ranking(module), *self, fuel_for(module, |p: spec_fn(NodeRef) -> bool| body_refs(*self, p)))
    }

    fn fmt(&self, module: &Module, f: &mut String) {
        proof {
            lemma_canonical_ranking(module);
        }
        let ghost k = fuel_for(module, |p: spec_fn(NodeRef) -> bool| body_refs(*self, p));
        fmt_body_node(self, module, f, Ghost(k), Ghost(canonical_ranking(module)));
    }
}

impl AstNode for GuardSeq {
    /// The text of the guard sequence.
    open spec fn text(&self, module: &Module) -> Seq<char> {
        guard_node_text(module, canonical_ranking(module), *self, fuel_for(module, |p: spec_fn(NodeRef) -> bool| guard_refs(*self, p)))
    }

    fn fmt(&self, module: &Module, f: &mut String) {
        proof {
            lemma_canonical_ranking(module);
        }
        let ghost k = fuel_for(module, |p: spec_fn(NodeRef) -> bool| guard_refs(*self, p));
        fmt_guard_node(self, module, f, Ghost(k), Ghost(canonical_ranking(module)));
    }
}

impl AstNode for FunctionClause {
    /// The text of the function clause.
    open spec fn text(&self, module: &Module) -> Seq<char> {
        clause_node_text(module, canonical_ranking(module), *self, fuel_for(module, |p: spec_fn(NodeRef) -> bool| clause_refs(*self, p)))
    }

    fn fmt(&self, module: &Module, f: &mut String) {
        proof {
            lemma_canonical_ranking(module);
        }
        let ghost k = fuel_for(module, |p: spec_fn(NodeRef) -> bool| clause_refs(*self, p));
        fmt_clause_node(self, module, f, Ghost(k), Ghost(canonical_ranking(module)));
    }
}

impl AstNode for ComprehensionElement {
    /// The text of the generator or filter.
    open spec fn text(&self, module: &Module) -> Seq<char> {
        celem_text(module, canonical_ranking(module), *self, fuel_for(module, |p: spec_fn(NodeRef) -> bool| celem_refs(*self, p)))
    }

    fn fmt(&self, module: &Module, f: &mut String) {
        proof {
            lemma_canonical_ranking(module);
        }
        let ghost k = fuel_for(module, |p: spec_fn(NodeRef) -> bool| celem_refs(*self, p));
        fmt_celem(self, module, f, Ghost(k), Ghost(canonical_ranking(module)));
    }
}

impl AstNode for MaybeExpr {
    /// The text of the expression.
    open spec fn text(&self, module: &Module) -> Seq<char> {
        maybe_text(module, canonical_ranking(module), *self, fuel_for(module, |p: spec_fn(NodeRef) -> bool| maybe_refs(*self, p)))
    }

    fn fmt(&self, module: &Module, f: &mut String) {
        proof {
            lemma_canonical_ranking(module);
        }
        let ghost k = fuel_for(module, |p: spec_fn(NodeRef) -> bool| maybe_refs(*self, p));
        fmt_maybe(self, module, f, Ghost(k), Ghost(canonical_ranking(module)));
    }
}

/// Appends the text of a function declaration whose clauses rank below `k`.
fn fmt_declaration(d: &FunctionDeclaration, m: &Module, f: &mut String, Ghost(k): Ghost<nat>, Ghost(rk): Ghost<Ranking>)
    requires
        rk.valid(m),
        declaration_refs(*d, rk.below(k)),
    ensures
        final(f)@ == old(f)@ + declaration_text(m, rk, *d, k),
{
    let ghost start = f@;
    fmt_clause_ids(&d.clauses, ";\n", m, f, Ghost(k), Ghost(rk));
    f.append(".");
    assert(f@ =~= start + declaration_text(m, rk, *d, k));
}

impl AstNode for FunctionDeclaration {
    /// The text of the declaration: its clauses, separated by a semicolon and
    /// a new line, and a full stop.
    open spec fn text(&self, module: &Module) -> Seq<char> {
        declaration_text(
            module,
            canonical_ranking(module),
            *self,
            fuel_for(module, |p: spec_fn(NodeRef) -> bool| declaration_refs(*self, p)),
        )
    }

    fn fmt(&self, module: &Module, f: &mut String) {
        proof {
            lemma_canonical_ranking(module);
        }
        let ghost k = fuel_for(module, |p: spec_fn(NodeRef) -> bool| declaration_refs(*self, p));
        fmt_declaration(self, module, f, Ghost(k), Ghost(canonical_ranking(module)));
    }
}

/// A boolean as Rust writes it.
pub open spec fn bool_text(b: bool) -> Seq<char> {
    if b {
        "true"@
    } else {
        "false"@
    }
}

fn write_bool(f: &mut String, b: bool)
    ensures
        final(f)@ == old(f)@ + bool_text(b),
{
    if b {
        f.append("true");
    } else {
        f.append("false");
    }
}

impl<'a> Module<'a> {
    /// The comment lines that record how the module was generated, the
    /// feature line when `maybe` is enabled, and the module attributes.
    pub open spec fn header_text(&self) -> Seq<char> {
        let c = self.spec_config();
        "% initial seed: "@ + decimal(self.spec_initial_seed() as nat) + "\n"@ + "% max-size: "@ + decimal(
            c.max_size as nat,
        ) + "\n"@ + "% max-recursion-depth: "@ + decimal(c.max_recursion_depth as nat) + "\n"@
            + "% disable-shadowing: "@ + bool_text(c.disable_shadowing) + "\n"@ + "% disable-maybe: "@
            + bool_text(c.disable_maybe) + "\n"@ + "% deterministic: "@ + bool_text(c.deterministic)
            + "\n"@ + "% wrapper: "@ + c.wrapper_mode@ + "\n"@ + (if !c.disable_maybe {
            "-feature(maybe_expr, enable).\n"@
        } else {
            Seq::empty()
        }) + "-module("@ + self.spec_module_name()@ + ").\n"@ + "-compile([export_all])."@
    }

    /// The condition that a set of nodes holds the clauses of every function
    /// declaration.
    pub open spec fn declarations_ok(&self) -> spec_fn(spec_fn(NodeRef) -> bool) -> bool {
        |p: spec_fn(NodeRef) -> bool|
            forall|i: int| 0 <= i < self.spec_functions().len() ==> declaration_refs(#[trigger] self.spec_functions()[i], p)
    }

    /// Following references from the function declarations ends, at nodes of
    /// the module: the canonical ranking ranks their clauses, below some bound.
    pub open spec fn printable(&self) -> bool {
        ranked_for(self, self.declarations_ok())
    }

    /// A bound on the ranks of the clauses of the function declarations.
    pub open spec fn print_fuel(&self) -> nat {
        fuel_for(self, self.declarations_ok())
    }

    /// The first `n` function declarations, each after an empty line.
    pub open spec fn declarations_text(&self, n: nat) -> Seq<char>
        decreases n,
    {
        if n == 0 || n > self.spec_functions().len() {
            Seq::empty()
        } else {
            self.declarations_text((n - 1) as nat) + "\n\n"@ + declaration_text(
                self,
                canonical_ranking(self),
                self.spec_functions()[n - 1],
                self.print_fuel(),
            )
        }
    }

    /// The text of the whole module: header and function declarations.
    pub open spec fn text(&self) -> Seq<char> {
        self.header_text() + self.declarations_text(self.spec_functions().len())
    }

    /// The text of the whole module (see `text`).
    pub fn to_string(&self) -> (r: String)
        requires
            self.printable(),
        ensures
            r@ == self.text(),
    {
        proof {
            lemma_canonical_ranking(self);
        }
        let ghost rk = canonical_ranking(self);
        let ghost k = self.print_fuel();
        let config = self.config();
        let mut f = String::new();
        f.append("% initial seed: ");
        write_decimal(&mut f, self.initial_seed());
        f.append("\n");
        f.append("% max-size: ");
        write_decimal(&mut f, config.max_size as u64);
        f.append("\n");
        f.append("% max-recursion-depth: ");
        write_decimal(&mut f, config.max_recursion_depth as u64);
        f.append("\n");
        f.append("% disable-shadowing: ");
        write_bool(&mut f, config.disable_shadowing);
        f.append("\n");
        f.append("% disable-maybe: ");
        write_bool(&mut f, config.disable_maybe);
        f.append("\n");
        f.append("% deterministic: ");
        write_bool(&mut f, config.deterministic);
        f.append("\n");
        f.append("% wrapper: ");
        f.append(config.wrapper_mode.as_str());
        f.append("\n");
        let ghost before_feature = f@;
        if !config.disable_maybe {
            f.append("-feature(maybe_expr, enable).\n");
        }
        assert(f@ =~= before_feature + (if !config.disable_maybe {
            "-feature(maybe_expr, enable).\n"@
        } else {
            Seq::<char>::empty()
        }));
        f.append("-module(");
        f.append(self.module_name());
        f.append(").\n");
        f.append("-compile([export_all]).");
        assert(f@ =~= self.header_text());
        let functions = self.functions();
        let n = functions.len();
        for i in 0..n
            invariant
                n == self.spec_functions().len(),
                functions@ == self.spec_functions(),
                rk == canonical_ranking(self),
                k == self.print_fuel(),
                rk.valid(self),
                (self.declarations_ok())(rk.below(k)),
                f@ == self.header_text() + self.declarations_text(i as nat),
        {
            f.append("\n\n");
            proof {
                assert(declaration_refs(self.spec_functions()[i as int], rk.below(k)));
            }
            fmt_declaration(&functions[i], self, &mut f, Ghost(k), Ghost(rk));
            assert(f@ =~= self.header_text() + self.declarations_text((i + 1) as nat));
        }
        f
    }
}

} // verus!
