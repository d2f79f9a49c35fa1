//! Deciding at run time what a module allows: listing what each
//! node refers to, ranking the nodes round by round, and deciding whether a
//! module is well formed and whether it can be printed.
use vstd::prelude::*;

use crate::ast::module::{ExprId, FunctionClauseId, Module, PatternId};
use crate::ast::nodes::{
    BitstringElement, BitstringPatternElement, Body, CaseClause, ComprehensionElement, Expr, FunctionClause, GuardSeq,
    MaybeExpr, Pattern,
};
use crate::ast::wf::{
    bitstring_pattern_refs, bitstring_refs, body_refs, cases_refs, celem_refs, celems_refs, clause_refs,
    declaration_refs, expr_refs, guard_refs, lemma_node_refs_mono, map_pairs_refs, map_pattern_pairs_refs, maybe_refs,
    node_refs, opt_cases_refs, pattern_refs, size_refs, full_ranking, lemma_full_ranking, canonical_ranking, lemma_canonical_ranking, NodeKey, NodeRef, Ranking,
};

verus! {

/// Whether every key of `ks` satisfies `p`.
pub open spec fn keys_satisfy(ks: Seq<NodeKey>, p: spec_fn(NodeRef) -> bool) -> bool {
    forall|i: int| 0 <= i < ks.len() ==> p(#[trigger] ks[i]@)
}

proof fn lemma_keys_push(ks: Seq<NodeKey>, k: NodeKey)
    ensures
        forall|p: spec_fn(NodeRef) -> bool| #[trigger] keys_satisfy(ks.push(k), p) <==> keys_satisfy(ks, p) && p(k@),
{
    assert forall|p: spec_fn(NodeRef) -> bool| #[trigger] keys_satisfy(ks.push(k), p) <==> keys_satisfy(ks, p) && p(k@) by {
        if keys_satisfy(ks.push(k), p) {
            assert forall|i: int| 0 <= i < ks.len() implies p(#[trigger] ks[i]@) by {
                assert(ks.push(k)[i] == ks[i]);
            }
            assert(ks.push(k)[ks.len() as int] == k);
        }
        if keys_satisfy(ks, p) && p(k@) {
            assert forall|i: int| 0 <= i < ks.push(k).len() implies p(#[trigger] ks.push(k)[i]@) by {
                if i < ks.len() {
                    assert(ks.push(k)[i] == ks[i]);
                }
            }
        }
    }
}

fn push_key(v: &mut Vec<NodeKey>, k: NodeKey)
    ensures
        final(v)@ == old(v)@.push(k),
        forall|p: spec_fn(NodeRef) -> bool| #[trigger] keys_satisfy(final(v)@, p) <==> keys_satisfy(old(v)@, p) && p(k@),
{
    proof {
        lemma_keys_push(v@, k);
    }
    v.push(k);
}

/// The node the expression identifier refers to satisfies `p`.
spec fn expr_id_refs(x: ExprId, p: spec_fn(NodeRef) -> bool) -> bool {
    p(NodeRef::Expr(x.index()))
}

/// The node the pattern identifier refers to satisfies `p`.
spec fn pattern_id_refs(x: PatternId, p: spec_fn(NodeRef) -> bool) -> bool {
    p(NodeRef::Pattern(x.index()))
}

/// The node the clause identifier refers to satisfies `p`.
spec fn clause_id_refs(x: FunctionClauseId, p: spec_fn(NodeRef) -> bool) -> bool {
    p(NodeRef::Clause(x.index()))
}

/// The nodes a case clause refers to satisfy `p`.
spec fn case_refs(c: CaseClause, p: spec_fn(NodeRef) -> bool) -> bool {
    p(NodeRef::Pattern(c.0.index())) && p(NodeRef::Guard(c.1.index())) && p(NodeRef::Body(c.2.index()))
}

/// The nodes an association of a map literal refers to satisfy `p`.
spec fn expr_pair_refs(kv: (ExprId, ExprId), p: spec_fn(NodeRef) -> bool) -> bool {
    p(NodeRef::Expr(kv.0.index())) && p(NodeRef::Expr(kv.1.index()))
}

/// The nodes an association of a map pattern refers to satisfy `p`.
spec fn pattern_pair_refs(kv: (ExprId, PatternId), p: spec_fn(NodeRef) -> bool) -> bool {
    p(NodeRef::Expr(kv.0.index())) && p(NodeRef::Pattern(kv.1.index()))
}

/// The nodes a segment of a bitstring construction refers to satisfy `p`.
spec fn segment_refs(el: BitstringElement, p: spec_fn(NodeRef) -> bool) -> bool {
    p(NodeRef::Expr(el.0.index())) && size_refs(el.1, p)
}

/// The nodes a segment of a bitstring pattern refers to satisfy `p`.
spec fn pattern_segment_refs(el: BitstringPatternElement, p: spec_fn(NodeRef) -> bool) -> bool {
    p(NodeRef::Pattern(el.0.index())) && size_refs(el.1, p)
}

fn push_case_keys(v: &mut Vec<NodeKey>, c: &CaseClause)
    ensures
        forall|p: spec_fn(NodeRef) -> bool| #[trigger] keys_satisfy(final(v)@, p) <==> keys_satisfy(old(v)@, p)
            && case_refs(*c, p),
{
    push_key(v, c.0.key());
    push_key(v, c.1.key());
    push_key(v, c.2.key());
}

fn push_size_key(v: &mut Vec<NodeKey>, size: &Option<ExprId>)
    ensures
        forall|p: spec_fn(NodeRef) -> bool| #[trigger] keys_satisfy(final(v)@, p) <==> keys_satisfy(old(v)@, p)
            && size_refs(*size, p),
{
    match size {
        Some(s) => push_key(v, s.key()),
        None => {},
    }
}

fn push_celem_keys(v: &mut Vec<NodeKey>, ce: &ComprehensionElement)
    ensures
        forall|p: spec_fn(NodeRef) -> bool| #[trigger] keys_satisfy(final(v)@, p) <==> keys_satisfy(old(v)@, p)
            && celem_refs(*ce, p),
{
    match ce {
        ComprehensionElement::ListGenerator(q, e) => {
            push_key(v, q.key());
            push_key(v, e.key());
        },
        ComprehensionElement::BitstringGenerator(q, e) => {
            push_key(v, q.key());
            push_key(v, e.key());
        },
        ComprehensionElement::MapGenerator(k, x, e) => {
            push_key(v, k.key());
            push_key(v, x.key());
            push_key(v, e.key());
        },
        ComprehensionElement::Filter(e) => {
            push_key(v, e.key());
        },
    }
}

fn push_maybe_key(v: &mut Vec<NodeKey>, me: &MaybeExpr)
    ensures
        forall|p: spec_fn(NodeRef) -> bool| #[trigger] keys_satisfy(final(v)@, p) <==> keys_satisfy(old(v)@, p)
            && maybe_refs(*me, p),
{
    match me {
        MaybeExpr::Normal(e) => {
            push_key(v, e.key());
        },
        MaybeExpr::MaybeAssignment(q, e) => {
            push_key(v, q.key());
            push_key(v, e.key());
        },
    }
}

fn push_expr_pair_keys(v: &mut Vec<NodeKey>, kv: &(ExprId, ExprId))
    ensures
        forall|p: spec_fn(NodeRef) -> bool| #[trigger] keys_satisfy(final(v)@, p) <==> keys_satisfy(old(v)@, p)
            && expr_pair_refs(*kv, p),
{
    push_key(v, kv.0.key());
    push_key(v, kv.1.key());
}

fn push_pattern_pair_keys(v: &mut Vec<NodeKey>, kv: &(ExprId, PatternId))
    ensures
        forall|p: spec_fn(NodeRef) -> bool| #[trigger] keys_satisfy(final(v)@, p) <==> keys_satisfy(old(v)@, p)
            && pattern_pair_refs(*kv, p),
{
    push_key(v, kv.0.key());
    push_key(v, kv.1.key());
}

fn push_segment_keys(v: &mut Vec<NodeKey>, el: &BitstringElement)
    ensures
        forall|p: spec_fn(NodeRef) -> bool| #[trigger] keys_satisfy(final(v)@, p) <==> keys_satisfy(old(v)@, p)
            && segment_refs(*el, p),
{
    push_key(v, el.0.key());
    push_size_key(v, &el.1);
}

fn push_pattern_segment_keys(v: &mut Vec<NodeKey>, el: &BitstringPatternElement)
    ensures
        forall|p: spec_fn(NodeRef) -> bool| #[trigger] keys_satisfy(final(v)@, p) <==> keys_satisfy(old(v)@, p)
            && pattern_segment_refs(*el, p),
{
    push_key(v, el.0.key());
    push_size_key(v, &el.1);
}

fn push_expr_id_key(v: &mut Vec<NodeKey>, x: &ExprId)
    ensures
        forall|p: spec_fn(NodeRef) -> bool| #[trigger] keys_satisfy(final(v)@, p) <==> keys_satisfy(old(v)@, p)
            && expr_id_refs(*x, p),
{
    push_key(v, x.key());
}

fn push_pattern_id_key(v: &mut Vec<NodeKey>, x: &PatternId)
    ensures
        forall|p: spec_fn(NodeRef) -> bool| #[trigger] keys_satisfy(final(v)@, p) <==> keys_satisfy(old(v)@, p)
            && pattern_id_refs(*x, p),
{
    push_key(v, x.key());
}

fn push_clause_id_key(v: &mut Vec<NodeKey>, x: &FunctionClauseId)
    ensures
        forall|p: spec_fn(NodeRef) -> bool| #[trigger] keys_satisfy(final(v)@, p) <==> keys_satisfy(old(v)@, p)
            && clause_id_refs(*x, p),
{
    push_key(v, x.key());
}

fn push_expr_keys(v: &mut Vec<NodeKey>, ids: &Vec<ExprId>)
    ensures
        forall|p: spec_fn(NodeRef) -> bool| #[trigger] keys_satisfy(final(v)@, p) <==> keys_satisfy(old(v)@, p)
            && (forall|j: int| 0 <= j < ids@.len() ==> p(NodeRef::Expr(#[trigger] ids@[j].index()))),
{
    let ghost start = v@;
    let n = ids.len();
    for i in 0..n
        invariant
            n == ids@.len(),
            forall|p: spec_fn(NodeRef) -> bool| #[trigger] keys_satisfy(v@, p) <==> keys_satisfy(start, p)
                && (forall|j: int| 0 <= j < i ==> expr_id_refs(#[trigger] ids@[j], p)),
    {
        let ghost before = v@;
        push_expr_id_key(v, &ids[i]);
        assert forall|p: spec_fn(NodeRef) -> bool| #[trigger] keys_satisfy(v@, p) <==> (keys_satisfy(start, p)
            && (forall|j: int| 0 <= j < i + 1 ==> expr_id_refs(#[trigger] ids@[j], p))) by {
            assert(keys_satisfy(before, p) <==> keys_satisfy(start, p) && (forall|j: int| 0 <= j < i ==> expr_id_refs(#[trigger] ids@[j], p)));
            assert(keys_satisfy(v@, p) <==> keys_satisfy(before, p) && expr_id_refs(ids@[i as int], p));
        }
    }
    assert forall|p: spec_fn(NodeRef) -> bool| #[trigger] keys_satisfy(v@, p) <==> (keys_satisfy(start, p) && (forall|j: int| 0 <= j < ids@.len() ==> p(NodeRef::Expr(#[trigger] ids@[j].index())))) by {
        assert(keys_satisfy(v@, p) <==> keys_satisfy(start, p) && (forall|j: int| 0 <= j < n ==> expr_id_refs(#[trigger] ids@[j], p)));
        assert((forall|j: int| 0 <= j < ids@.len() ==> p(NodeRef::Expr(#[trigger] ids@[j].index()))) <==> (forall|j: int| 0 <= j < n ==> expr_id_refs(#[trigger] ids@[j], p)));
    }
}

fn push_pattern_keys(v: &mut Vec<NodeKey>, ids: &Vec<PatternId>)
    ensures
        forall|p: spec_fn(NodeRef) -> bool| #[trigger] keys_satisfy(final(v)@, p) <==> keys_satisfy(old(v)@, p)
            && (forall|j: int| 0 <= j < ids@.len() ==> p(NodeRef::Pattern(#[trigger] ids@[j].index()))),
{
    let ghost start = v@;
    let n = ids.len();
    for i in 0..n
        invariant
            n == ids@.len(),
            forall|p: spec_fn(NodeRef) -> bool| #[trigger] keys_satisfy(v@, p) <==> keys_satisfy(start, p)
                && (forall|j: int| 0 <= j < i ==> pattern_id_refs(#[trigger] ids@[j], p)),
    {
        let ghost before = v@;
        push_pattern_id_key(v, &ids[i]);
        assert forall|p: spec_fn(NodeRef) -> bool| #[trigger] keys_satisfy(v@, p) <==> (keys_satisfy(start, p)
            && (forall|j: int| 0 <= j < i + 1 ==> pattern_id_refs(#[trigger] ids@[j], p))) by {
            assert(keys_satisfy(before, p) <==> keys_satisfy(start, p) && (forall|j: int| 0 <= j < i ==> pattern_id_refs(#[trigger] ids@[j], p)));
            assert(keys_satisfy(v@, p) <==> keys_satisfy(before, p) && pattern_id_refs(ids@[i as int], p));
        }
    }
    assert forall|p: spec_fn(NodeRef) -> bool| #[trigger] keys_satisfy(v@, p) <==> (keys_satisfy(start, p) && (forall|j: int| 0 <= j < ids@.len() ==> p(NodeRef::Pattern(#[trigger] ids@[j].index())))) by {
        assert(keys_satisfy(v@, p) <==> keys_satisfy(start, p) && (forall|j: int| 0 <= j < n ==> pattern_id_refs(#[trigger] ids@[j], p)));
        assert((forall|j: int| 0 <= j < ids@.len() ==> p(NodeRef::Pattern(#[trigger] ids@[j].index()))) <==> (forall|j: int| 0 <= j < n ==> pattern_id_refs(#[trigger] ids@[j], p)));
    }
}

fn push_clause_keys(v: &mut Vec<NodeKey>, ids: &Vec<FunctionClauseId>)
    ensures
        forall|p: spec_fn(NodeRef) -> bool| #[trigger] keys_satisfy(final(v)@, p) <==> keys_satisfy(old(v)@, p)
            && (forall|j: int| 0 <= j < ids@.len() ==> p(NodeRef::Clause(#[trigger] ids@[j].index()))),
{
    let ghost start = v@;
    let n = ids.len();
    for i in 0..n
        invariant
            n == ids@.len(),
            forall|p: spec_fn(NodeRef) -> bool| #[trigger] keys_satisfy(v@, p) <==> keys_satisfy(start, p)
                && (forall|j: int| 0 <= j < i ==> clause_id_refs(#[trigger] ids@[j], p)),
    {
        let ghost before = v@;
        push_clause_id_key(v, &ids[i]);
        assert forall|p: spec_fn(NodeRef) -> bool| #[trigger] keys_satisfy(v@, p) <==> (keys_satisfy(start, p)
            && (forall|j: int| 0 <= j < i + 1 ==> clause_id_refs(#[trigger] ids@[j], p))) by {
            assert(keys_satisfy(before, p) <==> keys_satisfy(start, p) && (forall|j: int| 0 <= j < i ==> clause_id_refs(#[trigger] ids@[j], p)));
            assert(keys_satisfy(v@, p) <==> keys_satisfy(before, p) && clause_id_refs(ids@[i as int], p));
        }
    }
    assert forall|p: spec_fn(NodeRef) -> bool| #[trigger] keys_satisfy(v@, p) <==> (keys_satisfy(start, p) && (forall|j: int| 0 <= j < ids@.len() ==> p(NodeRef::Clause(#[trigger] ids@[j].index())))) by {
        assert(keys_satisfy(v@, p) <==> keys_satisfy(start, p) && (forall|j: int| 0 <= j < n ==> clause_id_refs(#[trigger] ids@[j], p)));
        assert((forall|j: int| 0 <= j < ids@.len() ==> p(NodeRef::Clause(#[trigger] ids@[j].index()))) <==> (forall|j: int| 0 <= j < n ==> clause_id_refs(#[trigger] ids@[j], p)));
    }
}

fn push_cases_keys(v: &mut Vec<NodeKey>, cs: &Vec<CaseClause>)
    ensures
        forall|p: spec_fn(NodeRef) -> bool| #[trigger] keys_satisfy(final(v)@, p) <==> keys_satisfy(old(v)@, p)
            && (cases_refs(cs@, p)),
{
    let ghost start = v@;
    let n = cs.len();
    for i in 0..n
        invariant
            n == cs@.len(),
            forall|p: spec_fn(NodeRef) -> bool| #[trigger] keys_satisfy(v@, p) <==> keys_satisfy(start, p)
                && (forall|j: int| 0 <= j < i ==> case_refs(#[trigger] cs@[j], p)),
    {
        let ghost before = v@;
        push_case_keys(v, &cs[i]);
        assert forall|p: spec_fn(NodeRef) -> bool| #[trigger] keys_satisfy(v@, p) <==> (keys_satisfy(start, p)
            && (forall|j: int| 0 <= j < i + 1 ==> case_refs(#[trigger] cs@[j], p))) by {
            assert(keys_satisfy(before, p) <==> keys_satisfy(start, p) && (forall|j: int| 0 <= j < i ==> case_refs(#[trigger] cs@[j], p)));
            assert(keys_satisfy(v@, p) <==> keys_satisfy(before, p) && case_refs(cs@[i as int], p));
        }
    }
    assert forall|p: spec_fn(NodeRef) -> bool| #[trigger] keys_satisfy(v@, p) <==> (keys_satisfy(start, p) && (cases_refs(cs@, p))) by {
        assert(keys_satisfy(v@, p) <==> keys_satisfy(start, p) && (forall|j: int| 0 <= j < n ==> case_refs(#[trigger] cs@[j], p)));
        assert((cases_refs(cs@, p)) <==> (forall|j: int| 0 <= j < n ==> case_refs(#[trigger] cs@[j], p)));
    }
}

fn push_celems_keys(v: &mut Vec<NodeKey>, els: &Vec<ComprehensionElement>)
    ensures
        forall|p: spec_fn(NodeRef) -> bool| #[trigger] keys_satisfy(final(v)@, p) <==> keys_satisfy(old(v)@, p)
            && (celems_refs(els@, p)),
{
    let ghost start = v@;
    let n = els.len();
    for i in 0..n
        invariant
            n == els@.len(),
            forall|p: spec_fn(NodeRef) -> bool| #[trigger] keys_satisfy(v@, p) <==> keys_satisfy(start, p)
                && (forall|j: int| 0 <= j < i ==> celem_refs(#[trigger] els@[j], p)),
    {
        let ghost before = v@;
        push_celem_keys(v, &els[i]);
        assert forall|p: spec_fn(NodeRef) -> bool| #[trigger] keys_satisfy(v@, p) <==> (keys_satisfy(start, p)
            && (forall|j: int| 0 <= j < i + 1 ==> celem_refs(#[trigger] els@[j], p))) by {
            assert(keys_satisfy(before, p) <==> keys_satisfy(start, p) && (forall|j: int| 0 <= j < i ==> celem_refs(#[trigger] els@[j], p)));
            assert(keys_satisfy(v@, p) <==> keys_satisfy(before, p) && celem_refs(els@[i as int], p));
        }
    }
    assert forall|p: spec_fn(NodeRef) -> bool| #[trigger] keys_satisfy(v@, p) <==> (keys_satisfy(start, p) && (celems_refs(els@, p))) by {
        assert(keys_satisfy(v@, p) <==> keys_satisfy(start, p) && (forall|j: int| 0 <= j < n ==> celem_refs(#[trigger] els@[j], p)));
        assert((celems_refs(els@, p)) <==> (forall|j: int| 0 <= j < n ==> celem_refs(#[trigger] els@[j], p)));
    }
}

fn push_maybe_keys(v: &mut Vec<NodeKey>, es: &Vec<MaybeExpr>)
    ensures
        forall|p: spec_fn(NodeRef) -> bool| #[trigger] keys_satisfy(final(v)@, p) <==> keys_satisfy(old(v)@, p)
            && (forall|j: int| 0 <= j < es@.len() ==> maybe_refs(#[trigger] es@[j], p)),
{
    let ghost start = v@;
    let n = es.len();
    for i in 0..n
        invariant
            n == es@.len(),
            forall|p: spec_fn(NodeRef) -> bool| #[trigger] keys_satisfy(v@, p) <==> keys_satisfy(start, p)
                && (forall|j: int| 0 <= j < i ==> maybe_refs(#[trigger] es@[j], p)),
    {
        let ghost before = v@;
        push_maybe_key(v, &es[i]);
        assert forall|p: spec_fn(NodeRef) -> bool| #[trigger] keys_satisfy(v@, p) <==> (keys_satisfy(start, p)
            && (forall|j: int| 0 <= j < i + 1 ==> maybe_refs(#[trigger] es@[j], p))) by {
            assert(keys_satisfy(before, p) <==> keys_satisfy(start, p) && (forall|j: int| 0 <= j < i ==> maybe_refs(#[trigger] es@[j], p)));
            assert(keys_satisfy(v@, p) <==> keys_satisfy(before, p) && maybe_refs(es@[i as int], p));
        }
    }
    assert forall|p: spec_fn(NodeRef) -> bool| #[trigger] keys_satisfy(v@, p) <==> (keys_satisfy(start, p) && (forall|j: int| 0 <= j < es@.len() ==> maybe_refs(#[trigger] es@[j], p))) by {
        assert(keys_satisfy(v@, p) <==> keys_satisfy(start, p) && (forall|j: int| 0 <= j < n ==> maybe_refs(#[trigger] es@[j], p)));
        assert((forall|j: int| 0 <= j < es@.len() ==> maybe_refs(#[trigger] es@[j], p)) <==> (forall|j: int| 0 <= j < n ==> maybe_refs(#[trigger] es@[j], p)));
    }
}

fn push_map_pairs_keys(v: &mut Vec<NodeKey>, kvs: &Vec<(ExprId, ExprId)>)
    ensures
        forall|p: spec_fn(NodeRef) -> bool| #[trigger] keys_satisfy(final(v)@, p) <==> keys_satisfy(old(v)@, p)
            && (map_pairs_refs(kvs@, p)),
{
    let ghost start = v@;
    let n = kvs.len();
    for i in 0..n
        invariant
            n == kvs@.len(),
            forall|p: spec_fn(NodeRef) -> bool| #[trigger] keys_satisfy(v@, p) <==> keys_satisfy(start, p)
                && (forall|j: int| 0 <= j < i ==> expr_pair_refs(#[trigger] kvs@[j], p)),
    {
        let ghost before = v@;
        push_expr_pair_keys(v, &kvs[i]);
        assert forall|p: spec_fn(NodeRef) -> bool| #[trigger] keys_satisfy(v@, p) <==> (keys_satisfy(start, p)
            && (forall|j: int| 0 <= j < i + 1 ==> expr_pair_refs(#[trigger] kvs@[j], p))) by {
            assert(keys_satisfy(before, p) <==> keys_satisfy(start, p) && (forall|j: int| 0 <= j < i ==> expr_pair_refs(#[trigger] kvs@[j], p)));
            assert(keys_satisfy(v@, p) <==> keys_satisfy(before, p) && expr_pair_refs(kvs@[i as int], p));
        }
    }
    assert forall|p: spec_fn(NodeRef) -> bool| #[trigger] keys_satisfy(v@, p) <==> (keys_satisfy(start, p) && (map_pairs_refs(kvs@, p))) by {
        assert(keys_satisfy(v@, p) <==> keys_satisfy(start, p) && (forall|j: int| 0 <= j < n ==> expr_pair_refs(#[trigger] kvs@[j], p)));
        assert((map_pairs_refs(kvs@, p)) <==> (forall|j: int| 0 <= j < n ==> expr_pair_refs(#[trigger] kvs@[j], p)));
    }
}

fn push_map_pattern_pairs_keys(v: &mut Vec<NodeKey>, kvs: &Vec<(ExprId, PatternId)>)
    ensures
        forall|p: spec_fn(NodeRef) -> bool| #[trigger] keys_satisfy(final(v)@, p) <==> keys_satisfy(old(v)@, p)
            && (map_pattern_pairs_refs(kvs@, p)),
{
    let ghost start = v@;
    let n = kvs.len();
    for i in 0..n
        invariant
            n == kvs@.len(),
            forall|p: spec_fn(NodeRef) -> bool| #[trigger] keys_satisfy(v@, p) <==> keys_satisfy(start, p)
                && (forall|j: int| 0 <= j < i ==> pattern_pair_refs(#[trigger] kvs@[j], p)),
    {
        let ghost before = v@;
        push_pattern_pair_keys(v, &kvs[i]);
        assert forall|p: spec_fn(NodeRef) -> bool| #[trigger] keys_satisfy(v@, p) <==> (keys_satisfy(start, p)
            && (forall|j: int| 0 <= j < i + 1 ==> pattern_pair_refs(#[trigger] kvs@[j], p))) by {
            assert(keys_satisfy(before, p) <==> keys_satisfy(start, p) && (forall|j: int| 0 <= j < i ==> pattern_pair_refs(#[trigger] kvs@[j], p)));
            assert(keys_satisfy(v@, p) <==> keys_satisfy(before, p) && pattern_pair_refs(kvs@[i as int], p));
        }
    }
    assert forall|p: spec_fn(NodeRef) -> bool| #[trigger] keys_satisfy(v@, p) <==> (keys_satisfy(start, p) && (map_pattern_pairs_refs(kvs@, p))) by {
        assert(keys_satisfy(v@, p) <==> keys_satisfy(start, p) && (forall|j: int| 0 <= j < n ==> pattern_pair_refs(#[trigger] kvs@[j], p)));
        assert((map_pattern_pairs_refs(kvs@, p)) <==> (forall|j: int| 0 <= j < n ==> pattern_pair_refs(#[trigger] kvs@[j], p)));
    }
}

fn push_bitstring_keys(v: &mut Vec<NodeKey>, els: &Vec<BitstringElement>)
    ensures
        forall|p: spec_fn(NodeRef) -> bool| #[trigger] keys_satisfy(final(v)@, p) <==> keys_satisfy(old(v)@, p)
            && (bitstring_refs(els@, p)),
{
    let ghost start = v@;
    let n = els.len();
    for i in 0..n
        invariant
            n == els@.len(),
            forall|p: spec_fn(NodeRef) -> bool| #[trigger] keys_satisfy(v@, p) <==> keys_satisfy(start, p)
                && (forall|j: int| 0 <= j < i ==> segment_refs(#[trigger] els@[j], p)),
    {
        let ghost before = v@;
        push_segment_keys(v, &els[i]);
        assert forall|p: spec_fn(NodeRef) -> bool| #[trigger] keys_satisfy(v@, p) <==> (keys_satisfy(start, p)
            && (forall|j: int| 0 <= j < i + 1 ==> segment_refs(#[trigger] els@[j], p))) by {
            assert(keys_satisfy(before, p) <==> keys_satisfy(start, p) && (forall|j: int| 0 <= j < i ==> segment_refs(#[trigger] els@[j], p)));
            assert(keys_satisfy(v@, p) <==> keys_satisfy(before, p) && segment_refs(els@[i as int], p));
        }
    }
    assert forall|p: spec_fn(NodeRef) -> bool| #[trigger] keys_satisfy(v@, p) <==> (keys_satisfy(start, p) && (bitstring_refs(els@, p))) by {
        assert(keys_satisfy(v@, p) <==> keys_satisfy(start, p) && (forall|j: int| 0 <= j < n ==> segment_refs(#[trigger] els@[j], p)));
        assert((bitstring_refs(els@, p)) <==> (forall|j: int| 0 <= j < n ==> segment_refs(#[trigger] els@[j], p)));
    }
}

fn push_bitstring_pattern_keys(v: &mut Vec<NodeKey>, els: &Vec<BitstringPatternElement>)
    ensures
        forall|p: spec_fn(NodeRef) -> bool| #[trigger] keys_satisfy(final(v)@, p) <==> keys_satisfy(old(v)@, p)
            && (bitstring_pattern_refs(els@, p)),
{
    let ghost start = v@;
    let n = els.len();
    for i in 0..n
        invariant
            n == els@.len(),
            forall|p: spec_fn(NodeRef) -> bool| #[trigger] keys_satisfy(v@, p) <==> keys_satisfy(start, p)
                && (forall|j: int| 0 <= j < i ==> pattern_segment_refs(#[trigger] els@[j], p)),
    {
        let ghost before = v@;
        push_pattern_segment_keys(v, &els[i]);
        assert forall|p: spec_fn(NodeRef) -> bool| #[trigger] keys_satisfy(v@, p) <==> (keys_satisfy(start, p)
            && (forall|j: int| 0 <= j < i + 1 ==> pattern_segment_refs(#[trigger] els@[j], p))) by {
            assert(keys_satisfy(before, p) <==> keys_satisfy(start, p) && (forall|j: int| 0 <= j < i ==> pattern_segment_refs(#[trigger] els@[j], p)));
            assert(keys_satisfy(v@, p) <==> keys_satisfy(before, p) && pattern_segment_refs(els@[i as int], p));
        }
    }
    assert forall|p: spec_fn(NodeRef) -> bool| #[trigger] keys_satisfy(v@, p) <==> (keys_satisfy(start, p) && (bitstring_pattern_refs(els@, p))) by {
        assert(keys_satisfy(v@, p) <==> keys_satisfy(start, p) && (forall|j: int| 0 <= j < n ==> pattern_segment_refs(#[trigger] els@[j], p)));
        assert((bitstring_pattern_refs(els@, p)) <==> (forall|j: int| 0 <= j < n ==> pattern_segment_refs(#[trigger] els@[j], p)));
    }
}

fn push_opt_cases_keys(v: &mut Vec<NodeKey>, cs: &Option<Vec<CaseClause>>)
    ensures
        forall|p: spec_fn(NodeRef) -> bool| #[trigger] keys_satisfy(final(v)@, p) <==> keys_satisfy(old(v)@, p)
            && opt_cases_refs(*cs, p),
{
    match cs {
        Some(c) => push_cases_keys(v, c),
        None => {},
    }
}

/// The keys of the nodes a body refers to.
fn body_children(b: &Body) -> (r: Vec<NodeKey>)
    ensures
        forall|p: spec_fn(NodeRef) -> bool| #[trigger] keys_satisfy(r@, p) <==> body_refs(*b, p),
{
    let mut v: Vec<NodeKey> = Vec::new();
    push_expr_keys(&mut v, &b.exprs);
    v
}

/// The keys of the nodes a guard sequence refers to.
fn guard_children(g: &GuardSeq) -> (r: Vec<NodeKey>)
    ensures
        forall|p: spec_fn(NodeRef) -> bool| #[trigger] keys_satisfy(r@, p) <==> guard_refs(*g, p),
{
    let mut v: Vec<NodeKey> = Vec::new();
    push_expr_keys(&mut v, &g.guards);
    v
}

/// The keys of the nodes a function clause refers to.
fn clause_children(c: &FunctionClause) -> (r: Vec<NodeKey>)
    ensures
        forall|p: spec_fn(NodeRef) -> bool| #[trigger] keys_satisfy(r@, p) <==> clause_refs(*c, p),
{
    let mut v: Vec<NodeKey> = Vec::new();
    push_pattern_keys(&mut v, &c.args);
    push_key(&mut v, c.guard.key());
    push_key(&mut v, c.body.key());
    v
}

/// The keys of the nodes a pattern refers to.
fn pattern_children(q: &Pattern) -> (r: Vec<NodeKey>)
    ensures
        forall|p: spec_fn(NodeRef) -> bool| #[trigger] keys_satisfy(r@, p) <==> pattern_refs(*q, p),
{
    let mut v: Vec<NodeKey> = Vec::new();
    match q {
        Pattern::Nil() | Pattern::Atom(_) | Pattern::Integer(_) | Pattern::Underscore() | Pattern::NamedVar(_) => {},
        Pattern::EqualPatterns(a, b) | Pattern::List(a, b) => {
            push_key(&mut v, a.key());
            push_key(&mut v, b.key());
        },
        Pattern::Tuple(ps) => push_pattern_keys(&mut v, ps),
        Pattern::Bitstring(els) => push_bitstring_pattern_keys(&mut v, els),
        Pattern::MapPattern(kvs) => push_map_pattern_pairs_keys(&mut v, kvs),
    }
    v
}

/// The keys of the nodes an expression refers to.
fn expr_children(e: &Expr) -> (r: Vec<NodeKey>)
    ensures
        forall|p: spec_fn(NodeRef) -> bool| #[trigger] keys_satisfy(r@, p) <==> expr_refs(*e, p),
{
    let mut v: Vec<NodeKey> = Vec::new();
    match e {
        Expr::Var(_) | Expr::Nil() | Expr::Atom(_) | Expr::Integer(_) | Expr::Float(_) | Expr::String(_) => {},
        Expr::LocalCall(_, args) | Expr::RemoteCall(_, _, args) | Expr::Tuple(args) => push_expr_keys(&mut v, args),
        Expr::Catch(a) | Expr::UnaryOperation(_, a) => push_key(&mut v, a.key()),
        Expr::BinaryOperation(_, a, b) => {
            push_key(&mut v, a.key());
            push_key(&mut v, b.key());
        },
        Expr::Case(a, cases) => {
            push_key(&mut v, a.key());
            push_cases_keys(&mut v, cases);
        },
        Expr::Assignment(q, a) => {
            push_key(&mut v, q.key());
            push_key(&mut v, a.key());
        },
        Expr::MapLiteral(kvs) => push_map_pairs_keys(&mut v, kvs),
        Expr::MapInsertion(a, b, c) | Expr::MapUpdate(a, b, c) => {
            push_key(&mut v, a.key());
            push_key(&mut v, b.key());
            push_key(&mut v, c.key());
        },
        Expr::BitstringConstruction(els) => push_bitstring_keys(&mut v, els),
        Expr::Fun(_, clauses) => push_clause_keys(&mut v, clauses),
        Expr::Comprehension(_, a, els) => {
            push_key(&mut v, a.key());
            push_celems_keys(&mut v, els);
        },
        Expr::MapComprehension(a, b, els) => {
            push_key(&mut v, a.key());
            push_key(&mut v, b.key());
            push_celems_keys(&mut v, els);
        },
        Expr::Try(b, of, catch, after) => {
            push_key(&mut v, b.key());
            push_opt_cases_keys(&mut v, of);
            push_opt_cases_keys(&mut v, catch);
            match after {
                Some(a) => push_key(&mut v, a.key()),
                None => {},
            }
        },
        Expr::Maybe(es, otherwise) => {
            push_maybe_keys(&mut v, es);
            push_opt_cases_keys(&mut v, otherwise);
        },
        Expr::Block(b) => push_key(&mut v, b.key()),
    }
    v
}

/// The number of zeros in `s`.
spec fn zero_count(s: Seq<u128>) -> nat
    decreases s.len(),
{
    if s.len() == 0 {
        0
    } else {
        zero_count(s.drop_last()) + if s.last() == 0 {
            1nat
        } else {
            0nat
        }
    }
}

proof fn lemma_zero_count_len(s: Seq<u128>)
    ensures
        zero_count(s) <= s.len(),
    decreases s.len(),
{
    if s.len() > 0 {
        lemma_zero_count_len(s.drop_last());
    }
}

proof fn lemma_zero_count_update(s: Seq<u128>, i: int, v: u128)
    requires
        0 <= i < s.len(),
        s[i] == 0,
        v != 0,
    ensures
        zero_count(s.update(i, v)) + 1 == zero_count(s),
    decreases s.len(),
{
    let t = s.update(i, v);
    if i == s.len() - 1 {
        assert(t.drop_last() =~= s.drop_last());
    } else {
        assert(t.drop_last() =~= s.drop_last().update(i, v));
        lemma_zero_count_update(s.drop_last(), i, v);
    }
}

/// Ranks for the nodes of a module, one table per kind of node, in the
/// order of the module's arenas; 0 stands for a node not ranked yet.
#[verifier::ext_equal]
struct RankTables {
    exprs: Seq<u128>,
    patterns: Seq<u128>,
    clauses: Seq<u128>,
    bodies: Seq<u128>,
    guards: Seq<u128>,
}

impl RankTables {
    /// The tables have one entry per node of `m`.
    spec fn fits(self, m: &Module) -> bool {
        &&& self.exprs.len() == m.spec_exprs().len()
        &&& self.patterns.len() == m.spec_patterns().len()
        &&& self.clauses.len() == m.spec_function_clauses().len()
        &&& self.bodies.len() == m.spec_bodies().len()
        &&& self.guards.len() == m.spec_guard_seqs().len()
    }

    /// Whether the tables have an entry for the node.
    spec fn has(self, n: NodeRef) -> bool {
        match n {
            NodeRef::Expr(i) => i < self.exprs.len(),
            NodeRef::Pattern(i) => i < self.patterns.len(),
            NodeRef::Clause(i) => i < self.clauses.len(),
            NodeRef::Body(i) => i < self.bodies.len(),
            NodeRef::Guard(i) => i < self.guards.len(),
        }
    }

    /// The rank of a node; 0 for a node the tables have no entry for.
    spec fn mark(self, n: NodeRef) -> nat {
        match n {
            NodeRef::Expr(i) => if i < self.exprs.len() { self.exprs[i as int] as nat } else { 0 },
            NodeRef::Pattern(i) => if i < self.patterns.len() { self.patterns[i as int] as nat } else { 0 },
            NodeRef::Clause(i) => if i < self.clauses.len() { self.clauses[i as int] as nat } else { 0 },
            NodeRef::Body(i) => if i < self.bodies.len() { self.bodies[i as int] as nat } else { 0 },
            NodeRef::Guard(i) => if i < self.guards.len() { self.guards[i as int] as nat } else { 0 },
        }
    }

    /// The ranks, as a function.
    spec fn rank(self) -> spec_fn(NodeRef) -> nat {
        |n: NodeRef| self.mark(n)
    }

    /// The nodes ranked, with a rank below `k`.
    spec fn marked_under(self, k: nat) -> spec_fn(NodeRef) -> bool {
        |n: NodeRef| self.has(n) && 0 < self.mark(n) && self.mark(n) < k
    }

    /// Every ranked node of `m` refers only to nodes ranked below it.
    spec fn marks_valid(self, m: &Module) -> bool {
        forall|n: NodeRef| self.has(n) && 0 < #[trigger] self.mark(n) ==> node_refs(m, n, self.marked_under(self.mark(n)))
    }

    /// Every node has a rank.
    spec fn all_marked(self) -> bool {
        forall|n: NodeRef| #[trigger] self.has(n) ==> 0 < self.mark(n)
    }

    /// The node is ranked, or refers to a node not ranked below `k`.
    spec fn stuck(self, m: &Module, k: nat, n: NodeRef) -> bool {
        0 < self.mark(n) || !node_refs(m, n, self.marked_under(k))
    }

    /// The number of nodes not ranked yet.
    spec fn unmarked(self) -> nat {
        zero_count(self.exprs) + zero_count(self.patterns) + zero_count(self.clauses) + zero_count(self.bodies)
            + zero_count(self.guards)
    }

    /// The tables with the rank of `n` set to `v`.
    spec fn with_mark(self, n: NodeRef, v: u128) -> RankTables {
        match n {
            NodeRef::Expr(i) => RankTables { exprs: self.exprs.update(i as int, v), ..self },
            NodeRef::Pattern(i) => RankTables { patterns: self.patterns.update(i as int, v), ..self },
            NodeRef::Clause(i) => RankTables { clauses: self.clauses.update(i as int, v), ..self },
            NodeRef::Body(i) => RankTables { bodies: self.bodies.update(i as int, v), ..self },
            NodeRef::Guard(i) => RankTables { guards: self.guards.update(i as int, v), ..self },
        }
    }
}

/// Ranking an unranked node whose references are ranked below `k` keeps the
/// ranks valid and leaves one node fewer unranked.
proof fn lemma_mark_one(m: &Module, a: RankTables, n: NodeRef, k: u128)
    requires
        a.fits(m),
        a.marks_valid(m),
        a.has(n),
        a.mark(n) == 0,
        0 < k,
        node_refs(m, n, a.marked_under(k as nat)),
    ensures
        a.with_mark(n, k).fits(m),
        a.with_mark(n, k).marks_valid(m),
        a.with_mark(n, k).mark(n) == k,
        forall|x: NodeRef| x != n ==> #[trigger] a.with_mark(n, k).mark(x) == a.mark(x),
        a.with_mark(n, k).unmarked() + 1 == a.unmarked(),
{
    let b = a.with_mark(n, k);
    assert forall|x: NodeRef| x != n implies #[trigger] b.mark(x) == a.mark(x) && b.has(x) == a.has(x) by {}
    assert(b.has(n) && b.mark(n) == k);
    assert forall|v: nat, x: NodeRef| #[trigger] a.marked_under(v)(x) implies b.marked_under(v)(x) by {
        assert(x != n);
        assert(b.mark(x) == a.mark(x) && b.has(x) == a.has(x));
    }
    assert forall|x: NodeRef| b.has(x) && 0 < #[trigger] b.mark(x) implies node_refs(m, x, b.marked_under(b.mark(x))) by {
        let v = b.mark(x);
        assert forall|y: NodeRef| #[trigger] a.marked_under(v)(y) implies b.marked_under(v)(y) by {
            assert(a.marked_under(v)(y));
        }
        lemma_node_refs_mono(a.marked_under(v), b.marked_under(v));
        if x != n {
            assert(a.has(x) && 0 < a.mark(x));
            assert(node_refs(m, x, a.marked_under(a.mark(x))));
        }
    }
    match n {
        NodeRef::Expr(i) => lemma_zero_count_update(a.exprs, i as int, k),
        NodeRef::Pattern(i) => lemma_zero_count_update(a.patterns, i as int, k),
        NodeRef::Clause(i) => lemma_zero_count_update(a.clauses, i as int, k),
        NodeRef::Body(i) => lemma_zero_count_update(a.bodies, i as int, k),
        NodeRef::Guard(i) => lemma_zero_count_update(a.guards, i as int, k),
    }
}

/// With the ranks of `t` all below `k`, an unranked node that a valid
/// ranking `rk` ranks leads to an unranked node whose references are all
/// ranked in `t`.
proof fn lemma_descend(m: &Module, rk: Ranking, t: RankTables, k: nat, n: NodeRef)
    requires
        rk.valid(m),
        rk.contains(n),
        t.fits(m),
        t.mark(n) == 0,
        forall|x: NodeRef| #[trigger] t.mark(x) < k,
    ensures
        exists|w: NodeRef| t.has(w) && t.mark(w) == 0 && #[trigger] node_refs(m, w, t.marked_under(k)),
    decreases rk.rank_of(n),
{
    let q = t.marked_under(k);
    assert(m.has_node(n) && t.has(n));
    if node_refs(m, n, q) {
        return;
    }
    let pr = rk.below(rk.rank_of(n));
    assert(node_refs(m, n, pr));
    if forall|x: NodeRef| #[trigger] pr(x) ==> q(x) {
        lemma_node_refs_mono(pr, q);
        assert(false);
    }
    let c = choose|x: NodeRef| #[trigger] pr(x) && !q(x);
    assert(rk.contains(c) && rk.rank_of(c) < rk.rank_of(n));
    assert(m.has_node(c));
    assert(t.has(c));
    assert(t.mark(c) < k);
    lemma_descend(m, rk, t, k, c);
}

/// Tables under which no node can be ranked in a further round rank every
/// node that some valid ranking ranks.
proof fn lemma_stuck_covered(m: &Module, t: RankTables, k: nat, rk: Ranking)
    requires
        rk.valid(m),
        t.fits(m),
        forall|x: NodeRef| #[trigger] t.mark(x) < k,
        forall|x: NodeRef| t.has(x) ==> #[trigger] t.stuck(m, k, x),
    ensures
        forall|n: NodeRef| #[trigger] rk.contains(n) ==> 0 < t.mark(n),
{
    assert forall|n: NodeRef| #[trigger] rk.contains(n) implies 0 < t.mark(n) by {
        if t.mark(n) == 0 {
            lemma_descend(m, rk, t, k, n);
            let w = choose|w: NodeRef| t.has(w) && t.mark(w) == 0 && #[trigger] node_refs(m, w, t.marked_under(k));
            assert(t.stuck(m, k, w));
        }
    }
}

/// The ranking that tables with valid ranks give: the ranked nodes, with
/// their ranks.
spec fn marked_ranking(t: RankTables) -> Ranking {
    Ranking { rank: t.rank(), nodes: |n: NodeRef| t.has(n) && 0 < t.mark(n) }
}

proof fn lemma_marked_ranking(m: &Module, t: RankTables)
    requires
        t.fits(m),
        t.marks_valid(m),
    ensures
        marked_ranking(t).valid(m),
{
    let rk = marked_ranking(t);
    assert forall|n: NodeRef| #[trigger] rk.contains(n) implies m.has_node(n) && node_refs(
        m,
        n,
        rk.below(rk.rank_of(n)),
    ) by {
        let v = t.mark(n);
        assert(t.has(n) && 0 < v);
        assert(node_refs(m, n, t.marked_under(v)));
        assert forall|x: NodeRef| #[trigger] t.marked_under(v)(x) implies rk.below(v)(x) by {}
        lemma_node_refs_mono(t.marked_under(v), rk.below(v));
    }
}

/// The tables' ranked nodes below `v` are nodes of `m` that rank below `v`.
proof fn lemma_marked_under_below(m: &Module, t: RankTables, v: nat)
    requires
        t.fits(m),
    ensures
        forall|x: NodeRef| #[trigger] t.marked_under(v)(x) ==> m.below(t.rank(), v)(x),
{
    assert forall|x: NodeRef| #[trigger] t.marked_under(v)(x) implies m.below(t.rank(), v)(x) by {
        assert(t.has(x));
        assert(m.has_node(x));
    }
}

/// Candidate ranks for the nodes of a module, one table per kind of node.
struct Ranks {
    exprs: Vec<u128>,
    patterns: Vec<u128>,
    clauses: Vec<u128>,
    bodies: Vec<u128>,
    guards: Vec<u128>,
}

impl View for Ranks {
    type V = RankTables;

    closed spec fn view(&self) -> RankTables {
        RankTables {
            exprs: self.exprs@,
            patterns: self.patterns@,
            clauses: self.clauses@,
            bodies: self.bodies@,
            guards: self.guards@,
        }
    }
}

impl Ranks {
    /// The rank of the node `k`, if the tables have an entry for it.
    fn get(&self, k: NodeKey) -> (r: Option<u128>)
        ensures
            r is Some <==> self@.has(k@),
            r matches Some(x) ==> x == self@.mark(k@),
    {
        let (t, i) = match k {
            NodeKey::Expr(i) => (&self.exprs, i),
            NodeKey::Pattern(i) => (&self.patterns, i),
            NodeKey::Clause(i) => (&self.clauses, i),
            NodeKey::Body(i) => (&self.bodies, i),
            NodeKey::Guard(i) => (&self.guards, i),
        };
        let j = i as usize;
        if j < t.len() {
            Some(t[j])
        } else {
            None
        }
    }

    /// Whether every node has a rank.
    fn all_marked(&self) -> (b: bool)
        ensures
            b == self@.all_marked(),
    {
        let r = no_zero(&self.exprs) && no_zero(&self.patterns) && no_zero(&self.clauses) && no_zero(&self.bodies)
            && no_zero(&self.guards);
        proof {
            if !r {
                if !no_zero_spec(self.exprs@) {
                    let i = choose|i: int| 0 <= i < self.exprs@.len() && self.exprs@[i] == 0;
                    assert(self@.has(NodeRef::Expr(i as nat)));
                } else if !no_zero_spec(self.patterns@) {
                    let i = choose|i: int| 0 <= i < self.patterns@.len() && self.patterns@[i] == 0;
                    assert(self@.has(NodeRef::Pattern(i as nat)));
                } else if !no_zero_spec(self.clauses@) {
                    let i = choose|i: int| 0 <= i < self.clauses@.len() && self.clauses@[i] == 0;
                    assert(self@.has(NodeRef::Clause(i as nat)));
                } else if !no_zero_spec(self.bodies@) {
                    let i = choose|i: int| 0 <= i < self.bodies@.len() && self.bodies@[i] == 0;
                    assert(self@.has(NodeRef::Body(i as nat)));
                } else {
                    let i = choose|i: int| 0 <= i < self.guards@.len() && self.guards@[i] == 0;
                    assert(self@.has(NodeRef::Guard(i as nat)));
                }
            }
        }
        r
    }
}

/// Whether no entry of `s` is 0.
spec fn no_zero_spec(s: Seq<u128>) -> bool {
    forall|i: int| 0 <= i < s.len() ==> s[i] != 0
}

fn no_zero(t: &Vec<u128>) -> (b: bool)
    ensures
        b == no_zero_spec(t@),
{
    let n = t.len();
    for i in 0..n
        invariant
            n == t@.len(),
            forall|j: int| 0 <= j < i ==> t@[j] != 0,
    {
        if t[i] == 0 {
            return false;
        }
    }
    true
}

/// A table of `n` zeros.
fn zeros(n: usize) -> (v: Vec<u128>)
    ensures
        v@.len() == n,
        forall|i: int| 0 <= i < n ==> v@[i] == 0,
{
    let mut v: Vec<u128> = Vec::new();
    for _i in 0..n
        invariant
            v@.len() == _i,
            forall|i: int| 0 <= i < _i ==> v@[i] == 0,
    {
        v.push(0);
    }
    v
}

/// Whether every key of `ks` names a node ranked below `k`.
fn keys_marked_under(rs: &Ranks, ks: &Vec<NodeKey>, k: u128) -> (b: bool)
    ensures
        b == keys_satisfy(ks@, rs@.marked_under(k as nat)),
{
    let n = ks.len();
    for i in 0..n
        invariant
            n == ks@.len(),
            forall|j: int| 0 <= j < i ==> #[trigger] rs@.marked_under(k as nat)(ks@[j]@),
    {
        let ok = match rs.get(ks[i]) {
            Some(r) => 0 < r && r < k,
            None => false,
        };
        if !ok {
            assert(!rs@.marked_under(k as nat)(ks@[i as int]@));
            return false;
        }
    }
    true
}

/// Ranks `k` each unranked expr of `m` whose references are all ranked
/// below `k`; answers whether it ranked any.
fn mark_exprs(m: &Module, rs: &mut Ranks, k: u128) -> (r: bool)
    requires
        old(rs)@.fits(m),
        old(rs)@.marks_valid(m),
        0 < k,
        forall|x: NodeRef| #[trigger] old(rs)@.mark(x) <= k,
    ensures
        final(rs)@.fits(m),
        final(rs)@.marks_valid(m),
        forall|x: NodeRef| #[trigger] final(rs)@.mark(x) <= k,
        final(rs)@.unmarked() <= old(rs)@.unmarked(),
        r ==> final(rs)@.unmarked() < old(rs)@.unmarked(),
        !r ==> final(rs)@ == old(rs)@,
        !r ==> forall|x: NodeRef| (x is Expr && final(rs)@.has(x)) ==> #[trigger] final(rs)@.stuck(m, k as nat, x),
{
    let ghost start = rs@;
    let mut any = false;
    let n = m.exprs_len();
    for i in 0..n
        invariant
            n == m.spec_exprs().len(),
            0 < k,
            rs@.fits(m),
            rs@.marks_valid(m),
            forall|x: NodeRef| #[trigger] rs@.mark(x) <= k,
            rs@.unmarked() <= start.unmarked(),
            any ==> rs@.unmarked() < start.unmarked(),
            !any ==> rs@ == start,
            !any ==> forall|x: NodeRef|
                (x matches NodeRef::Expr(j) && j < i && rs@.has(x)) ==> #[trigger] rs@.stuck(m, k as nat, x),
    {
        let ghost node = NodeRef::Expr(i as nat);
        if rs.exprs[i] == 0 {
            let ks = expr_children(m.expr_at(i));
            if keys_marked_under(rs, &ks, k) {
                let ghost before = rs@;
                proof {
                    assert(node_refs(m, node, before.marked_under(k as nat)));
                    lemma_mark_one(m, before, node, k);
                }
                rs.exprs[i] = k;
                proof {
                    assert(rs@ =~= before.with_mark(node, k));
                }
                any = true;
            } else {
                proof {
                    assert(!keys_satisfy(ks@, rs@.marked_under(k as nat)));
                    assert(rs@.stuck(m, k as nat, node));
                }
            }
        } else {
            assert(rs@.stuck(m, k as nat, node));
        }
    }
    any
}

/// Ranks `k` each unranked pattern of `m` whose references are all ranked
/// below `k`; answers whether it ranked any.
fn mark_patterns(m: &Module, rs: &mut Ranks, k: u128) -> (r: bool)
    requires
        old(rs)@.fits(m),
        old(rs)@.marks_valid(m),
        0 < k,
        forall|x: NodeRef| #[trigger] old(rs)@.mark(x) <= k,
    ensures
        final(rs)@.fits(m),
        final(rs)@.marks_valid(m),
        forall|x: NodeRef| #[trigger] final(rs)@.mark(x) <= k,
        final(rs)@.unmarked() <= old(rs)@.unmarked(),
        r ==> final(rs)@.unmarked() < old(rs)@.unmarked(),
        !r ==> final(rs)@ == old(rs)@,
        !r ==> forall|x: NodeRef| (x is Pattern && final(rs)@.has(x)) ==> #[trigger] final(rs)@.stuck(m, k as nat, x),
{
    let ghost start = rs@;
    let mut any = false;
    let n = m.patterns_len();
    for i in 0..n
        invariant
            n == m.spec_patterns().len(),
            0 < k,
            rs@.fits(m),
            rs@.marks_valid(m),
            forall|x: NodeRef| #[trigger] rs@.mark(x) <= k,
            rs@.unmarked() <= start.unmarked(),
            any ==> rs@.unmarked() < start.unmarked(),
            !any ==> rs@ == start,
            !any ==> forall|x: NodeRef|
                (x matches NodeRef::Pattern(j) && j < i && rs@.has(x)) ==> #[trigger] rs@.stuck(m, k as nat, x),
    {
        let ghost node = NodeRef::Pattern(i as nat);
        if rs.patterns[i] == 0 {
            let ks = pattern_children(m.pattern_at(i));
            if keys_marked_under(rs, &ks, k) {
                let ghost before = rs@;
                proof {
                    assert(node_refs(m, node, before.marked_under(k as nat)));
                    lemma_mark_one(m, before, node, k);
                }
                rs.patterns[i] = k;
                proof {
                    assert(rs@ =~= before.with_mark(node, k));
                }
                any = true;
            } else {
                proof {
                    assert(!keys_satisfy(ks@, rs@.marked_under(k as nat)));
                    assert(rs@.stuck(m, k as nat, node));
                }
            }
        } else {
            assert(rs@.stuck(m, k as nat, node));
        }
    }
    any
}

/// Ranks `k` each unranked clause of `m` whose references are all ranked
/// below `k`; answers whether it ranked any.
fn mark_clauses(m: &Module, rs: &mut Ranks, k: u128) -> (r: bool)
    requires
        old(rs)@.fits(m),
        old(rs)@.marks_valid(m),
        0 < k,
        forall|x: NodeRef| #[trigger] old(rs)@.mark(x) <= k,
    ensures
        final(rs)@.fits(m),
        final(rs)@.marks_valid(m),
        forall|x: NodeRef| #[trigger] final(rs)@.mark(x) <= k,
        final(rs)@.unmarked() <= old(rs)@.unmarked(),
        r ==> final(rs)@.unmarked() < old(rs)@.unmarked(),
        !r ==> final(rs)@ == old(rs)@,
        !r ==> forall|x: NodeRef| (x is Clause && final(rs)@.has(x)) ==> #[trigger] final(rs)@.stuck(m, k as nat, x),
{
    let ghost start = rs@;
    let mut any = false;
    let n = m.function_clauses_len();
    for i in 0..n
        invariant
            n == m.spec_function_clauses().len(),
            0 < k,
            rs@.fits(m),
            rs@.marks_valid(m),
            forall|x: NodeRef| #[trigger] rs@.mark(x) <= k,
            rs@.unmarked() <= start.unmarked(),
            any ==> rs@.unmarked() < start.unmarked(),
            !any ==> rs@ == start,
            !any ==> forall|x: NodeRef|
                (x matches NodeRef::Clause(j) && j < i && rs@.has(x)) ==> #[trigger] rs@.stuck(m, k as nat, x),
    {
        let ghost node = NodeRef::Clause(i as nat);
        if rs.clauses[i] == 0 {
            let ks = clause_children(m.function_clause_at(i));
            if keys_marked_under(rs, &ks, k) {
                let ghost before = rs@;
                proof {
                    assert(node_refs(m, node, before.marked_under(k as nat)));
                    lemma_mark_one(m, before, node, k);
                }
                rs.clauses[i] = k;
                proof {
                    assert(rs@ =~= before.with_mark(node, k));
                }
                any = true;
            } else {
                proof {
                    assert(!keys_satisfy(ks@, rs@.marked_under(k as nat)));
                    assert(rs@.stuck(m, k as nat, node));
                }
            }
        } else {
            assert(rs@.stuck(m, k as nat, node));
        }
    }
    any
}

/// Ranks `k` each unranked body of `m` whose references are all ranked
/// below `k`; answers whether it ranked any.
fn mark_bodies(m: &Module, rs: &mut Ranks, k: u128) -> (r: bool)
    requires
        old(rs)@.fits(m),
        old(rs)@.marks_valid(m),
        0 < k,
        forall|x: NodeRef| #[trigger] old(rs)@.mark(x) <= k,
    ensures
        final(rs)@.fits(m),
        final(rs)@.marks_valid(m),
        forall|x: NodeRef| #[trigger] final(rs)@.mark(x) <= k,
        final(rs)@.unmarked() <= old(rs)@.unmarked(),
        r ==> final(rs)@.unmarked() < old(rs)@.unmarked(),
        !r ==> final(rs)@ == old(rs)@,
        !r ==> forall|x: NodeRef| (x is Body && final(rs)@.has(x)) ==> #[trigger] final(rs)@.stuck(m, k as nat, x),
{
    let ghost start = rs@;
    let mut any = false;
    let n = m.bodies_len();
    for i in 0..n
        invariant
            n == m.spec_bodies().len(),
            0 < k,
            rs@.fits(m),
            rs@.marks_valid(m),
            forall|x: NodeRef| #[trigger] rs@.mark(x) <= k,
            rs@.unmarked() <= start.unmarked(),
            any ==> rs@.unmarked() < start.unmarked(),
            !any ==> rs@ == start,
            !any ==> forall|x: NodeRef|
                (x matches NodeRef::Body(j) && j < i && rs@.has(x)) ==> #[trigger] rs@.stuck(m, k as nat, x),
    {
        let ghost node = NodeRef::Body(i as nat);
        if rs.bodies[i] == 0 {
            let ks = body_children(m.body_at(i));
            if keys_marked_under(rs, &ks, k) {
                let ghost before = rs@;
                proof {
                    assert(node_refs(m, node, before.marked_under(k as nat)));
                    lemma_mark_one(m, before, node, k);
                }
                rs.bodies[i] = k;
                proof {
                    assert(rs@ =~= before.with_mark(node, k));
                }
                any = true;
            } else {
                proof {
                    assert(!keys_satisfy(ks@, rs@.marked_under(k as nat)));
                    assert(rs@.stuck(m, k as nat, node));
                }
            }
        } else {
            assert(rs@.stuck(m, k as nat, node));
        }
    }
    any
}

/// Ranks `k` each unranked guard of `m` whose references are all ranked
/// below `k`; answers whether it ranked any.
fn mark_guards(m: &Module, rs: &mut Ranks, k: u128) -> (r: bool)
    requires
        old(rs)@.fits(m),
        old(rs)@.marks_valid(m),
        0 < k,
        forall|x: NodeRef| #[trigger] old(rs)@.mark(x) <= k,
    ensures
        final(rs)@.fits(m),
        final(rs)@.marks_valid(m),
        forall|x: NodeRef| #[trigger] final(rs)@.mark(x) <= k,
        final(rs)@.unmarked() <= old(rs)@.unmarked(),
        r ==> final(rs)@.unmarked() < old(rs)@.unmarked(),
        !r ==> final(rs)@ == old(rs)@,
        !r ==> forall|x: NodeRef| (x is Guard && final(rs)@.has(x)) ==> #[trigger] final(rs)@.stuck(m, k as nat, x),
{
    let ghost start = rs@;
    let mut any = false;
    let n = m.guard_seqs_len();
    for i in 0..n
        invariant
            n == m.spec_guard_seqs().len(),
            0 < k,
            rs@.fits(m),
            rs@.marks_valid(m),
            forall|x: NodeRef| #[trigger] rs@.mark(x) <= k,
            rs@.unmarked() <= start.unmarked(),
            any ==> rs@.unmarked() < start.unmarked(),
            !any ==> rs@ == start,
            !any ==> forall|x: NodeRef|
                (x matches NodeRef::Guard(j) && j < i && rs@.has(x)) ==> #[trigger] rs@.stuck(m, k as nat, x),
    {
        let ghost node = NodeRef::Guard(i as nat);
        if rs.guards[i] == 0 {
            let ks = guard_children(m.guard_seq_at(i));
            if keys_marked_under(rs, &ks, k) {
                let ghost before = rs@;
                proof {
                    assert(node_refs(m, node, before.marked_under(k as nat)));
                    lemma_mark_one(m, before, node, k);
                }
                rs.guards[i] = k;
                proof {
                    assert(rs@ =~= before.with_mark(node, k));
                }
                any = true;
            } else {
                proof {
                    assert(!keys_satisfy(ks@, rs@.marked_under(k as nat)));
                    assert(rs@.stuck(m, k as nat, node));
                }
            }
        } else {
            assert(rs@.stuck(m, k as nat, node));
        }
    }
    any
}

impl<'a> Module<'a> {
    /// Ranks for the nodes of the module, round by round: a node is ranked
    /// in the first round in which every node it refers to has a rank.
    fn mark_ranks(&self) -> (rs: Ranks)
        ensures
            rs@.fits(self),
            rs@.marks_valid(self),
            forall|rk: Ranking| #[trigger] rk.valid(self) ==> forall|n: NodeRef| #[trigger] rk.contains(n) ==> 0 < rs@.mark(n),
    {
        let mut rs = Ranks {
            exprs: zeros(self.exprs_len()),
            patterns: zeros(self.patterns_len()),
            clauses: zeros(self.function_clauses_len()),
            bodies: zeros(self.bodies_len()),
            guards: zeros(self.guard_seqs_len()),
        };
        proof {
            assert forall|x: NodeRef| #[trigger] rs@.mark(x) == 0 by {}
            lemma_zero_count_len(rs.exprs@);
            lemma_zero_count_len(rs.patterns@);
            lemma_zero_count_len(rs.clauses@);
            lemma_zero_count_len(rs.bodies@);
            lemma_zero_count_len(rs.guards@);
        }
        let ghost budget = rs@.unmarked() + 1;
        let mut k: u128 = 1;
        loop
            invariant
                rs@.fits(self),
                rs@.marks_valid(self),
                1 <= k,
                forall|x: NodeRef| #[trigger] rs@.mark(x) < k,
                k + rs@.unmarked() <= budget,
                budget <= 5 * (usize::MAX as nat) + 1,
            ensures
                rs@.fits(self),
                rs@.marks_valid(self),
                forall|rk: Ranking| #[trigger] rk.valid(self) ==> forall|n: NodeRef| #[trigger] rk.contains(n) ==> 0 < rs@.mark(n),
            decreases rs@.unmarked(),
        {
            let ghost start = rs@;
            let a = mark_exprs(self, &mut rs, k);
            let b = mark_patterns(self, &mut rs, k);
            let c = mark_clauses(self, &mut rs, k);
            let d = mark_bodies(self, &mut rs, k);
            let e = mark_guards(self, &mut rs, k);
            if !(a || b || c || d || e) {
                proof {
                    assert(rs@ == start);
                    assert forall|rk: Ranking| #[trigger] rk.valid(self) implies forall|n: NodeRef| #[trigger] rk.contains(n) ==> 0 < rs@.mark(n) by {
                        lemma_stuck_covered(self, rs@, k as nat, rk);
                    }
                }
                break;
            }
            k = k + 1;
        }
        rs
    }

    /// Whether the module is well formed: every node refers only to nodes of
    /// the module, and no reference runs in a cycle.
    pub fn is_well_formed(&self) -> (r: bool)
        ensures
            r == self.wf(),
    {
        let rs = self.mark_ranks();
        let all = rs.all_marked();
        proof {
            if self.wf() {
                lemma_full_ranking(self);
                assert forall|n: NodeRef| #[trigger] rs@.has(n) implies 0 < rs@.mark(n) by {
                    assert(full_ranking(self).contains(n));
                }
            }
            if all {
                let t = rs@;
                let bound: nat = u128::MAX as nat + 1;
                assert forall|n: NodeRef| #[trigger] self.has_node(n) implies t.rank()(n) < bound by {}
                assert forall|i: int| 0 <= i < self.spec_exprs().len() implies expr_refs(
                    #[trigger] self.spec_exprs()[i],
                    self.below(t.rank(), t.rank()(NodeRef::Expr(i as nat))),
                ) by {
                    let x = NodeRef::Expr(i as nat);
                    assert(t.has(x));
                    let v = t.mark(x);
                    assert(node_refs(self, x, t.marked_under(v)));
                    lemma_marked_under_below(self, t, v);
                    lemma_node_refs_mono(t.marked_under(v), self.below(t.rank(), v));
                }
                assert forall|i: int| 0 <= i < self.spec_patterns().len() implies pattern_refs(
                    #[trigger] self.spec_patterns()[i],
                    self.below(t.rank(), t.rank()(NodeRef::Pattern(i as nat))),
                ) by {
                    let x = NodeRef::Pattern(i as nat);
                    assert(t.has(x));
                    let v = t.mark(x);
                    assert(node_refs(self, x, t.marked_under(v)));
                    lemma_marked_under_below(self, t, v);
                    lemma_node_refs_mono(t.marked_under(v), self.below(t.rank(), v));
                }
                assert forall|i: int| 0 <= i < self.spec_function_clauses().len() implies clause_refs(
                    #[trigger] self.spec_function_clauses()[i],
                    self.below(t.rank(), t.rank()(NodeRef::Clause(i as nat))),
                ) by {
                    let x = NodeRef::Clause(i as nat);
                    assert(t.has(x));
                    let v = t.mark(x);
                    assert(node_refs(self, x, t.marked_under(v)));
                    lemma_marked_under_below(self, t, v);
                    lemma_node_refs_mono(t.marked_under(v), self.below(t.rank(), v));
                }
                assert forall|i: int| 0 <= i < self.spec_bodies().len() implies body_refs(
                    #[trigger] self.spec_bodies()[i],
                    self.below(t.rank(), t.rank()(NodeRef::Body(i as nat))),
                ) by {
                    let x = NodeRef::Body(i as nat);
                    assert(t.has(x));
                    let v = t.mark(x);
                    assert(node_refs(self, x, t.marked_under(v)));
                    lemma_marked_under_below(self, t, v);
                    lemma_node_refs_mono(t.marked_under(v), self.below(t.rank(), v));
                }
                assert forall|i: int| 0 <= i < self.spec_guard_seqs().len() implies guard_refs(
                    #[trigger] self.spec_guard_seqs()[i],
                    self.below(t.rank(), t.rank()(NodeRef::Guard(i as nat))),
                ) by {
                    let x = NodeRef::Guard(i as nat);
                    assert(t.has(x));
                    let v = t.mark(x);
                    assert(node_refs(self, x, t.marked_under(v)));
                    lemma_marked_under_below(self, t, v);
                    lemma_node_refs_mono(t.marked_under(v), self.below(t.rank(), v));
                }
                let rb = (t.rank(), bound);
                assert(self.ranked_by(rb.0, rb.1));
            }
        }
        all
    }

    /// Whether the module can be printed: following references from its
    /// function declarations ends, at nodes of the module.
    pub fn is_printable(&self) -> (r: bool)
        ensures
            r == self.printable(),
    {
        let rs = self.mark_ranks();
        let ghost t = rs@;
        let ghost mk = marked_ranking(t);
        let ghost c = canonical_ranking(self);
        let ghost top: nat = u128::MAX as nat + 1;
        proof {
            lemma_marked_ranking(self, t);
            lemma_canonical_ranking(self);
            assert(c.valid(self));
        }
        let fs = self.functions();
        let n = fs.len();
        for i in 0..n
            invariant
                fs@ == self.spec_functions(),
                n == fs@.len(),
                rs@ == t,
                mk == marked_ranking(t),
                mk.valid(self),
                c == canonical_ranking(self),
                c.valid(self),
                top == u128::MAX as nat + 1,
                self.printable() ==> (self.declarations_ok())(c.below(self.print_fuel())),
                forall|rk0: Ranking| #[trigger] rk0.valid(self) ==> forall|x: NodeRef| #[trigger] rk0.contains(x) ==> 0 < t.mark(x),
                forall|rk0: Ranking, x: NodeRef|
                    #![trigger rk0.valid(self), rk0.contains(x)]
                    rk0.valid(self) && rk0.contains(x) ==> c.contains(x) && c.rank_of(x) <= rk0.rank_of(x),
                forall|j: int| 0 <= j < i ==> declaration_refs(#[trigger] self.spec_functions()[j], c.below(top)),
        {
            let d = &fs[i];
            let m = d.clauses.len();
            for k in 0..m
                invariant
                    fs@ == self.spec_functions(),
                    i < fs@.len(),
                    *d == fs@[i as int],
                    m == d.clauses@.len(),
                    rs@ == t,
                    mk == marked_ranking(t),
                    mk.valid(self),
                    c == canonical_ranking(self),
                    c.valid(self),
                    top == u128::MAX as nat + 1,
                    self.printable() ==> (self.declarations_ok())(c.below(self.print_fuel())),
                    forall|rk0: Ranking| #[trigger] rk0.valid(self) ==> forall|x: NodeRef| #[trigger] rk0.contains(x) ==> 0 < t.mark(x),
                    forall|rk0: Ranking, x: NodeRef|
                        #![trigger rk0.valid(self), rk0.contains(x)]
                        rk0.valid(self) && rk0.contains(x) ==> c.contains(x) && c.rank_of(x) <= rk0.rank_of(x),
                    forall|j: int| 0 <= j < k ==> c.below(top)(NodeRef::Clause(#[trigger] d.clauses@[j].index())),
            {
                let key = d.clauses[k].key();
                let ghost cl = NodeRef::Clause(d.clauses@[k as int].index());
                let ok = match rs.get(key) {
                    Some(v) => 0 < v,
                    None => false,
                };
                if !ok {
                    proof {
                        if self.printable() {
                            assert(declaration_refs(self.spec_functions()[i as int], c.below(self.print_fuel())));
                            assert(c.contains(cl));
                            assert(self.has_node(cl));
                            assert(0 < t.mark(cl));
                            assert(false);
                        }
                    }
                    return false;
                }
                proof {
                    assert(mk.contains(cl));
                    assert(mk.valid(self));
                    assert(c.contains(cl) && c.rank_of(cl) <= mk.rank_of(cl));
                }
            }
            assert(declaration_refs(self.spec_functions()[i as int], c.below(top)));
        }
        proof {
            assert((self.declarations_ok())(c.below(top)));
        }
        true
    }
}

} // verus!
