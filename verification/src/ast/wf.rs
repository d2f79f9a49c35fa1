//! Well-formed modules, and rankings of parts of a module: every reference a
//! node makes is to a node of the module, and the references never run in a
//! cycle, stated by ranks: each node refers only to nodes of a lower rank.
use vstd::prelude::*;

use crate::ast::module::{ExprId, Module, PatternId};
use crate::ast::nodes::{
    BitstringElement, BitstringPatternElement, Body, CaseClause, ComprehensionElement, Expr, FunctionClause, FunctionDeclaration, GuardSeq,
    MaybeExpr, Pattern,
};

verus! {

/// A node of a module, by kind and position.
pub enum NodeRef {
    Expr(nat),
    Pattern(nat),
    Clause(nat),
    Body(nat),
    Guard(nat),
}

/// A node of a module, by kind and position, in executable code.
#[derive(Clone, Copy, Debug)]
pub enum NodeKey {
    Expr(u32),
    Pattern(u32),
    Clause(u32),
    Body(u32),
    Guard(u32),
}

impl View for NodeKey {
    type V = NodeRef;

    open spec fn view(&self) -> NodeRef {
        match *self {
            NodeKey::Expr(i) => NodeRef::Expr(i as nat),
            NodeKey::Pattern(i) => NodeRef::Pattern(i as nat),
            NodeKey::Clause(i) => NodeRef::Clause(i as nat),
            NodeKey::Body(i) => NodeRef::Body(i as nat),
            NodeKey::Guard(i) => NodeRef::Guard(i as nat),
        }
    }
}

/// Whether each reference in the case clauses satisfies `p`.
pub open spec fn cases_refs(cs: Seq<CaseClause>, p: spec_fn(NodeRef) -> bool) -> bool {
    forall|i: int|
        0 <= i < cs.len() ==> {
            &&& p(NodeRef::Pattern(#[trigger] cs[i].0.index()))
            &&& p(NodeRef::Guard(cs[i].1.index()))
            &&& p(NodeRef::Body(cs[i].2.index()))
        }
}

/// Whether each reference in the optional case clauses satisfies `p`.
pub open spec fn opt_cases_refs(cs: Option<Vec<CaseClause>>, p: spec_fn(NodeRef) -> bool) -> bool {
    match cs {
        Some(v) => cases_refs(v@, p),
        None => true,
    }
}

/// Whether each reference in the comprehension element satisfies `p`.
pub open spec fn celem_refs(ce: ComprehensionElement, p: spec_fn(NodeRef) -> bool) -> bool {
    match ce {
        ComprehensionElement::ListGenerator(q, e) => p(NodeRef::Pattern(q.index())) && p(
            NodeRef::Expr(e.index()),
        ),
        ComprehensionElement::BitstringGenerator(q, e) => p(NodeRef::Pattern(q.index())) && p(
            NodeRef::Expr(e.index()),
        ),
        ComprehensionElement::MapGenerator(k, v, e) => p(NodeRef::Pattern(k.index())) && p(
            NodeRef::Pattern(v.index()),
        ) && p(NodeRef::Expr(e.index())),
        ComprehensionElement::Filter(e) => p(NodeRef::Expr(e.index())),
    }
}

/// Whether each reference in the comprehension elements satisfies `p`.
pub open spec fn celems_refs(ces: Seq<ComprehensionElement>, p: spec_fn(NodeRef) -> bool) -> bool {
    forall|i: int| 0 <= i < ces.len() ==> celem_refs(#[trigger] ces[i], p)
}

/// Whether each reference in the `maybe` expression satisfies `p`.
pub open spec fn maybe_refs(me: MaybeExpr, p: spec_fn(NodeRef) -> bool) -> bool {
    match me {
        MaybeExpr::Normal(e) => p(NodeRef::Expr(e.index())),
        MaybeExpr::MaybeAssignment(q, e) => p(NodeRef::Pattern(q.index())) && p(NodeRef::Expr(e.index())),
    }
}

/// Whether each reference in the associations of a map literal satisfies `p`.
pub open spec fn map_pairs_refs(kvs: Seq<(ExprId, ExprId)>, p: spec_fn(NodeRef) -> bool) -> bool {
    forall|i: int| #![trigger kvs[i]] 0 <= i < kvs.len() ==> p(NodeRef::Expr(kvs[i].0.index())) && p(NodeRef::Expr(kvs[i].1.index()))
}

/// Whether the optional size of a bitstring segment satisfies `p`.
pub open spec fn size_refs(size: Option<ExprId>, p: spec_fn(NodeRef) -> bool) -> bool {
    match size {
        Some(s) => p(NodeRef::Expr(s.index())),
        None => true,
    }
}

/// Whether each reference in the segments of a bitstring construction satisfies `p`.
pub open spec fn bitstring_refs(els: Seq<BitstringElement>, p: spec_fn(NodeRef) -> bool) -> bool {
    forall|i: int| #![trigger els[i]] 0 <= i < els.len() ==> p(NodeRef::Expr(els[i].0.index())) && size_refs(els[i].1, p)
}

/// Whether each reference in the segments of a bitstring pattern satisfies `p`.
pub open spec fn bitstring_pattern_refs(els: Seq<BitstringPatternElement>, p: spec_fn(NodeRef) -> bool) -> bool {
    forall|i: int| #![trigger els[i]] 0 <= i < els.len() ==> p(NodeRef::Pattern(els[i].0.index())) && size_refs(els[i].1, p)
}

/// Whether each reference in the associations of a map pattern satisfies `p`.
pub open spec fn map_pattern_pairs_refs(kvs: Seq<(ExprId, PatternId)>, p: spec_fn(NodeRef) -> bool) -> bool {
    forall|i: int| #![trigger kvs[i]] 0 <= i < kvs.len() ==> p(NodeRef::Expr(kvs[i].0.index())) && p(NodeRef::Pattern(kvs[i].1.index()))
}

/// Whether each reference the expression makes satisfies `p`.
pub open spec fn expr_refs(e: Expr, p: spec_fn(NodeRef) -> bool) -> bool {
    match e {
        Expr::Var(_) | Expr::Nil() | Expr::Atom(_) | Expr::Integer(_) | Expr::Float(_) | Expr::String(
            _,
        ) => true,
        Expr::LocalCall(_, args) => forall|i: int|
            0 <= i < args@.len() ==> p(NodeRef::Expr(#[trigger] args@[i].index())),
        Expr::RemoteCall(_, _, args) => forall|i: int|
            0 <= i < args@.len() ==> p(NodeRef::Expr(#[trigger] args@[i].index())),
        Expr::Tuple(args) => forall|i: int|
            0 <= i < args@.len() ==> p(NodeRef::Expr(#[trigger] args@[i].index())),
        Expr::Catch(e1) => p(NodeRef::Expr(e1.index())),
        Expr::UnaryOperation(_, e1) => p(NodeRef::Expr(e1.index())),
        Expr::BinaryOperation(_, e1, e2) => p(NodeRef::Expr(e1.index())) && p(NodeRef::Expr(e2.index())),
        Expr::Case(e1, cases) => p(NodeRef::Expr(e1.index())) && cases_refs(cases@, p),
        Expr::Assignment(q, e1) => p(NodeRef::Pattern(q.index())) && p(NodeRef::Expr(e1.index())),
        Expr::MapLiteral(pairs) => map_pairs_refs(pairs@, p),
        Expr::MapInsertion(a, b, c) => p(NodeRef::Expr(a.index())) && p(NodeRef::Expr(b.index())) && p(
            NodeRef::Expr(c.index()),
        ),
        Expr::MapUpdate(a, b, c) => p(NodeRef::Expr(a.index())) && p(NodeRef::Expr(b.index())) && p(
            NodeRef::Expr(c.index()),
        ),
        Expr::BitstringConstruction(elems) => bitstring_refs(elems@, p),
        Expr::Fun(_, clauses) => forall|i: int|
            0 <= i < clauses@.len() ==> p(NodeRef::Clause(#[trigger] clauses@[i].index())),
        Expr::Comprehension(_, e1, elems) => p(NodeRef::Expr(e1.index())) && celems_refs(elems@, p),
        Expr::MapComprehension(k, v, elems) => p(NodeRef::Expr(k.index())) && p(NodeRef::Expr(v.index()))
            && celems_refs(elems@, p),
        Expr::Try(b, of, catch, after) => p(NodeRef::Body(b.index())) && opt_cases_refs(of, p)
            && opt_cases_refs(catch, p) && match after {
            Some(a) => p(NodeRef::Body(a.index())),
            None => true,
        },
        Expr::Maybe(exprs, otherwise) => (forall|i: int|
            0 <= i < exprs@.len() ==> maybe_refs(#[trigger] exprs@[i], p)) && opt_cases_refs(otherwise, p),
        Expr::Block(b) => p(NodeRef::Body(b.index())),
    }
}

/// Whether each reference the pattern makes satisfies `p`.
pub open spec fn pattern_refs(q: Pattern, p: spec_fn(NodeRef) -> bool) -> bool {
    match q {
        Pattern::Nil() | Pattern::Atom(_) | Pattern::Integer(_) | Pattern::Underscore()
        | Pattern::NamedVar(_) => true,
        Pattern::EqualPatterns(a, b) => p(NodeRef::Pattern(a.index())) && p(NodeRef::Pattern(b.index())),
        Pattern::List(a, b) => p(NodeRef::Pattern(a.index())) && p(NodeRef::Pattern(b.index())),
        Pattern::Tuple(ps) => forall|i: int| 0 <= i < ps@.len() ==> p(NodeRef::Pattern(#[trigger] ps@[i].index())),
        Pattern::Bitstring(elems) => bitstring_pattern_refs(elems@, p),
        Pattern::MapPattern(pairs) => map_pattern_pairs_refs(pairs@, p),
    }
}

/// Whether each expression of the body satisfies `p`.
pub open spec fn body_refs(b: Body, p: spec_fn(NodeRef) -> bool) -> bool {
    forall|i: int| 0 <= i < b.exprs@.len() ==> p(NodeRef::Expr(#[trigger] b.exprs@[i].index()))
}

/// Whether each guard of the sequence satisfies `p`.
pub open spec fn guard_refs(g: GuardSeq, p: spec_fn(NodeRef) -> bool) -> bool {
    forall|i: int| 0 <= i < g.guards@.len() ==> p(NodeRef::Expr(#[trigger] g.guards@[i].index()))
}

/// Whether each reference the function clause makes satisfies `p`.
pub open spec fn clause_refs(c: FunctionClause, p: spec_fn(NodeRef) -> bool) -> bool {
    &&& forall|i: int| 0 <= i < c.args@.len() ==> p(NodeRef::Pattern(#[trigger] c.args@[i].index()))
    &&& p(NodeRef::Guard(c.guard.index()))
    &&& p(NodeRef::Body(c.body.index()))
}

/// Whether each clause of the declaration satisfies `p`.
pub open spec fn declaration_refs(d: FunctionDeclaration, p: spec_fn(NodeRef) -> bool) -> bool {
    forall|i: int| 0 <= i < d.clauses@.len() ==> p(NodeRef::Clause(#[trigger] d.clauses@[i].index()))
}

impl<'a> Module<'a> {
    /// Whether the module has the node.
    pub open spec fn has_node(&self, n: NodeRef) -> bool {
        match n {
            NodeRef::Expr(i) => i < self.spec_exprs().len(),
            NodeRef::Pattern(i) => i < self.spec_patterns().len(),
            NodeRef::Clause(i) => i < self.spec_function_clauses().len(),
            NodeRef::Body(i) => i < self.spec_bodies().len(),
            NodeRef::Guard(i) => i < self.spec_guard_seqs().len(),
        }
    }

    /// The references to nodes that the module has.
    pub open spec fn present(&self) -> spec_fn(NodeRef) -> bool {
        |n: NodeRef| self.has_node(n)
    }

    /// The references to nodes that the module has, of rank below `k`.
    pub open spec fn below(&self, r: spec_fn(NodeRef) -> nat, k: nat) -> spec_fn(NodeRef) -> bool {
        |n: NodeRef| self.has_node(n) && r(n) < k
    }

    /// Each node of the module refers only to nodes of the module of a lower
    /// rank than its own, and every node's rank is below `bound`.
    pub open spec fn ranked_by(&self, r: spec_fn(NodeRef) -> nat, bound: nat) -> bool {
        &&& forall|n: NodeRef| #[trigger] self.has_node(n) ==> r(n) < bound
        &&& forall|i: int|
            0 <= i < self.spec_exprs().len() ==> expr_refs(
                #[trigger] self.spec_exprs()[i],
                self.below(r, r(NodeRef::Expr(i as nat))),
            )
        &&& forall|i: int|
            0 <= i < self.spec_patterns().len() ==> pattern_refs(
                #[trigger] self.spec_patterns()[i],
                self.below(r, r(NodeRef::Pattern(i as nat))),
            )
        &&& forall|i: int|
            0 <= i < self.spec_function_clauses().len() ==> clause_refs(
                #[trigger] self.spec_function_clauses()[i],
                self.below(r, r(NodeRef::Clause(i as nat))),
            )
        &&& forall|i: int|
            0 <= i < self.spec_bodies().len() ==> body_refs(
                #[trigger] self.spec_bodies()[i],
                self.below(r, r(NodeRef::Body(i as nat))),
            )
        &&& forall|i: int|
            0 <= i < self.spec_guard_seqs().len() ==> guard_refs(
                #[trigger] self.spec_guard_seqs()[i],
                self.below(r, r(NodeRef::Guard(i as nat))),
            )
    }

    /// The module's nodes refer to nodes of the module, with no cycle.
    pub open spec fn wf(&self) -> bool {
        exists|rb: (spec_fn(NodeRef) -> nat, nat)| self.ranked_by(rb.0, rb.1)
    }

    /// A ranking of the nodes of a well-formed module, with a bound.
    pub open spec fn ranking(&self) -> (spec_fn(NodeRef) -> nat, nat) {
        choose|rb: (spec_fn(NodeRef) -> nat, nat)| self.ranked_by(rb.0, rb.1)
    }

    /// The rank of a node in the ranking.
    pub open spec fn rank(&self, n: NodeRef) -> nat {
        (self.ranking().0)(n)
    }

    /// The bound of the ranking.
    pub open spec fn rank_bound(&self) -> nat {
        self.ranking().1
    }

    /// The nodes of rank below `k` in the ranking.
    pub open spec fn ranked_below(&self, k: nat) -> spec_fn(NodeRef) -> bool {
        self.below(self.ranking().0, k)
    }
}

/// In a well-formed module, what a node refers to ranks below the node.
pub proof fn lemma_ranked_nodes(m: &Module)
    requires
        m.wf(),
    ensures
        m.ranked_by(m.ranking().0, m.ranking().1),
        forall|i: int|
            0 <= i < m.spec_exprs().len() ==> expr_refs(
                #[trigger] m.spec_exprs()[i],
                m.ranked_below(m.rank(NodeRef::Expr(i as nat))),
            ),
        forall|i: int|
            0 <= i < m.spec_patterns().len() ==> pattern_refs(
                #[trigger] m.spec_patterns()[i],
                m.ranked_below(m.rank(NodeRef::Pattern(i as nat))),
            ),
        forall|i: int|
            0 <= i < m.spec_function_clauses().len() ==> clause_refs(
                #[trigger] m.spec_function_clauses()[i],
                m.ranked_below(m.rank(NodeRef::Clause(i as nat))),
            ),
        forall|i: int|
            0 <= i < m.spec_bodies().len() ==> body_refs(
                #[trigger] m.spec_bodies()[i],
                m.ranked_below(m.rank(NodeRef::Body(i as nat))),
            ),
        forall|i: int|
            0 <= i < m.spec_guard_seqs().len() ==> guard_refs(
                #[trigger] m.spec_guard_seqs()[i],
                m.ranked_below(m.rank(NodeRef::Guard(i as nat))),
            ),
        forall|n: NodeRef| #[trigger] m.has_node(n) ==> m.rank(n) < m.rank_bound(),
{
    let rb = m.ranking();
    assert(m.ranked_by(rb.0, rb.1));
}

/// An expression whose references all satisfy `p` has references that all
/// satisfy a weaker `q`.
pub proof fn lemma_expr_refs_mono(e: Expr, p: spec_fn(NodeRef) -> bool, q: spec_fn(NodeRef) -> bool)
    requires
        expr_refs(e, p),
        forall|n: NodeRef| #[trigger] p(n) ==> q(n),
    ensures
        expr_refs(e, q),
{
    match e {
        Expr::Case(_, cs) => {
            assert(cases_refs(cs@, q));
        },
        Expr::Try(_, of, catch, _) => {
            assert(opt_cases_refs(of, q));
            assert(opt_cases_refs(catch, q));
        },
        Expr::Maybe(es, otherwise) => {
            assert forall|i: int| 0 <= i < es@.len() implies maybe_refs(#[trigger] es@[i], q) by {
                assert(maybe_refs(es@[i], p));
            }
            assert(opt_cases_refs(otherwise, q));
        },
        Expr::Comprehension(_, _, els) | Expr::MapComprehension(_, _, els) => {
            assert forall|i: int| 0 <= i < els@.len() implies celem_refs(#[trigger] els@[i], q) by {
                assert(celem_refs(els@[i], p));
            }
        },
        Expr::BitstringConstruction(els) => {
            assert(bitstring_refs(els@, p));
            assert forall|i: int| #![trigger els@[i]] 0 <= i < els@.len() implies q(NodeRef::Expr(els@[i].0.index()))
                && size_refs(els@[i].1, q) by {
                assert(p(NodeRef::Expr(els@[i].0.index())) && size_refs(els@[i].1, p));
            }
            assert(bitstring_refs(els@, q));
        },
        Expr::MapLiteral(pairs) => {
            assert(map_pairs_refs(pairs@, p));
            assert(map_pairs_refs(pairs@, q));
        },
        _ => {},
    }
}

/// A pattern whose references all satisfy `p` has references that all
/// satisfy a weaker `q`.
pub proof fn lemma_pattern_refs_mono(x: Pattern, p: spec_fn(NodeRef) -> bool, q: spec_fn(NodeRef) -> bool)
    requires
        pattern_refs(x, p),
        forall|n: NodeRef| #[trigger] p(n) ==> q(n),
    ensures
        pattern_refs(x, q),
{
    match x {
        Pattern::Bitstring(els) => {
            assert(bitstring_pattern_refs(els@, p));
            assert forall|i: int| #![trigger els@[i]] 0 <= i < els@.len() implies q(NodeRef::Pattern(els@[i].0.index()))
                && size_refs(els@[i].1, q) by {
                assert(p(NodeRef::Pattern(els@[i].0.index())) && size_refs(els@[i].1, p));
            }
            assert(bitstring_pattern_refs(els@, q));
        },
        Pattern::MapPattern(pairs) => {
            assert(map_pattern_pairs_refs(pairs@, p));
            assert(map_pattern_pairs_refs(pairs@, q));
        },
        _ => {},
    }
}

} // verus!
verus! {

/// Whatever satisfies `p` satisfying `q`, a node whose references satisfy
/// `p` has references that satisfy `q`.
pub proof fn lemma_node_refs_mono(p: spec_fn(NodeRef) -> bool, q: spec_fn(NodeRef) -> bool)
    requires
        forall|n: NodeRef| #[trigger] p(n) ==> q(n),
    ensures
        forall|e: Expr| expr_refs(e, p) ==> #[trigger] expr_refs(e, q),
        forall|x: Pattern| pattern_refs(x, p) ==> #[trigger] pattern_refs(x, q),
        forall|c: FunctionClause| clause_refs(c, p) ==> #[trigger] clause_refs(c, q),
        forall|b: Body| body_refs(b, p) ==> #[trigger] body_refs(b, q),
        forall|g: GuardSeq| guard_refs(g, p) ==> #[trigger] guard_refs(g, q),
{
    assert forall|e: Expr| expr_refs(e, p) implies #[trigger] expr_refs(e, q) by {
        lemma_expr_refs_mono(e, p, q);
    }
    assert forall|x: Pattern| pattern_refs(x, p) implies #[trigger] pattern_refs(x, q) by {
        lemma_pattern_refs_mono(x, p, q);
    }
    assert forall|c: FunctionClause| clause_refs(c, p) implies #[trigger] clause_refs(c, q) by {
        assert forall|i: int| 0 <= i < c.args@.len() implies q(NodeRef::Pattern(#[trigger] c.args@[i].index())) by {
            assert(p(NodeRef::Pattern(c.args@[i].index())));
        }
    }
    assert forall|b: Body| body_refs(b, p) implies #[trigger] body_refs(b, q) by {
        assert forall|i: int| 0 <= i < b.exprs@.len() implies q(NodeRef::Expr(#[trigger] b.exprs@[i].index())) by {
            assert(p(NodeRef::Expr(b.exprs@[i].index())));
        }
    }
    assert forall|g: GuardSeq| guard_refs(g, p) implies #[trigger] guard_refs(g, q) by {
        assert forall|i: int| 0 <= i < g.guards@.len() implies q(NodeRef::Expr(#[trigger] g.guards@[i].index())) by {
            assert(p(NodeRef::Expr(g.guards@[i].index())));
        }
    }
}

/// The rank of every node of `old`, and `bound` for the one node that `new`
/// adds.
pub open spec fn extend_ranking(r: spec_fn(NodeRef) -> nat, added: NodeRef, bound: nat) -> spec_fn(
    NodeRef,
) -> nat {
    |n: NodeRef|
        if n == added {
            bound
        } else {
            r(n)
        }
}

/// `new` holds the nodes of `old` at the same places, and at most the node
/// `added` besides; `added` is not a node of `old`.
pub open spec fn extends_by(old: &Module, new: &Module, added: NodeRef) -> bool {
    &&& !old.has_node(added)
    &&& forall|n: NodeRef| #[trigger] new.has_node(n) ==> old.has_node(n) || n == added
    &&& forall|n: NodeRef| #[trigger] old.has_node(n) ==> new.has_node(n)
    &&& forall|i: int| 0 <= i < old.spec_exprs().len() ==> #[trigger] new.spec_exprs()[i] == old.spec_exprs()[i]
    &&& forall|i: int|
        0 <= i < old.spec_patterns().len() ==> #[trigger] new.spec_patterns()[i] == old.spec_patterns()[i]
    &&& forall|i: int|
        0 <= i < old.spec_function_clauses().len() ==> #[trigger] new.spec_function_clauses()[i]
            == old.spec_function_clauses()[i]
    &&& forall|i: int| 0 <= i < old.spec_bodies().len() ==> #[trigger] new.spec_bodies()[i] == old.spec_bodies()[i]
    &&& forall|i: int|
        0 <= i < old.spec_guard_seqs().len() ==> #[trigger] new.spec_guard_seqs()[i] == old.spec_guard_seqs()[i]
}

/// Adding to a well-formed module one node that refers only to nodes of the
/// module keeps it well formed: the new node ranks above all the others.
pub proof fn lemma_extend_wf(old: &Module, new: &Module, added: NodeRef)
    requires
        old.wf(),
        extends_by(old, new, added),
        match added {
            NodeRef::Expr(i) => expr_refs(new.spec_exprs()[i as int], old.present()),
            NodeRef::Pattern(i) => pattern_refs(new.spec_patterns()[i as int], old.present()),
            NodeRef::Clause(i) => clause_refs(new.spec_function_clauses()[i as int], old.present()),
            NodeRef::Body(i) => body_refs(new.spec_bodies()[i as int], old.present()),
            NodeRef::Guard(i) => guard_refs(new.spec_guard_seqs()[i as int], old.present()),
        },
    ensures
        new.wf(),
{
    let (r, b) = old.ranking();
    assert(old.ranked_by(r, b));
    let r2 = extend_ranking(r, added, b);
    let b2 = b + 1;
    assert forall|n: NodeRef| #[trigger] new.has_node(n) implies r2(n) < b2 by {
        if n != added {
            assert(old.has_node(n));
        }
    }
    assert forall|k: nat, n: NodeRef| #[trigger] old.below(r, k)(n) implies #[trigger] new.below(r2, k)(n) by {
        assert(old.has_node(n));
    }
    assert forall|n: NodeRef| #[trigger] old.present()(n) implies new.below(r2, b)(n) by {
        assert(old.has_node(n));
    }
    lemma_node_refs_mono(old.present(), new.below(r2, b));
    assert forall|i: int| 0 <= i < new.spec_exprs().len() implies expr_refs(
        #[trigger] new.spec_exprs()[i],
        new.below(r2, r2(NodeRef::Expr(i as nat))),
    ) by {
        if NodeRef::Expr(i as nat) != added {
            assert(new.has_node(NodeRef::Expr(i as nat)));
            assert(old.has_node(NodeRef::Expr(i as nat)));
            let k = r(NodeRef::Expr(i as nat));
            assert(expr_refs(old.spec_exprs()[i], old.below(r, k)));
            assert forall|n: NodeRef| #[trigger] old.below(r, k)(n) implies new.below(r2, k)(n) by {
                assert(old.has_node(n));
            }
            lemma_expr_refs_mono(old.spec_exprs()[i], old.below(r, k), new.below(r2, k));
        }
    }
    assert forall|i: int| 0 <= i < new.spec_patterns().len() implies pattern_refs(
        #[trigger] new.spec_patterns()[i],
        new.below(r2, r2(NodeRef::Pattern(i as nat))),
    ) by {
        if NodeRef::Pattern(i as nat) != added {
            assert(new.has_node(NodeRef::Pattern(i as nat)));
            assert(old.has_node(NodeRef::Pattern(i as nat)));
            let k = r(NodeRef::Pattern(i as nat));
            assert(pattern_refs(old.spec_patterns()[i], old.below(r, k)));
            assert forall|n: NodeRef| #[trigger] old.below(r, k)(n) implies new.below(r2, k)(n) by {
                assert(old.has_node(n));
            }
            lemma_pattern_refs_mono(old.spec_patterns()[i], old.below(r, k), new.below(r2, k));
        }
    }
    assert forall|i: int| 0 <= i < new.spec_function_clauses().len() implies clause_refs(
        #[trigger] new.spec_function_clauses()[i],
        new.below(r2, r2(NodeRef::Clause(i as nat))),
    ) by {
        if NodeRef::Clause(i as nat) != added {
            assert(new.has_node(NodeRef::Clause(i as nat)));
            assert(old.has_node(NodeRef::Clause(i as nat)));
            let k = r(NodeRef::Clause(i as nat));
            assert(clause_refs(old.spec_function_clauses()[i], old.below(r, k)));
            assert forall|n: NodeRef| #[trigger] old.below(r, k)(n) implies new.below(r2, k)(n) by {
                assert(old.has_node(n));
            }
            lemma_node_refs_mono(old.below(r, k), new.below(r2, k));
        }
    }
    assert forall|i: int| 0 <= i < new.spec_bodies().len() implies body_refs(
        #[trigger] new.spec_bodies()[i],
        new.below(r2, r2(NodeRef::Body(i as nat))),
    ) by {
        if NodeRef::Body(i as nat) != added {
            assert(new.has_node(NodeRef::Body(i as nat)));
            assert(old.has_node(NodeRef::Body(i as nat)));
            let k = r(NodeRef::Body(i as nat));
            assert(body_refs(old.spec_bodies()[i], old.below(r, k)));
            assert forall|n: NodeRef| #[trigger] old.below(r, k)(n) implies new.below(r2, k)(n) by {
                assert(old.has_node(n));
            }
            lemma_node_refs_mono(old.below(r, k), new.below(r2, k));
        }
    }
    assert forall|i: int| 0 <= i < new.spec_guard_seqs().len() implies guard_refs(
        #[trigger] new.spec_guard_seqs()[i],
        new.below(r2, r2(NodeRef::Guard(i as nat))),
    ) by {
        if NodeRef::Guard(i as nat) != added {
            assert(new.has_node(NodeRef::Guard(i as nat)));
            assert(old.has_node(NodeRef::Guard(i as nat)));
            let k = r(NodeRef::Guard(i as nat));
            assert(guard_refs(old.spec_guard_seqs()[i], old.below(r, k)));
            assert forall|n: NodeRef| #[trigger] old.below(r, k)(n) implies new.below(r2, k)(n) by {
                assert(old.has_node(n));
            }
            lemma_node_refs_mono(old.below(r, k), new.below(r2, k));
        }
    }
    assert(new.ranked_by(r2, b2));
    let rb = (r2, b2);
    assert(new.ranked_by(rb.0, rb.1));
}

/// The nodes a node of `m` refers to satisfy `p`.
pub open spec fn node_refs(m: &Module, n: NodeRef, p: spec_fn(NodeRef) -> bool) -> bool {
    match n {
        NodeRef::Expr(i) => expr_refs(m.spec_exprs()[i as int], p),
        NodeRef::Pattern(i) => pattern_refs(m.spec_patterns()[i as int], p),
        NodeRef::Clause(i) => clause_refs(m.spec_function_clauses()[i as int], p),
        NodeRef::Body(i) => body_refs(m.spec_bodies()[i as int], p),
        NodeRef::Guard(i) => guard_refs(m.spec_guard_seqs()[i as int], p),
    }
}

/// Ranks for a set of nodes of a module: a proof that what those nodes
/// refer to is in the set and ranks lower, so that following references
/// from them ends.
pub struct Ranking {
    /// The rank of each node.
    pub rank: spec_fn(NodeRef) -> nat,
    /// The nodes ranked.
    pub nodes: spec_fn(NodeRef) -> bool,
}

impl Ranking {
    /// Whether the node is ranked.
    pub open spec fn contains(self, n: NodeRef) -> bool {
        (self.nodes)(n)
    }

    /// The rank of the node.
    pub open spec fn rank_of(self, n: NodeRef) -> nat {
        (self.rank)(n)
    }

    /// The ranked nodes of rank below `k`.
    pub open spec fn below(self, k: nat) -> spec_fn(NodeRef) -> bool {
        |n: NodeRef| self.contains(n) && self.rank_of(n) < k
    }

    /// Every ranked node is a node of `m` and refers only to ranked nodes of
    /// a lower rank.
    pub open spec fn valid(self, m: &Module) -> bool {
        forall|n: NodeRef|
            #[trigger] self.contains(n) ==> m.has_node(n) && node_refs(m, n, self.below(self.rank_of(n)))
    }
}

/// Whether some valid ranking of `m` ranks `n`: following references from
/// `n` ends, at nodes of `m`.
pub open spec fn rankable(m: &Module, n: NodeRef) -> bool {
    exists|rk: Ranking| rk.valid(m) && #[trigger] rk.contains(n)
}

/// `v` is the least rank that a valid ranking of `m` gives `n`.
pub open spec fn is_least_rank(m: &Module, n: NodeRef, v: nat) -> bool {
    &&& exists|rk: Ranking| rk.valid(m) && rk.contains(n) && #[trigger] rk.rank_of(n) == v
    &&& forall|rk: Ranking| rk.valid(m) && rk.contains(n) ==> v <= #[trigger] rk.rank_of(n)
}

/// The least rank that a valid ranking of `m` gives `n`.
pub open spec fn least_rank(m: &Module, n: NodeRef) -> nat {
    choose|v: nat| is_least_rank(m, n, v)
}

/// The ranking of every node that some valid ranking of `m` ranks, each at
/// its least rank.
pub open spec fn canonical_ranking(m: &Module) -> Ranking {
    Ranking { rank: |n: NodeRef| least_rank(m, n), nodes: |n: NodeRef| rankable(m, n) }
}

/// Some bound on ranks of the canonical ranking makes `ok` hold of the
/// nodes ranked below it.
pub open spec fn ranked_for(m: &Module, ok: spec_fn(spec_fn(NodeRef) -> bool) -> bool) -> bool {
    exists|k: nat| #[trigger] ok(canonical_ranking(m).below(k))
}

/// A bound on ranks of the canonical ranking that makes `ok` hold of the
/// nodes ranked below it, where there is one.
pub open spec fn fuel_for(m: &Module, ok: spec_fn(spec_fn(NodeRef) -> bool) -> bool) -> nat {
    choose|k: nat| #[trigger] ok(canonical_ranking(m).below(k))
}

proof fn lemma_least_rank_exists(m: &Module, n: NodeRef, rk0: Ranking, v0: nat)
    requires
        rk0.valid(m),
        rk0.contains(n),
        rk0.rank_of(n) <= v0,
    ensures
        exists|v: nat| is_least_rank(m, n, v),
    decreases v0,
{
    if forall|rk: Ranking| rk.valid(m) && rk.contains(n) ==> rk0.rank_of(n) <= #[trigger] rk.rank_of(n) {
        assert(is_least_rank(m, n, rk0.rank_of(n)));
    } else {
        let rk1 = choose|rk: Ranking| rk.valid(m) && rk.contains(n) && !(rk0.rank_of(n) <= #[trigger] rk.rank_of(n));
        lemma_least_rank_exists(m, n, rk1, (v0 - 1) as nat);
    }
}

/// The canonical ranking is valid, and ranks every node that a valid
/// ranking ranks, no higher than that ranking.
pub proof fn lemma_canonical_ranking(m: &Module)
    ensures
        canonical_ranking(m).valid(m),
        forall|rk: Ranking, n: NodeRef|
            #![trigger rk.valid(m), rk.contains(n)]
            rk.valid(m) && rk.contains(n) ==> canonical_ranking(m).contains(n) && canonical_ranking(m).rank_of(n)
                <= rk.rank_of(n),
{
    let c = canonical_ranking(m);
    assert forall|rk: Ranking, n: NodeRef|
        #![trigger rk.valid(m), rk.contains(n)]
        rk.valid(m) && rk.contains(n) implies c.contains(n) && c.rank_of(n) <= rk.rank_of(n) by {
        lemma_least_rank_exists(m, n, rk, rk.rank_of(n));
        assert(is_least_rank(m, n, least_rank(m, n)));
    }
    assert forall|n: NodeRef| #[trigger] c.contains(n) implies m.has_node(n) && node_refs(m, n, c.below(c.rank_of(n))) by {
        let rk0 = choose|rk: Ranking| rk.valid(m) && #[trigger] rk.contains(n);
        lemma_least_rank_exists(m, n, rk0, rk0.rank_of(n));
        let v = least_rank(m, n);
        assert(is_least_rank(m, n, v));
        let rk = choose|rk: Ranking| rk.valid(m) && rk.contains(n) && #[trigger] rk.rank_of(n) == v;
        assert(node_refs(m, n, rk.below(v)));
        assert forall|x: NodeRef| #[trigger] rk.below(v)(x) implies c.below(v)(x) by {
            assert(rk.contains(x));
            lemma_least_rank_exists(m, x, rk, rk.rank_of(x));
            assert(is_least_rank(m, x, least_rank(m, x)));
        }
        lemma_node_refs_mono(rk.below(v), c.below(v));
    }
}

/// What a valid ranking tells of each kind of node it ranks.
pub proof fn lemma_ranking_nodes(m: &Module, rk: Ranking)
    requires
        rk.valid(m),
    ensures
        forall|n: NodeRef| #[trigger] rk.contains(n) ==> m.has_node(n),
        forall|i: int|
            0 <= i < m.spec_exprs().len() && rk.contains(NodeRef::Expr(i as nat)) ==> expr_refs(
                #[trigger] m.spec_exprs()[i],
                rk.below(rk.rank_of(NodeRef::Expr(i as nat))),
            ),
        forall|i: int|
            0 <= i < m.spec_patterns().len() && rk.contains(NodeRef::Pattern(i as nat)) ==> pattern_refs(
                #[trigger] m.spec_patterns()[i],
                rk.below(rk.rank_of(NodeRef::Pattern(i as nat))),
            ),
        forall|i: int|
            0 <= i < m.spec_function_clauses().len() && rk.contains(NodeRef::Clause(i as nat)) ==> clause_refs(
                #[trigger] m.spec_function_clauses()[i],
                rk.below(rk.rank_of(NodeRef::Clause(i as nat))),
            ),
        forall|i: int|
            0 <= i < m.spec_bodies().len() && rk.contains(NodeRef::Body(i as nat)) ==> body_refs(
                #[trigger] m.spec_bodies()[i],
                rk.below(rk.rank_of(NodeRef::Body(i as nat))),
            ),
        forall|i: int|
            0 <= i < m.spec_guard_seqs().len() && rk.contains(NodeRef::Guard(i as nat)) ==> guard_refs(
                #[trigger] m.spec_guard_seqs()[i],
                rk.below(rk.rank_of(NodeRef::Guard(i as nat))),
            ),
{
    assert forall|i: int|
        0 <= i < m.spec_exprs().len() && rk.contains(NodeRef::Expr(i as nat)) implies expr_refs(
        #[trigger] m.spec_exprs()[i],
        rk.below(rk.rank_of(NodeRef::Expr(i as nat))),
    ) by {
        assert(node_refs(m, NodeRef::Expr(i as nat), rk.below(rk.rank_of(NodeRef::Expr(i as nat)))));
    }
    assert forall|i: int|
        0 <= i < m.spec_patterns().len() && rk.contains(NodeRef::Pattern(i as nat)) implies pattern_refs(
        #[trigger] m.spec_patterns()[i],
        rk.below(rk.rank_of(NodeRef::Pattern(i as nat))),
    ) by {
        assert(node_refs(m, NodeRef::Pattern(i as nat), rk.below(rk.rank_of(NodeRef::Pattern(i as nat)))));
    }
    assert forall|i: int|
        0 <= i < m.spec_function_clauses().len() && rk.contains(NodeRef::Clause(i as nat)) implies clause_refs(
        #[trigger] m.spec_function_clauses()[i],
        rk.below(rk.rank_of(NodeRef::Clause(i as nat))),
    ) by {
        assert(node_refs(m, NodeRef::Clause(i as nat), rk.below(rk.rank_of(NodeRef::Clause(i as nat)))));
    }
    assert forall|i: int|
        0 <= i < m.spec_bodies().len() && rk.contains(NodeRef::Body(i as nat)) implies body_refs(
        #[trigger] m.spec_bodies()[i],
        rk.below(rk.rank_of(NodeRef::Body(i as nat))),
    ) by {
        assert(node_refs(m, NodeRef::Body(i as nat), rk.below(rk.rank_of(NodeRef::Body(i as nat)))));
    }
    assert forall|i: int|
        0 <= i < m.spec_guard_seqs().len() && rk.contains(NodeRef::Guard(i as nat)) implies guard_refs(
        #[trigger] m.spec_guard_seqs()[i],
        rk.below(rk.rank_of(NodeRef::Guard(i as nat))),
    ) by {
        assert(node_refs(m, NodeRef::Guard(i as nat), rk.below(rk.rank_of(NodeRef::Guard(i as nat)))));
    }
}

/// The ranking of a well-formed module, over all its nodes.
pub open spec fn full_ranking(m: &Module) -> Ranking {
    Ranking { rank: m.ranking().0, nodes: m.present() }
}

/// The ranking of a well-formed module is valid.
pub proof fn lemma_full_ranking(m: &Module)
    requires
        m.wf(),
    ensures
        full_ranking(m).valid(m),
        forall|n: NodeRef| #[trigger] full_ranking(m).contains(n) == m.has_node(n),
{
    lemma_ranked_nodes(m);
    let rk = full_ranking(m);
    assert forall|k: nat, n: NodeRef| #[trigger] m.ranked_below(k)(n) implies rk.below(k)(n) by {}
    assert forall|n: NodeRef| #[trigger] rk.contains(n) implies m.has_node(n) && node_refs(
        m,
        n,
        rk.below(rk.rank_of(n)),
    ) by {
        let k = rk.rank_of(n);
        assert forall|x: NodeRef| #[trigger] m.ranked_below(k)(x) implies rk.below(k)(x) by {}
        lemma_node_refs_mono(m.ranked_below(k), rk.below(k));
        match n {
            NodeRef::Expr(i) => assert(expr_refs(m.spec_exprs()[i as int], m.ranked_below(k))),
            NodeRef::Pattern(i) => assert(pattern_refs(m.spec_patterns()[i as int], m.ranked_below(k))),
            NodeRef::Clause(i) => assert(clause_refs(m.spec_function_clauses()[i as int], m.ranked_below(k))),
            NodeRef::Body(i) => assert(body_refs(m.spec_bodies()[i as int], m.ranked_below(k))),
            NodeRef::Guard(i) => assert(guard_refs(m.spec_guard_seqs()[i as int], m.ranked_below(k))),
        }
    }
}

} // verus!
