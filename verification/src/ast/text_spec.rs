//! The Erlang text of every kind of node, as the printer writes it.
use vstd::prelude::*;

use crate::ast::module::{BodyId, ExprId, FunctionClauseId, GuardSeqId, Module, PatternId};
use crate::ast::nodes::{
    BitstringElement, BitstringPatternElement, Body, CaseClause, ComprehensionElement, Expr,
    FunctionClause, FunctionDeclaration, GuardSeq, MaybeExpr, Pattern,
};
use crate::ast::operators::ComprehensionKind;
use crate::ast::wf::{
    Ranking,
    body_refs, cases_refs, celem_refs, clause_refs, expr_refs, guard_refs, maybe_refs, size_refs,
    pattern_refs, NodeRef,
};
use crate::text::{decimal, seq_join};

verus! {

/// The text of the expression `id` refers to.
pub open spec fn expr_text(m: &Module, rk: Ranking, id: ExprId) -> Seq<char>
    decreases rk.rank_of(NodeRef::Expr(id.index())), 2nat, 0nat,
{
    if id.index() < m.spec_exprs().len() {
        expr_node_text(m, rk, m.spec_exprs()[id.index() as int], rk.rank_of(NodeRef::Expr(id.index())))
    } else {
        Seq::empty()
    }
}

/// The text of the pattern `id` refers to.
pub open spec fn pattern_text(m: &Module, rk: Ranking, id: PatternId) -> Seq<char>
    decreases rk.rank_of(NodeRef::Pattern(id.index())), 2nat, 0nat,
{
    if id.index() < m.spec_patterns().len() {
        pattern_node_text(m, rk, m.spec_patterns()[id.index() as int], rk.rank_of(NodeRef::Pattern(id.index())))
    } else {
        Seq::empty()
    }
}

/// The text of the body `id` refers to.
pub open spec fn body_text(m: &Module, rk: Ranking, id: BodyId) -> Seq<char>
    decreases rk.rank_of(NodeRef::Body(id.index())), 2nat, 0nat,
{
    if id.index() < m.spec_bodies().len() {
        body_node_text(m, rk, m.spec_bodies()[id.index() as int], rk.rank_of(NodeRef::Body(id.index())))
    } else {
        Seq::empty()
    }
}

/// The text of the guard sequence `id` refers to.
pub open spec fn guard_text(m: &Module, rk: Ranking, id: GuardSeqId) -> Seq<char>
    decreases rk.rank_of(NodeRef::Guard(id.index())), 2nat, 0nat,
{
    if id.index() < m.spec_guard_seqs().len() {
        guard_node_text(m, rk, m.spec_guard_seqs()[id.index() as int], rk.rank_of(NodeRef::Guard(id.index())))
    } else {
        Seq::empty()
    }
}

/// The text of the function clause `id` refers to.
pub open spec fn clause_text(m: &Module, rk: Ranking, id: FunctionClauseId) -> Seq<char>
    decreases rk.rank_of(NodeRef::Clause(id.index())), 2nat, 0nat,
{
    if id.index() < m.spec_function_clauses().len() {
        clause_node_text(
            m,
            rk,
            m.spec_function_clauses()[id.index() as int],
            rk.rank_of(NodeRef::Clause(id.index())),
        )
    } else {
        Seq::empty()
    }
}

/// The texts of the expressions `ids` refer to.
pub open spec fn expr_texts(m: &Module, rk: Ranking, ids: Seq<ExprId>, k: nat) -> Seq<Seq<char>>
    decreases k, 0nat, 1nat,
{
    if forall|i: int| 0 <= i < ids.len() ==> rk.below(k)(NodeRef::Expr(#[trigger] ids[i].index())) {
        Seq::new(
            ids.len(),
            |i: int|
                if 0 <= i < ids.len() {
                    expr_text(m, rk, ids[i])
                } else {
                    Seq::empty()
                },
        )
    } else {
        Seq::empty()
    }
}

/// The texts of the patterns `ids` refer to.
pub open spec fn pattern_texts(m: &Module, rk: Ranking, ids: Seq<PatternId>, k: nat) -> Seq<Seq<char>>
    decreases k, 0nat, 1nat,
{
    if forall|i: int| 0 <= i < ids.len() ==> rk.below(k)(NodeRef::Pattern(#[trigger] ids[i].index())) {
        Seq::new(
            ids.len(),
            |i: int|
                if 0 <= i < ids.len() {
                    pattern_text(m, rk, ids[i])
                } else {
                    Seq::empty()
                },
        )
    } else {
        Seq::empty()
    }
}

/// The texts of the function clauses `ids` refer to.
pub open spec fn clause_texts(m: &Module, rk: Ranking, ids: Seq<FunctionClauseId>, k: nat) -> Seq<Seq<char>>
    decreases k, 0nat, 1nat,
{
    if forall|i: int| 0 <= i < ids.len() ==> rk.below(k)(NodeRef::Clause(#[trigger] ids[i].index())) {
        Seq::new(
            ids.len(),
            |i: int|
                if 0 <= i < ids.len() {
                    clause_text(m, rk, ids[i])
                } else {
                    Seq::empty()
                },
        )
    } else {
        Seq::empty()
    }
}

/// The text of a clause of a `case`, `try` or `maybe`: pattern, guard, arrow, body.
pub open spec fn case_text(m: &Module, rk: Ranking, c: CaseClause, k: nat) -> Seq<char>
    decreases k, 0nat, 0nat,
{
    if rk.below(k)(NodeRef::Pattern(c.0.index())) && rk.below(k)(NodeRef::Guard(c.1.index()))
        && rk.below(k)(NodeRef::Body(c.2.index())) {
        pattern_text(m, rk, c.0) + " "@ + guard_text(m, rk, c.1) + " ->\n\t"@ + body_text(m, rk, c.2)
    } else {
        Seq::empty()
    }
}

/// The texts of case clauses.
pub open spec fn case_texts(m: &Module, rk: Ranking, cs: Seq<CaseClause>, k: nat) -> Seq<Seq<char>>
    decreases k, 0nat, 1nat,
{
    Seq::new(
        cs.len(),
        |i: int|
            if 0 <= i < cs.len() {
                case_text(m, rk, cs[i], k)
            } else {
                Seq::empty()
            },
    )
}

/// The case clauses joined as a `case` writes them.
pub open spec fn cases_text(m: &Module, rk: Ranking, cs: Seq<CaseClause>, k: nat) -> Seq<char>
    decreases k, 0nat, 2nat,
{
    seq_join(case_texts(m, rk, cs, k), ";\n\t"@)
}

/// The text of an association of a map literal: key `=>` value.
pub open spec fn map_pair_text(m: &Module, rk: Ranking, kv: (ExprId, ExprId), k: nat) -> Seq<char>
    decreases k, 0nat, 0nat,
{
    if rk.below(k)(NodeRef::Expr(kv.0.index())) && rk.below(k)(NodeRef::Expr(kv.1.index())) {
        expr_text(m, rk, kv.0) + " => "@ + expr_text(m, rk, kv.1)
    } else {
        Seq::empty()
    }
}

/// The texts of the associations of a map literal.
pub open spec fn map_pair_texts(m: &Module, rk: Ranking, kvs: Seq<(ExprId, ExprId)>, k: nat) -> Seq<Seq<char>>
    decreases k, 0nat, 1nat,
{
    Seq::new(
        kvs.len(),
        |i: int|
            if 0 <= i < kvs.len() {
                map_pair_text(m, rk, kvs[i], k)
            } else {
                Seq::empty()
            },
    )
}

/// The size part of a bitstring segment: `:(` size `)`, or nothing.
pub open spec fn size_part(m: &Module, rk: Ranking, size: Option<ExprId>, k: nat) -> Seq<char>
    decreases k, 0nat, 0nat,
{
    match size {
        Some(s) => if rk.below(k)(NodeRef::Expr(s.index())) {
            ":("@ + expr_text(m, rk, s) + ")"@
        } else {
            Seq::empty()
        },
        None => Seq::empty(),
    }
}

/// The text of a segment of a bitstring construction: `(` value `)`, the
/// size part and the type specifier.
pub open spec fn bitstring_elem_text(m: &Module, rk: Ranking, el: BitstringElement, k: nat) -> Seq<char>
    decreases k, 0nat, 1nat,
{
    if rk.below(k)(NodeRef::Expr(el.0.index())) {
        "("@ + expr_text(m, rk, el.0) + ")"@ + size_part(m, rk, el.1, k) + el.2.text()
    } else {
        Seq::empty()
    }
}

/// The texts of the segments of a bitstring construction.
pub open spec fn bitstring_elem_texts(m: &Module, rk: Ranking, els: Seq<BitstringElement>, k: nat) -> Seq<Seq<char>>
    decreases k, 0nat, 2nat,
{
    Seq::new(
        els.len(),
        |i: int|
            if 0 <= i < els.len() {
                bitstring_elem_text(m, rk, els[i], k)
            } else {
                Seq::empty()
            },
    )
}

/// The text of a segment of a bitstring pattern: pattern, size part, type
/// specifier.
pub open spec fn bitstring_pattern_elem_text(m: &Module, rk: Ranking, el: BitstringPatternElement, k: nat) -> Seq<char>
    decreases k, 0nat, 1nat,
{
    if rk.below(k)(NodeRef::Pattern(el.0.index())) {
        pattern_text(m, rk, el.0) + size_part(m, rk, el.1, k) + el.2.text()
    } else {
        Seq::empty()
    }
}

/// The texts of the segments of a bitstring pattern.
pub open spec fn bitstring_pattern_elem_texts(
    m: &Module,
    rk: Ranking,
    els: Seq<BitstringPatternElement>,
    k: nat,
) -> Seq<Seq<char>>
    decreases k, 0nat, 2nat,
{
    Seq::new(
        els.len(),
        |i: int|
            if 0 <= i < els.len() {
                bitstring_pattern_elem_text(m, rk, els[i], k)
            } else {
                Seq::empty()
            },
    )
}

/// The text of an association of a map pattern: key `:=` pattern.
pub open spec fn map_pattern_pair_text(m: &Module, rk: Ranking, kv: (ExprId, PatternId), k: nat) -> Seq<char>
    decreases k, 0nat, 0nat,
{
    if rk.below(k)(NodeRef::Expr(kv.0.index())) && rk.below(k)(NodeRef::Pattern(kv.1.index())) {
        expr_text(m, rk, kv.0) + " := "@ + pattern_text(m, rk, kv.1)
    } else {
        Seq::empty()
    }
}

/// The texts of the associations of a map pattern.
pub open spec fn map_pattern_pair_texts(m: &Module, rk: Ranking, kvs: Seq<(ExprId, PatternId)>, k: nat) -> Seq<Seq<char>>
    decreases k, 0nat, 1nat,
{
    Seq::new(
        kvs.len(),
        |i: int|
            if 0 <= i < kvs.len() {
                map_pattern_pair_text(m, rk, kvs[i], k)
            } else {
                Seq::empty()
            },
    )
}

/// The text of a generator or filter of a comprehension.
pub open spec fn celem_text(m: &Module, rk: Ranking, ce: ComprehensionElement, k: nat) -> Seq<char>
    decreases k, 0nat, 0nat,
{
    if celem_refs(ce, rk.below(k)) {
        match ce {
            ComprehensionElement::ListGenerator(p, e) => pattern_text(m, rk, p) + " <- "@ + expr_text(m, rk, e),
            ComprehensionElement::BitstringGenerator(p, e) => pattern_text(m, rk, p) + " <= "@ + expr_text(m, rk, e),
            ComprehensionElement::MapGenerator(kp, vp, e) => pattern_text(m, rk, kp) + " := "@ + pattern_text(
                m,
                rk,
                vp,
            ) + " <- "@ + expr_text(m, rk, e),
            ComprehensionElement::Filter(e) => expr_text(m, rk, e),
        }
    } else {
        Seq::empty()
    }
}

/// The texts of the generators and filters of a comprehension.
pub open spec fn celem_texts(m: &Module, rk: Ranking, ces: Seq<ComprehensionElement>, k: nat) -> Seq<Seq<char>>
    decreases k, 0nat, 1nat,
{
    Seq::new(
        ces.len(),
        |i: int|
            if 0 <= i < ces.len() {
                celem_text(m, rk, ces[i], k)
            } else {
                Seq::empty()
            },
    )
}

/// The text of an expression of a `maybe` block.
pub open spec fn maybe_text(m: &Module, rk: Ranking, me: MaybeExpr, k: nat) -> Seq<char>
    decreases k, 0nat, 0nat,
{
    if maybe_refs(me, rk.below(k)) {
        match me {
            MaybeExpr::Normal(e) => expr_text(m, rk, e),
            MaybeExpr::MaybeAssignment(p, e) => pattern_text(m, rk, p) + " ?= "@ + expr_text(m, rk, e),
        }
    } else {
        Seq::empty()
    }
}

/// The texts of the expressions of a `maybe` block.
pub open spec fn maybe_texts(m: &Module, rk: Ranking, mes: Seq<MaybeExpr>, k: nat) -> Seq<Seq<char>>
    decreases k, 0nat, 1nat,
{
    Seq::new(
        mes.len(),
        |i: int|
            if 0 <= i < mes.len() {
                maybe_text(m, rk, mes[i], k)
            } else {
                Seq::empty()
            },
    )
}

/// The text of an expression whose references are all of rank below `k`.
pub open spec fn expr_node_text(m: &Module, rk: Ranking, e: Expr, k: nat) -> Seq<char>
    decreases k, 1nat, 0nat,
{
    if expr_refs(e, rk.below(k)) {
        match e {
            Expr::Var(v) => "_V"@ + decimal(v as nat),
            Expr::Nil() => "[]"@,
            Expr::Atom(a) => a@,
            Expr::Integer(n) => n.text(),
            Expr::Float(x) => x@,
            Expr::String(s) => "\""@ + s@ + "\""@,
            Expr::LocalCall(f, args) => "("@ + f@ + "("@ + seq_join(expr_texts(m, rk, args@, k), ", "@) + "))"@,
            Expr::RemoteCall(md, f, args) => "("@ + md@ + ":"@ + f@ + "("@ + seq_join(
                expr_texts(m, rk, args@, k),
                ", "@,
            ) + "))"@,
            Expr::Tuple(es) => "{"@ + seq_join(expr_texts(m, rk, es@, k), ", "@) + "}"@,
            Expr::Catch(e1) => "(catch "@ + expr_text(m, rk, e1) + ")"@,
            Expr::BinaryOperation(op, e1, e2) => "("@ + expr_text(m, rk, e1) + " "@ + op.text() + " "@
                + expr_text(m, rk, e2) + ")"@,
            Expr::UnaryOperation(op, e1) => "("@ + op.text() + " "@ + expr_text(m, rk, e1) + ")"@,
            Expr::Case(e1, cases) => "(case "@ + expr_text(m, rk, e1) + " of\n\t"@ + cases_text(m, rk, cases@, k)
                + "\n\tend)"@,
            Expr::Assignment(p, e1) => "("@ + pattern_text(m, rk, p) + " = "@ + expr_text(m, rk, e1) + ")"@,
            Expr::MapLiteral(pairs) => "#{"@ + seq_join(map_pair_texts(m, rk, pairs@, k), ", "@) + "}"@,
            Expr::MapInsertion(map, key, v) => "("@ + expr_text(m, rk, map) + " #{ "@ + expr_text(m, rk, key)
                + " => "@ + expr_text(m, rk, v) + " })"@,
            Expr::MapUpdate(map, key, v) => "("@ + expr_text(m, rk, map) + " #{ "@ + expr_text(m, rk, key)
                + " := "@ + expr_text(m, rk, v) + " })"@,
            Expr::BitstringConstruction(els) => "(<<"@ + seq_join(bitstring_elem_texts(m, rk, els@, k), ", "@)
                + ">>)"@,
            Expr::Comprehension(kind, e1, els) => (match kind {
                ComprehensionKind::List => "["@,
                ComprehensionKind::Bitstring => "<<"@,
            }) + " ("@ + expr_text(m, rk, e1) + ") || "@ + seq_join(celem_texts(m, rk, els@, k), ", "@) + (
            match kind {
                ComprehensionKind::List => "]"@,
                ComprehensionKind::Bitstring => ">>"@,
            }),
            Expr::MapComprehension(key, v, els) => "#{ "@ + expr_text(m, rk, key) + " => "@ + expr_text(m, rk, v)
                + " || "@ + seq_join(celem_texts(m, rk, els@, k), ", "@) + "}"@,
            Expr::Fun(_, clauses) => "fun "@ + seq_join(clause_texts(m, rk, clauses@, k), "; "@) + " end"@,
            Expr::Try(b, of, catch, after) => "(try "@ + body_text(m, rk, b) + (match of {
                Some(cs) => " of\n\t"@ + cases_text(m, rk, cs@, k),
                None => Seq::empty(),
            }) + (match catch {
                Some(cs) => "\ncatch\n\t"@ + cases_text(m, rk, cs@, k),
                None => Seq::empty(),
            }) + (match after {
                Some(a) => "\nafter\n"@ + body_text(m, rk, a),
                None => Seq::empty(),
            }) + "\nend)"@,
            Expr::Maybe(es, otherwise) => "(maybe \n\t"@ + seq_join(maybe_texts(m, rk, es@, k), ",\n\t"@) + (
            match otherwise {
                Some(cs) => "\nelse\n\t"@ + cases_text(m, rk, cs@, k),
                None => Seq::empty(),
            }) + "\n\tend)"@,
            Expr::Block(b) => "begin "@ + body_text(m, rk, b) + " end"@,
        }
    } else {
        Seq::empty()
    }
}

/// The text of a pattern whose references are all of rank below `k`.
pub open spec fn pattern_node_text(m: &Module, rk: Ranking, p: Pattern, k: nat) -> Seq<char>
    decreases k, 1nat, 0nat,
{
    if pattern_refs(p, rk.below(k)) {
        match p {
            Pattern::Underscore() => "_"@,
            Pattern::NamedVar(v) => "_V"@ + decimal(v as nat),
            Pattern::EqualPatterns(p1, p2) => "("@ + pattern_text(m, rk, p1) + " = "@ + pattern_text(m, rk, p2) + ")"@,
            Pattern::Tuple(ps) => "{"@ + seq_join(pattern_texts(m, rk, ps@, k), ", "@) + "}"@,
            Pattern::List(h, t) => "["@ + pattern_text(m, rk, h) + " | "@ + pattern_text(m, rk, t) + "]"@,
            Pattern::Bitstring(els) => "<<"@ + seq_join(bitstring_pattern_elem_texts(m, rk, els@, k), ", "@)
                + ">>"@,
            Pattern::MapPattern(pairs) => "#{"@ + seq_join(map_pattern_pair_texts(m, rk, pairs@, k), ", "@)
                + "}"@,
            Pattern::Nil() => "[]"@,
            Pattern::Atom(a) => a@,
            Pattern::Integer(n) => n.text(),
        }
    } else {
        Seq::empty()
    }
}

/// The text of a body whose expressions are all of rank below `k`: the
/// expressions separated by a comma and a new line.
pub open spec fn body_node_text(m: &Module, rk: Ranking, b: Body, k: nat) -> Seq<char>
    decreases k, 1nat, 0nat,
{
    seq_join(expr_texts(m, rk, b.exprs@, k), ",\n\t"@)
}

/// The text of a guard sequence: nothing when it is empty, else `when` and
/// the guards separated by semicolons.
pub open spec fn guard_node_text(m: &Module, rk: Ranking, g: GuardSeq, k: nat) -> Seq<char>
    decreases k, 1nat, 0nat,
{
    if g.guards@.len() == 0 {
        Seq::empty()
    } else {
        " when "@ + seq_join(expr_texts(m, rk, g.guards@, k), "; "@)
    }
}

/// The text of a function clause: name, arguments, guard, arrow, body.
pub open spec fn clause_node_text(m: &Module, rk: Ranking, c: FunctionClause, k: nat) -> Seq<char>
    decreases k, 1nat, 0nat,
{
    if clause_refs(c, rk.below(k)) {
        c.name@ + "("@ + seq_join(pattern_texts(m, rk, c.args@, k), ", "@) + ") "@ + guard_text(m, rk, c.guard)
            + " -> \n\t"@ + body_text(m, rk, c.body)
    } else {
        Seq::empty()
    }
}

/// The text of a function declaration: its clauses separated by a semicolon
/// and a new line, and a full stop.
pub open spec fn declaration_text(m: &Module, rk: Ranking, d: FunctionDeclaration, k: nat) -> Seq<char> {
    seq_join(clause_texts(m, rk, d.clauses@, k), ";\n"@) + "."@
}

} // verus!
