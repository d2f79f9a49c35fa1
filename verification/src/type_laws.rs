//! Laws of the subtyping relation and of the operations built on it.
use vstd::prelude::*;

use crate::text::seq_join;
use crate::types::{
    collapse_union, drop_bottoms, join_all, join_two, lemma_all_below, lemma_pairwise_below,
    lemma_some_above, refine_members, refine_model, refine_pairs, subtype, type_text, type_texts,
    union_model, union_pairs, FunctionTypeModel, TypeModel,
};

verus! {

/// Every type is a subtype of itself.
pub proof fn lemma_subtype_reflexive(a: TypeModel)
    ensures
        subtype(a, a),
{
}

/// Every type is a subtype of `Any`.
pub proof fn lemma_subtype_any(a: TypeModel)
    ensures
        subtype(a, TypeModel::Any),
    decreases a,
{
    if let TypeModel::Union(ts) = a {
        assert forall|i: int| 0 <= i < ts.len() implies #[trigger] subtype(ts[i], TypeModel::Any) by {
            lemma_subtype_any(ts[i]);
        }
        lemma_all_below(ts, TypeModel::Any, ts.len());
    }
}

/// A member of `ts` that is above `x` puts `x` below the union of `ts`.
pub proof fn lemma_below_member(x: TypeModel, ts: Seq<TypeModel>, k: int)
    requires
        0 <= k < ts.len(),
        subtype(x, ts[k]),
    ensures
        subtype(x, TypeModel::Union(ts)),
    decreases x,
{
    if x == TypeModel::Union(ts) {
    } else if let TypeModel::Union(xs) = x {
        lemma_all_below(xs, ts[k], xs.len());
        assert forall|j: int| 0 <= j < xs.len() implies #[trigger] subtype(xs[j], TypeModel::Union(ts)) by {
            if x == ts[k] {
                lemma_below_member(xs[j], xs, j);
                lemma_below_member(xs[j], ts, k);
            } else {
                lemma_below_member(xs[j], ts, k);
            }
        }
        lemma_all_below(xs, TypeModel::Union(ts), xs.len());
    } else {
        lemma_some_above(x, ts, ts.len());
    }
}

/// Subtyping is transitive.
pub proof fn lemma_subtype_transitive(a: TypeModel, b: TypeModel, c: TypeModel)
    requires
        subtype(a, b),
        subtype(b, c),
    ensures
        subtype(a, c),
    decreases a, b, c,
{
    if a == b || b == c || a == c {
        return;
    }
    if let TypeModel::Union(as_) = a {
        lemma_all_below(as_, b, as_.len());
        assert forall|i: int| 0 <= i < as_.len() implies #[trigger] subtype(as_[i], c) by {
            lemma_subtype_transitive(as_[i], b, c);
        }
        lemma_all_below(as_, c, as_.len());
        return;
    }
    if let TypeModel::Union(bs) = b {
        lemma_some_above(a, bs, bs.len());
        let j = choose|j: int| 0 <= j < bs.len() && #[trigger] subtype(a, bs[j]);
        lemma_all_below(bs, c, bs.len());
        lemma_subtype_transitive(a, bs[j], c);
        return;
    }
    if let TypeModel::Union(cs) = c {
        lemma_some_above(b, cs, cs.len());
        let k = choose|k: int| 0 <= k < cs.len() && #[trigger] subtype(b, cs[k]);
        lemma_subtype_transitive(a, b, cs[k]);
        lemma_some_above(a, cs, cs.len());
        assert(subtype(a, cs[k]));
        return;
    }
    match (a, b, c) {
        (TypeModel::Tuple(as_), TypeModel::Tuple(bs), TypeModel::Tuple(cs)) => {
            lemma_pairwise_below(as_, bs, as_.len());
            lemma_pairwise_below(bs, cs, bs.len());
            assert forall|i: int| 0 <= i < as_.len() implies #[trigger] subtype(as_[i], cs[i]) by {
                lemma_subtype_transitive(as_[i], bs[i], cs[i]);
            }
            lemma_pairwise_below(as_, cs, as_.len());
        },
        (TypeModel::List(x), TypeModel::List(y), TypeModel::List(z)) => {
            lemma_subtype_transitive(*x, *y, *z);
        },
        _ => {},
    }
}


/// The union of two types is above both of them.
pub proof fn lemma_union_upper_bound(a: TypeModel, b: TypeModel)
    ensures
        subtype(a, union_model(a, b)),
        subtype(b, union_model(a, b)),
    decreases a, b,
{
    if subtype(a, b) || subtype(b, a) {
        return;
    }
    let u = union_model(a, b);
    match (a, b) {
        (TypeModel::EtsTableId, TypeModel::EtsTableName) => {
            let s = seq![TypeModel::EtsTableId, TypeModel::EtsTableName];
            lemma_below_member(TypeModel::EtsTableId, s, 0);
            lemma_below_member(TypeModel::EtsTableName, s, 1);
            assert(subtype(b, u));
        },
        (TypeModel::EtsTableName, TypeModel::EtsTableId) => {
            let s = seq![TypeModel::EtsTableId, TypeModel::EtsTableName];
            lemma_below_member(TypeModel::EtsTableId, s, 0);
            lemma_below_member(TypeModel::EtsTableName, s, 1);
            assert(subtype(b, u));
        },
        (TypeModel::List(t1), TypeModel::List(t2)) => {
            lemma_union_upper_bound(*t1, *t2);
            assert(subtype(b, u));
        },
        (TypeModel::Tuple(ts1), TypeModel::Tuple(ts2)) => {
            if ts1.len() == ts2.len() {
                let us = union_pairs(ts1, ts2);
                assert forall|i: int| 0 <= i < ts1.len() implies #[trigger] subtype(ts1[i], us[i]) by {
                    lemma_union_upper_bound(ts1[i], ts2[i]);
                }
                assert forall|i: int| 0 <= i < ts2.len() implies #[trigger] subtype(ts2[i], us[i]) by {
                    lemma_union_upper_bound(ts1[i], ts2[i]);
                }
                lemma_pairwise_below(ts1, us, ts1.len());
                lemma_pairwise_below(ts2, us, ts2.len());
                assert(subtype(b, u));
            } else {
                assert(subtype(b, u));
            }
        },
        (TypeModel::Float, TypeModel::Integer) => {
            assert(subtype(b, u));
        },
        (TypeModel::Integer, TypeModel::Float) => {
            assert(subtype(b, u));
        },
        (TypeModel::SpecificAtom(_), TypeModel::SpecificAtom(_)) => {
            assert(subtype(a, u));
            assert(subtype(b, u));
        },
        _ => {
            lemma_subtype_any(a);
            lemma_subtype_any(b);
            assert(subtype(b, u));
        },
    }
}

/// A type that `Bottom` is not below is a union tree without leaves, and so
/// below every type.
pub proof fn lemma_not_above_bottom(o: TypeModel, x: TypeModel)
    requires
        !subtype(TypeModel::Bottom, o),
    ensures
        subtype(o, x),
    decreases o,
{
    if let TypeModel::Union(ts) = o {
        lemma_some_above(TypeModel::Bottom, ts, ts.len());
        assert forall|i: int| 0 <= i < ts.len() implies #[trigger] subtype(ts[i], x) by {
            assert(!subtype(TypeModel::Bottom, ts[i]));
            lemma_not_above_bottom(ts[i], x);
        }
        lemma_all_below(ts, x, ts.len());
    }
}

/// Dropping `Bottom` members keeps a property that all members had.
pub proof fn lemma_drop_bottoms_below(s: Seq<TypeModel>, o: TypeModel)
    requires
        forall|i: int| 0 <= i < s.len() ==> #[trigger] subtype(s[i], o),
    ensures
        forall|k: int| 0 <= k < drop_bottoms(s).len() ==> #[trigger] subtype(drop_bottoms(s)[k], o),
    decreases s.len(),
{
    if s.len() > 0 {
        let init = s.drop_last();
        assert forall|i: int| 0 <= i < init.len() implies #[trigger] subtype(init[i], o) by {
            assert(init[i] == s[i]);
        }
        lemma_drop_bottoms_below(init, o);
        let d = drop_bottoms(init);
        assert(subtype(s.last(), o));
        if s.last() != TypeModel::Bottom {
            assert(drop_bottoms(s) == d.push(s.last()));
            assert forall|k: int| 0 <= k < d.push(s.last()).len() implies #[trigger] subtype(d.push(s.last())[k], o) by {
                if k < d.len() {
                    assert(d.push(s.last())[k] == d[k]);
                }
            }
        }
    }
}

/// What `refine` leaves is a subtype of the type it was refined by.
pub proof fn lemma_refine_below(a: TypeModel, o: TypeModel)
    ensures
        subtype(refine_model(a, o), o),
    decreases a,
{
    if subtype(a, o) || subtype(o, a) {
        return;
    }
    if !subtype(TypeModel::Bottom, o) {
        lemma_not_above_bottom(o, a);
        return;
    }
    match a {
        TypeModel::Union(ts) => {
            let rs = refine_members(ts, o);
            assert forall|i: int| 0 <= i < rs.len() implies #[trigger] subtype(rs[i], o) by {
                lemma_refine_below(ts[i], o);
            }
            lemma_drop_bottoms_below(rs, o);
            let kept = drop_bottoms(rs);
            if kept.len() > 1 {
                lemma_all_below(kept, o, kept.len());
                assert(subtype(collapse_union(kept), o));
            } else if kept.len() == 1 {
                assert(subtype(kept[0], o));
            }
        },
        TypeModel::List(t1) => {
            if let TypeModel::List(t2) = o {
                lemma_refine_below(*t1, *t2);
            }
        },
        TypeModel::Tuple(ts1) => {
            if let TypeModel::Tuple(ts2) = o {
                if ts1.len() == ts2.len() {
                    let rs = refine_pairs(ts1, ts2);
                    assert forall|i: int| 0 <= i < ts1.len() implies #[trigger] subtype(rs[i], ts2[i]) by {
                        lemma_refine_below(ts1[i], ts2[i]);
                    }
                    lemma_pairwise_below(rs, ts2, ts1.len());
                }
            }
        },
        _ => {},
    }
}

/// What `refine` leaves is a subtype of the type that was refined.
pub proof fn lemma_refine_below_self(a: TypeModel, o: TypeModel)
    ensures
        subtype(refine_model(a, o), a),
    decreases a,
{
    if subtype(a, o) || subtype(o, a) {
        return;
    }
    if !subtype(TypeModel::Bottom, a) {
        lemma_not_above_bottom(a, o);
        return;
    }
    match a {
        TypeModel::Union(ts) => {
            let rs = refine_members(ts, o);
            assert forall|i: int| 0 <= i < rs.len() implies #[trigger] subtype(rs[i], a) by {
                lemma_refine_below_self(ts[i], o);
                lemma_below_member(rs[i], ts, i);
            }
            lemma_drop_bottoms_below(rs, a);
            let kept = drop_bottoms(rs);
            if kept.len() > 1 {
                lemma_all_below(kept, a, kept.len());
                assert(subtype(collapse_union(kept), a));
            } else if kept.len() == 1 {
                assert(subtype(kept[0], a));
            }
        },
        TypeModel::List(t1) => {
            if let TypeModel::List(t2) = o {
                lemma_refine_below_self(*t1, *t2);
            }
        },
        TypeModel::Tuple(ts1) => {
            if let TypeModel::Tuple(ts2) = o {
                if ts1.len() == ts2.len() {
                    let rs = refine_pairs(ts1, ts2);
                    assert forall|i: int| 0 <= i < ts1.len() implies #[trigger] subtype(rs[i], ts1[i]) by {
                        lemma_refine_below_self(ts1[i], ts2[i]);
                    }
                    lemma_pairwise_below(rs, ts1, ts1.len());
                }
            }
        },
        _ => {},
    }
}

/// The join of a list of function types is above each of them: its return
/// type is above each return type, and each of its argument types is above
/// the argument types at the same position (all the function types having
/// the same number of arguments).
pub proof fn lemma_join_upper_bound(fs: Seq<FunctionTypeModel>, k: int)
    requires
        0 <= k < fs.len(),
        forall|i: int| 0 <= i < fs.len() ==> #[trigger] fs[i].arg_types.len() == fs[0].arg_types.len(),
    ensures
        join_all(fs).arg_types.len() == fs[0].arg_types.len(),
        subtype(fs[k].return_type, join_all(fs).return_type),
        forall|j: int|
            0 <= j < fs[k].arg_types.len() ==> #[trigger] subtype(
                fs[k].arg_types[j],
                join_all(fs).arg_types[j],
            ),
    decreases fs.len(),
{
    if fs.len() <= 1 {
        return;
    }
    let init = fs.drop_last();
    let last = fs.last();
    let j0 = join_all(init);
    let j = join_two(j0, last);
    assert(join_all(fs) == j);
    let kk = if k < fs.len() - 1 { k } else { 0 };
    assert forall|i: int| 0 <= i < init.len() implies #[trigger] init[i].arg_types.len() == init[0].arg_types.len() by {
        assert(init[i] == fs[i]);
    }
    lemma_join_upper_bound(init, kk);
    lemma_union_upper_bound(j0.return_type, last.return_type);
    assert forall|n: int| 0 <= n < j0.arg_types.len() implies #[trigger] subtype(j0.arg_types[n], j.arg_types[n]) by {
        lemma_union_upper_bound(j0.arg_types[n], last.arg_types[n]);
    }
    assert forall|n: int| 0 <= n < last.arg_types.len() implies #[trigger] subtype(last.arg_types[n], j.arg_types[n]) by {
        lemma_union_upper_bound(j0.arg_types[n], last.arg_types[n]);
    }
    if k < fs.len() - 1 {
        assert(fs[k] == init[k]);
        lemma_subtype_transitive(fs[k].return_type, j0.return_type, j.return_type);
        assert forall|n: int| 0 <= n < fs[k].arg_types.len() implies #[trigger] subtype(
            fs[k].arg_types[n],
            j.arg_types[n],
        ) by {
            lemma_subtype_transitive(fs[k].arg_types[n], j0.arg_types[n], j.arg_types[n]);
        }
    } else {
        assert(fs[k] == last);
        assert(fs[k].arg_types.len() == j0.arg_types.len());
    }
}

/// Union does not depend on the order of its arguments, up to subtyping:
/// each order gives a subtype of the other.
pub proof fn lemma_union_commutes(a: TypeModel, b: TypeModel)
    ensures
        subtype(union_model(a, b), union_model(b, a)),
        subtype(union_model(b, a), union_model(a, b)),
    decreases a, b,
{
    if subtype(a, b) || subtype(b, a) {
        return;
    }
    match (a, b) {
        (TypeModel::List(t1), TypeModel::List(t2)) => {
            lemma_union_commutes(*t1, *t2);
            let u = union_model(*t1, *t2);
            let v = union_model(*t2, *t1);
            assert(union_model(a, b) == TypeModel::List(Box::new(u)));
            assert(union_model(b, a) == TypeModel::List(Box::new(v)));
            assert(subtype(TypeModel::List(Box::new(v)), TypeModel::List(Box::new(u))));
            assert(subtype(TypeModel::List(Box::new(u)), TypeModel::List(Box::new(v))));
        },
        (TypeModel::Tuple(ts1), TypeModel::Tuple(ts2)) => {
            if ts1.len() == ts2.len() {
                let u = union_pairs(ts1, ts2);
                let v = union_pairs(ts2, ts1);
                assert forall|i: int| 0 <= i < ts1.len() implies #[trigger] subtype(u[i], v[i]) by {
                    lemma_union_commutes(ts1[i], ts2[i]);
                }
                assert forall|i: int| 0 <= i < ts1.len() implies #[trigger] subtype(v[i], u[i]) by {
                    lemma_union_commutes(ts1[i], ts2[i]);
                }
                lemma_pairwise_below(u, v, u.len());
                lemma_pairwise_below(v, u, v.len());
                assert(union_model(a, b) == TypeModel::Tuple(u));
                assert(union_model(b, a) == TypeModel::Tuple(v));
                assert(subtype(TypeModel::Tuple(v), TypeModel::Tuple(u)));
            }
        },
        (TypeModel::SpecificAtom(_), TypeModel::SpecificAtom(_)) => {
            assert(union_model(a, b) == union_model(b, a));
        },
        _ => {
            assert(union_model(a, b) == union_model(b, a));
        },
    }
}

/// Whether the type is one of the fixed types that take no parameter and are
/// not another name for one of them.
pub open spec fn is_named_leaf(t: TypeModel) -> bool {
    match t {
        TypeModel::Any => true,
        TypeModel::Integer => true,
        TypeModel::Float => true,
        TypeModel::Number => true,
        TypeModel::AnyTuple => true,
        TypeModel::Atom => true,
        TypeModel::Boolean => true,
        TypeModel::AnyMap => true,
        TypeModel::Bitstring => true,
        TypeModel::Fun => true,
        TypeModel::Pid => true,
        TypeModel::Port => true,
        TypeModel::Ref => true,
        TypeModel::Bottom => true,
        TypeModel::EtsTableId => true,
        _ => false,
    }
}

/// Two different fixed types are written differently; `EtsTableName`, being
/// an atom, is written as `Atom` is.
pub proof fn lemma_leaf_texts_distinct(a: TypeModel, b: TypeModel)
    ensures
        is_named_leaf(a) && is_named_leaf(b) && a != b ==> type_text(a) != type_text(b),
        type_text(TypeModel::EtsTableName) == type_text(TypeModel::Atom),
{
    reveal_strlit("term()");
    reveal_strlit("integer()");
    reveal_strlit("float()");
    reveal_strlit("number()");
    reveal_strlit("tuple()");
    reveal_strlit("atom()");
    reveal_strlit("boolean()");
    reveal_strlit("map()");
    reveal_strlit("bitstring()");
    reveal_strlit("fun()");
    reveal_strlit("pid()");
    reveal_strlit("port()");
    reveal_strlit("reference()");
    reveal_strlit("none()");
    reveal_strlit("ets:tid()");
    if is_named_leaf(a) && is_named_leaf(b) && a != b && type_text(a) == type_text(b) {
        match a {
            TypeModel::Any => {
                assert(type_text(a) =~= seq!['t', 'e', 'r', 'm', '(', ')']);
                assert(type_text(b).len() == 6);
                assert(type_text(b)[0] == 't');
                assert(type_text(b)[1] == 'e');
            },
            TypeModel::Integer => {
                assert(type_text(a) =~= seq!['i', 'n', 't', 'e', 'g', 'e', 'r', '(', ')']);
                assert(type_text(b).len() == 9);
                assert(type_text(b)[0] == 'i');
                assert(type_text(b)[1] == 'n');
            },
            TypeModel::Float => {
                assert(type_text(a) =~= seq!['f', 'l', 'o', 'a', 't', '(', ')']);
                assert(type_text(b).len() == 7);
                assert(type_text(b)[0] == 'f');
                assert(type_text(b)[1] == 'l');
            },
            TypeModel::Number => {
                assert(type_text(a) =~= seq!['n', 'u', 'm', 'b', 'e', 'r', '(', ')']);
                assert(type_text(b).len() == 8);
                assert(type_text(b)[0] == 'n');
                assert(type_text(b)[1] == 'u');
            },
            TypeModel::AnyTuple => {
                assert(type_text(a) =~= seq!['t', 'u', 'p', 'l', 'e', '(', ')']);
                assert(type_text(b).len() == 7);
                assert(type_text(b)[0] == 't');
                assert(type_text(b)[1] == 'u');
            },
            TypeModel::Atom => {
                assert(type_text(a) =~= seq!['a', 't', 'o', 'm', '(', ')']);
                assert(type_text(b).len() == 6);
                assert(type_text(b)[0] == 'a');
                assert(type_text(b)[1] == 't');
            },
            TypeModel::Boolean => {
                assert(type_text(a) =~= seq!['b', 'o', 'o', 'l', 'e', 'a', 'n', '(', ')']);
                assert(type_text(b).len() == 9);
                assert(type_text(b)[0] == 'b');
                assert(type_text(b)[1] == 'o');
            },
            TypeModel::AnyMap => {
                assert(type_text(a) =~= seq!['m', 'a', 'p', '(', ')']);
                assert(type_text(b).len() == 5);
                assert(type_text(b)[0] == 'm');
                assert(type_text(b)[1] == 'a');
            },
            TypeModel::Bitstring => {
                assert(type_text(a) =~= seq!['b', 'i', 't', 's', 't', 'r', 'i', 'n', 'g', '(', ')']);
                assert(type_text(b).len() == 11);
                assert(type_text(b)[0] == 'b');
                assert(type_text(b)[1] == 'i');
            },
            TypeModel::Fun => {
                assert(type_text(a) =~= seq!['f', 'u', 'n', '(', ')']);
                assert(type_text(b).len() == 5);
                assert(type_text(b)[0] == 'f');
                assert(type_text(b)[1] == 'u');
            },
            TypeModel::Pid => {
                assert(type_text(a) =~= seq!['p', 'i', 'd', '(', ')']);
                assert(type_text(b).len() == 5);
                assert(type_text(b)[0] == 'p');
                assert(type_text(b)[1] == 'i');
            },
            TypeModel::Port => {
                assert(type_text(a) =~= seq!['p', 'o', 'r', 't', '(', ')']);
                assert(type_text(b).len() == 6);
                assert(type_text(b)[0] == 'p');
                assert(type_text(b)[1] == 'o');
            },
            TypeModel::Ref => {
                assert(type_text(a) =~= seq!['r', 'e', 'f', 'e', 'r', 'e', 'n', 'c', 'e', '(', ')']);
                assert(type_text(b).len() == 11);
                assert(type_text(b)[0] == 'r');
                assert(type_text(b)[1] == 'e');
            },
            TypeModel::Bottom => {
                assert(type_text(a) =~= seq!['n', 'o', 'n', 'e', '(', ')']);
                assert(type_text(b).len() == 6);
                assert(type_text(b)[0] == 'n');
                assert(type_text(b)[1] == 'o');
            },
            TypeModel::EtsTableId => {
                assert(type_text(a) =~= seq!['e', 't', 's', ':', 't', 'i', 'd', '(', ')']);
                assert(type_text(b).len() == 9);
                assert(type_text(b)[0] == 'e');
                assert(type_text(b)[1] == 't');
            },
            _ => {},
        }
    }
}

/// A list of a type other than `term()` is written as that type's text
/// between square brackets, and a tuple of one type as its text between
/// braces.
pub proof fn lemma_compound_texts(e: TypeModel)
    ensures
        e != TypeModel::Any ==> type_text(TypeModel::List(Box::new(e))) == "["@ + type_text(e) + "]"@,
        type_text(TypeModel::Tuple(seq![e])) == "{"@ + type_text(e) + "}"@,
{
    let ts = seq![e];
    assert(type_texts(ts) =~= seq![type_text(e)]);
    assert(seq_join(type_texts(ts), ", "@) == type_text(e));
}

/// A list type is below a list type exactly when its elements are.
pub proof fn lemma_list_subtype(x: TypeModel, y: TypeModel)
    ensures
        subtype(TypeModel::List(Box::new(x)), TypeModel::List(Box::new(y))) == subtype(x, y),
{
}

/// Refining a list type by a list type refines the elements: a list whose
/// elements lie below both element types and below their refinement lies
/// below the refinement of the lists, and when neither list is below the
/// other the refinement is the list of the refined elements.
pub proof fn lemma_refine_lists(t1: TypeModel, t2: TypeModel, y: TypeModel)
    ensures
        subtype(y, t1) && subtype(y, t2) && subtype(y, refine_model(t1, t2)) ==> subtype(
            TypeModel::List(Box::new(y)),
            refine_model(TypeModel::List(Box::new(t1)), TypeModel::List(Box::new(t2))),
        ),
        !subtype(t1, t2) && !subtype(t2, t1) ==> refine_model(TypeModel::List(Box::new(t1)), TypeModel::List(Box::new(t2)))
            == TypeModel::List(Box::new(refine_model(t1, t2))),
{
    lemma_list_subtype(t1, t2);
    lemma_list_subtype(t2, t1);
    lemma_list_subtype(y, t1);
    lemma_list_subtype(y, t2);
    lemma_list_subtype(y, refine_model(t1, t2));
}

/// Refining a tuple type by a tuple type of the same length refines the
/// elements in pairs: a tuple whose elements each lie below both element
/// types and below their refinement lies below the refinement of the tuples.
pub proof fn lemma_refine_tuples(ts1: Seq<TypeModel>, ts2: Seq<TypeModel>, ys: Seq<TypeModel>)
    requires
        ts1.len() == ts2.len(),
        ys.len() == ts1.len(),
        forall|i: int|
            0 <= i < ys.len() ==> subtype(ys[i], ts1[i]) && subtype(ys[i], ts2[i]) && #[trigger] subtype(
                ys[i],
                refine_model(ts1[i], ts2[i]),
            ),
    ensures
        subtype(TypeModel::Tuple(ys), refine_model(TypeModel::Tuple(ts1), TypeModel::Tuple(ts2))),
{
    let a = TypeModel::Tuple(ts1);
    let b = TypeModel::Tuple(ts2);
    let y = TypeModel::Tuple(ys);
    assert forall|i: int| 0 <= i < ys.len() implies #[trigger] subtype(ys[i], ts1[i]) by {
        assert(subtype(ys[i], refine_model(ts1[i], ts2[i])));
    }
    assert forall|i: int| 0 <= i < ys.len() implies #[trigger] subtype(ys[i], ts2[i]) by {
        assert(subtype(ys[i], refine_model(ts1[i], ts2[i])));
    }
    lemma_pairwise_below(ys, ts1, ys.len());
    lemma_pairwise_below(ys, ts2, ys.len());
    if subtype(a, b) {
        assert(subtype(y, a));
    } else if subtype(b, a) {
        assert(subtype(y, b));
    } else {
        let rs = refine_pairs(ts1, ts2);
        assert forall|i: int| 0 <= i < ys.len() implies #[trigger] subtype(ys[i], rs[i]) by {
            assert(subtype(ys[i], refine_model(ts1[i], ts2[i])));
        }
        lemma_pairwise_below(ys, rs, ys.len());
        assert(refine_model(a, b) == TypeModel::Tuple(rs));
    }
}

/// Dropping `Bottom` members keeps every other member.
proof fn lemma_drop_bottoms_keeps(s: Seq<TypeModel>, k: int)
    requires
        0 <= k < s.len(),
        s[k] != TypeModel::Bottom,
    ensures
        exists|j: int| 0 <= j < drop_bottoms(s).len() && #[trigger] drop_bottoms(s)[j] == s[k],
    decreases s.len(),
{
    if k == s.len() - 1 {
        let d = drop_bottoms(s.drop_last());
        assert(drop_bottoms(s) == d.push(s.last()));
        assert(drop_bottoms(s)[d.len() as int] == s[k]);
    } else {
        lemma_drop_bottoms_keeps(s.drop_last(), k);
        let d = drop_bottoms(s.drop_last());
        let j = choose|j: int| 0 <= j < d.len() && #[trigger] d[j] == s.drop_last()[k];
        if s.last() == TypeModel::Bottom {
            assert(drop_bottoms(s)[j] == s[k]);
        } else {
            assert(drop_bottoms(s) == d.push(s.last()));
            assert(drop_bottoms(s)[j] == s[k]);
        }
    }
}

/// A member of `s` lies below the union that `collapse_union` makes of `s`.
proof fn lemma_below_collapse(x: TypeModel, s: Seq<TypeModel>, j: int)
    requires
        0 <= j < s.len(),
        subtype(x, s[j]),
    ensures
        subtype(x, collapse_union(s)),
{
    if s.len() > 1 {
        lemma_below_member(x, s, j);
    }
}

/// Refining a union keeps what lies below both: a member of the union other
/// than `Bottom` that lies below the type it is refined by lies below the
/// refinement.
pub proof fn lemma_refine_union_keeps(ts: Seq<TypeModel>, o: TypeModel, k: int)
    requires
        0 <= k < ts.len(),
        ts[k] != TypeModel::Bottom,
        subtype(ts[k], o),
    ensures
        subtype(ts[k], refine_model(TypeModel::Union(ts), o)),
{
    let a = TypeModel::Union(ts);
    let t = ts[k];
    lemma_below_member(t, ts, k);
    if subtype(a, o) {
    } else if subtype(o, a) {
    } else {
        let rs = refine_members(ts, o);
        assert(refine_model(a, o) == collapse_union(drop_bottoms(rs)));
        assert(rs[k] == refine_model(t, o));
        assert(refine_model(t, o) == t);
        lemma_drop_bottoms_keeps(rs, k);
        let kept = drop_bottoms(rs);
        let j = choose|j: int| 0 <= j < kept.len() && #[trigger] kept[j] == rs[k];
        lemma_subtype_reflexive(t);
        lemma_below_collapse(t, kept, j);
    }
}

} // verus!
