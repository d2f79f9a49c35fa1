//! Approximate types of Erlang terms, ordered by a subtyping relation,
//! joined by `type_union` and narrowed by `refine`.
use vstd::prelude::*;

use crate::text::{seq_join, string_views, write_list_strings};

verus! {

/// The mathematical value of a `TypeApproximation`: the same tree, with
/// sequences in place of vectors and strings.
pub enum TypeModel {
    Any,
    Integer,
    Float,
    Number,
    AnyTuple,
    Tuple(Seq<TypeModel>),
    Atom,
    List(Box<TypeModel>),
    Boolean,
    AnyMap,
    Bitstring,
    Fun,
    Pid,
    Port,
    Ref,
    Bottom,
    EtsTableName,
    EtsTableId,
    SpecificAtom(Seq<char>),
    Union(Seq<TypeModel>),
}

#[derive(Debug)]
pub enum TypeApproximation {
    Any,
    Integer,
    Float,
    Number,
    AnyTuple,
    Tuple(Vec<TypeApproximation>),
    Atom,
    List(Box<TypeApproximation>),
    Boolean,
    AnyMap,
    Bitstring,
    Fun,
    Pid,
    Port,
    Ref,
    Bottom,
    EtsTableName,
    EtsTableId,
    SpecificAtom(String),
    Union(Vec<TypeApproximation>),
}

/// The models of a sequence of approximations.
pub open spec fn models(ts: Seq<TypeApproximation>) -> Seq<TypeModel> {
    Seq::new(ts.len(), |i: int| ts[i].model())
}

impl TypeApproximation {
    pub open spec fn model(&self) -> TypeModel
        decreases self,
    {
        match self {
            TypeApproximation::Any => TypeModel::Any,
            TypeApproximation::Integer => TypeModel::Integer,
            TypeApproximation::Float => TypeModel::Float,
            TypeApproximation::Number => TypeModel::Number,
            TypeApproximation::AnyTuple => TypeModel::AnyTuple,
            TypeApproximation::Tuple(ts) => TypeModel::Tuple(
                Seq::new(
                    ts@.len(),
                    |i: int|
                        if 0 <= i < ts@.len() {
                            ts@[i].model()
                        } else {
                            TypeModel::Any
                        },
                ),
            ),
            TypeApproximation::Atom => TypeModel::Atom,
            TypeApproximation::List(t) => TypeModel::List(Box::new(t.model())),
            TypeApproximation::Boolean => TypeModel::Boolean,
            TypeApproximation::AnyMap => TypeModel::AnyMap,
            TypeApproximation::Bitstring => TypeModel::Bitstring,
            TypeApproximation::Fun => TypeModel::Fun,
            TypeApproximation::Pid => TypeModel::Pid,
            TypeApproximation::Port => TypeModel::Port,
            TypeApproximation::Ref => TypeModel::Ref,
            TypeApproximation::Bottom => TypeModel::Bottom,
            TypeApproximation::EtsTableName => TypeModel::EtsTableName,
            TypeApproximation::EtsTableId => TypeModel::EtsTableId,
            TypeApproximation::SpecificAtom(s) => TypeModel::SpecificAtom(s@),
            TypeApproximation::Union(ts) => TypeModel::Union(
                Seq::new(
                    ts@.len(),
                    |i: int|
                        if 0 <= i < ts@.len() {
                            ts@[i].model()
                        } else {
                            TypeModel::Any
                        },
                ),
            ),
        }
    }
}

impl View for TypeApproximation {
    type V = TypeModel;

    open spec fn view(&self) -> TypeModel {
        self.model()
    }
}

/// The subtyping relation that `is_subtype_of` decides.  The cases are
/// tried in order: equal types, a union on the left (every member below),
/// a union on the right (some member above), then the fixed pairs.
pub open spec fn subtype(a: TypeModel, b: TypeModel) -> bool
    decreases a, b, 0nat,
{
    if a == b {
        true
    } else {
        match a {
            TypeModel::Union(ts1) => all_below(ts1, b, ts1.len()),
            _ => match b {
                TypeModel::Union(ts2) => some_above(a, ts2, ts2.len()),
                _ => match (a, b) {
                    (TypeModel::Bottom, _) => true,
                    (_, TypeModel::Any) => true,
                    (TypeModel::Integer, TypeModel::Number) => true,
                    (TypeModel::Float, TypeModel::Number) => true,
                    (TypeModel::Boolean, TypeModel::Atom) => true,
                    (TypeModel::Tuple(_), TypeModel::AnyTuple) => true,
                    (TypeModel::EtsTableName, TypeModel::Atom) => true,
                    (TypeModel::SpecificAtom(s), TypeModel::Boolean) => s == "true"@ || s == "false"@,
                    (TypeModel::SpecificAtom(_), TypeModel::Atom) => true,
                    (TypeModel::Tuple(ts1), TypeModel::Tuple(ts2)) => ts1.len() == ts2.len()
                        && pairwise_below(ts1, ts2, ts1.len()),
                    (TypeModel::List(t1), TypeModel::List(t2)) => subtype(*t1, *t2),
                    _ => false,
                },
            },
        }
    }
}

/// Whether the first `n` elements of `s` are all subtypes of `b`.
pub open spec fn all_below(s: Seq<TypeModel>, b: TypeModel, n: nat) -> bool
    decreases s, b, n,
{
    if n == 0 {
        true
    } else if n > s.len() {
        false
    } else {
        all_below(s, b, (n - 1) as nat) && subtype(s[n - 1], b)
    }
}

/// Whether `a` is a subtype of one of the first `n` elements of `s`.
pub open spec fn some_above(a: TypeModel, s: Seq<TypeModel>, n: nat) -> bool
    decreases a, s, n,
{
    if n == 0 {
        false
    } else if n > s.len() {
        false
    } else {
        some_above(a, s, (n - 1) as nat) || subtype(a, s[n - 1])
    }
}

/// Whether the first `n` elements of `s1` are subtypes of those of `s2`, in pairs.
pub open spec fn pairwise_below(s1: Seq<TypeModel>, s2: Seq<TypeModel>, n: nat) -> bool
    decreases s1, s2, n,
{
    if n == 0 {
        true
    } else if n > s1.len() || n > s2.len() {
        false
    } else {
        pairwise_below(s1, s2, (n - 1) as nat) && subtype(s1[n - 1], s2[n - 1])
    }
}

/// `all_below` as a quantifier.
pub proof fn lemma_all_below(s: Seq<TypeModel>, b: TypeModel, n: nat)
    requires
        n <= s.len(),
    ensures
        all_below(s, b, n) <==> forall|i: int| 0 <= i < n ==> #[trigger] subtype(s[i], b),
    decreases n,
{
    if n > 0 {
        lemma_all_below(s, b, (n - 1) as nat);
        assert(all_below(s, b, n) == (all_below(s, b, (n - 1) as nat) && subtype(s[n - 1], b)));
        if !all_below(s, b, n) && all_below(s, b, (n - 1) as nat) {
            assert(!subtype(s[n - 1], b));
        }
    }
}

/// `some_above` as a quantifier.
pub proof fn lemma_some_above(a: TypeModel, s: Seq<TypeModel>, n: nat)
    requires
        n <= s.len(),
    ensures
        some_above(a, s, n) <==> exists|i: int| 0 <= i < n && #[trigger] subtype(a, s[i]),
    decreases n,
{
    if n > 0 {
        lemma_some_above(a, s, (n - 1) as nat);
        if subtype(a, s[n - 1]) {
            assert(subtype(a, s[n - 1]));
        }
    }
}

/// `pairwise_below` as a quantifier.
pub proof fn lemma_pairwise_below(s1: Seq<TypeModel>, s2: Seq<TypeModel>, n: nat)
    requires
        n <= s1.len(),
        n <= s2.len(),
    ensures
        pairwise_below(s1, s2, n) <==> forall|i: int| 0 <= i < n ==> #[trigger] subtype(s1[i], s2[i]),
    decreases n,
{
    if n > 0 {
        lemma_pairwise_below(s1, s2, (n - 1) as nat);
        assert(pairwise_below(s1, s2, n) == (pairwise_below(s1, s2, (n - 1) as nat) && subtype(s1[n - 1], s2[n - 1])));
        if !pairwise_below(s1, s2, n) && pairwise_below(s1, s2, (n - 1) as nat) {
            assert(!subtype(s1[n - 1], s2[n - 1]));
        }
    }
}

/// The least common supertype that `type_union` computes: one side when it
/// is above the other, a few fixed joins, the join of lists and of tuples of
/// the same length taken element by element, and `Any` otherwise.
pub open spec fn union_model(a: TypeModel, b: TypeModel) -> TypeModel
    decreases a, b,
{
    if subtype(a, b) {
        b
    } else if subtype(b, a) {
        a
    } else {
        match (a, b) {
            (TypeModel::Float, TypeModel::Integer) => TypeModel::Number,
            (TypeModel::Integer, TypeModel::Float) => TypeModel::Number,
            (TypeModel::EtsTableId, TypeModel::EtsTableName) => ets_table_model(),
            (TypeModel::EtsTableName, TypeModel::EtsTableId) => ets_table_model(),
            (TypeModel::List(t1), TypeModel::List(t2)) => TypeModel::List(Box::new(union_model(*t1, *t2))),
            (TypeModel::Tuple(ts1), TypeModel::Tuple(ts2)) => if ts1.len() == ts2.len() {
                TypeModel::Tuple(union_pairs(ts1, ts2))
            } else {
                TypeModel::AnyTuple
            },
            (TypeModel::SpecificAtom(_), TypeModel::SpecificAtom(_)) => if subtype(a, TypeModel::Boolean) && subtype(
                b,
                TypeModel::Boolean,
            ) {
                TypeModel::Boolean
            } else {
                TypeModel::Atom
            },
            _ => TypeModel::Any,
        }
    }
}

/// The union of the two kinds of ETS table references.
pub open spec fn ets_table_model() -> TypeModel {
    TypeModel::Union(seq![TypeModel::EtsTableId, TypeModel::EtsTableName])
}

/// `s` without its `Bottom` elements, in order.
pub open spec fn drop_bottoms(s: Seq<TypeModel>) -> Seq<TypeModel>
    decreases s.len(),
{
    if s.len() == 0 {
        s
    } else if s.last() == TypeModel::Bottom {
        drop_bottoms(s.drop_last())
    } else {
        drop_bottoms(s.drop_last()).push(s.last())
    }
}

/// The union of the members `s`: `Bottom` when there is none, the member
/// itself when there is one.
pub open spec fn collapse_union(s: Seq<TypeModel>) -> TypeModel {
    if s.len() == 0 {
        TypeModel::Bottom
    } else if s.len() == 1 {
        s[0]
    } else {
        TypeModel::Union(s)
    }
}

/// What `refine` makes of `a` given `o`: `a` when it is below `o`, `o` when
/// it is below `a`; otherwise each member of a union refined (dropping those
/// that became `Bottom`), lists and tuples of the same length refined element
/// by element, and `Bottom` for everything else.
pub open spec fn refine_model(a: TypeModel, o: TypeModel) -> TypeModel
    decreases a, 1nat,
{
    if subtype(a, o) {
        a
    } else if subtype(o, a) {
        o
    } else {
        match a {
            TypeModel::Union(ts) => collapse_union(drop_bottoms(refine_members(ts, o))),
            TypeModel::List(t1) => match o {
                TypeModel::List(t2) => TypeModel::List(Box::new(refine_model(*t1, *t2))),
                _ => TypeModel::Bottom,
            },
            TypeModel::Tuple(ts1) => match o {
                TypeModel::Tuple(ts2) => if ts1.len() == ts2.len() {
                    TypeModel::Tuple(refine_pairs(ts1, ts2))
                } else {
                    TypeModel::Bottom
                },
                _ => TypeModel::Bottom,
            },
            _ => TypeModel::Bottom,
        }
    }
}

/// The members of a union refined by `o`, in order.
pub open spec fn refine_members(ts: Seq<TypeModel>, o: TypeModel) -> Seq<TypeModel>
    decreases ts, 0nat,
{
    Seq::new(
        ts.len(),
        |i: int|
            if 0 <= i < ts.len() {
                refine_model(ts[i], o)
            } else {
                TypeModel::Bottom
            },
    )
}

/// Two tuples' elements refined in pairs.
pub open spec fn refine_pairs(ts1: Seq<TypeModel>, ts2: Seq<TypeModel>) -> Seq<TypeModel>
    decreases ts1, 0nat,
{
    Seq::new(
        ts1.len(),
        |i: int|
            if 0 <= i < ts1.len() {
                refine_model(ts1[i], ts2[i])
            } else {
                TypeModel::Bottom
            },
    )
}

/// Two tuples' elements joined in pairs.
pub open spec fn union_pairs(ts1: Seq<TypeModel>, ts2: Seq<TypeModel>) -> Seq<TypeModel>
    decreases ts1, ts2,
{
    Seq::new(
        ts1.len(),
        |i: int|
            if 0 <= i < ts1.len() {
                union_model(ts1[i], ts2[i])
            } else {
                TypeModel::Any
            },
    )
}

/// The model of a vector of approximations is the sequence of their models.
pub proof fn lemma_tuple_model(ts: Vec<TypeApproximation>)
    ensures
        TypeApproximation::Tuple(ts)@ == TypeModel::Tuple(models(ts@)),
{
    assert(TypeApproximation::Tuple(ts)@->Tuple_0 =~= models(ts@));
}

/// The model of a vector of approximations is the sequence of their models.
pub proof fn lemma_union_model(ts: Vec<TypeApproximation>)
    ensures
        TypeApproximation::Union(ts)@ == TypeModel::Union(models(ts@)),
{
    assert(TypeApproximation::Union(ts)@->Union_0 =~= models(ts@));
}

/// Whether `s` is the name of one of the two boolean atoms.
fn is_boolean_name(s: &String) -> (r: bool)
    ensures
        r == (s@ == "true"@ || s@ == "false"@),
{
    let t = String::from_str("true");
    let f = String::from_str("false");
    *s == t || *s == f
}

impl TypeApproximation {
    /// Structural equality of two approximations.
    pub fn equals(&self, other: &Self) -> (r: bool)
        ensures
            r == (self@ == other@),
        decreases self,
    {
        match (self, other) {
            (TypeApproximation::Tuple(a), TypeApproximation::Tuple(b)) => {
                proof {
                    lemma_tuple_model(*a);
                    lemma_tuple_model(*b);
                }
                equal_vecs(a, b)
            },
            (TypeApproximation::Union(a), TypeApproximation::Union(b)) => {
                proof {
                    lemma_union_model(*a);
                    lemma_union_model(*b);
                }
                equal_vecs(a, b)
            },
            (TypeApproximation::List(a), TypeApproximation::List(b)) => a.equals(b),
            (TypeApproximation::SpecificAtom(a), TypeApproximation::SpecificAtom(b)) => *a == *b,
            (TypeApproximation::Any, TypeApproximation::Any) => true,
            (TypeApproximation::Integer, TypeApproximation::Integer) => true,
            (TypeApproximation::Float, TypeApproximation::Float) => true,
            (TypeApproximation::Number, TypeApproximation::Number) => true,
            (TypeApproximation::AnyTuple, TypeApproximation::AnyTuple) => true,
            (TypeApproximation::Atom, TypeApproximation::Atom) => true,
            (TypeApproximation::Boolean, TypeApproximation::Boolean) => true,
            (TypeApproximation::AnyMap, TypeApproximation::AnyMap) => true,
            (TypeApproximation::Bitstring, TypeApproximation::Bitstring) => true,
            (TypeApproximation::Fun, TypeApproximation::Fun) => true,
            (TypeApproximation::Pid, TypeApproximation::Pid) => true,
            (TypeApproximation::Port, TypeApproximation::Port) => true,
            (TypeApproximation::Ref, TypeApproximation::Ref) => true,
            (TypeApproximation::Bottom, TypeApproximation::Bottom) => true,
            (TypeApproximation::EtsTableName, TypeApproximation::EtsTableName) => true,
            (TypeApproximation::EtsTableId, TypeApproximation::EtsTableId) => true,
            _ => false,
        }
    }

    /// Whether `self` is a subtype of `other` (see `subtype`).
    pub fn is_subtype_of(&self, other: &Self) -> (r: bool)
        ensures
            r == subtype(self@, other@),
        decreases self, other,
    {
        if self.equals(other) {
            return true;
        }
        if let TypeApproximation::Union(ts1) = self {
            proof {
                lemma_union_model(*ts1);
            }
            let r = all_below_exec(ts1, other);
            return r;
        }
        if let TypeApproximation::Union(ts2) = other {
            proof {
                lemma_union_model(*ts2);
            }
            return some_above_exec(self, ts2);
        }
        match (self, other) {
            (TypeApproximation::Bottom, _) => true,
            (_, TypeApproximation::Any) => true,
            (TypeApproximation::Integer, TypeApproximation::Number) => true,
            (TypeApproximation::Float, TypeApproximation::Number) => true,
            (TypeApproximation::Boolean, TypeApproximation::Atom) => true,
            (TypeApproximation::Tuple(_), TypeApproximation::AnyTuple) => true,
            (TypeApproximation::EtsTableName, TypeApproximation::Atom) => true,
            (TypeApproximation::SpecificAtom(s), TypeApproximation::Boolean) => is_boolean_name(s),
            (TypeApproximation::SpecificAtom(_), TypeApproximation::Atom) => true,
            (TypeApproximation::Tuple(ts1), TypeApproximation::Tuple(ts2)) => {
                proof {
                    lemma_tuple_model(*ts1);
                    lemma_tuple_model(*ts2);
                }
                if ts1.len() == ts2.len() {
                    pairwise_below_exec(ts1, ts2)
                } else {
                    false
                }
            },
            (TypeApproximation::List(t1), TypeApproximation::List(t2)) => t1.is_subtype_of(t2),
            _ => false,
        }
    }

    /// `self` refined by `other` (see `refine_model`), as a new value.
    pub fn refined(&self, other: &Self) -> (r: Self)
        ensures
            r@ == refine_model(self@, other@),
        decreases self,
    {
        if self.is_subtype_of(other) {
            return self.clone();
        }
        if other.is_subtype_of(self) {
            return other.clone();
        }
        match self {
            TypeApproximation::Union(ts) => {
                proof {
                    lemma_union_model(*ts);
                }
                let mut kept = refine_vec_members(ts, other);
                if kept.len() == 0 {
                    TypeApproximation::Bottom
                } else if kept.len() == 1 {
                    let ghost before = kept@;
                    match kept.pop() {
                        Some(t) => {
                            assert(t@ == models(before)[0]);
                            t
                        },
                        None => TypeApproximation::Bottom,
                    }
                } else {
                    proof {
                        lemma_union_model(kept);
                    }
                    TypeApproximation::Union(kept)
                }
            },
            TypeApproximation::List(t1) => match other {
                TypeApproximation::List(t2) => TypeApproximation::List(Box::new(t1.refined(t2))),
                _ => TypeApproximation::Bottom,
            },
            TypeApproximation::Tuple(ts1) => match other {
                TypeApproximation::Tuple(ts2) => {
                    proof {
                        lemma_tuple_model(*ts1);
                        lemma_tuple_model(*ts2);
                    }
                    if ts1.len() == ts2.len() {
                        let v = refine_vec_pairs(ts1, ts2);
                        proof {
                            lemma_tuple_model(v);
                        }
                        TypeApproximation::Tuple(v)
                    } else {
                        TypeApproximation::Bottom
                    }
                },
                _ => TypeApproximation::Bottom,
            },
            _ => TypeApproximation::Bottom,
        }
    }

    /// Narrows `self` by `other` (see `refine_model`).
    pub fn refine(&mut self, other: &Self)
        ensures
            final(self)@ == refine_model(old(self)@, other@),
    {
        let r = self.refined(other);
        *self = r;
    }

    /// A copy of the approximation, with the same model.
    pub fn duplicate(&self) -> (r: Self)
        ensures
            r@ == self@,
        decreases self,
    {
        match self {
            TypeApproximation::Tuple(ts) => {
                let v = duplicate_vec(ts);
                proof {
                    lemma_tuple_model(v);
                    lemma_tuple_model(*ts);
                }
                TypeApproximation::Tuple(v)
            },
            TypeApproximation::Union(ts) => {
                let v = duplicate_vec(ts);
                proof {
                    lemma_union_model(v);
                    lemma_union_model(*ts);
                }
                TypeApproximation::Union(v)
            },
            TypeApproximation::List(t) => TypeApproximation::List(Box::new(t.duplicate())),
            TypeApproximation::SpecificAtom(s) => TypeApproximation::SpecificAtom(s.clone()),
            TypeApproximation::Any => TypeApproximation::Any,
            TypeApproximation::Integer => TypeApproximation::Integer,
            TypeApproximation::Float => TypeApproximation::Float,
            TypeApproximation::Number => TypeApproximation::Number,
            TypeApproximation::AnyTuple => TypeApproximation::AnyTuple,
            TypeApproximation::Atom => TypeApproximation::Atom,
            TypeApproximation::Boolean => TypeApproximation::Boolean,
            TypeApproximation::AnyMap => TypeApproximation::AnyMap,
            TypeApproximation::Bitstring => TypeApproximation::Bitstring,
            TypeApproximation::Fun => TypeApproximation::Fun,
            TypeApproximation::Pid => TypeApproximation::Pid,
            TypeApproximation::Port => TypeApproximation::Port,
            TypeApproximation::Ref => TypeApproximation::Ref,
            TypeApproximation::Bottom => TypeApproximation::Bottom,
            TypeApproximation::EtsTableName => TypeApproximation::EtsTableName,
            TypeApproximation::EtsTableId => TypeApproximation::EtsTableId,
        }
    }
}

/// Element-wise equality of two vectors of approximations.
fn equal_vecs(a: &Vec<TypeApproximation>, b: &Vec<TypeApproximation>) -> (r: bool)
    ensures
        r == (models(a@) == models(b@)),
    decreases a,
{
    if a.len() != b.len() {
        assert(models(a@).len() != models(b@).len());
        return false;
    }
    let n = a.len();
    for i in 0..n
        invariant
            n == a@.len(),
            n == b@.len(),
            forall|j: int| 0 <= j < i ==> a@[j]@ == b@[j]@,
    {
        proof {
            vstd::std_specs::vec::axiom_vec_index_decreases(*a, i as int);
        }
        if !a[i].equals(&b[i]) {
            assert(models(a@)[i as int] != models(b@)[i as int]);
            return false;
        }
    }
    assert(models(a@) =~= models(b@));
    true
}

/// A copy of each element of a vector of approximations.
fn duplicate_vec(ts: &Vec<TypeApproximation>) -> (r: Vec<TypeApproximation>)
    ensures
        models(r@) == models(ts@),
    decreases ts,
{
    let mut v: Vec<TypeApproximation> = Vec::new();
    let n = ts.len();
    for i in 0..n
        invariant
            n == ts@.len(),
            v@.len() == i,
            forall|j: int| 0 <= j < i ==> v@[j]@ == ts@[j]@,
    {
        proof {
            vstd::std_specs::vec::axiom_vec_index_decreases(*ts, i as int);
        }
        v.push(ts[i].duplicate());
    }
    assert(models(v@) =~= models(ts@));
    v
}

/// Whether every element of `ts` is a subtype of `other`.
fn all_below_exec(ts: &Vec<TypeApproximation>, other: &TypeApproximation) -> (r: bool)
    ensures
        r == all_below(models(ts@), other@, ts@.len()),
    decreases ts, other,
{
    proof {
        lemma_all_below(models(ts@), other@, ts@.len());
    }
    let n = ts.len();
    for i in 0..n
        invariant
            n == ts@.len(),
            forall|j: int| 0 <= j < i ==> subtype(#[trigger] models(ts@)[j], other@),
    {
        proof {
            vstd::std_specs::vec::axiom_vec_index_decreases(*ts, i as int);
        }
        if !ts[i].is_subtype_of(other) {
            assert(!subtype(models(ts@)[i as int], other@));
            proof {
                lemma_all_below(models(ts@), other@, ts@.len());
            }
            return false;
        }
    }
    true
}

/// Whether `t` is a subtype of some element of `ts`.
fn some_above_exec(t: &TypeApproximation, ts: &Vec<TypeApproximation>) -> (r: bool)
    ensures
        r == some_above(t@, models(ts@), ts@.len()),
    decreases t, ts,
{
    proof {
        lemma_some_above(t@, models(ts@), ts@.len());
    }
    let n = ts.len();
    for i in 0..n
        invariant
            n == ts@.len(),
            forall|j: int| 0 <= j < i ==> !subtype(t@, #[trigger] models(ts@)[j]),
    {
        proof {
            vstd::std_specs::vec::axiom_vec_index_decreases(*ts, i as int);
        }
        if t.is_subtype_of(&ts[i]) {
            assert(subtype(t@, models(ts@)[i as int]));
            proof {
                lemma_some_above(t@, models(ts@), ts@.len());
            }
            return true;
        }
    }
    false
}

/// Whether two vectors of the same length are subtypes element by element.
fn pairwise_below_exec(ts1: &Vec<TypeApproximation>, ts2: &Vec<TypeApproximation>) -> (r: bool)
    requires
        ts1@.len() == ts2@.len(),
    ensures
        r == pairwise_below(models(ts1@), models(ts2@), ts1@.len()),
    decreases ts1, ts2,
{
    proof {
        lemma_pairwise_below(models(ts1@), models(ts2@), ts1@.len());
    }
    let n = ts1.len();
    for i in 0..n
        invariant
            n == ts1@.len(),
            n == ts2@.len(),
            forall|j: int| 0 <= j < i ==> subtype(#[trigger] models(ts1@)[j], models(ts2@)[j]),
    {
        proof {
            vstd::std_specs::vec::axiom_vec_index_decreases(*ts1, i as int);
            vstd::std_specs::vec::axiom_vec_index_decreases(*ts2, i as int);
        }
        if !ts1[i].is_subtype_of(&ts2[i]) {
            assert(!subtype(models(ts1@)[i as int], models(ts2@)[i as int]));
            proof {
                lemma_pairwise_below(models(ts1@), models(ts2@), ts1@.len());
            }
            return false;
        }
    }
    true
}

/// The element-wise unions of two vectors of the same length.
fn union_vecs(ts1: &Vec<TypeApproximation>, ts2: &Vec<TypeApproximation>) -> (r: Vec<TypeApproximation>)
    requires
        ts1@.len() == ts2@.len(),
    ensures
        models(r@) == union_pairs(models(ts1@), models(ts2@)),
    decreases ts1, ts2,
{
    let mut v: Vec<TypeApproximation> = Vec::new();
    let n = ts1.len();
    for i in 0..n
        invariant
            n == ts1@.len(),
            n == ts2@.len(),
            v@.len() == i,
            forall|j: int| 0 <= j < i ==> v@[j]@ == union_model(ts1@[j]@, ts2@[j]@),
    {
        proof {
            vstd::std_specs::vec::axiom_vec_index_decreases(*ts1, i as int);
        }
        v.push(type_union(&ts1[i], &ts2[i]));
    }
    assert(models(v@) =~= union_pairs(models(ts1@), models(ts2@)));
    v
}

/// The members of `ts` refined by `other`, without those that became `Bottom`.
fn refine_vec_members(ts: &Vec<TypeApproximation>, other: &TypeApproximation) -> (r: Vec<TypeApproximation>)
    ensures
        models(r@) == drop_bottoms(refine_members(models(ts@), other@)),
    decreases ts,
{
    let ghost all = refine_members(models(ts@), other@);
    let mut kept: Vec<TypeApproximation> = Vec::new();
    let n = ts.len();
    for i in 0..n
        invariant
            n == ts@.len(),
            all == refine_members(models(ts@), other@),
            models(kept@) == drop_bottoms(all.take(i as int)),
    {
        proof {
            vstd::std_specs::vec::axiom_vec_index_decreases(*ts, i as int);
        }
        let t = ts[i].refined(other);
        proof {
            assert(all.take(i + 1).drop_last() =~= all.take(i as int));
            assert(all.take(i + 1).last() == t@);
        }
        if !matches!(t, TypeApproximation::Bottom) {
            let ghost before = kept@;
            kept.push(t);
            assert(models(kept@) =~= models(before).push(t@));
        }
    }
    assert(all.take(n as int) =~= all);
    kept
}

/// Two vectors of the same length refined element by element.
fn refine_vec_pairs(ts1: &Vec<TypeApproximation>, ts2: &Vec<TypeApproximation>) -> (r: Vec<TypeApproximation>)
    requires
        ts1@.len() == ts2@.len(),
    ensures
        models(r@) == refine_pairs(models(ts1@), models(ts2@)),
    decreases ts1,
{
    let mut v: Vec<TypeApproximation> = Vec::new();
    let n = ts1.len();
    for i in 0..n
        invariant
            n == ts1@.len(),
            n == ts2@.len(),
            v@.len() == i,
            forall|j: int| 0 <= j < i ==> v@[j]@ == refine_model(ts1@[j]@, ts2@[j]@),
    {
        proof {
            vstd::std_specs::vec::axiom_vec_index_decreases(*ts1, i as int);
        }
        v.push(ts1[i].refined(&ts2[i]));
    }
    assert(models(v@) =~= refine_pairs(models(ts1@), models(ts2@)));
    v
}

/// The least common supertype of `left` and `right` (see `union_model`).
pub fn type_union(left: &TypeApproximation, right: &TypeApproximation) -> (r: TypeApproximation)
    ensures
        r@ == union_model(left@, right@),
    decreases left, right,
{
    if left.is_subtype_of(right) {
        return right.clone();
    }
    if right.is_subtype_of(left) {
        return left.clone();
    }
    match (left, right) {
        (TypeApproximation::Float, TypeApproximation::Integer) => TypeApproximation::Number,
        (TypeApproximation::Integer, TypeApproximation::Float) => TypeApproximation::Number,
        (TypeApproximation::EtsTableId, TypeApproximation::EtsTableName) => ets_table_type(),
        (TypeApproximation::EtsTableName, TypeApproximation::EtsTableId) => ets_table_type(),
        (TypeApproximation::List(t1), TypeApproximation::List(t2)) => TypeApproximation::List(
            Box::new(type_union(t1, t2)),
        ),
        (TypeApproximation::Tuple(ts1), TypeApproximation::Tuple(ts2)) => {
            proof {
                lemma_tuple_model(*ts1);
                lemma_tuple_model(*ts2);
            }
            if ts1.len() == ts2.len() {
                let v = union_vecs(ts1, ts2);
                proof {
                    lemma_tuple_model(v);
                }
                TypeApproximation::Tuple(v)
            } else {
                TypeApproximation::AnyTuple
            }
        },
        (TypeApproximation::SpecificAtom(_), TypeApproximation::SpecificAtom(_)) => {
            if left.is_subtype_of(&TypeApproximation::Boolean) && right.is_subtype_of(
                &TypeApproximation::Boolean,
            ) {
                TypeApproximation::Boolean
            } else {
                TypeApproximation::Atom
            }
        },
        _ => TypeApproximation::Any,
    }
}

/// The type of ETS table references: a table id or a table name.
pub fn ets_table_type() -> (r: TypeApproximation)
    ensures
        r@ == ets_table_model(),
{
    let v = vec![TypeApproximation::EtsTableId, TypeApproximation::EtsTableName];
    proof {
        lemma_union_model(v);
        assert(models(v@) =~= seq![TypeModel::EtsTableId, TypeModel::EtsTableName]);
    }
    TypeApproximation::Union(v)
}

impl Clone for TypeApproximation {
    fn clone(&self) -> (r: Self)
        ensures
            r@ == self@,
    {
        self.duplicate()
    }
}

impl PartialEq for TypeApproximation {
    fn eq(&self, other: &Self) -> (r: bool) {
        self.equals(other)
    }
}

impl vstd::std_specs::cmp::PartialEqSpecImpl for TypeApproximation {
    open spec fn obeys_eq_spec() -> bool {
        true
    }

    open spec fn eq_spec(&self, other: &Self) -> bool {
        self@ == other@
    }
}

impl Eq for TypeApproximation {

}

/// The text of a type in Erlang's type notation.
pub open spec fn type_text(t: TypeModel) -> Seq<char>
    decreases t, 1nat,
{
    match t {
        TypeModel::List(e) => if *e == TypeModel::Any {
            "list()"@
        } else {
            "["@ + type_text(*e) + "]"@
        },
        TypeModel::Tuple(ts) => "{"@ + seq_join(type_texts(ts), ", "@) + "}"@,
        TypeModel::Any => "term()"@,
        TypeModel::Integer => "integer()"@,
        TypeModel::Float => "float()"@,
        TypeModel::Number => "number()"@,
        TypeModel::AnyTuple => "tuple()"@,
        TypeModel::Atom => "atom()"@,
        TypeModel::Boolean => "boolean()"@,
        TypeModel::AnyMap => "map()"@,
        TypeModel::Bitstring => "bitstring()"@,
        TypeModel::Fun => "fun()"@,
        TypeModel::Pid => "pid()"@,
        TypeModel::Port => "port()"@,
        TypeModel::Ref => "reference()"@,
        TypeModel::Bottom => "none()"@,
        TypeModel::SpecificAtom(a) => "'"@ + a + "'"@,
        TypeModel::EtsTableName => "atom()"@,
        TypeModel::EtsTableId => "ets:tid()"@,
        TypeModel::Union(ts) => if ts.len() == 2 && ts[0] == TypeModel::EtsTableId && ts[1]
            == TypeModel::EtsTableName {
            "ets:table()"@
        } else {
            "("@ + seq_join(type_texts(ts), " | "@) + ")"@
        },
    }
}

/// The texts of a sequence of types.
pub open spec fn type_texts(ts: Seq<TypeModel>) -> Seq<Seq<char>>
    decreases ts, 0nat,
{
    Seq::new(
        ts.len(),
        |i: int|
            if 0 <= i < ts.len() {
                type_text(ts[i])
            } else {
                Seq::empty()
            },
    )
}

/// The texts of each element of `ts`.
fn texts_of(ts: &Vec<TypeApproximation>) -> (r: Vec<String>)
    ensures
        string_views(r@) == type_texts(models(ts@)),
    decreases ts,
{
    let mut v: Vec<String> = Vec::new();
    let n = ts.len();
    for i in 0..n
        invariant
            n == ts@.len(),
            v@.len() == i,
            forall|j: int| 0 <= j < i ==> v@[j]@ == type_text(ts@[j]@),
    {
        proof {
            vstd::std_specs::vec::axiom_vec_index_decreases(*ts, i as int);
        }
        v.push(ts[i].to_string());
    }
    assert(string_views(v@) =~= type_texts(models(ts@)));
    v
}

impl TypeApproximation {
    /// The text of the type in Erlang's type notation (see `type_text`).
    pub fn to_string(&self) -> (r: String)
        ensures
            r@ == type_text(self@),
        decreases self,
    {
        match self {
            TypeApproximation::List(t) => {
                if t.equals(&TypeApproximation::Any) {
                    String::from_str("list()")
                } else {
                    let mut f = String::from_str("[");
                    let inner = t.to_string();
                    f.append(inner.as_str());
                    f.append("]");
                    f
                }
            },
            TypeApproximation::Tuple(ts) => {
                proof {
                    lemma_tuple_model(*ts);
                }
                let mut f = String::from_str("{");
                write_list_strings(&mut f, texts_of(ts), ", ");
                f.append("}");
                f
            },
            TypeApproximation::Any => String::from_str("term()"),
            TypeApproximation::Integer => String::from_str("integer()"),
            TypeApproximation::Float => String::from_str("float()"),
            TypeApproximation::Number => String::from_str("number()"),
            TypeApproximation::AnyTuple => String::from_str("tuple()"),
            TypeApproximation::Atom => String::from_str("atom()"),
            TypeApproximation::Boolean => String::from_str("boolean()"),
            TypeApproximation::AnyMap => String::from_str("map()"),
            TypeApproximation::Bitstring => String::from_str("bitstring()"),
            TypeApproximation::Fun => String::from_str("fun()"),
            TypeApproximation::Pid => String::from_str("pid()"),
            TypeApproximation::Port => String::from_str("port()"),
            TypeApproximation::Ref => String::from_str("reference()"),
            TypeApproximation::Bottom => String::from_str("none()"),
            TypeApproximation::SpecificAtom(a) => {
                let mut f = String::from_str("'");
                f.append(a.as_str());
                f.append("'");
                f
            },
            TypeApproximation::EtsTableName => String::from_str("atom()"),
            TypeApproximation::EtsTableId => String::from_str("ets:tid()"),
            TypeApproximation::Union(ts) => {
                proof {
                    lemma_union_model(*ts);
                }
                if ts.len() == 2 && matches!(ts[0], TypeApproximation::EtsTableId) && matches!(
                    ts[1],
                    TypeApproximation::EtsTableName
                ) {
                    String::from_str("ets:table()")
                } else {
                    let mut f = String::from_str("(");
                    write_list_strings(&mut f, texts_of(ts), " | ");
                    f.append(")");
                    f
                }
            },
        }
    }
}

/// The model of a function type: its return type and argument types.
pub struct FunctionTypeModel {
    pub return_type: TypeModel,
    pub arg_types: Seq<TypeModel>,
}

#[derive(Debug)]
pub struct FunctionTypeApproximation {
    pub return_type: TypeApproximation,
    pub arg_types: Vec<TypeApproximation>,
}

impl View for FunctionTypeApproximation {
    type V = FunctionTypeModel;

    open spec fn view(&self) -> FunctionTypeModel {
        FunctionTypeModel { return_type: self.return_type@, arg_types: models(self.arg_types@) }
    }
}

impl Clone for FunctionTypeApproximation {
    fn clone(&self) -> (r: Self)
        ensures
            r@ == self@,
    {
        FunctionTypeApproximation {
            return_type: self.return_type.clone(),
            arg_types: duplicate_vec(&self.arg_types),
        }
    }
}

/// The join of two function types: return types and argument types joined
/// by `union_model`, argument by argument.
pub open spec fn join_two(f1: FunctionTypeModel, f2: FunctionTypeModel) -> FunctionTypeModel {
    FunctionTypeModel {
        return_type: union_model(f1.return_type, f2.return_type),
        arg_types: union_pairs(f1.arg_types, f2.arg_types),
    }
}

/// The function types of `fs` joined from left to right.
pub open spec fn join_all(fs: Seq<FunctionTypeModel>) -> FunctionTypeModel
    decreases fs.len(),
{
    if fs.len() <= 1 {
        fs[0]
    } else {
        join_two(join_all(fs.drop_last()), fs.last())
    }
}

/// The models of a sequence of function types.
pub open spec fn function_models(fs: Seq<FunctionTypeApproximation>) -> Seq<FunctionTypeModel> {
    fs.map_values(|f: FunctionTypeApproximation| f@)
}

/// The join of all the function types in `types` (see `join_all`); they
/// must be at least one, all with the same number of arguments.
pub fn join_function_types(types: &[FunctionTypeApproximation]) -> (r: FunctionTypeApproximation)
    requires
        types@.len() > 0,
        forall|i: int| 0 <= i < types@.len() ==> #[trigger] types@[i].arg_types@.len() == types@[0].arg_types@.len(),
    ensures
        r@ == join_all(function_models(types@)),
{
    let ghost fs = function_models(types@);
    let mut acc = types[0].clone();
    let n = types.len();
    assert(fs.take(1).len() == 1);
    assert(models(acc.arg_types@).len() == models(types@[0].arg_types@).len());
    for i in 1..n
        invariant
            n == types@.len(),
            fs == function_models(types@),
            acc@ == join_all(fs.take(i as int)),
            acc.arg_types@.len() == types@[0].arg_types@.len(),
            forall|k: int| 0 <= k < types@.len() ==> #[trigger] types@[k].arg_types@.len() == types@[0].arg_types@.len(),
    {
        let next = &types[i];
        let ret = type_union(&acc.return_type, &next.return_type);
        let args = union_vecs(&acc.arg_types, &next.arg_types);
        assert(models(args@).len() == models(acc.arg_types@).len());
        proof {
            assert(fs.take(i + 1).drop_last() =~= fs.take(i as int));
            assert(fs.take(i + 1).last() == next@);
        }
        acc = FunctionTypeApproximation { return_type: ret, arg_types: args };
    }
    assert(fs.take(n as int) =~= fs);
    acc
}

} // verus!
