use erlfuzz::types::TypeApproximation as T;
use erlfuzz::types::{
    ets_table_type, join_function_types, type_union, FunctionTypeApproximation,
    TypeApproximation,
};

fn atom(s: &str) -> TypeApproximation {
    TypeApproximation::SpecificAtom(s.to_string())
}

fn list(t: TypeApproximation) -> TypeApproximation {
    TypeApproximation::List(Box::new(t))
}

#[test]
fn subtype_fixed_pairs() {
    assert!(T::Integer.is_subtype_of(&T::Number));
    assert!(T::Float.is_subtype_of(&T::Number));
    assert!(T::Boolean.is_subtype_of(&T::Atom));
    assert!(T::EtsTableName.is_subtype_of(&T::Atom));
    assert!(T::Tuple(vec![T::Integer]).is_subtype_of(&T::AnyTuple));
    assert!(T::Bottom.is_subtype_of(&T::Pid));
    assert!(T::Port.is_subtype_of(&T::Any));
    assert!(!T::Number.is_subtype_of(&T::Integer));
    assert!(!T::Atom.is_subtype_of(&T::Boolean));
    assert!(!T::EtsTableId.is_subtype_of(&T::Atom));
    assert!(!T::Integer.is_subtype_of(&T::Bottom));
}

#[test]
fn subtype_specific_atoms() {
    assert!(atom("true").is_subtype_of(&T::Boolean));
    assert!(atom("false").is_subtype_of(&T::Boolean));
    assert!(!atom("maybe").is_subtype_of(&T::Boolean));
    assert!(atom("maybe").is_subtype_of(&T::Atom));
    assert!(atom("x").is_subtype_of(&atom("x")));
    assert!(!atom("x").is_subtype_of(&atom("y")));
}

#[test]
fn subtype_structures() {
    assert!(list(T::Integer).is_subtype_of(&list(T::Number)));
    assert!(!list(T::Number).is_subtype_of(&list(T::Integer)));
    assert!(T::Tuple(vec![T::Integer, T::Boolean]).is_subtype_of(&T::Tuple(vec![T::Number, T::Atom])));
    assert!(!T::Tuple(vec![T::Integer]).is_subtype_of(&T::Tuple(vec![T::Number, T::Atom])));
    assert!(!T::Tuple(vec![T::Atom, T::Integer]).is_subtype_of(&T::Tuple(vec![T::Number, T::Atom])));
}

#[test]
fn subtype_unions() {
    let u = T::Union(vec![T::Integer, T::Atom]);
    assert!(T::Integer.is_subtype_of(&u));
    assert!(T::Boolean.is_subtype_of(&u));
    assert!(!T::Float.is_subtype_of(&u));
    assert!(u.is_subtype_of(&T::Any));
    assert!(!u.is_subtype_of(&T::Number));
    assert!(T::Union(vec![T::Integer, T::Float]).is_subtype_of(&T::Number));
    // An empty union is below everything, and Bottom is not below it.
    assert!(T::Union(vec![]).is_subtype_of(&T::Integer));
    assert!(!T::Bottom.is_subtype_of(&T::Union(vec![])));
    assert!(T::Bottom.is_subtype_of(&T::Union(vec![T::Pid])));
}

#[test]
fn subtype_reflexive_and_top_on_examples() {
    let samples = vec![
        T::Any,
        T::Union(vec![T::Integer, list(atom("a"))]),
        T::Tuple(vec![T::Bottom, T::Fun]),
        list(T::Union(vec![])),
        atom("true"),
    ];
    for t in &samples {
        assert!(t.is_subtype_of(t));
        assert!(t.is_subtype_of(&T::Any));
    }
}

#[test]
fn subtype_transitive_on_example() {
    let a = atom("true");
    let b = T::Boolean;
    let c = T::Union(vec![T::Integer, T::Atom]);
    assert!(a.is_subtype_of(&b));
    assert!(b.is_subtype_of(&c));
    assert!(a.is_subtype_of(&c));
}

#[test]
fn union_cases() {
    assert_eq!(type_union(&T::Integer, &T::Number), T::Number);
    assert_eq!(type_union(&T::Number, &T::Integer), T::Number);
    assert_eq!(type_union(&T::Integer, &T::Float), T::Number);
    assert_eq!(type_union(&T::Float, &T::Integer), T::Number);
    assert_eq!(type_union(&T::EtsTableId, &T::EtsTableName), ets_table_type());
    assert_eq!(type_union(&T::EtsTableName, &T::EtsTableId), ets_table_type());
    assert_eq!(type_union(&list(T::Integer), &list(T::Float)), list(T::Number));
    assert_eq!(
        type_union(&T::Tuple(vec![T::Integer, atom("a")]), &T::Tuple(vec![T::Float, atom("b")])),
        T::Tuple(vec![T::Number, T::Atom])
    );
    assert_eq!(type_union(&T::Tuple(vec![T::Integer]), &T::Tuple(vec![])), T::AnyTuple);
    assert_eq!(type_union(&atom("true"), &atom("false")), T::Boolean);
    assert_eq!(type_union(&atom("true"), &atom("ok")), T::Atom);
    assert_eq!(type_union(&T::Pid, &T::Port), T::Any);
    assert_eq!(type_union(&T::Bottom, &T::Port), T::Port);
}

#[test]
fn union_is_upper_bound_on_examples() {
    let pairs = vec![
        (T::Integer, T::Float),
        (list(T::Integer), list(atom("x"))),
        (T::Tuple(vec![T::Pid, T::Integer]), T::Tuple(vec![T::Port, T::Number])),
        (atom("a"), atom("b")),
        (T::EtsTableId, T::EtsTableName),
        (T::Union(vec![T::Pid]), T::Ref),
    ];
    for (a, b) in &pairs {
        let u = type_union(a, b);
        assert!(a.is_subtype_of(&u));
        assert!(b.is_subtype_of(&u));
    }
}

#[test]
fn refine_cases() {
    let mut t = T::Integer;
    t.refine(&T::Number);
    assert_eq!(t, T::Integer);

    let mut t = T::Number;
    t.refine(&T::Integer);
    assert_eq!(t, T::Integer);

    let mut t = T::Union(vec![T::Integer, T::Atom, T::Pid]);
    t.refine(&T::Number);
    assert_eq!(t, T::Integer);

    let mut t = T::Union(vec![T::Integer, T::Float, T::Pid]);
    t.refine(&T::Number);
    assert_eq!(t, T::Union(vec![T::Integer, T::Float]));

    let mut t = T::Union(vec![T::Pid, T::Port]);
    t.refine(&T::Number);
    assert_eq!(t, T::Bottom);

    let mut t = list(T::Number);
    t.refine(&list(T::Float));
    assert_eq!(t, list(T::Float));

    let mut t = T::Tuple(vec![T::Number, T::Atom]);
    t.refine(&T::Tuple(vec![T::Integer, T::Boolean]));
    assert_eq!(t, T::Tuple(vec![T::Integer, T::Boolean]));

    let mut t = T::Tuple(vec![T::Number, T::Pid]);
    t.refine(&T::Tuple(vec![T::Integer, T::Atom]));
    assert_eq!(t, T::Tuple(vec![T::Integer, T::Bottom]));

    let mut t = T::Integer;
    t.refine(&T::Atom);
    assert_eq!(t, T::Bottom);
}

#[test]
fn refine_is_below_both_on_examples() {
    let cases = vec![
        (T::Union(vec![T::Integer, T::Atom]), T::Number),
        (T::Tuple(vec![T::Number, T::Pid]), T::Tuple(vec![T::Integer, T::Atom])),
        (list(T::Any), list(atom("x"))),
        (T::Fun, T::Ref),
    ];
    for (a, o) in &cases {
        let mut r = a.clone();
        r.refine(o);
        assert!(r.is_subtype_of(o));
        assert!(r.is_subtype_of(a));
    }
}

#[test]
fn type_text() {
    assert_eq!(list(T::Any).to_string(), "list()");
    assert_eq!(list(T::Integer).to_string(), "[integer()]");
    assert_eq!(T::Tuple(vec![T::Integer, T::Atom]).to_string(), "{integer(), atom()}");
    assert_eq!(T::Tuple(vec![]).to_string(), "{}");
    assert_eq!(atom("foo").to_string(), "'foo'");
    assert_eq!(ets_table_type().to_string(), "ets:table()");
    assert_eq!(T::Union(vec![T::EtsTableName, T::EtsTableId]).to_string(), "(atom() | ets:tid())");
    assert_eq!(T::Union(vec![T::Integer, T::Pid, T::Ref]).to_string(), "(integer() | pid() | reference())");
    assert_eq!(T::Bottom.to_string(), "none()");
    assert_eq!(T::AnyMap.to_string(), "map()");
    assert_eq!(T::Any.to_string(), "term()");
    assert_eq!(T::AnyTuple.to_string(), "tuple()");
    assert_eq!(T::Bitstring.to_string(), "bitstring()");
    assert_eq!(T::Number.to_string(), "number()");
}

#[test]
fn join_function_types_example() {
    let f1 = FunctionTypeApproximation { return_type: T::Integer, arg_types: vec![T::Pid, atom("a")] };
    let f2 = FunctionTypeApproximation { return_type: T::Float, arg_types: vec![T::Pid, atom("b")] };
    let f3 = FunctionTypeApproximation { return_type: T::Integer, arg_types: vec![T::Port, T::Bottom] };
    let j = join_function_types(&[f1.clone(), f2.clone(), f3.clone()]);
    assert_eq!(j.return_type, T::Number);
    assert_eq!(j.arg_types, vec![T::Any, T::Atom]);
    for f in [&f1, &f2, &f3] {
        assert!(f.return_type.is_subtype_of(&j.return_type));
        for (a, b) in f.arg_types.iter().zip(j.arg_types.iter()) {
            assert!(a.is_subtype_of(b));
        }
    }
    let single = join_function_types(&[f1.clone()]);
    assert_eq!(single.return_type, T::Integer);
    assert_eq!(single.arg_types, f1.arg_types);
}

#[test]
fn clone_and_equality() {
    let t = T::Union(vec![list(atom("x")), T::Tuple(vec![T::Integer])]);
    let c = t.clone();
    assert_eq!(t, c);
    assert!(t.equals(&c));
    assert_ne!(t, T::Union(vec![list(atom("y")), T::Tuple(vec![T::Integer])]));
}

#[test]
fn union_commutes_on_examples() {
    let pairs = vec![
        (T::Integer, T::Float),
        (list(T::Integer), list(atom("x"))),
        (T::Tuple(vec![T::Pid, atom("true")]), T::Tuple(vec![T::Integer, atom("false")])),
        (atom("a"), atom("b")),
        (T::EtsTableName, T::EtsTableId),
        (T::Union(vec![T::Pid, T::Integer]), T::Union(vec![T::Integer, T::Pid])),
        (T::Bottom, T::Port),
    ];
    for (a, b) in pairs {
        let u = type_union(&a, &b);
        let v = type_union(&b, &a);
        assert!(u.is_subtype_of(&v));
        assert!(v.is_subtype_of(&u));
    }
}
