use erlfuzz::ast::module::{Config, Module};
use erlfuzz::ast::nodes::{
    Body, ComprehensionElement, Expr, FunctionClause, FunctionDeclaration, GuardSeq, MaybeExpr,
    Pattern,
};
use erlfuzz::ast::operators::{
    BinaryOperator, ComprehensionKind, Endianness, Signedness, TypeSpecifier, UnaryOperator,
};
use erlfuzz::ast::traits::{AstNode, NodeId, SizedAst};
use erlfuzz::bigint::IntLiteral;

fn config(disable_maybe: bool) -> Config {
    Config {
        max_size: 100,
        max_recursion_depth: 5,
        disable_shadowing: false,
        disable_maybe,
        deterministic: true,
        wrapper_mode: "default".to_string(),
    }
}

fn text_of_expr(m: &Module, e: &Expr) -> String {
    let mut f = String::new();
    e.fmt(m, &mut f);
    f
}

#[test]
fn operator_texts() {
    assert_eq!(BinaryOperator::Eq.to_string(), "==");
    assert_eq!(BinaryOperator::NEq.to_string(), "/=");
    assert_eq!(BinaryOperator::LTE.to_string(), "=<");
    assert_eq!(BinaryOperator::ExactlyNEq.to_string(), "=/=");
    assert_eq!(BinaryOperator::Div.to_string(), "div");
    assert_eq!(BinaryOperator::AndAlso.to_string(), "andalso");
    assert_eq!(BinaryOperator::MinusMinus.to_string(), "--");
    assert_eq!(UnaryOperator::UnaryMinus.to_string(), "-");
    assert_eq!(UnaryOperator::BooleanNot.to_string(), "not");
    assert_eq!(UnaryOperator::BitwiseNot.to_string(), "bnot");
    assert_eq!(Signedness::Unsigned.to_string(), "unsigned");
    assert_eq!(Endianness::Native.to_string(), "native");
}

fn spec_text(t: TypeSpecifier) -> String {
    let mut f = String::new();
    t.fmt(&mut f);
    f
}

#[test]
fn type_specifier_texts_and_sizes() {
    let m = Module::new("t", 0, config(false), vec![]);
    let default = TypeSpecifier::Default { signedness: None, endianness: None, unit: None };
    assert_eq!(spec_text(default), "");
    assert_eq!(default.size(&m), 0);
    let full = TypeSpecifier::Integer {
        signedness: Some(Signedness::Signed),
        endianness: Some(Endianness::Big),
        unit: Some(7),
    };
    assert_eq!(spec_text(full), "/integer-signed-big-unit:8");
    assert_eq!(full.size(&m), 4);
    let unsigned = TypeSpecifier::Default { signedness: Some(Signedness::Unsigned), endianness: None, unit: None };
    assert_eq!(spec_text(unsigned), "/unsigned");
    assert_eq!(unsigned.size(&m), 1);
    let unit_max = TypeSpecifier::Default { signedness: None, endianness: None, unit: Some(255) };
    assert_eq!(spec_text(unit_max), "/unit:256");
    assert_eq!(spec_text(TypeSpecifier::Float { endianness: Some(Endianness::Little), unit: None }), "/float-little");
    assert_eq!(spec_text(TypeSpecifier::Utf16 { endianness: Some(Endianness::Native) }), "/utf16-native");
    assert_eq!(spec_text(TypeSpecifier::Binary), "/binary");
    assert_eq!(spec_text(TypeSpecifier::Bits), "/bits");
    assert_eq!(TypeSpecifier::Utf8.size(&m), 1);
    assert_eq!(TypeSpecifier::Utf32 { endianness: Some(Endianness::Big) }.size(&m), 2);
    assert_eq!(TypeSpecifier::Float { endianness: None, unit: Some(1) }.size(&m), 2);
}

#[test]
fn module_with_one_function() {
    let mut m = Module::new("test", 42, config(false), vec![]);
    let one = m.add_expr(Expr::Integer(IntLiteral::from_i64(1)));
    let x = m.add_expr(Expr::Var(3));
    let sum = m.add_expr(Expr::BinaryOperation(BinaryOperator::BinaryPlus, x, one));
    let p = m.add_pattern(Pattern::NamedVar(3));
    let g = m.add_guard_seq(GuardSeq { guards: vec![] });
    let b = m.add_body(Body { exprs: vec![sum] });
    let c = m.add_function_clause(FunctionClause { name: "f".to_string(), args: vec![p], guard: g, body: b });
    m.functions.push(FunctionDeclaration { clauses: vec![c], name: "f".to_string(), arity: 1 });
    assert_eq!(
        m.to_string(),
        "% initial seed: 42\n% max-size: 100\n% max-recursion-depth: 5\n% disable-shadowing: false\n\
         % disable-maybe: false\n% deterministic: true\n% wrapper: default\n\
         -feature(maybe_expr, enable).\n-module(test).\n-compile([export_all]).\n\n\
         f(_V3)  -> \n\t(_V3 + 1)."
    );
    assert_eq!(sum.size(&m), 3);
    assert_eq!(c.size(&m), 5);
    assert_eq!(m.functions()[0].size(&m), 5);
    assert_eq!(b.size(&m), 3);
    assert_eq!(g.size(&m), 0);
    assert_eq!(p.size(&m), 1);
}

#[test]
fn module_header_without_maybe_and_two_functions() {
    let mut m = Module::new("other", 7, config(true), vec![]);
    let a = m.add_expr(Expr::Atom("ok".to_string()));
    let g = m.add_guard_seq(GuardSeq { guards: vec![] });
    let b = m.add_body(Body { exprs: vec![a] });
    let c1 = m.add_function_clause(FunctionClause { name: "g".to_string(), args: vec![], guard: g, body: b });
    let p = m.add_pattern(Pattern::Underscore());
    let c2 = m.add_function_clause(FunctionClause { name: "h".to_string(), args: vec![p], guard: g, body: b });
    m.functions.push(FunctionDeclaration { clauses: vec![c1], name: "g".to_string(), arity: 0 });
    m.functions.push(FunctionDeclaration { clauses: vec![c2, c2], name: "h".to_string(), arity: 1 });
    assert_eq!(
        m.to_string(),
        "% initial seed: 7\n% max-size: 100\n% max-recursion-depth: 5\n% disable-shadowing: false\n\
         % disable-maybe: true\n% deterministic: true\n% wrapper: default\n\
         -module(other).\n-compile([export_all]).\n\n\
         g()  -> \n\tok.\n\n\
         h(_)  -> \n\tok;\nh(_)  -> \n\tok."
    );
}

#[test]
fn expression_texts() {
    let mut m = Module::new("t", 0, config(false), vec![]);
    let one = m.add_expr(Expr::Integer(IntLiteral::from_i64(1)));
    let two = m.add_expr(Expr::Integer(IntLiteral::from_i64(-2)));
    let v = m.add_expr(Expr::Var(0));
    let s = m.add_expr(Expr::String("hi".to_string()));
    let fl = m.add_expr(Expr::Float("2.0".to_string()));
    assert_eq!(text_of_expr(&m, &Expr::Nil()), "[]");
    assert_eq!(text_of_expr(&m, &Expr::LocalCall("f".to_string(), vec![one, two])), "(f(1, -2))");
    assert_eq!(
        text_of_expr(&m, &Expr::RemoteCall("lists".to_string(), "reverse".to_string(), vec![v])),
        "(lists:reverse(_V0))"
    );
    assert_eq!(text_of_expr(&m, &Expr::Tuple(vec![s, fl])), "{\"hi\", 2.0}");
    assert_eq!(text_of_expr(&m, &Expr::Tuple(vec![])), "{}");
    assert_eq!(text_of_expr(&m, &Expr::Catch(one)), "(catch 1)");
    assert_eq!(text_of_expr(&m, &Expr::UnaryOperation(UnaryOperator::BitwiseNot, one)), "(bnot 1)");
    assert_eq!(text_of_expr(&m, &Expr::MapLiteral(vec![(one, two), (v, s)])), "#{1 => -2, _V0 => \"hi\"}");
    assert_eq!(text_of_expr(&m, &Expr::MapInsertion(v, one, two)), "(_V0 #{ 1 => -2 })");
    assert_eq!(text_of_expr(&m, &Expr::MapUpdate(v, one, two)), "(_V0 #{ 1 := -2 })");
    let unit8 = TypeSpecifier::Integer { signedness: None, endianness: None, unit: Some(7) };
    let plain = TypeSpecifier::Default { signedness: None, endianness: None, unit: None };
    assert_eq!(
        text_of_expr(&m, &Expr::BitstringConstruction(vec![(one, Some(two), unit8), (v, None, plain)])),
        "(<<(1):(-2)/integer-unit:8, (_V0)>>)"
    );
    let p = m.add_pattern(Pattern::NamedVar(1));
    let q = m.add_pattern(Pattern::Underscore());
    assert_eq!(
        text_of_expr(
            &m,
            &Expr::Comprehension(
                ComprehensionKind::List,
                v,
                vec![ComprehensionElement::ListGenerator(p, one), ComprehensionElement::Filter(two)]
            )
        ),
        "[ (_V0) || _V1 <- 1, -2]"
    );
    assert_eq!(
        text_of_expr(
            &m,
            &Expr::Comprehension(ComprehensionKind::Bitstring, v, vec![ComprehensionElement::BitstringGenerator(p, one)])
        ),
        "<< (_V0) || _V1 <= 1>>"
    );
    assert_eq!(
        text_of_expr(&m, &Expr::MapComprehension(one, two, vec![ComprehensionElement::MapGenerator(p, q, v)])),
        "#{ 1 => -2 || _V1 := _ <- _V0}"
    );
    assert_eq!(text_of_expr(&m, &Expr::Assignment(p, one)), "(_V1 = 1)");
    let empty_guard = m.add_guard_seq(GuardSeq { guards: vec![] });
    let guard = m.add_guard_seq(GuardSeq { guards: vec![v, one] });
    let body = m.add_body(Body { exprs: vec![one, two] });
    assert_eq!(
        text_of_expr(&m, &Expr::Case(v, vec![(p, guard, body), (q, empty_guard, body)])),
        "(case _V0 of\n\t_V1  when _V0; 1 ->\n\t1,\n\t-2;\n\t_  ->\n\t1,\n\t-2\n\tend)"
    );
    assert_eq!(text_of_expr(&m, &Expr::Block(body)), "begin 1,\n\t-2 end");
    assert_eq!(
        text_of_expr(&m, &Expr::Try(body, None, None, None)),
        "(try 1,\n\t-2\nend)"
    );
    assert_eq!(
        text_of_expr(&m, &Expr::Try(body, Some(vec![(p, empty_guard, body)]), Some(vec![(q, guard, body)]), Some(body))),
        "(try 1,\n\t-2 of\n\t_V1  ->\n\t1,\n\t-2\ncatch\n\t_  when _V0; 1 ->\n\t1,\n\t-2\nafter\n1,\n\t-2\nend)"
    );
    assert_eq!(
        text_of_expr(&m, &Expr::Maybe(vec![MaybeExpr::MaybeAssignment(p, one), MaybeExpr::Normal(v)], None)),
        "(maybe \n\t_V1 ?= 1,\n\t_V0\n\tend)"
    );
    assert_eq!(
        text_of_expr(&m, &Expr::Maybe(vec![MaybeExpr::Normal(v)], Some(vec![(q, empty_guard, body)]))),
        "(maybe \n\t_V0\nelse\n\t_  ->\n\t1,\n\t-2\n\tend)"
    );
    let clause = m.add_function_clause(FunctionClause { name: "".to_string(), args: vec![p, q], guard: empty_guard, body });
    assert_eq!(text_of_expr(&m, &Expr::Fun(None, vec![clause, clause])), "fun (_V1, _)  -> \n\t1,\n\t-2; (_V1, _)  -> \n\t1,\n\t-2 end");
}

#[test]
fn expression_sizes() {
    let mut m = Module::new("t", 0, config(false), vec![]);
    let one = m.add_expr(Expr::Integer(IntLiteral::from_i64(1)));
    let v = m.add_expr(Expr::Var(0));
    let neg = m.add_expr(Expr::UnaryOperation(UnaryOperator::UnaryMinus, one));
    assert_eq!(neg.size(&m), 1);
    let call = m.add_expr(Expr::LocalCall("f".to_string(), vec![one, v, neg]));
    assert_eq!(call.size(&m), 4);
    let p = m.add_pattern(Pattern::Tuple(vec![]));
    assert_eq!(p.size(&m), 0);
    let pv = m.add_pattern(Pattern::NamedVar(0));
    let pt = m.add_pattern(Pattern::Tuple(vec![pv, pv]));
    assert_eq!(pt.size(&m), 2);
    let guard = m.add_guard_seq(GuardSeq { guards: vec![v] });
    let body = m.add_body(Body { exprs: vec![call, one] });
    assert_eq!(body.size(&m), 5);
    let case = Expr::Case(v, vec![(pt, guard, body)]);
    assert_eq!(case.size(&m), 1 + 1 + (2 + 1 + 5));
    let try_expr = Expr::Try(body, Some(vec![(pv, guard, body)]), None, Some(body));
    assert_eq!(try_expr.size(&m), 1 + 5 + (1 + 1 + 5) + 0 + 5);
    let bits = Expr::BitstringConstruction(vec![(
        one,
        Some(v),
        TypeSpecifier::Integer { signedness: Some(Signedness::Signed), endianness: None, unit: None },
    )]);
    assert_eq!(bits.size(&m), 1 + (1 + 1 + 2));
    let comp = Expr::Comprehension(
        ComprehensionKind::List,
        v,
        vec![ComprehensionElement::ListGenerator(pv, one), ComprehensionElement::Filter(call)],
    );
    assert_eq!(comp.size(&m), 1 + 1 + (1 + 1 + 1) + 4);
    let maybe = Expr::Maybe(vec![MaybeExpr::MaybeAssignment(pv, one), MaybeExpr::Normal(call)], None);
    assert_eq!(maybe.size(&m), 1 + (1 + 1 + 1) + 4);
    let pm = Pattern::MapPattern(vec![(one, pv)]);
    assert_eq!(pm.size(&m), 1 + 2);
    let pb = Pattern::Bitstring(vec![(pv, None, TypeSpecifier::Binary)]);
    assert_eq!(pb.size(&m), 1 + (1 + 0 + 1));
    let ce = ComprehensionElement::MapGenerator(pv, pv, one);
    assert_eq!(ce.size(&m), 4);
    assert_eq!(MaybeExpr::Normal(call).size(&m), 4);
}

#[test]
fn pattern_texts() {
    let mut m = Module::new("t", 0, config(false), vec![]);
    let one = m.add_expr(Expr::Integer(IntLiteral::from_i64(1)));
    let h = m.add_pattern(Pattern::Atom("a".to_string()));
    let t = m.add_pattern(Pattern::Nil());
    let n = m.add_pattern(Pattern::Integer(IntLiteral::from_i64(-5)));
    let mut f = String::new();
    Pattern::List(h, t).fmt(&m, &mut f);
    assert_eq!(f, "[a | []]");
    let mut f = String::new();
    Pattern::EqualPatterns(h, n).fmt(&m, &mut f);
    assert_eq!(f, "(a = -5)");
    let mut f = String::new();
    Pattern::Tuple(vec![h, t, n]).fmt(&m, &mut f);
    assert_eq!(f, "{a, [], -5}");
    let mut f = String::new();
    Pattern::Bitstring(vec![
        (n, Some(one), TypeSpecifier::Default { signedness: None, endianness: Some(Endianness::Little), unit: None }),
        (h, None, TypeSpecifier::Bytes),
    ])
    .fmt(&m, &mut f);
    assert_eq!(f, "<<-5:(1)/little, a/bytes>>");
    let mut f = String::new();
    Pattern::MapPattern(vec![(one, h)]).fmt(&m, &mut f);
    assert_eq!(f, "#{1 := a}");
    let mut f = String::from(">");
    t.fmt(&m, &mut f);
    assert_eq!(f, ">[]");
}

#[test]
fn arena_access_and_change() {
    let mut m = Module::new("t", 0, config(false), vec![]);
    let a = m.add_expr(Expr::Var(1));
    let b = m.add_expr(Expr::Var(2));
    assert!(matches!(m.expr(a), Expr::Var(1)));
    assert!(matches!(b.get(&m), Expr::Var(2)));
    *m.expr_mut(a) = Expr::Nil();
    assert!(matches!(m.expr(a), Expr::Nil()));
    assert!(matches!(m.expr(b), Expr::Var(2)));
    let p = m.add_pattern(Pattern::Underscore());
    *m.pattern_mut(p) = Pattern::NamedVar(9);
    assert!(matches!(m.pattern(p), Pattern::NamedVar(9)));
    let g = m.add_guard_seq(GuardSeq::default());
    m.guard_seq_mut(g).guards.push(a);
    assert_eq!(m.guard_seq(g).guards.len(), 1);
    let body = m.add_body(Body { exprs: vec![] });
    m.body_mut(body).exprs.push(b);
    assert_eq!(m.body(body).exprs.len(), 1);
    let c = m.add_function_clause(FunctionClause { name: "f".to_string(), args: vec![], guard: g, body });
    m.function_clause_mut(c).name = "g".to_string();
    assert_eq!(m.function_clause(c).name, "g");
    let mut f = String::new();
    c.fmt(&m, &mut f);
    assert_eq!(f, "g()  when [] -> \n\t_V2");
    assert_eq!(m.module_name(), "t");
    assert_eq!(m.initial_seed(), 0);
    assert_eq!(m.config().max_size, 100);
}

#[test]
fn well_formed_modules_are_recognised() {
    let mut m = Module::new("w", 1, config(false), vec![]);
    assert!(m.is_well_formed());
    let one = m.add_expr(Expr::Integer(IntLiteral::from_i64(1)));
    let q = m.add_pattern(Pattern::NamedVar(0));
    let g = m.add_guard_seq(GuardSeq { guards: vec![] });
    let inner = m.add_body(Body { exprs: vec![one] });
    let c = m.add_function_clause(FunctionClause { name: "f".to_string(), args: vec![q], guard: g, body: inner });
    let fun = m.add_expr(Expr::Fun(None, vec![c]));
    let block_body = m.add_body(Body { exprs: vec![fun, one] });
    let block = m.add_expr(Expr::Block(block_body));
    let case = m.add_expr(Expr::Case(block, vec![(q, g, inner)]));
    let outer = m.add_body(Body { exprs: vec![case] });
    let top = m.add_function_clause(FunctionClause { name: "top".to_string(), args: vec![], guard: g, body: outer });
    m.functions.push(FunctionDeclaration { clauses: vec![top], name: "top".to_string(), arity: 0 });
    assert!(m.is_well_formed());
    assert!(m.is_printable());
}

#[test]
fn cycles_and_dangling_references_are_refused() {
    let mut m = Module::new("c", 1, config(false), vec![]);
    let a = m.add_expr(Expr::Nil());
    let b = m.add_expr(Expr::Catch(a));
    assert!(m.is_well_formed());
    *m.expr_mut(a) = Expr::Catch(b);
    assert!(!m.is_well_formed());
    *m.expr_mut(a) = Expr::Catch(a);
    assert!(!m.is_well_formed());

    let mut big = Module::new("big", 1, config(false), vec![]);
    big.add_expr(Expr::Nil());
    big.add_expr(Expr::Nil());
    let far = big.add_expr(Expr::Nil());
    let g = big.add_guard_seq(GuardSeq::default());
    let body = big.add_body(Body { exprs: vec![] });
    let clause = big.add_function_clause(FunctionClause { name: "f".to_string(), args: vec![], guard: g, body });
    let mut small = Module::new("small", 1, config(false), vec![]);
    small.add_expr(Expr::Tuple(vec![far]));
    assert!(!small.is_well_formed());
    assert!(small.is_printable());
    small.functions.push(FunctionDeclaration { clauses: vec![clause], name: "f".to_string(), arity: 0 });
    assert!(!small.is_printable());
}

#[test]
fn unrelated_bad_nodes_do_not_stop_printing() {
    let mut m = Module::new("test", 42, config(false), vec![]);
    let one = m.add_expr(Expr::Integer(IntLiteral::from_i64(1)));
    let x = m.add_expr(Expr::Var(3));
    let sum = m.add_expr(Expr::BinaryOperation(BinaryOperator::BinaryPlus, x, one));
    let p = m.add_pattern(Pattern::NamedVar(3));
    let g = m.add_guard_seq(GuardSeq { guards: vec![] });
    let b = m.add_body(Body { exprs: vec![sum] });
    let c = m.add_function_clause(FunctionClause { name: "f".to_string(), args: vec![p], guard: g, body: b });
    m.functions.push(FunctionDeclaration { clauses: vec![c], name: "f".to_string(), arity: 1 });

    let loop_a = m.add_expr(Expr::Nil());
    let loop_b = m.add_expr(Expr::Catch(loop_a));
    *m.expr_mut(loop_a) = Expr::Catch(loop_b);
    let mut big = Module::new("big", 1, config(false), vec![]);
    for _ in 0..20 {
        big.add_expr(Expr::Nil());
    }
    let far = big.add_expr(Expr::Nil());
    m.add_expr(Expr::Tuple(vec![far]));

    assert!(!m.is_well_formed());
    assert!(m.is_printable());
    assert_eq!(
        m.to_string(),
        "% initial seed: 42\n% max-size: 100\n% max-recursion-depth: 5\n% disable-shadowing: false\n\
         % disable-maybe: false\n% deterministic: true\n% wrapper: default\n\
         -feature(maybe_expr, enable).\n-module(test).\n-compile([export_all]).\n\n\
         f(_V3)  -> \n\t(_V3 + 1)."
    );
    assert_eq!(sum.size(&m), 3);
    assert_eq!(c.size(&m), 5);
    let mut f = String::new();
    sum.fmt(&m, &mut f);
    assert_eq!(f, "(_V3 + 1)");
    let mut g = String::new();
    m.expr(sum).fmt(&m, &mut g);
    assert_eq!(g, "(_V3 + 1)");
    assert_eq!(m.expr(sum).size(&m), 3);

    *m.body_mut(b) = Body { exprs: vec![loop_a] };
    assert!(!m.is_printable());
}

#[test]
fn reads_survive_later_additions() {
    let mut m = Module::new("r", 0, config(false), vec![]);
    let first = m.add_expr(Expr::Var(7));
    let q = m.add_pattern(Pattern::NamedVar(1));
    for i in 0..10 {
        m.add_expr(Expr::Var(i));
        m.add_pattern(Pattern::Underscore());
        m.add_body(Body { exprs: vec![first] });
        m.add_guard_seq(GuardSeq::default());
    }
    assert!(matches!(m.expr(first), Expr::Var(7)));
    assert!(matches!(m.pattern(q), Pattern::NamedVar(1)));
}
