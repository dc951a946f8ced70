use coral::ast::{
    Argument, BinaryOp, Expr, ExprKind, Field, IdCounter, Literal, MessageHandler, ObjectMethod, Parameter, Program,
    SourceSpan, Stmt, StmtKind, Type,
};
use coral::resolver::TypeResolver;
use coral::resolver::env::TypeEnv;
use coral::resolver::error::TypeError;
use coral::resolver::subst::Substitution;
use coral::resolver::types::{Constraint, EffectSet, InferType, TypeVar, TypeVarGen};

fn var(n: usize) -> InferType {
    InferType::Var(TypeVar(n))
}

fn list(t: InferType) -> InferType {
    InferType::List(Box::new(t))
}

fn show(r: &TypeResolver, t: &InferType) -> String {
    r.type_to_string(t)
}

#[test]
fn fresh_variables_count_up() {
    let mut g = TypeVarGen::new();
    assert_eq!(g.fresh(), TypeVar(0));
    assert_eq!(g.fresh(), TypeVar(1));
    assert_eq!(g.counter, 2);
}

#[test]
fn effects_union() {
    let e = EffectSet::io().union(&EffectSet::store());
    assert!(e.io && e.store && !e.actor_send && !e.mutation);
    assert_eq!(EffectSet::default(), EffectSet::pure());
}

#[test]
fn unify_binds_a_variable() {
    let mut r = TypeResolver::new();
    let s = r.unify(&var(7), &list(InferType::Int)).unwrap();
    assert_eq!(show(&r, &s.apply(&var(7))), "List[int]");
    assert_eq!(show(&r, &s.apply(&var(8))), "?t8");
}

#[test]
fn unify_refuses_an_infinite_type() {
    let mut r = TypeResolver::new();
    match r.unify(&var(3), &list(var(3))) {
        Err(TypeError::InfiniteType(v, t)) => {
            assert_eq!(v, TypeVar(3));
            assert_eq!(show(&r, &t), "List[?t3]");
        },
        other => panic!("unexpected {:?}", other),
    }
}

#[test]
fn unify_mismatch_and_arity() {
    let mut r = TypeResolver::new();
    assert!(matches!(r.unify(&InferType::Int, &InferType::Bool), Err(TypeError::TypeMismatch(_, _))));
    let f1 = InferType::Function { params: vec![InferType::Int], return_type: Box::new(InferType::Unit), effects: EffectSet::pure() };
    let f2 = InferType::Function { params: vec![], return_type: Box::new(InferType::Unit), effects: EffectSet::pure() };
    assert!(matches!(r.unify(&f1, &f2), Err(TypeError::ArityMismatch(1, 0))));
}

#[test]
fn unify_unknown_takes_a_fresh_variable() {
    let mut r = TypeResolver::new();
    let before = r.var_gen.counter;
    let s = r.unify(&InferType::Unknown, &InferType::String).unwrap();
    assert_eq!(r.var_gen.counter, before + 1);
    assert_eq!(show(&r, &s.apply(&var(before))), "string");
    let s2 = r.unify(&InferType::Unknown, &InferType::Unknown).unwrap();
    assert!(!s2.contains_key(&TypeVar(before + 1)));
}

#[test]
fn compose_applies_in_turn() {
    let mut s1 = Substitution::new();
    s1.insert(TypeVar(0), list(var(1)));
    let mut s2 = Substitution::new();
    s2.insert(TypeVar(1), InferType::Bool);
    let c = s1.compose(&s2);
    let r = TypeResolver::new();
    assert_eq!(show(&r, &c.apply(&var(0))), "List[bool]");
    assert_eq!(show(&r, &c.apply(&var(1))), "bool");
}

#[test]
fn solving_constraints() {
    let mut r = TypeResolver::new();
    r.constraints.push(Constraint::Equal(var(10), InferType::Int));
    r.constraints.push(Constraint::IsIterable(list(var(11)), var(10)));
    let s = r.solve_constraints().unwrap();
    assert!(r.constraints.is_empty());
    assert_eq!(show(&r, &s.apply(&var(10))), "int");
    assert_eq!(show(&r, &s.apply(&var(11))), "int");
}

#[test]
fn solving_reports_a_missing_field() {
    let mut r = TypeResolver::new();
    let obj = InferType::Object {
        name: "P".to_string(),
        fields: vec![("x".to_string(), InferType::Int)],
        methods: vec![],
        is_actor: false,
        is_store: false,
    };
    r.constraints.push(Constraint::HasField(obj, "y".to_string(), var(20)));
    assert!(matches!(r.solve_constraints(), Err(TypeError::FieldNotFound(f)) if f == "y"));
}

#[test]
fn solving_a_call_on_a_variable_makes_it_a_function() {
    let mut r = TypeResolver::new();
    r.constraints.push(Constraint::IsCallable(var(30), vec![InferType::Int], InferType::Bool));
    let s = r.solve_constraints().unwrap();
    assert_eq!(show(&r, &s.apply(&var(30))), "(int) -> bool");
}

#[test]
fn field_constraint_on_a_variable_infers_an_object() {
    let mut r = TypeResolver::new();
    r.constraints.push(Constraint::HasField(var(12), "x".to_string(), InferType::Int));
    let s = r.solve_constraints().unwrap();
    assert_eq!(show(&r, &s.apply(&var(12))), "object Inferred_12");
}

#[test]
fn environment_scopes() {
    let mut env = TypeEnv::new();
    env.bind("a".to_string(), InferType::Int);
    let mut inner = env.extend();
    assert!(matches!(inner.lookup("a"), Some(InferType::Int)));
    inner.bind("a".to_string(), InferType::Bool);
    assert!(matches!(inner.lookup("a"), Some(InferType::Bool)));
    assert!(matches!(env.lookup("a"), Some(InferType::Int)));
    assert!(env.lookup("b").is_none());
}

#[test]
fn new_resolver_knows_the_builtins() {
    let r = TypeResolver::new();
    assert_eq!(r.var_gen.counter, 2);
    assert_eq!(r.builtin_types.len(), 4);
    assert_eq!(show(&r, &r.env.lookup("log").unwrap()), "(?t0) -> unit");
    assert_eq!(show(&r, &r.env.lookup("empty").unwrap()), "?t1");
    assert!(matches!(r.env.lookup("now"), Some(InferType::Int)));
}

#[test]
fn ast_type_conversions() {
    let mut r = TypeResolver::new();
    let t = Type::Function { params: vec![Type::I8, Type::Unknown], return_type: Box::new(Type::F32) };
    let it = r.ast_type_to_infer_type(&t).unwrap();
    assert_eq!(show(&r, &it), "(int, ?t2) -> float");
    let ro = r.ast_type_to_infer_type_readonly(&Type::Object { name: "Nope".to_string(), fields: vec![] }).unwrap();
    assert!(matches!(ro, InferType::Unknown));
    assert_eq!(r.infer_type_to_ast_type(&InferType::Int), Type::I32);
    assert_eq!(InferType::Int.to_ast_type(), Type::I64);
    assert_eq!(var(5).to_ast_type(), Type::TypeVar(5));
}

#[test]
fn llvm_text_of_inference_types() {
    let f = InferType::Function { params: vec![InferType::Int, InferType::Bool], return_type: Box::new(InferType::Float), effects: EffectSet::pure() };
    assert_eq!(f.to_llvm_type(), "double (i64, i1)*");
    assert_eq!(InferType::Result(Box::new(InferType::String), Box::new(InferType::Int)).to_llvm_type(), "%string");
}


fn expr(ids: &mut IdCounter, kind: ExprKind) -> Expr {
    Expr::new(ids, SourceSpan::default(), kind)
}

fn int_lit(ids: &mut IdCounter, n: i64) -> Expr {
    expr(ids, ExprKind::literal(Literal::Integer(n)))
}

fn ident(ids: &mut IdCounter, name: &str) -> Expr {
    expr(ids, ExprKind::identifier(name.to_string()))
}

fn stmt(ids: &mut IdCounter, kind: StmtKind) -> Stmt {
    Stmt::new(ids, SourceSpan::default(), kind)
}

#[test]
fn infer_literals_and_names() {
    let mut ids = IdCounter::new();
    let mut r = TypeResolver::new();
    let e = int_lit(&mut ids, 3);
    assert!(matches!(r.infer_expression(&e), Ok(InferType::Int)));
    let s = expr(&mut ids, ExprKind::literal(Literal::String("hi".to_string())));
    assert!(matches!(r.infer_expression(&s), Ok(InferType::String)));
    let now = ident(&mut ids, "now");
    assert!(matches!(r.infer_expression(&now), Ok(InferType::Int)));
    let missing = ident(&mut ids, "missing");
    match r.infer_expression(&missing) {
        Err(TypeError::UnknownVariable(n)) => assert_eq!(n, "missing"),
        other => panic!("unexpected {:?}", other),
    }
    assert_eq!(r.constraints.len(), 0);
}

#[test]
fn infer_arithmetic_and_comparison() {
    let mut ids = IdCounter::new();
    let mut r = TypeResolver::new();
    let l = int_lit(&mut ids, 1);
    let rr = int_lit(&mut ids, 2);
    let sum = expr(&mut ids, ExprKind::binary(BinaryOp::Add, l, rr));
    assert!(matches!(r.infer_expression(&sum), Ok(InferType::Int)));
    assert_eq!(r.constraints.len(), 1);
    let a = int_lit(&mut ids, 1);
    let b = int_lit(&mut ids, 2);
    let lt = expr(&mut ids, ExprKind::binary(BinaryOp::Lt, a, b));
    assert!(matches!(r.infer_expression(&lt), Ok(InferType::Bool)));
    assert_eq!(r.constraints.len(), 2);
    let t = expr(&mut ids, ExprKind::literal(Literal::Bool(true)));
    let one = int_lit(&mut ids, 1);
    let bad = expr(&mut ids, ExprKind::binary(BinaryOp::Sub, t, one));
    assert!(matches!(r.infer_expression(&bad), Err(TypeError::TypeMismatch(InferType::Int, InferType::Bool))));
}

#[test]
fn infer_call_makes_fresh_result() {
    let mut ids = IdCounter::new();
    let mut r = TypeResolver::new();
    let callee = ident(&mut ids, "print");
    let arg = expr(&mut ids, ExprKind::literal(Literal::String("x".to_string())));
    let call = expr(&mut ids, ExprKind::call(callee, vec![Argument { name: None, value: arg, span: SourceSpan::default() }]));
    let before = r.var_gen.counter;
    match r.infer_expression(&call) {
        Ok(InferType::Var(v)) => assert_eq!(v, TypeVar(before)),
        other => panic!("unexpected {:?}", other),
    }
    assert!(matches!(r.constraints[0], Constraint::IsCallable(_, _, InferType::Var(_))));
}

#[test]
fn infer_assignment_binds_the_name() {
    let mut ids = IdCounter::new();
    let mut r = TypeResolver::new();
    let target = ident(&mut ids, "x");
    let value = int_lit(&mut ids, 5);
    let s = stmt(&mut ids, StmtKind::Assignment { target, value });
    assert!(matches!(r.infer_statement(&s), Ok(InferType::Unit)));
    assert!(matches!(r.env.lookup("x"), Some(InferType::Int)));
}

#[test]
fn infer_function_with_declared_return() {
    let mut ids = IdCounter::new();
    let mut r = TypeResolver::new();
    let param = Parameter { name: "a".to_string(), type_: Type::I32, default_value: None, span: SourceSpan::default() };
    let body_expr = ident(&mut ids, "a");
    let body = vec![stmt(&mut ids, StmtKind::Expression(body_expr))];
    let f = r.infer_function(&"id".to_string(), &vec![param], &Some(Type::I32), &body).unwrap();
    assert_eq!(show(&r, &f), "(int) -> int");
    // the parameter's scope is gone afterwards
    assert!(r.env.lookup("a").is_none());
    assert_eq!(r.constraints.len(), 1);
}

#[test]
fn infer_object_definition_records_the_type() {
    let mut ids = IdCounter::new();
    let mut r = TypeResolver::new();
    let default_value = int_lit(&mut ids, 0);
    let fields = vec![Field { name: "count".to_string(), type_: Type::Unknown, default_value: Some(default_value), span: SourceSpan::default() }];
    let method = ObjectMethod { name: "get".to_string(), params: vec![], return_type: Some(Type::I32), body: vec![], span: SourceSpan::default() };
    let s = stmt(&mut ids, StmtKind::Object { name: "Counter".to_string(), fields, methods: vec![method] });
    assert!(r.infer_statement(&s).is_ok());
    assert_eq!(r.object_definitions.len(), 1);
    match r.env.lookup("Counter") {
        Some(InferType::Object { name, fields, methods, is_actor, is_store }) => {
            assert_eq!(name, "Counter");
            assert!(!is_actor && !is_store);
            assert_eq!(fields.len(), 1);
            let names: Vec<&str> = methods.iter().map(|m| m.0.as_str()).collect();
            assert_eq!(names, vec!["get", "make", "as"]);
        },
        other => panic!("unexpected {:?}", other),
    }
}

#[test]
fn store_type_has_its_methods() {
    let mut r = TypeResolver::new();
    let t = r.create_store_type(&"Box".to_string(), &Type::I32, &None).unwrap();
    match t {
        InferType::Store { name, value_type, methods } => {
            assert_eq!(name, "Box");
            assert!(matches!(*value_type, InferType::Int));
            let names: Vec<&str> = methods.iter().map(|m| m.0.as_str()).collect();
            assert_eq!(names, vec!["get", "set", "update", "with_id"]);
        },
        other => panic!("unexpected {:?}", other),
    }
}

#[test]
fn actor_type_has_one_handler_per_message_type() {
    let mut r = TypeResolver::new();
    let fields = vec![Field { name: "n".to_string(), type_: Type::I32, default_value: None, span: SourceSpan::default() }];
    let h = |t: Type| MessageHandler { message_type: t, body: vec![], span: SourceSpan::default() };
    let handlers = vec![h(Type::String), h(Type::I32), h(Type::String)];
    match r.create_actor_type(&"Worker".to_string(), &fields, &handlers).unwrap() {
        InferType::Actor { name, fields, handlers } => {
            assert_eq!(name, "Worker");
            assert_eq!(fields.len(), 1);
            assert_eq!(handlers.len(), 2);
            assert_eq!(handlers[0].0, Type::String);
            assert_eq!(handlers[1].0, Type::I32);
        },
        other => panic!("unexpected {:?}", other),
    }
}

#[test]
fn resolve_program_fills_in_types() {
    let mut ids = IdCounter::new();
    let mut r = TypeResolver::new();
    let param = Parameter { name: "a".to_string(), type_: Type::Unknown, default_value: None, span: SourceSpan::default() };
    let a = ident(&mut ids, "a");
    let one = int_lit(&mut ids, 1);
    let sum = expr(&mut ids, ExprKind::binary(BinaryOp::Add, a, one));
    let body = vec![stmt(&mut ids, StmtKind::Return(Some(sum)))];
    let f = stmt(&mut ids, StmtKind::function("inc".to_string(), vec![param], body));
    let mut program = Program { statements: vec![f], span: SourceSpan::default() };
    assert!(r.resolve_program(&mut program).is_ok());
    assert_eq!(r.constraints.len(), 0);
    match &program.statements[0].kind {
        StmtKind::Function { params, .. } => assert_eq!(params.len(), 1),
        other => panic!("unexpected {:?}", other),
    }
}

#[test]
fn resolve_program_reports_unknown_names() {
    let mut ids = IdCounter::new();
    let mut r = TypeResolver::new();
    let e = ident(&mut ids, "nowhere");
    let s = stmt(&mut ids, StmtKind::Expression(e));
    let mut program = Program { statements: vec![s], span: SourceSpan::default() };
    match r.resolve_program(&mut program) {
        Err(TypeError::UnknownVariable(n)) => assert_eq!(n, "nowhere"),
        other => panic!("unexpected {:?}", other),
    }
}

#[test]
fn resolve_program_refuses_conflicting_types() {
    let mut ids = IdCounter::new();
    let mut r = TypeResolver::new();
    let target = ident(&mut ids, "x");
    let value = int_lit(&mut ids, 1);
    let assign = stmt(&mut ids, StmtKind::Assignment { target, value });
    let x = ident(&mut ids, "x");
    let t = expr(&mut ids, ExprKind::literal(Literal::Bool(true)));
    let cmp = expr(&mut ids, ExprKind::binary(BinaryOp::Eq, x, t));
    let s = stmt(&mut ids, StmtKind::Expression(cmp));
    let mut program = Program { statements: vec![assign, s], span: SourceSpan::default() };
    assert!(matches!(r.resolve_program(&mut program), Err(TypeError::TypeMismatch(_, _))));
}

#[test]
fn type_error_messages() {
    assert_eq!(TypeError::FieldNotFound("x".to_string()).message(), "Field 'x' not found");
    assert_eq!(TypeError::UnknownVariable("v".to_string()).message(), "Unknown variable 'v'");
    assert_eq!(TypeError::ArityMismatch(2, 3).message(), "Arity mismatch: expected 2 arguments, found 3");
    assert_eq!(
        TypeError::TypeMismatch(InferType::Int, InferType::Bool).message(),
        format!("Type mismatch: expected {:?}, found {:?}", InferType::Int, InferType::Bool)
    );
    assert_eq!(
        TypeError::InfiniteType(TypeVar(4), InferType::Int).message(),
        format!("Infinite type: {:?} occurs in {:?}", TypeVar(4), InferType::Int)
    );
}

#[test]
fn unify_applies_earlier_bindings_to_later_parts() {
    let mut r = TypeResolver::new();
    let m1 = InferType::MapOf(Box::new(var(0)), Box::new(var(0)));
    let m2 = InferType::MapOf(Box::new(InferType::Int), Box::new(InferType::Bool));
    match r.unify(&m1, &m2) {
        Err(TypeError::TypeMismatch(a, b)) => {
            assert!(matches!(a, InferType::Int));
            assert!(matches!(b, InferType::Bool));
        },
        _ => panic!("expected a mismatch"),
    }
    let m3 = InferType::MapOf(Box::new(var(1)), Box::new(list(var(1))));
    let m4 = InferType::MapOf(Box::new(InferType::Int), Box::new(var(2)));
    let s = r.unify(&m3, &m4).unwrap();
    let a = r.apply_substitution(&m3, &s);
    let b = r.apply_substitution(&m4, &s);
    assert_eq!(show(&r, &a), show(&r, &b));
    assert_eq!(show(&r, &a), show(&r, &InferType::MapOf(Box::new(InferType::Int), Box::new(list(InferType::Int)))));
}
