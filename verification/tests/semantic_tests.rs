use coral::ast::{
    BinaryOp, ErrorAction, ErrorHandler, Expr, ExprKind, IdCounter, Literal, Program, SourceSpan, Stmt, StmtKind,
    Type,
};
use coral::semantic::{SemanticAnalyzer, Symbol, SymbolKind, SymbolTable};

fn expr(ids: &mut IdCounter, kind: ExprKind) -> Expr {
    Expr::new(ids, SourceSpan::default(), kind)
}

fn stmt(ids: &mut IdCounter, kind: StmtKind) -> Stmt {
    Stmt::new(ids, SourceSpan::default(), kind)
}

#[test]
fn test_simple_variable_analysis() {
    let mut ids = IdCounter::new();
    let mut analyzer = SemanticAnalyzer::new();
    let target = expr(&mut ids, ExprKind::Identifier("x".to_string()));
    let value = expr(&mut ids, ExprKind::Literal(Literal::Integer(42)));
    let s = stmt(&mut ids, StmtKind::Assignment { target, value });
    let mut program = Program { statements: vec![s], span: SourceSpan::default() };

    let result = analyzer.analyze(&mut program);
    assert!(result.is_ok());
}

#[test]
fn test_error_handler_semantics() {
    let mut ids = IdCounter::new();
    let span = SourceSpan::default();
    let mut analyzer = SemanticAnalyzer::new();
    let log = expr(&mut ids, ExprKind::literal(Literal::String("fail".to_string())));
    let ret = expr(&mut ids, ExprKind::literal(Literal::Integer(42)));
    let target = expr(&mut ids, ExprKind::identifier("x".to_string()));
    let value = expr(&mut ids, ExprKind::literal(Literal::Integer(1)));
    let inner = stmt(&mut ids, StmtKind::Assignment { target, value });
    let guarded = stmt(
        &mut ids,
        StmtKind::ErrorHandler {
            handler: ErrorHandler {
                actions: vec![ErrorAction::Log(Some(log)), ErrorAction::Return(Some(ret))],
                span: span.clone(),
            },
            inner: Box::new(inner),
        },
    );
    let f = stmt(
        &mut ids,
        StmtKind::Function { name: "f".to_string(), params: vec![], return_type: Some(Type::I32), body: vec![guarded] },
    );
    let mut program = Program { statements: vec![f], span: span.clone() };
    let result = analyzer.analyze(&mut program);
    assert!(result.is_ok(), "Error handler semantic analysis should pass for valid log/return");

    let bad_ret = expr(&mut ids, ExprKind::literal(Literal::String("oops".to_string())));
    let target = expr(&mut ids, ExprKind::identifier("y".to_string()));
    let value = expr(&mut ids, ExprKind::literal(Literal::Integer(2)));
    let inner = stmt(&mut ids, StmtKind::Assignment { target, value });
    let guarded = stmt(
        &mut ids,
        StmtKind::ErrorHandler {
            handler: ErrorHandler { actions: vec![ErrorAction::Return(Some(bad_ret))], span: span.clone() },
            inner: Box::new(inner),
        },
    );
    let g = stmt(
        &mut ids,
        StmtKind::Function { name: "g".to_string(), params: vec![], return_type: Some(Type::I32), body: vec![guarded] },
    );
    let mut program_bad = Program { statements: vec![g], span: span.clone() };
    let result_bad = analyzer.analyze(&mut program_bad);
    assert!(result_bad.is_err(), "Error handler semantic analysis should fail for return type mismatch");
}

#[test]
fn undefined_variable_is_reported_and_typed_unknown() {
    let mut ids = IdCounter::new();
    let mut analyzer = SemanticAnalyzer::new();
    let e = expr(&mut ids, ExprKind::Identifier("nope".to_string()));
    let s = stmt(&mut ids, StmtKind::Expression(e));
    let mut program = Program { statements: vec![s], span: SourceSpan::default() };
    let errors = analyzer.analyze(&mut program).unwrap_err();
    assert_eq!(errors.len(), 1);
    assert_eq!(errors[0].message, "Undefined variable: nope");
    if let StmtKind::Expression(e) = &program.statements[0].kind {
        assert_eq!(e.type_, Type::Unknown);
    } else {
        panic!("statement kind changed");
    }
}

#[test]
fn arithmetic_on_a_bool_is_reported() {
    let mut ids = IdCounter::new();
    let mut analyzer = SemanticAnalyzer::new();
    let l = expr(&mut ids, ExprKind::Literal(Literal::Bool(true)));
    let r = expr(&mut ids, ExprKind::Literal(Literal::Integer(1)));
    let e = expr(&mut ids, ExprKind::binary(BinaryOp::Add, l, r));
    let s = stmt(&mut ids, StmtKind::Expression(e));
    let mut program = Program { statements: vec![s], span: SourceSpan::default() };
    let errors = analyzer.analyze(&mut program).unwrap_err();
    assert_eq!(errors[0].message, "Arithmetic operation requires numeric types, found Bool and I32");
}

#[test]
fn mixed_arithmetic_promotes_to_float() {
    let mut ids = IdCounter::new();
    let mut analyzer = SemanticAnalyzer::new();
    let l = expr(&mut ids, ExprKind::Literal(Literal::Float(0x3ff0000000000000)));
    let r = expr(&mut ids, ExprKind::Literal(Literal::Integer(1)));
    let e = expr(&mut ids, ExprKind::binary(BinaryOp::Mul, l, r));
    let s = stmt(&mut ids, StmtKind::Expression(e));
    let mut program = Program { statements: vec![s], span: SourceSpan::default() };
    assert!(analyzer.analyze(&mut program).is_ok());
    if let StmtKind::Expression(e) = &program.statements[0].kind {
        assert_eq!(e.type_, Type::F64);
    }
}

#[test]
fn non_boolean_condition_is_reported() {
    let mut ids = IdCounter::new();
    let mut analyzer = SemanticAnalyzer::new();
    let c = expr(&mut ids, ExprKind::Literal(Literal::Integer(3)));
    let s = stmt(&mut ids, StmtKind::While { condition: c, body: vec![] });
    let mut program = Program { statements: vec![s], span: SourceSpan::default() };
    let errors = analyzer.analyze(&mut program).unwrap_err();
    assert_eq!(errors[0].message, "While condition must be boolean, found I32");
}

#[test]
fn duplicate_declaration_is_refused() {
    let mut table = SymbolTable::new();
    let sym = |n: &str| Symbol {
        name: n.to_string(),
        type_: Type::I32,
        kind: SymbolKind::Variable,
        span: SourceSpan::default(),
    };
    assert!(table.define(sym("a")).is_ok());
    assert_eq!(table.define(sym("a")), Err("Symbol 'a' already defined in this scope".to_string()));
    table.enter_scope();
    assert!(table.define(sym("a")).is_ok());
    assert!(table.lookup("a").is_some());
    table.exit_scope();
    assert!(table.lookup("a").is_some());
    assert!(table.lookup("b").is_none());
}

#[test]
fn compatibility_follows_widening() {
    let analyzer = SemanticAnalyzer::new();
    assert!(analyzer.types_compatible(&Type::I8, &Type::I64));
    assert!(analyzer.types_compatible(&Type::I32, &Type::F32));
    assert!(!analyzer.types_compatible(&Type::I64, &Type::I32));
    assert!(analyzer.types_compatible(&Type::Unknown, &Type::Bool));
    let f1 = Type::Function { params: vec![Type::I64], return_type: Box::new(Type::I8) };
    let f2 = Type::Function { params: vec![Type::I32], return_type: Box::new(Type::I16) };
    assert!(analyzer.types_compatible(&f1, &f2));
    assert!(!analyzer.types_compatible(&f2, &f1));
}

#[test]
fn block_type_is_last_expression() {
    let mut ids = IdCounter::new();
    let mut analyzer = SemanticAnalyzer::new();
    let one = expr(&mut ids, ExprKind::Literal(Literal::Integer(1)));
    let yes = expr(&mut ids, ExprKind::Literal(Literal::Yes));
    let s1 = stmt(&mut ids, StmtKind::Expression(one));
    let s2 = stmt(&mut ids, StmtKind::Expression(yes));
    let block = expr(&mut ids, ExprKind::Block(vec![s1, s2]));
    let s = stmt(&mut ids, StmtKind::Expression(block));
    let mut program = Program { statements: vec![s], span: SourceSpan::default() };
    assert!(analyzer.analyze(&mut program).is_ok());
    if let StmtKind::Expression(e) = &program.statements[0].kind {
        assert_eq!(e.type_, Type::Bool);
    }
}

#[test]
fn scope_exit_restores_outer_lookups() {
    let mut table = SymbolTable::new();
    let sym = |n: &str, t: Type| Symbol { name: n.to_string(), type_: t, kind: SymbolKind::Variable, span: SourceSpan::default() };
    assert!(table.define(sym("a", Type::I32)).is_ok());
    table.enter_scope();
    assert!(table.define(sym("a", Type::Bool)).is_ok());
    assert!(table.define(sym("b", Type::String)).is_ok());
    assert!(matches!(table.lookup("a").unwrap().type_, Type::Bool));
    table.exit_scope();
    assert!(matches!(table.lookup("a").unwrap().type_, Type::I32));
    assert!(table.lookup("b").is_none());
}
