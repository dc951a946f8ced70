use coral::ast::{
    BinaryOp, Expr, ExprKind, IdCounter, Literal, NodeId, QueryComparator, SourceSpan, Type,
};

#[test]
fn test_node_id_uniqueness() {
    let mut counter = IdCounter::new();
    let id1 = NodeId::new(&mut counter);
    let id2 = NodeId::new(&mut counter);
    assert_ne!(id1, id2);
}

#[test]
fn test_type_predicates() {
    assert!(Type::I32.is_numeric());
    assert!(Type::I32.is_integer());
    assert!(!Type::I32.is_float());

    assert!(Type::F64.is_numeric());
    assert!(!Type::F64.is_integer());
    assert!(Type::F64.is_float());

    assert!(!Type::Bool.is_numeric());
}

#[test]
fn test_expr_construction() {
    let mut ids = IdCounter::new();
    let span = SourceSpan::default();
    let expr = Expr::new(&mut ids, span.clone(), ExprKind::literal(Literal::Integer(42)));

    assert_eq!(expr.span, span);
    assert_eq!(expr.type_, Type::Unknown);
    assert!(matches!(expr.kind, ExprKind::Literal(Literal::Integer(42))));
}

#[test]
fn test_binary_expr_construction() {
    let mut ids = IdCounter::new();
    let span = SourceSpan::default();
    let left = Expr::new(&mut ids, span.clone(), ExprKind::literal(Literal::Integer(1)));
    let right = Expr::new(&mut ids, span.clone(), ExprKind::literal(Literal::Integer(2)));

    let binary = Expr::new(&mut ids, span.clone(), ExprKind::binary(BinaryOp::Add, left, right));

    if let ExprKind::Binary { op, .. } = &binary.kind {
        assert_eq!(*op, BinaryOp::Add);
    } else {
        panic!("Expected binary expression");
    }
}

#[test]
fn test_query_comparator_trait() {
    assert!(BinaryOp::Eq.is_query());
    assert!(BinaryOp::Is.is_query());
    assert!(BinaryOp::Xor.is_query());
    assert!(!BinaryOp::Add.is_query());
    assert!(!BinaryOp::And.is_query());
}

#[test]
fn node_ids_count_up_from_zero() {
    let mut ids = IdCounter::new();
    assert_eq!(NodeId::new(&mut ids).as_u32(), 0);
    assert_eq!(NodeId::new(&mut ids).as_u32(), 1);
    assert_eq!(ids.next, 2);
}

#[test]
fn type_renderings() {
    let f = Type::Function { params: vec![Type::I32, Type::Bool], return_type: Box::new(Type::String) };
    assert_eq!(f.to_string(), "(i32, bool) -> string");
    assert_eq!(f.to_llvm_type(), "i8*(i32, i1)*");
    assert_eq!(f.debug_string(), "Function { params: [I32, Bool], return_type: String }");
    let o = Type::Object { name: "P\"t".to_string(), fields: vec![("x".to_string(), Type::I64)] };
    assert_eq!(o.debug_string(), "Object { name: \"P\\\"t\", fields: {\"x\": I64} }");
    assert_eq!(Type::MapOf(Box::new(Type::String), Box::new(Type::I8)).to_string(), "map<string, i8>");
    assert_eq!(Type::TypeVar(7).to_string(), "T7");
}

#[test]
fn type_sizes_and_equality() {
    assert_eq!(Type::I16.size_bytes(), Some(2));
    assert_eq!(Type::Unit.size_bytes(), Some(0));
    assert_eq!(Type::String.size_bytes(), None);
    let a = Type::Object { name: "A".to_string(), fields: vec![] };
    let b = Type::Object { name: "A".to_string(), fields: vec![("f".to_string(), Type::Bool)] };
    assert!(a == b);
    assert!(Type::List(Box::new(Type::I8)) != Type::List(Box::new(Type::I16)));
}
