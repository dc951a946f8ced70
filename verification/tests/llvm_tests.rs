use coral::ast::{
    Argument, BinaryOp, ErrorAction, ErrorHandler, Expr, ExprKind, Field, IdCounter, Literal, Parameter, Program, SourceSpan, Stmt, StmtKind, Type,
    UnaryOp,
};
use coral::codegen::llvm::LLVMCodegen;
use coral::codegen::symbols::LLVMValue;
use coral::codegen::CodegenError;
use coral::resolver::types::InferType;

fn ex(ids: &mut IdCounter, kind: ExprKind) -> Expr {
    Expr::new(ids, SourceSpan::default(), kind)
}

fn st(ids: &mut IdCounter, kind: StmtKind) -> Stmt {
    Stmt::new(ids, SourceSpan::default(), kind)
}

fn ident(ids: &mut IdCounter, name: &str) -> Expr {
    ex(ids, ExprKind::Identifier(name.to_string()))
}

fn int_lit(ids: &mut IdCounter, n: i64) -> Expr {
    ex(ids, ExprKind::Literal(Literal::Integer(n)))
}

fn arg(value: Expr) -> Argument {
    Argument { name: None, value, span: SourceSpan::default() }
}

fn param(name: &str, type_: Type) -> Parameter {
    Parameter { name: name.to_string(), type_, default_value: None, span: SourceSpan::default() }
}

fn add(ids: &mut IdCounter, a: &str, b: &str) -> Expr {
    let left = ident(ids, a);
    let right = ident(ids, b);
    ex(ids, ExprKind::Binary { op: BinaryOp::Add, left: Box::new(left), right: Box::new(right) })
}

#[test]
fn codegen_test_simple_function_compilation() {
    let mut ids = IdCounter::new();
    let mut codegen = LLVMCodegen::new("test".to_string());
    let params = vec![param("a", Type::I64), param("b", Type::I64)];
    let sum = add(&mut ids, "a", "b");
    let body = vec![st(&mut ids, StmtKind::Expression(sum))];
    let f = st(&mut ids, StmtKind::Function { name: "add".to_string(), params, return_type: Some(Type::I64), body });
    let result = codegen.compile_statement(&f);
    assert!(result.is_ok());
    let ir = codegen.output();
    assert!(ir.contains("define i64 @add(i64 %a, i64 %b)"));
}

fn point_call(ids: &mut IdCounter) -> Expr {
    let callee = ident(ids, "Point");
    let a = int_lit(ids, 10);
    let b = int_lit(ids, 20);
    ex(ids, ExprKind::Call { callee: Box::new(callee), args: vec![arg(a), arg(b)] })
}

#[test]
fn codegen_test_complete_program_compilation() {
    let mut ids = IdCounter::new();
    let mut codegen = LLVMCodegen::new("test_program".to_string());
    let sum = add(&mut ids, "x", "y");
    let ret = st(&mut ids, StmtKind::Return(Some(sum)));
    let add_func = st(
        &mut ids,
        StmtKind::Function {
            name: "add".to_string(),
            params: vec![param("x", Type::I64), param("y", Type::I64)],
            return_type: Some(Type::I64),
            body: vec![ret],
        },
    );
    let target = ident(&mut ids, "result");
    let callee = ident(&mut ids, "add");
    let ten = int_lit(&mut ids, 10);
    let twenty = int_lit(&mut ids, 20);
    let value = ex(&mut ids, ExprKind::Call { callee: Box::new(callee), args: vec![arg(ten), arg(twenty)] });
    let assignment = st(&mut ids, StmtKind::Assignment { target, value });
    let program = Program { statements: vec![add_func, assignment], span: SourceSpan::default() };
    match codegen.compile_program(&program) {
        Ok(ir) => {
            assert!(ir.contains("target triple"));
            assert!(ir.contains("define i64 @add(i64 %x, i64 %y)"));
            assert!(ir.contains("define i32 @main()"));
            assert!(ir.contains("add i64"));
            assert!(ir.contains("alloca"));
            assert!(ir.contains("store"));
        },
        Err(e) => panic!("Compilation failed with error: {:?}", e),
    }
}

#[test]
fn codegen_test_literal_compilation() {
    let mut codegen = LLVMCodegen::new("test".to_string());
    let value = codegen.compile_literal(&Literal::Integer(42)).unwrap();
    assert_eq!(value.llvm_type, "i64");
    assert_eq!(value.value_id, "42");
    let value = codegen.compile_literal(&Literal::String("hello".to_string())).unwrap();
    assert_eq!(value.llvm_type, "i8*");
    assert!(value.value_id.contains("getelementptr"));
}

#[test]
fn codegen_test_binary_operation_compilation() {
    let mut ids = IdCounter::new();
    let mut codegen = LLVMCodegen::new("test".to_string());
    let left = int_lit(&mut ids, 10);
    let right = int_lit(&mut ids, 20);
    let e = ex(&mut ids, ExprKind::Binary { op: BinaryOp::Add, left: Box::new(left), right: Box::new(right) });
    let value = codegen.compile_expression(&e).unwrap();
    assert_eq!(value.llvm_type, "i64");
    assert!(value.value_id.starts_with("%"));
    assert!(codegen.output().contains("add i64"));
}

#[test]
fn codegen_test_object_codegen() {
    let mut ids = IdCounter::new();
    let mut codegen = LLVMCodegen::new("objdemo".to_string());
    let fields = vec![
        Field { name: "x".to_string(), type_: Type::I64, default_value: None, span: SourceSpan::default() },
        Field { name: "y".to_string(), type_: Type::I64, default_value: None, span: SourceSpan::default() },
    ];
    let obj_stmt = st(&mut ids, StmtKind::Object { name: "Point".to_string(), fields, methods: vec![] });
    codegen.compile_statement(&obj_stmt).unwrap();
    let create_expr = point_call(&mut ids);
    let obj_val = codegen.compile_expression(&create_expr).unwrap();
    assert!(obj_val.llvm_type.contains("%struct.Point*"));
    let object = point_call(&mut ids);
    let prop_expr = ex(&mut ids, ExprKind::FieldAccess { object: Box::new(object), field: "x".to_string() });
    let prop_val = codegen.compile_expression(&prop_expr).unwrap();
    assert_eq!(prop_val.llvm_type, "i64");
    let temp_id = codegen.next_temp();
    codegen.emit(&format!(
        "  %fieldptr{} = getelementptr inbounds %struct.Point, %struct.Point* {}, i32 0, i32 0",
        temp_id, obj_val.value_id
    ));
    codegen.emit(&format!("  store i64 {}, i64* %fieldptr{}", 99, temp_id));
    let object = point_call(&mut ids);
    let callee = ex(&mut ids, ExprKind::FieldAccess { object: Box::new(object), field: "move".to_string() });
    let five = int_lit(&mut ids, 5);
    let method_expr = ex(&mut ids, ExprKind::Call { callee: Box::new(callee), args: vec![arg(five)] });
    let _ = codegen.compile_expression(&method_expr);
    let ir = codegen.output();
    assert!(ir.contains("%struct.Point = type { i64, i64 }"));
    assert!(ir.contains("alloca %struct.Point"));
    assert!(ir.contains("getelementptr inbounds %struct.Point"));
    assert!(ir.contains("store i64"));
    assert!(ir.contains("call i64 @Point_move"));
}

#[test]
fn codegen_test_list_append_compilation() {
    let mut ids = IdCounter::new();
    let mut codegen = LLVMCodegen::new("test_list_append".to_string());
    let one = int_lit(&mut ids, 1);
    let two = int_lit(&mut ids, 2);
    let initial_list = ex(&mut ids, ExprKind::ListLiteral(vec![one, two]));
    let three = int_lit(&mut ids, 3);
    let append_expr = ex(&mut ids, ExprKind::ListAppend { list: Box::new(initial_list), element: Box::new(three) });
    assert!(codegen.compile_expression(&append_expr).is_ok());
    let ir = codegen.output();
    for needle in [
        "getelementptr inbounds %coral.list", "load i8*", "load i64", "icmp eq i64", "br i1", "mul i64",
        "call i8* @realloc", "phi i8*", "phi i64", "store i64", "store i8*",
    ] {
        assert!(ir.contains(needle), "missing {}", needle);
    }
}

#[test]
fn codegen_test_map_literal_compilation() {
    let mut ids = IdCounter::new();
    let mut codegen = LLVMCodegen::new("test_map_literal".to_string());
    let ka = ex(&mut ids, ExprKind::Literal(Literal::String("a".to_string())));
    let v1 = int_lit(&mut ids, 1);
    let kb = ex(&mut ids, ExprKind::Literal(Literal::String("b".to_string())));
    let v2 = int_lit(&mut ids, 2);
    let map_literal = ex(&mut ids, ExprKind::MapLiteral(vec![(ka, v1), (kb, v2)]));
    assert!(codegen.compile_expression(&map_literal).is_ok());
    let ir = codegen.output();
    assert!(ir.contains("alloca %coral.map"));
    assert!(ir.contains("call i8* @map_create"));
    assert!(ir.contains("call void @map_insert"));
    assert!(ir.contains("store i64 2, i64* "));
}

#[test]
fn codegen_test_map_insert_compilation() {
    let mut ids = IdCounter::new();
    let mut codegen = LLVMCodegen::new("test_map_insert".to_string());
    let dummy_map = LLVMValue {
        type_info: InferType::MapOf(Box::new(InferType::String), Box::new(InferType::Int)),
        llvm_type: "%coral.map*".to_string(),
        value_id: "%map_ptr".to_string(),
    };
    codegen.define_variable("my_map".to_string(), dummy_map);
    let map = ident(&mut ids, "my_map");
    let key = ex(&mut ids, ExprKind::Literal(Literal::String("c".to_string())));
    let value = int_lit(&mut ids, 3);
    let map_insert = ex(&mut ids, ExprKind::MapInsert { map: Box::new(map), key: Box::new(key), value: Box::new(value) });
    assert!(codegen.compile_expression(&map_insert).is_ok());
    let ir = codegen.output();
    assert!(ir.contains("call void @map_insert"));
    assert!(ir.contains("load i8*"));
}

#[test]
fn function_ir_is_exact() {
    let mut ids = IdCounter::new();
    let mut codegen = LLVMCodegen::new("m".to_string());
    let sum = add(&mut ids, "x", "y");
    let ret = st(&mut ids, StmtKind::Return(Some(sum)));
    let f = st(
        &mut ids,
        StmtKind::Function {
            name: "add".to_string(),
            params: vec![param("x", Type::I64), param("y", Type::I64)],
            return_type: Some(Type::I64),
            body: vec![ret],
        },
    );
    codegen.compile_statement(&f).unwrap();
    assert_eq!(codegen.output(), "define i64 @add(i64 %x, i64 %y) {\n  %0 = add i64 %x, %y\n  ret i64 %0\n}");
    // the parameters are gone after the function, the function is known
    let x = ident(&mut ids, "x");
    assert!(matches!(codegen.compile_expression(&x), Err(CodegenError::UndefinedVariable(n)) if n == "x"));
}

#[test]
fn unit_function_gets_ret_void() {
    let mut ids = IdCounter::new();
    let mut codegen = LLVMCodegen::new("m".to_string());
    let f = st(&mut ids, StmtKind::Function { name: "noop".to_string(), params: vec![], return_type: None, body: vec![] });
    codegen.compile_statement(&f).unwrap();
    assert_eq!(codegen.output(), "define void @noop() {\n  ret void\n}");
}

#[test]
fn literals_render_exactly() {
    let mut c = LLVMCodegen::new("m".to_string());
    assert_eq!(c.compile_literal(&Literal::Integer(-7)).unwrap().value_id, "-7");
    assert_eq!(c.compile_literal(&Literal::Float(1.5f64.to_bits())).unwrap().value_id, "0x3FF8000000000000");
    assert_eq!(c.compile_literal(&Literal::Bool(false)).unwrap().value_id, "false");
    let s = c.compile_literal(&Literal::String("hé".to_string())).unwrap();
    assert_eq!(s.value_id, "getelementptr ([4 x i8], [4*] @.str0, i64 0, i64 0)");
    assert_eq!(c.output(), "@.str0 = private constant [4 x i8] c\"hé\\00\"");
    let n = c.compile_literal(&Literal::Null).unwrap();
    assert_eq!((n.llvm_type.as_str(), n.value_id.as_str()), ("i8*", "null"));
}

#[test]
fn binary_errors() {
    let mut ids = IdCounter::new();
    let mut c = LLVMCodegen::new("m".to_string());
    let a = int_lit(&mut ids, 1);
    let b = ex(&mut ids, ExprKind::Literal(Literal::Bool(true)));
    let e = ex(&mut ids, ExprKind::Binary { op: BinaryOp::Add, left: Box::new(a), right: Box::new(b) });
    match c.compile_expression(&e) {
        Err(CodegenError::InvalidOperation(m)) => assert_eq!(m, "Type mismatch in addition"),
        other => panic!("unexpected {:?}", other),
    }
    let a = int_lit(&mut ids, 1);
    let b = int_lit(&mut ids, 2);
    let e = ex(&mut ids, ExprKind::Binary { op: BinaryOp::Div, left: Box::new(a), right: Box::new(b) });
    match c.compile_expression(&e) {
        Err(CodegenError::UnsupportedFeature(m)) => assert_eq!(m, "Binary operation not implemented: Div"),
        other => panic!("unexpected {:?}", other),
    }
}

#[test]
fn unary_negation_subtracts_from_zero() {
    let mut ids = IdCounter::new();
    let mut c = LLVMCodegen::new("m".to_string());
    let five = int_lit(&mut ids, 5);
    let v = c.compile_unary_operation(&UnaryOp::Neg, &five).unwrap();
    assert_eq!(v.value_id, "%0");
    assert_eq!(c.output(), "  %0 = sub i64 0, 5");
    let t = ex(&mut ids, ExprKind::Literal(Literal::Bool(true)));
    assert!(matches!(c.compile_unary_operation(&UnaryOp::Neg, &t), Err(CodegenError::InvalidOperation(_))));
}

#[test]
fn statements_that_are_refused() {
    let mut ids = IdCounter::new();
    let mut c = LLVMCodegen::new("m".to_string());
    let s = st(&mut ids, StmtKind::Store { name: "S".to_string(), fields: vec![], methods: vec![] });
    match c.compile_statement(&s) {
        Err(CodegenError::UnsupportedFeature(m)) => assert_eq!(m, "Store definitions not yet implemented"),
        other => panic!("unexpected {:?}", other),
    }
    let callee = ident(&mut ids, "nothing");
    let call = ex(&mut ids, ExprKind::Call { callee: Box::new(callee), args: vec![] });
    match c.compile_expression(&call) {
        Err(CodegenError::UndefinedFunction(m)) => assert_eq!(m, "nothing"),
        other => panic!("unexpected {:?}", other),
    }
}

#[test]
fn while_loop_shape() {
    let mut ids = IdCounter::new();
    let mut c = LLVMCodegen::new("m".to_string());
    let cond = ex(&mut ids, ExprKind::Literal(Literal::Bool(true)));
    let s = st(&mut ids, StmtKind::While { condition: cond, body: vec![] });
    c.compile_statement(&s).unwrap();
    assert_eq!(c.output(), "  br label %L0\nL0:\n  br i1 true, label %L1, label %L2\nL1:\n  br label %L0\nL2:");
}

fn str_lit(ids: &mut IdCounter, s: &str) -> Expr {
    ex(ids, ExprKind::Literal(Literal::String(s.to_string())))
}

#[test]
fn codegen_test_error_handler_codegen_log_return() {
    let mut ids = IdCounter::new();
    let mut codegen = LLVMCodegen::new("errdemo".to_string());
    let target = ident(&mut ids, "x");
    let one = int_lit(&mut ids, 1);
    let guarded_stmt = st(&mut ids, StmtKind::Assignment { target, value: one });
    let fail = str_lit(&mut ids, "fail");
    let forty_two = int_lit(&mut ids, 42);
    let err_handler = ErrorHandler {
        actions: vec![ErrorAction::Log(Some(fail)), ErrorAction::Return(Some(forty_two))],
        span: SourceSpan::default(),
    };
    let stmt = st(&mut ids, StmtKind::ErrorHandler { handler: err_handler, inner: Box::new(guarded_stmt) });
    let result = codegen.compile_statement(&stmt);
    assert!(result.is_ok());
    let ir = codegen.output();
    assert!(ir.contains("call @log"));
    assert!(ir.contains("ret"));
}

#[test]
fn codegen_test_module_import_and_builtin_function() {
    let mut ids = IdCounter::new();
    let mut codegen = LLVMCodegen::new("moddemo".to_string());
    let import_stmt = st(&mut ids, StmtKind::Import { module: "coral.net.web".to_string(), items: None });
    let result = codegen.compile_statement(&import_stmt);
    assert!(result.is_ok());
    let callee = ident(&mut ids, "get");
    let url = str_lit(&mut ids, "https://somesite.com");
    let get_call = ex(&mut ids, ExprKind::Call { callee: Box::new(callee), args: vec![arg(url)] });
    let result = codegen.compile_expression(&get_call);
    assert!(result.is_ok());
    let ir = codegen.output();
    assert!(ir.contains("@get"));
}

#[test]
fn codegen_test_local_module_link_without_definition() {
    let mut ids = IdCounter::new();
    let mut codegen = LLVMCodegen::new("localmoddemo".to_string());
    let use_stmt = st(&mut ids, StmtKind::Import { module: "xyz".to_string(), items: None });
    let result = codegen.compile_statement(&use_stmt);
    assert!(result.is_ok());
    let target = ident(&mut ids, "x");
    let callee = ident(&mut ids, "abc");
    let n = int_lit(&mut ids, 123);
    let value = ex(&mut ids, ExprKind::Call { callee: Box::new(callee), args: vec![arg(n)] });
    let assign_stmt = st(&mut ids, StmtKind::Assignment { target, value });
    let result = codegen.compile_statement(&assign_stmt);
    assert!(result.is_ok());
    let ir = codegen.output();
    assert!(ir.contains("@abc"));
}

#[test]
fn codegen_test_builtin_class_and_function_usage() {
    let mut ids = IdCounter::new();
    let mut codegen = LLVMCodegen::new("builtindemo".to_string());
    let object = ident(&mut ids, "glob");
    let callee = ex(&mut ids, ExprKind::FieldAccess { object: Box::new(object), field: "glob".to_string() });
    let pattern = str_lit(&mut ids, "*.cor");
    let glob_call = ex(&mut ids, ExprKind::Call { callee: Box::new(callee), args: vec![arg(pattern)] });
    let result = codegen.compile_expression(&glob_call);
    assert!(result.is_ok());
    let ir = codegen.output();
    assert!(ir.contains("@glob_glob"));
}

#[test]
fn error_handler_lines_follow_guarded_statement() {
    let mut ids = IdCounter::new();
    let mut codegen = LLVMCodegen::new("m".to_string());
    let target = ident(&mut ids, "x");
    let one = int_lit(&mut ids, 1);
    let guarded = st(&mut ids, StmtKind::Assignment { target, value: one });
    let seven = int_lit(&mut ids, 7);
    let handler = ErrorHandler {
        actions: vec![ErrorAction::Log(None), ErrorAction::Custom(seven), ErrorAction::Return(None)],
        span: SourceSpan::default(),
    };
    let stmt = st(&mut ids, StmtKind::ErrorHandler { handler, inner: Box::new(guarded) });
    assert!(codegen.compile_statement(&stmt).is_ok());
    assert_eq!(
        codegen.output(),
        "  %0 = alloca i64\n  store i64 1, i64* %0\n  call @log()\n  ret void"
    );
}

#[test]
fn error_handler_log_passes_value() {
    let mut ids = IdCounter::new();
    let mut codegen = LLVMCodegen::new("m".to_string());
    let call = ex(&mut ids, ExprKind::Literal(Literal::Bool(true)));
    let guarded = st(&mut ids, StmtKind::Expression(call));
    let five = int_lit(&mut ids, 5);
    let also_five = int_lit(&mut ids, 5);
    let handler = ErrorHandler {
        actions: vec![ErrorAction::Log(Some(five)), ErrorAction::Return(Some(also_five))],
        span: SourceSpan::default(),
    };
    let stmt = st(&mut ids, StmtKind::ErrorHandler { handler, inner: Box::new(guarded) });
    assert!(codegen.compile_statement(&stmt).is_ok());
    assert_eq!(codegen.output(), "  call @log(i64 5)\n  ret i64 5");
}

#[test]
fn error_handler_failing_action_is_an_error() {
    let mut ids = IdCounter::new();
    let mut codegen = LLVMCodegen::new("m".to_string());
    let t = ex(&mut ids, ExprKind::Literal(Literal::Bool(true)));
    let guarded = st(&mut ids, StmtKind::Expression(t));
    let missing = ident(&mut ids, "missing");
    let handler = ErrorHandler { actions: vec![ErrorAction::Return(Some(missing))], span: SourceSpan::default() };
    let stmt = st(&mut ids, StmtKind::ErrorHandler { handler, inner: Box::new(guarded) });
    assert!(matches!(codegen.compile_statement(&stmt), Err(CodegenError::UndefinedVariable(n)) if n == "missing"));
}

#[test]
fn imported_function_is_called_as_i64() {
    let mut ids = IdCounter::new();
    let mut codegen = LLVMCodegen::new("m".to_string());
    let import_stmt = st(&mut ids, StmtKind::Import { module: "xyz".to_string(), items: None });
    assert!(codegen.compile_statement(&import_stmt).is_ok());
    assert_eq!(codegen.output(), "");
    let callee = ident(&mut ids, "abc");
    let n = int_lit(&mut ids, 123);
    let call = ex(&mut ids, ExprKind::Call { callee: Box::new(callee), args: vec![arg(n)] });
    let v = codegen.compile_expression(&call).unwrap();
    assert_eq!(v.llvm_type, "i64");
    assert_eq!(v.value_id, "%0");
    assert_eq!(codegen.output(), "  %0 = call i64 @abc(i64 123)");
}

#[test]
fn class_method_call_without_receiver_value() {
    let mut ids = IdCounter::new();
    let mut codegen = LLVMCodegen::new("m".to_string());
    let object = ident(&mut ids, "glob");
    let callee = ex(&mut ids, ExprKind::FieldAccess { object: Box::new(object), field: "glob".to_string() });
    let n = int_lit(&mut ids, 3);
    let call = ex(&mut ids, ExprKind::Call { callee: Box::new(callee), args: vec![arg(n)] });
    assert!(codegen.compile_expression(&call).is_ok());
    assert_eq!(codegen.output(), "  %0 = call i64 @glob_glob(i64 3)");
}
