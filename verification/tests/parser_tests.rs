use coral::ast::{BinaryOp, Expr, ExprKind, Literal, Stmt, StmtKind, Type};
use coral::lexer::{Lexer, Token, TokenType};
use coral::parser::{parse_and_analyze, ParseError, Parser};

fn tokens(input: &str) -> Vec<Token> {
    let mut lexer = Lexer::new(input.to_string(), "test".to_string());
    lexer.tokenize().unwrap()
}

fn parse_expression(input: &str) -> Result<Expr, ParseError> {
    let mut parser = Parser::new(tokens(input), "test".to_string());
    parser.parse_expression()
}

fn parse_statement(input: &str) -> Result<Stmt, ParseError> {
    let mut parser = Parser::new(tokens(input), "test".to_string());
    parser.parse_statement()
}

#[test]
fn test_literal_expressions() {
    let expr = parse_expression("42").unwrap();
    assert!(matches!(expr.kind, ExprKind::Literal(Literal::Integer(42))));

    let expr = parse_expression("true").unwrap();
    assert!(matches!(expr.kind, ExprKind::Literal(Literal::Bool(true))));

    let expr = parse_expression("\"hello\"").unwrap();
    assert!(matches!(expr.kind, ExprKind::Literal(Literal::String(ref s)) if s == "hello"));
}

#[test]
fn float_literals_are_reported_unsupported() {
    match parse_expression("3.14") {
        Err(ParseError::InvalidSyntax { message, .. }) => assert_eq!(message, "A float literal is not supported"),
        _ => panic!("expected an error"),
    }
}

#[test]
fn test_binary_expressions() {
    let expr = parse_expression("1 + 2").unwrap();
    if let ExprKind::Binary { op, .. } = expr.kind {
        assert_eq!(op, BinaryOp::Add);
    } else {
        panic!("Expected binary expression");
    }

    let expr = parse_expression("a == b").unwrap();
    if let ExprKind::Binary { op, .. } = expr.kind {
        assert_eq!(op, BinaryOp::Eq);
    } else {
        panic!("Expected binary expression");
    }
}

#[test]
fn precedence_and_associativity() {
    let expr = parse_expression("1 + 2 * 3 - 4").unwrap();
    match expr.kind {
        ExprKind::Binary { op: BinaryOp::Sub, left, .. } => match left.kind {
            ExprKind::Binary { op: BinaryOp::Add, right, .. } => {
                assert!(matches!(right.kind, ExprKind::Binary { op: BinaryOp::Mul, .. }))
            },
            _ => panic!("expected addition on the left"),
        },
        _ => panic!("expected subtraction at the top"),
    }
}

#[test]
fn test_function_call() {
    let expr = parse_expression("foo(1, 2, 3)").unwrap();
    if let ExprKind::Call { args, .. } = expr.kind {
        assert_eq!(args.len(), 3);
    } else {
        panic!("Expected function call");
    }
}

#[test]
fn named_arguments_and_postfix() {
    let expr = parse_expression("f(x: 1).field[0]").unwrap();
    match expr.kind {
        ExprKind::Index { object, .. } => match object.kind {
            ExprKind::FieldAccess { object, field } => {
                assert_eq!(field, "field");
                match object.kind {
                    ExprKind::Call { args, .. } => assert_eq!(args[0].name.as_deref(), Some("x")),
                    _ => panic!("expected a call"),
                }
            },
            _ => panic!("expected a field access"),
        },
        _ => panic!("expected an index"),
    }
}

#[test]
fn lists_maps_and_ternary() {
    assert!(matches!(parse_expression("[1, 2]").unwrap().kind, ExprKind::ListLiteral(ref v) if v.len() == 2));
    assert!(matches!(parse_expression("(1, 2, 3)").unwrap().kind, ExprKind::ListLiteral(ref v) if v.len() == 3));
    assert!(matches!(parse_expression("()").unwrap().kind, ExprKind::ListLiteral(ref v) if v.is_empty()));
    assert!(matches!(parse_expression("(a: 1, b: 2)").unwrap().kind, ExprKind::MapLiteral(ref v) if v.len() == 2));
    assert!(matches!(parse_expression("(7)").unwrap().kind, ExprKind::Literal(Literal::Integer(7))));
    assert!(matches!(parse_expression("x ? 1 ! 2").unwrap().kind, ExprKind::If { else_branch: Some(_), .. }));
    assert!(matches!(parse_expression("xs.put 3").unwrap().kind, ExprKind::ListAppend { .. }));
}

#[test]
fn missing_parenthesis_is_reported() {
    match parse_expression("(1") {
        Err(ParseError::UnexpectedToken { expected, found }) => {
            assert_eq!(expected, "Expected ')' after expression");
            assert_eq!(found.token_type, TokenType::Eof);
        },
        _ => panic!("expected an error"),
    }
}

#[test]
fn test_assignment_statement() {
    let stmt = parse_statement("x is 42").unwrap();
    if let StmtKind::Assignment { target, value } = stmt.kind {
        assert!(matches!(target.kind, ExprKind::Identifier(ref s) if s == "x"));
        assert!(matches!(value.kind, ExprKind::Literal(Literal::Integer(42))));
    } else {
        panic!("Expected assignment statement");
    }
}

#[test]
fn test_assignment_with_is() {
    let stmt = parse_statement("foo is 99").unwrap();
    if let StmtKind::Assignment { target, value } = stmt.kind {
        assert!(matches!(target.kind, ExprKind::Identifier(ref s) if s == "foo"));
        assert!(matches!(value.kind, ExprKind::Literal(Literal::Integer(99))));
    } else {
        panic!("Expected assignment statement");
    }
}

#[test]
fn test_assignment_with_equal() {
    let stmt = parse_statement("bar is 7").unwrap();
    if let StmtKind::Assignment { target, value } = stmt.kind {
        assert!(matches!(target.kind, ExprKind::Identifier(ref s) if s == "bar"));
        assert!(matches!(value.kind, ExprKind::Literal(Literal::Integer(7))));
    } else {
        panic!("Expected assignment statement");
    }
}

#[test]
fn test_assignment_with_is_and_expression() {
    let stmt = parse_statement("result is 1 + 2 * 3").unwrap();
    if let StmtKind::Assignment { target, value } = stmt.kind {
        assert!(matches!(target.kind, ExprKind::Identifier(ref s) if s == "result"));
        if let ExprKind::Binary { op, .. } = value.kind {
            assert_eq!(op, BinaryOp::Add);
        } else {
            panic!("Expected binary expression");
        }
    } else {
        panic!("Expected assignment statement");
    }
}

#[test]
fn whole_program_and_analysis() {
    let mut parser = Parser::new(tokens("x is 1\ny is x + 2\nreturn y\n"), "test".to_string());
    let program = parser.parse().unwrap();
    assert_eq!(program.statements.len(), 3);
    assert!(matches!(program.statements[2].kind, StmtKind::Return(Some(_))));
    let (program, analysis) = parse_and_analyze("x is 1\ny is x + 2").unwrap();
    assert_eq!(program.statements.len(), 2);
    assert!(analysis.is_ok());
    let (_, analysis) = parse_and_analyze("y is z").unwrap();
    assert!(analysis.is_err());
}

#[test]
fn test_function_definition() {
    let code = "fn add(a: i32, b: i32) -> i32\n    return a + b";
    let stmt = parse_statement(code).unwrap();
    if let StmtKind::Function { name, params, return_type, body } = stmt.kind {
        assert_eq!(name, "add");
        assert_eq!(params.len(), 2);
        assert_eq!(params[0].name, "a");
        assert_eq!(params[1].name, "b");
        assert!(matches!(return_type, Some(Type::I32)));
        assert_eq!(body.len(), 1);
        assert!(matches!(body[0].kind, StmtKind::Return(Some(_))));
    } else {
        panic!("Expected function definition");
    }
}

#[test]
fn test_function_definition_with_default_value() {
    let stmt = parse_statement("fn test_func(a, b ? 10)\n    return a + b").unwrap();
    if let StmtKind::Function { params, .. } = stmt.kind {
        assert_eq!(params.len(), 2);
        assert!(matches!(params[0].type_, Type::Unknown));
        assert!(params[0].default_value.is_none());
        assert!(matches!(params[1].default_value, Some(Expr { kind: ExprKind::Literal(Literal::Integer(10)), .. })));
    } else {
        panic!("Expected function definition");
    }
}

#[test]
fn block_statements() {
    let stmt = parse_statement("if x\n    y is 1\nelse\n    y is 2").unwrap();
    match stmt.kind {
        StmtKind::If { then_branch, else_branch: Some(e), .. } => {
            assert_eq!(then_branch.len(), 1);
            assert_eq!(e.len(), 1);
        },
        _ => panic!("expected an if statement"),
    }
    assert!(matches!(parse_statement("while x\n    x is 0").unwrap().kind, StmtKind::While { .. }));
    assert!(matches!(parse_statement("until x\n    x is 0").unwrap().kind, StmtKind::Until { .. }));
    assert!(matches!(parse_statement("iterate xs\n    log(x)").unwrap().kind, StmtKind::Iterate { .. }));
    assert!(matches!(parse_statement("log(x) unless y").unwrap().kind, StmtKind::Unless { .. }));
    let tk = |token_type: TokenType, lexeme: &str| Token { token_type, lexeme: lexeme.to_string(), line: 1, column: 1 };
    let toks = vec![
        tk(TokenType::Import, "import"),
        tk(TokenType::String, "coral.net"),
        tk(TokenType::LeftBrace, "{"),
        tk(TokenType::Identifier, "get"),
        tk(TokenType::Comma, ","),
        tk(TokenType::Identifier, "put"),
        tk(TokenType::RightBrace, "}"),
        tk(TokenType::Eof, ""),
    ];
    let mut parser = Parser::new(toks, "test".to_string());
    match parser.parse_statement().unwrap().kind {
        StmtKind::Import { module, items: Some(items) } => {
            assert_eq!(module, "coral.net");
            assert_eq!(items, vec!["get".to_string(), "put".to_string()]);
        },
        _ => panic!("expected an import"),
    }
    match parse_statement("if x\ny") {
        Err(ParseError::UnexpectedToken { expected, .. }) => assert_eq!(expected, "indented block"),
        _ => panic!("expected a missing block"),
    }
}

#[test]
fn types_in_signatures() {
    let stmt = parse_statement("fn f(xs: (i64), m: (string: bool), g: fn(i8) -> unit, p: Point)\n    return xs").unwrap();
    if let StmtKind::Function { params, return_type, .. } = stmt.kind {
        assert!(return_type.is_none());
        assert!(matches!(params[0].type_, Type::List(ref t) if matches!(**t, Type::I64)));
        assert!(matches!(params[1].type_, Type::MapOf(_, _)));
        assert!(matches!(params[2].type_, Type::Function { ref params, .. } if params.len() == 1));
        assert!(matches!(params[3].type_, Type::Object { ref name, .. } if name == "Point"));
    } else {
        panic!("Expected function definition");
    }
}

#[test]
fn hash_comments_produce_no_tokens() {
    let mut l = Lexer::new("x # note".to_string(), "t.cor".to_string());
    let toks = l.tokenize().unwrap();
    assert_eq!(toks.len(), 2);
    assert_eq!(toks[0].token_type, TokenType::Identifier);
    assert_eq!(toks[0].lexeme, "x");
    assert_eq!((toks[0].line, toks[0].column), (1, 1));
    assert_eq!(toks[1].token_type, TokenType::Eof);
    assert_eq!(toks[1].lexeme, "");
    assert_eq!((toks[1].line, toks[1].column), (1, 1));
}

#[test]
fn if_expressions_and_lambdas() {
    match parse_expression("if x:\n    1\nelse:\n    2").unwrap().kind {
        ExprKind::If { else_branch: Some(_), .. } => {},
        _ => panic!("expected an if expression with an else branch"),
    }
    match parse_expression("fn(a) -> a + 1").unwrap().kind {
        ExprKind::Lambda { params, body } => {
            assert_eq!(params.len(), 1);
            assert_eq!(params[0].name, "a");
            assert!(matches!(body.kind, ExprKind::Binary { op: BinaryOp::Add, .. }));
        },
        _ => panic!("expected a lambda"),
    }
    match parse_expression("fn(a)\n    return a").unwrap().kind {
        ExprKind::Lambda { body, .. } => assert!(matches!(body.kind, ExprKind::Block(ref s) if s.len() == 1)),
        _ => panic!("expected a lambda with a block body"),
    }
}

#[test]
fn analysis_keeps_the_parsed_program() {
    let (program, analysis) = parse_and_analyze("fn f(a: i32) -> i32\n    return a\nx is f(1)").unwrap();
    assert!(analysis.is_ok());
    assert_eq!(program.statements.len(), 2);
    match &program.statements[0].kind {
        StmtKind::Function { name, body, .. } => {
            assert_eq!(name, "f");
            assert_eq!(body.len(), 1);
        },
        _ => panic!("expected the function"),
    }
    match &program.statements[1].kind {
        StmtKind::Assignment { value, .. } => {
            assert!(matches!(value.kind, ExprKind::Call { .. }));
            assert!(matches!(value.type_, Type::I32));
        },
        _ => panic!("expected the assignment"),
    }
}

#[test]
fn object_and_store_definitions() {
    let code = "object Point\n    x: i32\n    y ? 0\n    label\n    fn norm()\n        return x\n    scale(k: i32) -> i32:\n        return k";
    match parse_statement(code).unwrap().kind {
        StmtKind::Object { name, fields, methods } => {
            assert_eq!(name, "Point");
            assert_eq!(fields.len(), 3);
            assert_eq!(fields[0].name, "x");
            assert!(matches!(fields[0].type_, Type::I32));
            assert!(matches!(fields[1].default_value, Some(Expr { kind: ExprKind::Literal(Literal::Integer(0)), .. })));
            assert!(matches!(fields[2].type_, Type::Unknown));
            assert_eq!(methods.len(), 2);
            assert_eq!(methods[0].name, "norm");
            assert_eq!(methods[0].body.len(), 1);
            assert_eq!(methods[1].name, "scale");
            assert_eq!(methods[1].params.len(), 1);
            assert!(matches!(methods[1].return_type, Some(Type::I32)));
        },
        _ => panic!("expected an object"),
    }
    match parse_statement("store Cache\n    size: i32").unwrap().kind {
        StmtKind::Store { name, fields, methods } => {
            assert_eq!(name, "Cache");
            assert_eq!(fields.len(), 1);
            assert!(methods.is_empty());
        },
        _ => panic!("expected a store"),
    }
    match parse_statement("object Point x") {
        Err(ParseError::UnexpectedToken { expected, .. }) => assert_eq!(expected, "Expected newline after object name"),
        _ => panic!("expected a missing newline"),
    }
    match parse_statement("object Point\nx") {
        Err(ParseError::UnexpectedToken { expected, .. }) => assert_eq!(expected, "indented block"),
        _ => panic!("expected a missing body"),
    }
}

#[test]
fn actor_definitions() {
    let code = "actor Counter\n    count: i32 = 0\n    reset:\n        count is 0";
    match parse_statement(code).unwrap().kind {
        StmtKind::Actor { name, fields, handlers } => {
            assert_eq!(name, "Counter");
            assert_eq!(fields.len(), 1);
            assert_eq!(fields[0].name, "count");
            assert!(matches!(fields[0].type_, Type::I32));
            assert!(fields[0].default_value.is_some());
            assert!(handlers.is_empty());
        },
        _ => panic!("expected an actor"),
    }
    let tk = |token_type: TokenType, lexeme: &str| Token { token_type, lexeme: lexeme.to_string(), line: 1, column: 1 };
    let toks = vec![
        tk(TokenType::Actor, "actor"),
        tk(TokenType::Identifier, "Counter"),
        tk(TokenType::Newline, "\n"),
        tk(TokenType::Indent, ""),
        tk(TokenType::At, "@"),
        tk(TokenType::Identifier, "Tick"),
        tk(TokenType::Arrow, "->"),
        tk(TokenType::Colon, ":"),
        tk(TokenType::Newline, "\n"),
        tk(TokenType::Indent, ""),
        tk(TokenType::Break, "break"),
        tk(TokenType::Newline, "\n"),
        tk(TokenType::Dedent, ""),
        tk(TokenType::Dedent, ""),
        tk(TokenType::Eof, ""),
    ];
    let mut parser = Parser::new(toks, "test".to_string());
    match parser.parse_statement().unwrap().kind {
        StmtKind::Actor { fields, handlers, .. } => {
            assert!(fields.is_empty());
            assert_eq!(handlers.len(), 1);
            assert!(matches!(handlers[0].message_type, Type::Object { ref name, .. } if name == "Tick"));
            assert_eq!(handlers[0].body.len(), 1);
        },
        _ => panic!("expected an actor with a handler"),
    }
    let toks = vec![
        tk(TokenType::Actor, "actor"),
        tk(TokenType::Identifier, "Counter"),
        tk(TokenType::Newline, "\n"),
        tk(TokenType::Indent, ""),
        tk(TokenType::At, "@"),
        tk(TokenType::Identifier, "Tick"),
        tk(TokenType::Colon, ":"),
        tk(TokenType::Eof, ""),
    ];
    let mut parser = Parser::new(toks, "test".to_string());
    match parser.parse_statement() {
        Err(ParseError::UnexpectedToken { expected, .. }) => assert_eq!(expected, "Expected '=>' after message type"),
        _ => panic!("expected a missing arrow"),
    }
}
