use vstd::prelude::*;
use crate::ast::{
    Program, Stmt, StmtKind, Expr, ExprKind, Type, BinaryOp, UnaryOp, Literal, Parameter, Argument, SourceSpan, NodeId,
    IdCounter, SpanView, TypeView, Field, ObjectMethod, MessageHandler,
};
use crate::lexer::{Token, TokenType, TokenView, Lexer};
use crate::semantic::{SemanticAnalyzer, SemanticError, errors_view};
use crate::analysis::{AnalysisState, stmts_check, stmts_kept};
use crate::codegen::gen_spec::utf8_len;
use crate::codegen::llvm::utf8_length;

verus! {

/// A parse error.
#[derive(Debug)]
pub enum ParseError {
    UnexpectedToken { expected: String, found: Token },
    UnexpectedEof,
    InvalidSyntax { message: String, span: SourceSpan },
    DuplicateDefinition { name: String, span: SourceSpan },
}

/// The mathematical model of a parse error.
pub enum ParseErrorView {
    UnexpectedToken { expected: Seq<char>, found: TokenView },
    UnexpectedEof,
    InvalidSyntax { message: Seq<char>, span: SpanView },
    DuplicateDefinition { name: Seq<char>, span: SpanView },
}

impl View for ParseError {
    type V = ParseErrorView;

    open spec fn view(&self) -> ParseErrorView {
        match self {
            ParseError::UnexpectedToken { expected, found } => ParseErrorView::UnexpectedToken {
                expected: expected@,
                found: found@,
            },
            ParseError::UnexpectedEof => ParseErrorView::UnexpectedEof,
            ParseError::InvalidSyntax { message, span } => ParseErrorView::InvalidSyntax { message: message@, span: span@ },
            ParseError::DuplicateDefinition { name, span } => ParseErrorView::DuplicateDefinition {
                name: name@,
                span: span@,
            },
        }
    }
}

/// `i64::from_str_radix`: the value of `s` in base `radix`, or the text `ParseIntError`
/// displays.
pub uninterp spec fn int_radix_parse(s: Seq<char>, radix: u32) -> Result<i64, Seq<char>>;

/// `i64::from_str_radix(s, radix)`, its error rendered with `Display`; the result is named,
/// its value is not stated.
#[verifier::external_body]
fn from_str_radix(s: &str, radix: u32) -> (r: Result<i64, String>)
    requires
        2 <= radix <= 36,
    ensures
        match r {
            Ok(v) => int_radix_parse(s@, radix) == Ok::<i64, Seq<char>>(v),
            Err(m) => int_radix_parse(s@, radix) == Err::<i64, Seq<char>>(m@),
        },
{
    match i64::from_str_radix(s, radix) {
        Ok(v) => Ok(v),
        Err(e) => Err(format!("{}", e)),
    }
}

/// The mathematical model of a literal.
pub enum PLit {
    Integer(i64),
    Float(u64),
    String(Seq<char>),
    Bool(bool),
    Unit,
    No,
    Yes,
    Empty,
    Null,
    Now,
    Error,
}

pub open spec fn lit_view(l: Literal) -> PLit {
    match l {
        Literal::Integer(v) => PLit::Integer(v),
        Literal::Float(b) => PLit::Float(b),
        Literal::String(s) => PLit::String(s@),
        Literal::Bool(b) => PLit::Bool(b),
        Literal::Unit => PLit::Unit,
        Literal::No => PLit::No,
        Literal::Yes => PLit::Yes,
        Literal::Empty => PLit::Empty,
        Literal::Null => PLit::Null,
        Literal::Now => PLit::Now,
        Literal::Error => PLit::Error,
    }
}

/// The mathematical model of the expressions the parser builds; every other kind is `Other`.
#[allow(inconsistent_fields)]
pub enum PKind {
    Literal(PLit),
    Identifier(Seq<char>),
    Binary { op: BinaryOp, left: Box<PExpr>, right: Box<PExpr> },
    Unary { op: UnaryOp, operand: Box<PExpr> },
    Call { callee: Box<PExpr>, args: Seq<PArg> },
    Index { object: Box<PExpr>, index: Box<PExpr> },
    FieldAccess { object: Box<PExpr>, field: Seq<char> },
    ListLiteral(Seq<PExpr>),
    MapLiteral(Seq<(PExpr, PExpr)>),
    ListAppend { list: Box<PExpr>, element: Box<PExpr> },
    If { condition: Box<PExpr>, then_branch: Box<PExpr>, else_branch: Option<Box<PExpr>> },
    Block(Seq<PStmt>),
    Lambda { params: Seq<PParam>, body: Box<PExpr> },
    Other,
}

/// An expression node: identity, span, type and kind.
pub struct PExpr {
    pub id: u32,
    pub span: SpanView,
    pub type_: TypeView,
    pub kind: PKind,
}

/// A call argument: its name if named, its value and span.
pub struct PArg {
    pub name: Option<Seq<char>>,
    pub value: PExpr,
    pub span: SpanView,
}

pub open spec fn opt_str(o: Option<String>) -> Option<Seq<char>> {
    match o {
        Some(s) => Some(s@),
        None => None,
    }
}

pub open spec fn expr_view(e: Expr) -> PExpr
    decreases e,
{
    PExpr {
        id: e.id.0,
        span: e.span@,
        type_: e.type_@,
        kind: match e.kind {
            ExprKind::Literal(l) => PKind::Literal(lit_view(l)),
            ExprKind::Identifier(n) => PKind::Identifier(n@),
            ExprKind::Binary { op, left, right } => PKind::Binary {
                op,
                left: Box::new(expr_view(*left)),
                right: Box::new(expr_view(*right)),
            },
            ExprKind::Unary { op, operand } => PKind::Unary { op, operand: Box::new(expr_view(*operand)) },
            ExprKind::Call { callee, args } => PKind::Call { callee: Box::new(expr_view(*callee)), args: args_view(args@) },
            ExprKind::Index { object, index } => PKind::Index {
                object: Box::new(expr_view(*object)),
                index: Box::new(expr_view(*index)),
            },
            ExprKind::FieldAccess { object, field } => PKind::FieldAccess { object: Box::new(expr_view(*object)), field: field@ },
            ExprKind::ListLiteral(v) => PKind::ListLiteral(exprs_view(v@)),
            ExprKind::MapLiteral(v) => PKind::MapLiteral(pairs_view(v@)),
            ExprKind::ListAppend { list, element } => PKind::ListAppend {
                list: Box::new(expr_view(*list)),
                element: Box::new(expr_view(*element)),
            },
            ExprKind::If { condition, then_branch, else_branch } => PKind::If {
                condition: Box::new(expr_view(*condition)),
                then_branch: Box::new(expr_view(*then_branch)),
                else_branch: match else_branch {
                    Some(b) => Some(Box::new(expr_view(*b))),
                    None => None,
                },
            },
            ExprKind::Block(stmts) => PKind::Block(stmts_view(stmts@)),
            ExprKind::Lambda { params, body } => PKind::Lambda { params: params_view(params@), body: Box::new(expr_view(*body)) },
            _ => PKind::Other,
        },
    }
}

pub open spec fn exprs_view(es: Seq<Expr>) -> Seq<PExpr>
    decreases es,
{
    if es.len() == 0 {
        Seq::empty()
    } else {
        exprs_view(es.drop_last()).push(expr_view(es.last()))
    }
}

pub open spec fn args_view(args: Seq<Argument>) -> Seq<PArg>
    decreases args,
{
    if args.len() == 0 {
        Seq::empty()
    } else {
        let a = args.last();
        args_view(args.drop_last()).push(PArg { name: opt_str(a.name), value: expr_view(a.value), span: a.span@ })
    }
}

pub open spec fn pairs_view(ps: Seq<(Expr, Expr)>) -> Seq<(PExpr, PExpr)>
    decreases ps,
{
    if ps.len() == 0 {
        Seq::empty()
    } else {
        pairs_view(ps.drop_last()).push((expr_view(ps.last().0), expr_view(ps.last().1)))
    }
}

// ---------------------------------------------------------------------------
// The grammar as functions on the token sequence

/// Where parsing stands: the current token and the next node identity.
pub struct PState {
    pub pos: int,
    pub next: u32,
}

/// The outcome of parsing one thing, and the state afterwards.
pub type PR<T> = (Result<T, ParseErrorView>, PState);

/// Tokens a parser can work on: at least one, the last the end of input.
pub open spec fn wf_tokens(toks: Seq<TokenView>) -> bool {
    toks.len() > 0 && toks.last().token_type == TokenType::Eof
}

/// How many tokens are left: the measure that every step of the parser shrinks.
pub open spec fn left(toks: Seq<TokenView>, s: PState) -> nat {
    if 0 <= s.pos <= toks.len() {
        (toks.len() - s.pos) as nat
    } else {
        0
    }
}

pub open spec fn at_end(toks: Seq<TokenView>, s: PState) -> bool {
    !(0 <= s.pos < toks.len()) || toks[s.pos].token_type == TokenType::Eof
}

pub open spec fn check(toks: Seq<TokenView>, s: PState, t: TokenType) -> bool {
    !at_end(toks, s) && toks[s.pos].token_type == t
}

/// Moves past the current token unless at the end.
pub open spec fn advance(toks: Seq<TokenView>, s: PState) -> PState {
    if at_end(toks, s) {
        s
    } else {
        PState { pos: s.pos + 1, ..s }
    }
}

/// Whether a step from `s0` ended at `s1` without moving back or past the tokens; every step
/// does, so the other branch of each test below is never taken.
pub open spec fn moved(toks: Seq<TokenView>, s0: PState, s1: PState) -> bool {
    0 <= s0.pos <= s1.pos < toks.len()
}

pub open spec fn bump(n: u32) -> u32 {
    if n == u32::MAX {
        0
    } else {
        (n + 1) as u32
    }
}

/// A new expression node, with the next identity.
pub open spec fn mk_expr(s: PState, span: SpanView, kind: PKind) -> (PExpr, PState) {
    (PExpr { id: s.next, span, type_: TypeView::Unknown, kind }, PState { next: bump(s.next), ..s })
}

/// The span of a token: its line, from its column over the bytes of its text.
pub open spec fn token_span(file: Seq<char>, t: TokenView) -> SpanView {
    SpanView {
        file,
        start_line: t.line as u32,
        start_col: t.column as u32,
        end_line: t.line as u32,
        end_col: (t.column + utf8_len(t.lexeme)) as u32,
    }
}

/// From the start of `a` to the end of `b`.
pub open spec fn between(file: Seq<char>, a: SpanView, b: SpanView) -> SpanView {
    SpanView { file, start_line: a.start_line, start_col: a.start_col, end_line: b.end_line, end_col: b.end_col }
}

/// The span of the token just consumed (of the current one at the start).
pub open spec fn prev_span(file: Seq<char>, toks: Seq<TokenView>, s: PState) -> SpanView {
    if s.pos > 0 {
        token_span(file, toks[s.pos - 1])
    } else {
        token_span(file, toks[s.pos])
    }
}

/// The error for a missing token: what was expected, and the token found instead.
pub open spec fn expected(toks: Seq<TokenView>, s: PState, msg: Seq<char>) -> ParseErrorView {
    ParseErrorView::UnexpectedToken { expected: msg, found: toks[s.pos] }
}

/// Consumes a token of kind `t`, or fails with `msg`.
pub open spec fn consume(toks: Seq<TokenView>, s: PState, t: TokenType, msg: Seq<char>) -> PR<TokenView> {
    if check(toks, s, t) {
        (Ok(toks[s.pos]), advance(toks, s))
    } else {
        (Err(expected(toks, s, msg)), s)
    }
}

/// The operator a token stands for at precedence level `level` (0 `or` … 9 `*`), if any.
pub open spec fn level_op(level: nat, t: TokenType) -> Option<BinaryOp> {
    if level == 0 {
        if t == TokenType::Or || t == TokenType::LogicalOr { Some(BinaryOp::Or) } else { None }
    } else if level == 1 {
        if t == TokenType::And || t == TokenType::LogicalAnd { Some(BinaryOp::And) } else { None }
    } else if level == 2 {
        if t == TokenType::Equals || t == TokenType::EqualEqual {
            Some(BinaryOp::Eq)
        } else if t == TokenType::BangEqual {
            Some(BinaryOp::Ne)
        } else {
            None
        }
    } else if level == 3 {
        if t == TokenType::Gt {
            Some(BinaryOp::Gt)
        } else if t == TokenType::Gte {
            Some(BinaryOp::Ge)
        } else if t == TokenType::Lt {
            Some(BinaryOp::Lt)
        } else if t == TokenType::Lte {
            Some(BinaryOp::Le)
        } else {
            None
        }
    } else if level == 4 {
        if t == TokenType::Pipe { Some(BinaryOp::BitOr) } else { None }
    } else if level == 5 {
        if t == TokenType::Caret { Some(BinaryOp::BitXor) } else { None }
    } else if level == 6 {
        if t == TokenType::Ampersand { Some(BinaryOp::BitAnd) } else { None }
    } else if level == 7 {
        if t == TokenType::LeftShift {
            Some(BinaryOp::Shl)
        } else if t == TokenType::RightShift {
            Some(BinaryOp::Shr)
        } else {
            None
        }
    } else if level == 8 {
        if t == TokenType::Plus {
            Some(BinaryOp::Add)
        } else if t == TokenType::Minus {
            Some(BinaryOp::Sub)
        } else {
            None
        }
    } else {
        if t == TokenType::Star {
            Some(BinaryOp::Mul)
        } else if t == TokenType::Slash {
            Some(BinaryOp::Div)
        } else if t == TokenType::Percent {
            Some(BinaryOp::Mod)
        } else {
            None
        }
    }
}

/// The operator at the current token for `level`, when there is a current token.
pub open spec fn op_at(toks: Seq<TokenView>, s: PState, level: nat) -> Option<BinaryOp> {
    if at_end(toks, s) {
        None
    } else {
        level_op(level, toks[s.pos].token_type)
    }
}

pub open spec fn unary_op_of(t: TokenType) -> Option<UnaryOp> {
    if t == TokenType::Bang {
        Some(UnaryOp::Not)
    } else if t == TokenType::Minus {
        Some(UnaryOp::Neg)
    } else if t == TokenType::Tilde {
        Some(UnaryOp::BitNot)
    } else {
        None
    }
}

/// An expression: a conditional `c ? a ! b`, nesting to the right, or a binary expression.
pub open spec fn p_expression(toks: Seq<TokenView>, file: Seq<char>, s: PState) -> PR<PExpr>
    decreases left(toks, s), 90nat,
{
    let r = p_binary(toks, file, s, 0);
    match r.0 {
        Err(e) => (Err(e), r.1),
        Ok(cond) => if !moved(toks, s, r.1) {
            (Err(ParseErrorView::UnexpectedEof), r.1)
        } else if check(toks, r.1, TokenType::Question) {
            let a = p_expression(toks, file, advance(toks, r.1));
            match a.0 {
                Err(e) => (Err(e), a.1),
                Ok(then_e) => if !moved(toks, r.1, a.1) {
                    (Err(ParseErrorView::UnexpectedEof), a.1)
                } else {
                    let c = consume(toks, a.1, TokenType::Bang, "Expected '!' after ternary then branch"@);
                    match c.0 {
                        Err(e) => (Err(e), c.1),
                        Ok(_) => {
                            let b = p_expression(toks, file, c.1);
                            match b.0 {
                                Err(e) => (Err(e), b.1),
                                Ok(else_e) => {
                                    let span = between(file, cond.span, else_e.span);
                                    let (e, s2) = mk_expr(
                                        b.1,
                                        span,
                                        PKind::If {
                                            condition: Box::new(cond),
                                            then_branch: Box::new(then_e),
                                            else_branch: Some(Box::new(else_e)),
                                        },
                                    );
                                    (Ok(e), s2)
                                },
                            }
                        },
                    }
                },
            }
        } else {
            (Ok(cond), r.1)
        },
    }
}

/// A left-associative chain of operands of the next level joined by operators of `level`;
/// past the last level come unary expressions.
pub open spec fn p_binary(toks: Seq<TokenView>, file: Seq<char>, s: PState, level: nat) -> PR<PExpr>
    decreases left(toks, s), 41 - 2 * (if level <= 10 { level } else { 10 }),
{
    if level >= 10 {
        p_unary(toks, file, s)
    } else {
        let r = p_binary(toks, file, s, level + 1);
        match r.0 {
            Err(e) => (Err(e), r.1),
            Ok(first) => if !moved(toks, s, r.1) {
                (Err(ParseErrorView::UnexpectedEof), r.1)
            } else {
                p_binary_rest(toks, file, r.1, level, first)
            },
        }
    }
}

/// The rest of a chain at `level`, after `acc`.
pub open spec fn p_binary_rest(toks: Seq<TokenView>, file: Seq<char>, s: PState, level: nat, acc: PExpr) -> PR<PExpr>
    decreases left(toks, s), 40 - 2 * (if level <= 10 { level } else { 10 }),
{
    if level >= 10 {
        (Ok(acc), s)
    } else {
        match op_at(toks, s, level) {
            None => (Ok(acc), s),
            Some(op) => {
                let s1 = advance(toks, s);
                let r = p_binary(toks, file, s1, level + 1);
                match r.0 {
                    Err(e) => (Err(e), r.1),
                    Ok(right) => if !moved(toks, s1, r.1) {
                        (Err(ParseErrorView::UnexpectedEof), r.1)
                    } else {
                        let span = between(file, acc.span, right.span);
                        let (e, s2) = mk_expr(r.1, span, PKind::Binary { op, left: Box::new(acc), right: Box::new(right) });
                        p_binary_rest(toks, file, s2, level, e)
                    },
                }
            },
        }
    }
}

/// A unary operator applied to a unary expression, or a postfix expression.
pub open spec fn p_unary(toks: Seq<TokenView>, file: Seq<char>, s: PState) -> PR<PExpr>
    decreases left(toks, s), 20nat,
{
    let op = if at_end(toks, s) { None } else { unary_op_of(toks[s.pos].token_type) };
    match op {
        Some(u) => {
            let r = p_unary(toks, file, advance(toks, s));
            match r.0 {
                Err(e) => (Err(e), r.1),
                Ok(operand) => {
                    let (e, s2) = mk_expr(r.1, prev_span(file, toks, r.1), PKind::Unary { op: u, operand: Box::new(operand) });
                    (Ok(e), s2)
                },
            }
        },
        None => p_postfix(toks, file, s),
    }
}

/// A primary expression followed by calls, indexing and field accesses.
pub open spec fn p_postfix(toks: Seq<TokenView>, file: Seq<char>, s: PState) -> PR<PExpr>
    decreases left(toks, s), 19nat,
{
    let r = p_primary(toks, file, s);
    match r.0 {
        Err(e) => (Err(e), r.1),
        Ok(e) => if !moved(toks, s, r.1) {
            (Err(ParseErrorView::UnexpectedEof), r.1)
        } else {
            p_postfix_rest(toks, file, r.1, e)
        },
    }
}

/// The postfix operations after `acc`.
pub open spec fn p_postfix_rest(toks: Seq<TokenView>, file: Seq<char>, s: PState, acc: PExpr) -> PR<PExpr>
    decreases left(toks, s), 18nat,
{
    if check(toks, s, TokenType::LeftParen) {
        let s1 = advance(toks, s);
        let a = p_arguments(toks, file, s1);
        match a.0 {
            Err(e) => (Err(e), a.1),
            Ok(args) => if !moved(toks, s1, a.1) {
                (Err(ParseErrorView::UnexpectedEof), a.1)
            } else {
                let c = consume(toks, a.1, TokenType::RightParen, "Expected ')' after arguments"@);
                match c.0 {
                    Err(e) => (Err(e), c.1),
                    Ok(_) => {
                        let (e, s2) = mk_expr(c.1, prev_span(file, toks, c.1), PKind::Call { callee: Box::new(acc), args: args });
                        p_postfix_rest(toks, file, s2, e)
                    },
                }
            },
        }
    } else if check(toks, s, TokenType::LeftBracket) {
        let s1 = advance(toks, s);
        let r = p_expression(toks, file, s1);
        match r.0 {
            Err(e) => (Err(e), r.1),
            Ok(index) => if !moved(toks, s1, r.1) {
                (Err(ParseErrorView::UnexpectedEof), r.1)
            } else {
                let c = consume(toks, r.1, TokenType::RightBracket, "Expected ']' after index"@);
                match c.0 {
                    Err(e) => (Err(e), c.1),
                    Ok(_) => {
                        let span = between(file, acc.span, index.span);
                        let (e, s2) = mk_expr(c.1, span, PKind::Index { object: Box::new(acc), index: Box::new(index) });
                        p_postfix_rest(toks, file, s2, e)
                    },
                }
            },
        }
    } else if check(toks, s, TokenType::Dot) {
        let s1 = advance(toks, s);
        let f = consume(toks, s1, TokenType::Identifier, "Expected field name or 'put' for list append"@);
        match f.0 {
            Err(e) => (Err(e), f.1),
            Ok(ft) => if ft.lexeme == "put"@ {
                let r = p_expression(toks, file, f.1);
                match r.0 {
                    Err(e) => (Err(e), r.1),
                    Ok(element) => if !moved(toks, f.1, r.1) {
                        (Err(ParseErrorView::UnexpectedEof), r.1)
                    } else {
                        let span = between(file, acc.span, element.span);
                        let (e, s2) = mk_expr(r.1, span, PKind::ListAppend { list: Box::new(acc), element: Box::new(element) });
                        p_postfix_rest(toks, file, s2, e)
                    },
                }
            } else {
                let (e, s2) = mk_expr(f.1, token_span(file, ft), PKind::FieldAccess { object: Box::new(acc), field: ft.lexeme });
                p_postfix_rest(toks, file, s2, e)
            },
        }
    } else {
        (Ok(acc), s)
    }
}

/// The arguments of a call, up to (not including) the closing parenthesis; an argument may be
/// named `name: value`.
pub open spec fn p_arguments(toks: Seq<TokenView>, file: Seq<char>, s: PState) -> PR<Seq<PArg>>
    decreases left(toks, s), 100nat,
{
    if check(toks, s, TokenType::RightParen) {
        (Ok(Seq::empty()), s)
    } else {
        p_arguments_from(toks, file, s, Seq::empty())
    }
}

/// Arguments from `s` on, after those in `acc`.
pub open spec fn p_arguments_from(toks: Seq<TokenView>, file: Seq<char>, s: PState, acc: Seq<PArg>) -> PR<Seq<PArg>>
    decreases left(toks, s), 99nat,
{
    let named = check(toks, s, TokenType::Identifier) && 0 <= s.pos + 1 < toks.len() && toks[s.pos + 1].token_type
        == TokenType::Colon;
    let s1 = if named { advance(toks, advance(toks, s)) } else { s };
    let name: Option<Seq<char>> = if named { Some(toks[s.pos].lexeme) } else { None };
    let r = p_expression(toks, file, s1);
    match r.0 {
        Err(e) => (Err(e), r.1),
        Ok(value) => if !moved(toks, s1, r.1) {
            (Err(ParseErrorView::UnexpectedEof), r.1)
        } else {
            let args = acc.push(PArg { name, value, span: value.span });
            if check(toks, r.1, TokenType::Comma) {
                p_arguments_from(toks, file, advance(toks, r.1), args)
            } else {
                (Ok(args), r.1)
            }
        },
    }
}

/// Expressions separated by commas, after those in `acc`.
pub open spec fn p_expression_list(toks: Seq<TokenView>, file: Seq<char>, s: PState, acc: Seq<PExpr>) -> PR<Seq<PExpr>>
    decreases left(toks, s), 99nat,
{
    let r = p_expression(toks, file, s);
    match r.0 {
        Err(e) => (Err(e), r.1),
        Ok(x) => if !moved(toks, s, r.1) {
            (Err(ParseErrorView::UnexpectedEof), r.1)
        } else if check(toks, r.1, TokenType::Comma) {
            p_expression_list(toks, file, advance(toks, r.1), acc.push(x))
        } else {
            (Ok(acc.push(x)), r.1)
        },
    }
}

/// Map entries `key: value` separated by commas, after those in `acc`; `close` ends the map.
pub open spec fn p_map_entries(toks: Seq<TokenView>, file: Seq<char>, s: PState, acc: Seq<(PExpr, PExpr)>) -> PR<Seq<(PExpr, PExpr)>>
    decreases left(toks, s), 99nat,
{
    let k = p_expression(toks, file, s);
    match k.0 {
        Err(e) => (Err(e), k.1),
        Ok(key) => if !moved(toks, s, k.1) {
            (Err(ParseErrorView::UnexpectedEof), k.1)
        } else {
            let c = consume(toks, k.1, TokenType::Colon, "Expected ':' after map key"@);
            match c.0 {
                Err(e) => (Err(e), c.1),
                Ok(_) => {
                    let v = p_expression(toks, file, c.1);
                    match v.0 {
                        Err(e) => (Err(e), v.1),
                        Ok(value) => if !moved(toks, c.1, v.1) {
                            (Err(ParseErrorView::UnexpectedEof), v.1)
                        } else if check(toks, v.1, TokenType::Comma) {
                            p_map_entries(toks, file, advance(toks, v.1), acc.push((key, value)))
                        } else {
                            (Ok(acc.push((key, value))), v.1)
                        },
                    }
                },
            }
        },
    }
}

/// The value of an integer literal: hexadecimal after `0x`, binary after `b`, else decimal.
pub open spec fn integer_value(lex: Seq<char>) -> Result<i64, Seq<char>> {
    if lex.len() >= 2 && lex[0] == '0' && (lex[1] == 'x' || lex[1] == 'X') {
        int_radix_parse(lex.skip(2), 16)
    } else if lex.len() >= 1 && lex[0] == 'b' {
        int_radix_parse(lex.skip(1), 2)
    } else {
        int_radix_parse(lex, 10)
    }
}

/// A literal expression made of the current token.
pub open spec fn literal_at(toks: Seq<TokenView>, file: Seq<char>, s: PState, lit: PLit) -> PR<PExpr> {
    let (e, s2) = mk_expr(advance(toks, s), token_span(file, toks[s.pos]), PKind::Literal(lit));
    (Ok(e), s2)
}

/// A construct the parser does not handle yet, reported at the current token.
pub open spec fn unsupported(toks: Seq<TokenView>, file: Seq<char>, s: PState, what: Seq<char>) -> PR<PExpr> {
    (Err(ParseErrorView::InvalidSyntax { message: what + " is not supported"@, span: token_span(file, toks[s.pos]) }), s)
}

/// After an opening parenthesis: `()` is the empty list, `(k: v, ...)` a map, `(a, ...)` a
/// list, and `(e)` the expression `e`.
pub open spec fn p_paren(toks: Seq<TokenView>, file: Seq<char>, s1: PState, span: SpanView) -> PR<PExpr>
    decreases left(toks, s1), 95nat,
{
    if check(toks, s1, TokenType::RightParen) {
        let (e, s2) = mk_expr(advance(toks, s1), span, PKind::ListLiteral(Seq::empty()));
        (Ok(e), s2)
    } else {
        let f = p_expression(toks, file, s1);
        match f.0 {
            Err(e) => (Err(e), f.1),
            Ok(first) => if !moved(toks, s1, f.1) {
                (Err(ParseErrorView::UnexpectedEof), f.1)
            } else if check(toks, f.1, TokenType::Colon) {
                let v = p_expression(toks, file, advance(toks, f.1));
                match v.0 {
                    Err(e) => (Err(e), v.1),
                    Ok(value) => if !moved(toks, f.1, v.1) {
                        (Err(ParseErrorView::UnexpectedEof), v.1)
                    } else {
                        let rest: PR<Seq<(PExpr, PExpr)>> = if check(toks, v.1, TokenType::Comma) {
                            p_map_entries(toks, file, advance(toks, v.1), seq![(first, value)])
                        } else {
                            (Ok(seq![(first, value)]), v.1)
                        };
                        match rest.0 {
                            Err(e) => (Err(e), rest.1),
                            Ok(pairs) => {
                                let c = consume(toks, rest.1, TokenType::RightParen, "Expected ')' after map pairs"@);
                                match c.0 {
                                    Err(e) => (Err(e), c.1),
                                    Ok(_) => {
                                        let (e, s2) = mk_expr(c.1, span, PKind::MapLiteral(pairs));
                                        (Ok(e), s2)
                                    },
                                }
                            },
                        }
                    },
                }
            } else if check(toks, f.1, TokenType::Comma) {
                let s2 = advance(toks, f.1);
                let rest: PR<Seq<PExpr>> = if check(toks, s2, TokenType::RightParen) {
                    (Ok(seq![first]), s2)
                } else {
                    p_expression_list(toks, file, s2, seq![first])
                };
                match rest.0 {
                    Err(e) => (Err(e), rest.1),
                    Ok(elements) => {
                        let c = consume(toks, rest.1, TokenType::RightParen, "Expected ')' after list elements"@);
                        match c.0 {
                            Err(e) => (Err(e), c.1),
                            Ok(_) => {
                                let (e, s3) = mk_expr(c.1, span, PKind::ListLiteral(elements));
                                (Ok(e), s3)
                            },
                        }
                    },
                }
            } else {
                let c = consume(toks, f.1, TokenType::RightParen, "Expected ')' after expression"@);
                match c.0 {
                    Err(e) => (Err(e), c.1),
                    Ok(_) => (Ok(first), c.1),
                }
            },
        }
    }
}

/// `if condition:` with a block, then optionally `else:` with a block or another `if`
/// expression; the branches are block expressions spanning the `if`.
pub open spec fn p_if_expression(toks: Seq<TokenView>, file: Seq<char>, s: PState) -> PR<PExpr>
    decreases left(toks, s), 16nat,
{
    let start = toks[s.pos];
    let s1 = advance(toks, s);
    if !moved(toks, s, s1) || s1.pos == s.pos {
        (Err(ParseErrorView::UnexpectedEof), s1)
    } else {
        let c = p_expression(toks, file, s1);
        match c.0 {
            Err(e) => (Err(e), c.1),
            Ok(cond) => {
                let k = consume(toks, c.1, TokenType::Colon, "Expected ':' after if condition"@);
                match k.0 {
                    Err(e) => (Err(e), k.1),
                    Ok(_) => {
                        let s2 = skip_newlines(toks, k.1);
                        if !moved(toks, s1, s2) {
                            (Err(ParseErrorView::UnexpectedEof), s2)
                        } else {
                            let th = p_block(toks, file, s2);
                            match th.0 {
                                Err(e) => (Err(e), th.1),
                                Ok(then_stmts) => {
                                    let el: PR<Option<PExpr>> = if check(toks, th.1, TokenType::Else) {
                                        let k2 = consume(toks, advance(toks, th.1), TokenType::Colon, "Expected ':' after else"@);
                                        match k2.0 {
                                            Err(e) => (Err(e), k2.1),
                                            Ok(_) => {
                                                let s3 = skip_newlines(toks, k2.1);
                                                if !moved(toks, s1, s3) {
                                                    (Err(ParseErrorView::UnexpectedEof), s3)
                                                } else if check(toks, s3, TokenType::If) {
                                                    let n = p_if_expression(toks, file, s3);
                                                    match n.0 {
                                                        Err(e) => (Err(e), n.1),
                                                        Ok(nested) => (Ok(Some(nested)), n.1),
                                                    }
                                                } else {
                                                    let b = p_block(toks, file, s3);
                                                    match b.0 {
                                                        Err(e) => (Err(e), b.1),
                                                        Ok(else_stmts) => {
                                                            let (be, s4) = mk_expr(b.1, prev_span(file, toks, b.1), PKind::Block(else_stmts));
                                                            (Ok(Some(be)), s4)
                                                        },
                                                    }
                                                }
                                            },
                                        }
                                    } else {
                                        (Ok(None), th.1)
                                    };
                                    match el.0 {
                                        Err(e) => (Err(e), el.1),
                                        Ok(else_branch) => {
                                            let span = token_span(file, start);
                                            let (tb, s5) = mk_expr(el.1, span, PKind::Block(then_stmts));
                                            let (e, s6) = mk_expr(
                                                s5,
                                                span,
                                                PKind::If {
                                                    condition: Box::new(cond),
                                                    then_branch: Box::new(tb),
                                                    else_branch: match else_branch {
                                                        Some(x) => Some(Box::new(x)),
                                                        None => None,
                                                    },
                                                },
                                            );
                                            (Ok(e), s6)
                                        },
                                    }
                                },
                            }
                        }
                    },
                }
            },
        }
    }
}

/// `fn(params) -> expression`, or `fn(params)` followed by a block.
pub open spec fn p_lambda(toks: Seq<TokenView>, file: Seq<char>, s: PState) -> PR<PExpr>
    decreases left(toks, s), 16nat,
{
    let start = toks[s.pos];
    let o = consume(toks, advance(toks, s), TokenType::LeftParen, "Expected '(' after 'fn'"@);
    match o.0 {
        Err(e) => (Err(e), o.1),
        Ok(_) => if !moved(toks, s, o.1) || o.1.pos == s.pos {
            (Err(ParseErrorView::UnexpectedEof), o.1)
        } else {
            let ps: PR<Seq<PParam>> = if check(toks, o.1, TokenType::RightParen) {
                (Ok(Seq::empty()), o.1)
            } else {
                p_params_from(toks, file, o.1, Seq::empty())
            };
            match ps.0 {
                Err(e) => (Err(e), ps.1),
                Ok(params) => {
                    let c = consume(toks, ps.1, TokenType::RightParen, "Expected ')' after parameters"@);
                    match c.0 {
                        Err(e) => (Err(e), c.1),
                        Ok(_) => if !moved(toks, s, c.1) {
                            (Err(ParseErrorView::UnexpectedEof), c.1)
                        } else if check(toks, c.1, TokenType::Arrow) {
                            let b = p_expression(toks, file, advance(toks, c.1));
                            match b.0 {
                                Err(e) => (Err(e), b.1),
                                Ok(body) => {
                                    let (e, s2) = mk_expr(b.1, token_span(file, start), PKind::Lambda { params, body: Box::new(body) });
                                    (Ok(e), s2)
                                },
                            }
                        } else {
                            let s3 = skip_newlines(toks, c.1);
                            if !moved(toks, o.1, s3) {
                                (Err(ParseErrorView::UnexpectedEof), s3)
                            } else {
                                let b = p_block(toks, file, s3);
                                match b.0 {
                                    Err(e) => (Err(e), b.1),
                                    Ok(stmts) => {
                                        let span = token_span(file, start);
                                        let (be, s4) = mk_expr(b.1, span, PKind::Block(stmts));
                                        let (e, s5) = mk_expr(s4, span, PKind::Lambda { params, body: Box::new(be) });
                                        (Ok(e), s5)
                                    },
                                }
                            }
                        },
                    }
                },
            }
        },
    }
}

/// A primary expression: a literal, a name, `$`, a parenthesised expression, a list or a map.
pub open spec fn p_primary(toks: Seq<TokenView>, file: Seq<char>, s: PState) -> PR<PExpr>
    decreases left(toks, s), 17nat,
{
    let t = toks[s.pos];
    let span = token_span(file, t);
    let k = t.token_type;
    if at_end(toks, s) {
        (Err(expected(toks, s, "expression"@)), s)
    } else if k == TokenType::Integer {
        match integer_value(t.lexeme) {
            Ok(v) => literal_at(toks, file, s, PLit::Integer(v)),
            Err(m) => (
                Err(ParseErrorView::InvalidSyntax { message: "Invalid integer literal '"@ + t.lexeme + "': "@ + m, span }),
                advance(toks, s),
            ),
        }
    } else if k == TokenType::Float {
        unsupported(toks, file, s, "A float literal"@)
    } else if k == TokenType::String {
        literal_at(toks, file, s, PLit::String(t.lexeme))
    } else if k == TokenType::InterpolatedString {
        unsupported(toks, file, s, "An interpolated string"@)
    } else if k == TokenType::True || k == TokenType::Yes {
        literal_at(toks, file, s, PLit::Bool(true))
    } else if k == TokenType::False {
        literal_at(toks, file, s, PLit::Bool(false))
    } else if k == TokenType::No {
        literal_at(toks, file, s, PLit::No)
    } else if k == TokenType::Empty {
        literal_at(toks, file, s, PLit::Empty)
    } else if k == TokenType::Now {
        literal_at(toks, file, s, PLit::Now)
    } else if k == TokenType::Identifier {
        let (e, s2) = mk_expr(advance(toks, s), span, PKind::Identifier(t.lexeme));
        (Ok(e), s2)
    } else if k == TokenType::LeftParen {
        p_paren(toks, file, advance(toks, s), span)
    } else if k == TokenType::LeftBracket {
        let s1 = advance(toks, s);
        let rest: PR<Seq<PExpr>> = if check(toks, s1, TokenType::RightBracket) {
            (Ok(Seq::empty()), s1)
        } else {
            p_expression_list(toks, file, s1, Seq::empty())
        };
        match rest.0 {
            Err(e) => (Err(e), rest.1),
            Ok(elements) => {
                let c = consume(toks, rest.1, TokenType::RightBracket, "Expected ']' after list elements"@);
                match c.0 {
                    Err(e) => (Err(e), c.1),
                    Ok(_) => {
                        let (e, s2) = mk_expr(c.1, span, PKind::ListLiteral(elements));
                        (Ok(e), s2)
                    },
                }
            },
        }
    } else if k == TokenType::LeftBrace {
        let s1 = advance(toks, s);
        let rest: PR<Seq<(PExpr, PExpr)>> = if check(toks, s1, TokenType::RightBrace) {
            (Ok(Seq::empty()), s1)
        } else {
            p_map_entries(toks, file, s1, Seq::empty())
        };
        match rest.0 {
            Err(e) => (Err(e), rest.1),
            Ok(pairs) => {
                let c = consume(toks, rest.1, TokenType::RightBrace, "Expected '}' after map pairs"@);
                match c.0 {
                    Err(e) => (Err(e), c.1),
                    Ok(_) => {
                        let (e, s2) = mk_expr(c.1, span, PKind::MapLiteral(pairs));
                        (Ok(e), s2)
                    },
                }
            },
        }
    } else if k == TokenType::Dollar {
        let (e, s2) = mk_expr(advance(toks, s), span, PKind::Identifier("$"@));
        (Ok(e), s2)
    } else if k == TokenType::If {
        p_if_expression(toks, file, s)
    } else if k == TokenType::Fn {
        p_lambda(toks, file, s)
    } else {
        (Err(expected(toks, s, "expression"@)), s)
    }
}


proof fn lemma_pairs_one(ps: Seq<(Expr, Expr)>)
    requires
        ps.len() == 1,
    ensures
        pairs_view(ps) == seq![(expr_view(ps[0].0), expr_view(ps[0].1))],
{
    assert(ps.drop_last() =~= Seq::<(Expr, Expr)>::empty());
    assert(pairs_view(ps.drop_last()) =~= Seq::<(PExpr, PExpr)>::empty());
    assert(pairs_view(ps) =~= seq![(expr_view(ps[0].0), expr_view(ps[0].1))]);
}

proof fn lemma_exprs_one(es: Seq<Expr>)
    requires
        es.len() == 1,
    ensures
        exprs_view(es) == seq![expr_view(es[0])],
{
    assert(es.drop_last() =~= Seq::<Expr>::empty());
    assert(exprs_view(es.drop_last()) =~= Seq::<PExpr>::empty());
    assert(exprs_view(es) =~= seq![expr_view(es[0])]);
}


/// The mathematical model of the statements the parser builds; every other kind is `Other`.
pub enum PStmtKind {
    Expression(PExpr),
    Assignment { target: PExpr, value: PExpr },
    Unless { condition: PExpr, body: Seq<PStmt> },
    If { condition: PExpr, then_branch: Seq<PStmt>, else_branch: Option<Seq<PStmt>> },
    While { condition: PExpr, body: Seq<PStmt> },
    Until { condition: PExpr, body: Seq<PStmt> },
    Iterate { iterable: PExpr, body: Seq<PStmt> },
    Import { module: Seq<char>, items: Option<Seq<Seq<char>>> },
    Function { name: Seq<char>, params: Seq<PParam>, return_type: Option<TypeView>, body: Seq<PStmt> },
    Object { name: Seq<char>, fields: Seq<PField>, methods: Seq<PMethod> },
    Store { name: Seq<char>, fields: Seq<PField>, methods: Seq<PMethod> },
    Actor { name: Seq<char>, fields: Seq<PField>, handlers: Seq<PHandler> },
    Return(Option<PExpr>),
    Break,
    Continue,
    Other,
}

/// A field of an object or a store: name, type, default value and span.
pub struct PField {
    pub name: Seq<char>,
    pub type_: TypeView,
    pub default_value: Option<PExpr>,
    pub span: SpanView,
}

/// A method of an object or a store: name, parameters, return type, body and span.
pub struct PMethod {
    pub name: Seq<char>,
    pub params: Seq<PParam>,
    pub return_type: Option<TypeView>,
    pub body: Seq<PStmt>,
    pub span: SpanView,
}

/// A message handler of an actor: the message type, the body and the span of its `@`.
pub struct PHandler {
    pub message_type: TypeView,
    pub body: Seq<PStmt>,
    pub span: SpanView,
}

/// One member of an object body: a field or a method.
pub enum PMember {
    Field(PField),
    Method(PMethod),
}

/// A parameter: name, type, default value and span.
pub struct PParam {
    pub name: Seq<char>,
    pub type_: TypeView,
    pub default_value: Option<PExpr>,
    pub span: SpanView,
}

pub open spec fn params_view(ps: Seq<Parameter>) -> Seq<PParam>
    decreases ps,
{
    if ps.len() == 0 {
        Seq::empty()
    } else {
        let p = ps.last();
        params_view(ps.drop_last()).push(
            PParam {
                name: p.name@,
                type_: p.type_@,
                default_value: match p.default_value {
                    Some(e) => Some(expr_view(e)),
                    None => None,
                },
                span: p.span@,
            },
        )
    }
}

pub struct PStmt {
    pub id: u32,
    pub span: SpanView,
    pub kind: PStmtKind,
}

pub open spec fn stmt_view(s: Stmt) -> PStmt
    decreases s,
{
    PStmt {
        id: s.id.0,
        span: s.span@,
        kind: match s.kind {
            StmtKind::Expression(e) => PStmtKind::Expression(expr_view(e)),
            StmtKind::Assignment { target, value } => PStmtKind::Assignment { target: expr_view(target), value: expr_view(value) },
            StmtKind::Unless { condition, body } => PStmtKind::Unless { condition: expr_view(condition), body: stmts_view(body@) },
            StmtKind::If { condition, then_branch, else_branch } => PStmtKind::If {
                condition: expr_view(condition),
                then_branch: stmts_view(then_branch@),
                else_branch: match else_branch {
                    Some(b) => Some(stmts_view(b@)),
                    None => None,
                },
            },
            StmtKind::While { condition, body } => PStmtKind::While { condition: expr_view(condition), body: stmts_view(body@) },
            StmtKind::Until { condition, body } => PStmtKind::Until { condition: expr_view(condition), body: stmts_view(body@) },
            StmtKind::Iterate { iterable, body } => PStmtKind::Iterate { iterable: expr_view(iterable), body: stmts_view(body@) },
            StmtKind::Function { name, params, return_type, body } => PStmtKind::Function {
                name: name@,
                params: params_view(params@),
                return_type: match return_type {
                    Some(rt) => Some(rt@),
                    None => None,
                },
                body: stmts_view(body@),
            },
            StmtKind::Object { name, fields, methods } => PStmtKind::Object {
                name: name@,
                fields: fields_view(fields@),
                methods: methods_view(methods@),
            },
            StmtKind::Store { name, fields, methods } => PStmtKind::Store {
                name: name@,
                fields: fields_view(fields@),
                methods: methods_view(methods@),
            },
            StmtKind::Actor { name, fields, handlers } => PStmtKind::Actor {
                name: name@,
                fields: fields_view(fields@),
                handlers: handlers_view(handlers@),
            },
            StmtKind::Import { module, items } => PStmtKind::Import {
                module: module@,
                items: match items {
                    Some(v) => Some(names_view(v@)),
                    None => None,
                },
            },
            StmtKind::Return(v) => PStmtKind::Return(
                match v {
                    Some(e) => Some(expr_view(e)),
                    None => None,
                },
            ),
            StmtKind::Break => PStmtKind::Break,
            StmtKind::Continue => PStmtKind::Continue,
            _ => PStmtKind::Other,
        },
    }
}

pub open spec fn field_view(f: Field) -> PField
    decreases f,
{
    PField {
        name: f.name@,
        type_: f.type_@,
        default_value: match f.default_value {
            Some(e) => Some(expr_view(e)),
            None => None,
        },
        span: f.span@,
    }
}

pub open spec fn fields_view(fs: Seq<Field>) -> Seq<PField>
    decreases fs,
{
    if fs.len() == 0 {
        Seq::empty()
    } else {
        fields_view(fs.drop_last()).push(field_view(fs.last()))
    }
}

pub open spec fn methods_view(ms: Seq<ObjectMethod>) -> Seq<PMethod>
    decreases ms,
{
    if ms.len() == 0 {
        Seq::empty()
    } else {
        methods_view(ms.drop_last()).push(method_view(ms.last()))
    }
}

pub open spec fn method_view(m: ObjectMethod) -> PMethod
    decreases m,
{
    PMethod {
        name: m.name@,
        params: params_view(m.params@),
        return_type: match m.return_type {
            Some(rt) => Some(rt@),
            None => None,
        },
        body: stmts_view(m.body@),
        span: m.span@,
    }
}

pub open spec fn handler_view(h: MessageHandler) -> PHandler
    decreases h,
{
    PHandler { message_type: h.message_type@, body: stmts_view(h.body@), span: h.span@ }
}

pub open spec fn handlers_view(hs: Seq<MessageHandler>) -> Seq<PHandler>
    decreases hs,
{
    if hs.len() == 0 {
        Seq::empty()
    } else {
        handlers_view(hs.drop_last()).push(handler_view(hs.last()))
    }
}

pub open spec fn handler_res(r: Result<MessageHandler, ParseError>) -> Result<PHandler, ParseErrorView> {
    match r {
        Ok(h) => Ok(handler_view(h)),
        Err(e) => Err(e@),
    }
}

pub open spec fn actor_res(r: Result<(Vec<Field>, Vec<MessageHandler>), ParseError>) -> Result<
    (Seq<PField>, Seq<PHandler>),
    ParseErrorView,
> {
    match r {
        Ok((fs, hs)) => Ok((fields_view(fs@), handlers_view(hs@))),
        Err(e) => Err(e@),
    }
}

/// One parsed member of an object body.
pub enum Member {
    Field(Field),
    Method(ObjectMethod),
}

pub open spec fn member_res(r: Result<Member, ParseError>) -> Result<PMember, ParseErrorView> {
    match r {
        Ok(Member::Field(f)) => Ok(PMember::Field(field_view(f))),
        Ok(Member::Method(m)) => Ok(PMember::Method(method_view(m))),
        Err(e) => Err(e@),
    }
}

pub open spec fn method_res(r: Result<ObjectMethod, ParseError>) -> Result<PMethod, ParseErrorView> {
    match r {
        Ok(m) => Ok(method_view(m)),
        Err(e) => Err(e@),
    }
}

pub open spec fn members_res(r: Result<(Vec<Field>, Vec<ObjectMethod>), ParseError>) -> Result<
    (Seq<PField>, Seq<PMethod>),
    ParseErrorView,
> {
    match r {
        Ok((fs, ms)) => Ok((fields_view(fs@), methods_view(ms@))),
        Err(e) => Err(e@),
    }
}

pub open spec fn stmts_view(ss: Seq<Stmt>) -> Seq<PStmt>
    decreases ss,
{
    if ss.len() == 0 {
        Seq::empty()
    } else {
        stmts_view(ss.drop_last()).push(stmt_view(ss.last()))
    }
}

pub open spec fn names_view(ns: Seq<String>) -> Seq<Seq<char>> {
    ns.map_values(|n: String| n@)
}

/// A new statement node, with the next identity.
pub open spec fn mk_stmt(s: PState, span: SpanView, kind: PStmtKind) -> (PStmt, PState) {
    (PStmt { id: s.next, span, kind }, PState { next: bump(s.next), ..s })
}

/// Skips newline tokens.
pub open spec fn skip_newlines(toks: Seq<TokenView>, s: PState) -> PState
    decreases left(toks, s),
{
    if 0 <= s.pos < toks.len() && toks[s.pos].token_type == TokenType::Newline {
        skip_newlines(toks, PState { pos: s.pos + 1, ..s })
    } else {
        s
    }
}

/// Skips indentation tokens left over at the top level.
pub open spec fn skip_layout(toks: Seq<TokenView>, s: PState) -> PState
    decreases left(toks, s),
{
    if check(toks, s, TokenType::Indent) || check(toks, s, TokenType::Dedent) {
        skip_layout(toks, advance(toks, s))
    } else {
        s
    }
}

/// The type a name stands for: a built-in type, else an object type of that name.
pub open spec fn named_type(n: Seq<char>) -> TypeView {
    if n == "i8"@ {
        TypeView::I8
    } else if n == "i16"@ {
        TypeView::I16
    } else if n == "i32"@ {
        TypeView::I32
    } else if n == "i64"@ {
        TypeView::I64
    } else if n == "f32"@ {
        TypeView::F32
    } else if n == "f64"@ {
        TypeView::F64
    } else if n == "bool"@ {
        TypeView::Bool
    } else if n == "string"@ {
        TypeView::String
    } else if n == "unit"@ {
        TypeView::Unit
    } else {
        TypeView::Object { name: n, fields: Seq::empty() }
    }
}

/// A type: a name, `()` or `(T)` for lists, `(K: V)` for maps, `fn(T, ...) -> R`.
pub open spec fn p_type(toks: Seq<TokenView>, s: PState) -> PR<TypeView>
    decreases left(toks, s), 1nat,
{
    let t = toks[s.pos];
    if at_end(toks, s) {
        (Err(expected(toks, s, "type"@)), s)
    } else if t.token_type == TokenType::Identifier {
        (Ok(named_type(t.lexeme)), advance(toks, s))
    } else if t.token_type == TokenType::LeftParen {
        let s1 = advance(toks, s);
        if check(toks, s1, TokenType::RightParen) {
            (Ok(TypeView::List(Box::new(TypeView::Unknown))), advance(toks, s1))
        } else {
            let f = p_type(toks, s1);
            match f.0 {
                Err(e) => (Err(e), f.1),
                Ok(first) => if !moved(toks, s1, f.1) {
                    (Err(ParseErrorView::UnexpectedEof), f.1)
                } else if check(toks, f.1, TokenType::Colon) {
                    let v = p_type(toks, advance(toks, f.1));
                    match v.0 {
                        Err(e) => (Err(e), v.1),
                        Ok(value) => {
                            let c = consume(toks, v.1, TokenType::RightParen, "Expected ')' after map types"@);
                            match c.0 {
                                Err(e) => (Err(e), c.1),
                                Ok(_) => (Ok(TypeView::MapOf(Box::new(first), Box::new(value))), c.1),
                            }
                        },
                    }
                } else {
                    let c = consume(toks, f.1, TokenType::RightParen, "Expected ')' after list element type"@);
                    match c.0 {
                        Err(e) => (Err(e), c.1),
                        Ok(_) => (Ok(TypeView::List(Box::new(first))), c.1),
                    }
                },
            }
        }
    } else if t.token_type == TokenType::Fn {
        let o = consume(toks, advance(toks, s), TokenType::LeftParen, "Expected '(' after 'fn' in function type"@);
        match o.0 {
            Err(e) => (Err(e), o.1),
            Ok(_) => {
                let ps: PR<Seq<TypeView>> = if check(toks, o.1, TokenType::RightParen) {
                    (Ok(Seq::empty()), o.1)
                } else {
                    p_type_list(toks, o.1, Seq::empty())
                };
                match ps.0 {
                    Err(e) => (Err(e), ps.1),
                    Ok(params) => {
                        let c = consume(toks, ps.1, TokenType::RightParen, "Expected ')' after function parameters"@);
                        match c.0 {
                            Err(e) => (Err(e), c.1),
                            Ok(_) => {
                                let a = consume(toks, c.1, TokenType::Arrow, "Expected '->' after function parameters"@);
                                match a.0 {
                                    Err(e) => (Err(e), a.1),
                                    Ok(_) => if !moved(toks, s, a.1) || a.1.pos == s.pos {
                                        (Err(ParseErrorView::UnexpectedEof), a.1)
                                    } else {
                                        let r = p_type(toks, a.1);
                                        match r.0 {
                                            Err(e) => (Err(e), r.1),
                                            Ok(ret) => (Ok(TypeView::Function { params, return_type: Box::new(ret) }), r.1),
                                        }
                                    },
                                }
                            },
                        }
                    },
                }
            },
        }
    } else {
        (Err(expected(toks, s, "type"@)), s)
    }
}

/// Types separated by commas, after those in `acc`.
pub open spec fn p_type_list(toks: Seq<TokenView>, s: PState, acc: Seq<TypeView>) -> PR<Seq<TypeView>>
    decreases left(toks, s), 2nat,
{
    let r = p_type(toks, s);
    match r.0 {
        Err(e) => (Err(e), r.1),
        Ok(ty) => if !moved(toks, s, r.1) {
            (Err(ParseErrorView::UnexpectedEof), r.1)
        } else if check(toks, r.1, TokenType::Comma) {
            p_type_list(toks, advance(toks, r.1), acc.push(ty))
        } else {
            (Ok(acc.push(ty)), r.1)
        },
    }
}

/// Parameters `name`, `name: type`, `name ? default` separated by commas, after those in `acc`.
pub open spec fn p_params_from(toks: Seq<TokenView>, file: Seq<char>, s: PState, acc: Seq<PParam>) -> PR<Seq<PParam>>
    decreases left(toks, s), 100nat,
{
    let n = consume(toks, s, TokenType::Identifier, "Expected parameter name"@);
    match n.0 {
        Err(e) => (Err(e), n.1),
        Ok(name) => {
            let ty: PR<TypeView> = if check(toks, n.1, TokenType::Colon) {
                p_type(toks, advance(toks, n.1))
            } else {
                (Ok(TypeView::Unknown), n.1)
            };
            match ty.0 {
                Err(e) => (Err(e), ty.1),
                Ok(type_) => if !moved(toks, s, ty.1) {
                    (Err(ParseErrorView::UnexpectedEof), ty.1)
                } else {
                    let dv: PR<Option<PExpr>> = if check(toks, ty.1, TokenType::Question) {
                        let r = p_expression(toks, file, advance(toks, ty.1));
                        match r.0 {
                            Err(e) => (Err(e), r.1),
                            Ok(e) => (Ok(Some(e)), r.1),
                        }
                    } else {
                        (Ok(None), ty.1)
                    };
                    match dv.0 {
                        Err(e) => (Err(e), dv.1),
                        Ok(default_value) => if !moved(toks, s, dv.1) || dv.1.pos == s.pos {
                            (Err(ParseErrorView::UnexpectedEof), dv.1)
                        } else {
                            let p = PParam { name: name.lexeme, type_, default_value, span: token_span(file, name) };
                            if check(toks, dv.1, TokenType::Comma) {
                                p_params_from(toks, file, advance(toks, dv.1), acc.push(p))
                            } else {
                                (Ok(acc.push(p)), dv.1)
                            }
                        },
                    }
                },
            }
        },
    }
}

/// `fn name(params) -> type` followed by the body block.
pub open spec fn p_function(toks: Seq<TokenView>, file: Seq<char>, s: PState) -> PR<PStmt>
    decreases left(toks, s), 190nat,
{
    let start = toks[s.pos];
    let s1 = advance(toks, s);
    let n = consume(toks, s1, TokenType::Identifier, "Expected function name"@);
    match n.0 {
        Err(e) => (Err(e), n.1),
        Ok(name) => {
            let o = consume(toks, n.1, TokenType::LeftParen, "Expected '(' after function name"@);
            match o.0 {
                Err(e) => (Err(e), o.1),
                Ok(_) => if !moved(toks, s, o.1) || o.1.pos == s.pos {
                    (Err(ParseErrorView::UnexpectedEof), o.1)
                } else {
                    let ps: PR<Seq<PParam>> = if check(toks, o.1, TokenType::RightParen) {
                        (Ok(Seq::empty()), o.1)
                    } else {
                        p_params_from(toks, file, o.1, Seq::empty())
                    };
                    match ps.0 {
                        Err(e) => (Err(e), ps.1),
                        Ok(params) => {
                            let c = consume(toks, ps.1, TokenType::RightParen, "Expected ')' after parameters"@);
                            match c.0 {
                                Err(e) => (Err(e), c.1),
                                Ok(_) => {
                                    let rt: PR<Option<TypeView>> = if check(toks, c.1, TokenType::Arrow) {
                                        let r = p_type(toks, advance(toks, c.1));
                                        match r.0 {
                                            Err(e) => (Err(e), r.1),
                                            Ok(ty) => (Ok(Some(ty)), r.1),
                                        }
                                    } else {
                                        (Ok(None), c.1)
                                    };
                                    match rt.0 {
                                        Err(e) => (Err(e), rt.1),
                                        Ok(return_type) => {
                                            let s2 = skip_newlines(toks, rt.1);
                                            if !moved(toks, s, s2) {
                                                (Err(ParseErrorView::UnexpectedEof), s2)
                                            } else {
                                                let b = p_block(toks, file, s2);
                                                match b.0 {
                                                    Err(e) => (Err(e), b.1),
                                                    Ok(body) => {
                                                        let (st, s3) = mk_stmt(
                                                            b.1,
                                                            token_span(file, start),
                                                            PStmtKind::Function { name: name.lexeme, params, return_type, body },
                                                        );
                                                        (Ok(st), s3)
                                                    },
                                                }
                                            }
                                        },
                                    }
                                },
                            }
                        },
                    }
                },
            }
        },
    }
}

/// An indented block: `Indent`, statements, `Dedent`.
pub open spec fn p_block(toks: Seq<TokenView>, file: Seq<char>, s: PState) -> PR<Seq<PStmt>>
    decreases left(toks, s), 150nat,
{
    if !check(toks, s, TokenType::Indent) {
        (Err(expected(toks, s, "indented block"@)), s)
    } else {
        p_block_from(toks, file, advance(toks, s), Seq::empty())
    }
}

/// The statements of a block from `s` on, after those in `acc`, and its closing `Dedent`.
pub open spec fn p_block_from(toks: Seq<TokenView>, file: Seq<char>, s: PState, acc: Seq<PStmt>) -> PR<Seq<PStmt>>
    decreases left(toks, s), 250nat,
{
    if !check(toks, s, TokenType::Dedent) && !at_end(toks, s) {
        let s1 = skip_newlines(toks, s);
        if !moved(toks, s, s1) {
            (Err(ParseErrorView::UnexpectedEof), s1)
        } else if check(toks, s1, TokenType::Dedent) {
            close_block(toks, s1, acc)
        } else {
            let r = p_statement(toks, file, s1);
            match r.0 {
                Err(e) => (Err(e), r.1),
                Ok(st) => if moved(toks, s, r.1) && s.pos < r.1.pos {
                    p_block_from(toks, file, r.1, acc.push(st))
                } else {
                    (Err(ParseErrorView::UnexpectedEof), r.1)
                },
            }
        }
    } else {
        close_block(toks, s, acc)
    }
}

pub open spec fn close_block(toks: Seq<TokenView>, s: PState, acc: Seq<PStmt>) -> PR<Seq<PStmt>> {
    if check(toks, s, TokenType::Dedent) {
        (Ok(acc), advance(toks, s))
    } else {
        (Err(expected(toks, s, "dedent to close block"@)), s)
    }
}

/// `if condition` with a block, then optionally `else` with a block or another `if`.
pub open spec fn p_if(toks: Seq<TokenView>, file: Seq<char>, s: PState) -> PR<PStmt>
    decreases left(toks, s), 190nat,
{
    let start = toks[s.pos];
    let s1 = advance(toks, s);
    if !moved(toks, s, s1) || s1.pos == s.pos {
        (Err(ParseErrorView::UnexpectedEof), s1)
    } else {
        let c = p_expression(toks, file, s1);
        match c.0 {
            Err(e) => (Err(e), c.1),
            Ok(cond) => {
                let s2 = skip_newlines(toks, c.1);
                if !moved(toks, s1, s2) {
                    (Err(ParseErrorView::UnexpectedEof), s2)
                } else {
                    let th = p_block(toks, file, s2);
                    match th.0 {
                        Err(e) => (Err(e), th.1),
                        Ok(then_branch) => {
                            let el: PR<Option<Seq<PStmt>>> = if check(toks, th.1, TokenType::Else) {
                                let s3 = skip_newlines(toks, advance(toks, th.1));
                                if !moved(toks, s1, s3) {
                                    (Err(ParseErrorView::UnexpectedEof), s3)
                                } else if check(toks, s3, TokenType::If) {
                                    let n = p_if(toks, file, s3);
                                    match n.0 {
                                        Err(e) => (Err(e), n.1),
                                        Ok(nested) => (Ok(Some(seq![nested])), n.1),
                                    }
                                } else {
                                    let b = p_block(toks, file, s3);
                                    match b.0 {
                                        Err(e) => (Err(e), b.1),
                                        Ok(body) => (Ok(Some(body)), b.1),
                                    }
                                }
                            } else {
                                (Ok(None), th.1)
                            };
                            match el.0 {
                                Err(e) => (Err(e), el.1),
                                Ok(else_branch) => {
                                    let (st, s4) = mk_stmt(
                                        el.1,
                                        token_span(file, start),
                                        PStmtKind::If { condition: cond, then_branch, else_branch },
                                    );
                                    (Ok(st), s4)
                                },
                            }
                        },
                    }
                }
            },
        }
    }
}

/// `unless`, `while`, `until` or `iterate` with its expression and block.
pub open spec fn p_guarded(toks: Seq<TokenView>, file: Seq<char>, s: PState) -> PR<PStmt>
    decreases left(toks, s), 190nat,
{
    let start = toks[s.pos];
    let k = start.token_type;
    let s1 = advance(toks, s);
    if !moved(toks, s, s1) || s1.pos == s.pos {
        (Err(ParseErrorView::UnexpectedEof), s1)
    } else {
        let c = p_expression(toks, file, s1);
        match c.0 {
            Err(e) => (Err(e), c.1),
            Ok(cond) => {
                let s2 = skip_newlines(toks, c.1);
                if !moved(toks, s1, s2) {
                    (Err(ParseErrorView::UnexpectedEof), s2)
                } else {
                    let b = p_block(toks, file, s2);
                    match b.0 {
                        Err(e) => (Err(e), b.1),
                        Ok(body) => {
                            let kind = if k == TokenType::Unless {
                                PStmtKind::Unless { condition: cond, body }
                            } else if k == TokenType::While {
                                PStmtKind::While { condition: cond, body }
                            } else if k == TokenType::Until {
                                PStmtKind::Until { condition: cond, body }
                            } else {
                                PStmtKind::Iterate { iterable: cond, body }
                            };
                            let (st, s3) = mk_stmt(b.1, token_span(file, start), kind);
                            (Ok(st), s3)
                        },
                    }
                }
            },
        }
    }
}

/// The names imported from a module, after those in `acc`, up to the closing brace.
pub open spec fn p_import_items(toks: Seq<TokenView>, s: PState, acc: Seq<Seq<char>>) -> PR<Seq<Seq<char>>>
    decreases left(toks, s),
{
    let c = consume(toks, s, TokenType::Identifier, "Expected import item"@);
    match c.0 {
        Err(e) => (Err(e), c.1),
        Ok(item) => if check(toks, c.1, TokenType::Comma) {
            p_import_items(toks, advance(toks, c.1), acc.push(item.lexeme))
        } else {
            (Ok(acc.push(item.lexeme)), c.1)
        },
    }
}

/// `import "module"`, optionally followed by `{ names }`.
pub open spec fn p_import(toks: Seq<TokenView>, file: Seq<char>, s: PState) -> PR<PStmt> {
    let start = toks[s.pos];
    let s1 = advance(toks, s);
    let m = consume(toks, s1, TokenType::String, "Expected module name"@);
    match m.0 {
        Err(e) => (Err(e), m.1),
        Ok(module) => {
            let items: PR<Option<Seq<Seq<char>>>> = if check(toks, m.1, TokenType::LeftBrace) {
                let s2 = advance(toks, m.1);
                let l: PR<Seq<Seq<char>>> = if check(toks, s2, TokenType::RightBrace) {
                    (Ok(Seq::empty()), s2)
                } else {
                    p_import_items(toks, s2, Seq::empty())
                };
                match l.0 {
                    Err(e) => (Err(e), l.1),
                    Ok(names) => {
                        let c = consume(toks, l.1, TokenType::RightBrace, "Expected '}' after import items"@);
                        match c.0 {
                            Err(e) => (Err(e), c.1),
                            Ok(_) => (Ok(Some(names)), c.1),
                        }
                    },
                }
            } else {
                (Ok(None), m.1)
            };
            match items.0 {
                Err(e) => (Err(e), items.1),
                Ok(names) => {
                    let (st, s3) = mk_stmt(items.1, token_span(file, start), PStmtKind::Import { module: module.lexeme, items: names });
                    (Ok(st), s3)
                },
            }
        },
    }
}

/// Whether `x` lies after `s` and on a token.
pub open spec fn later(toks: Seq<TokenView>, s: PState, x: PState) -> bool {
    moved(toks, s, x) && s.pos < x.pos
}

/// `object Name` and a newline, or `store Name`, followed by an indented body of members.
pub open spec fn p_object(toks: Seq<TokenView>, file: Seq<char>, s: PState, store: bool) -> PR<PStmt>
    decreases left(toks, s), 190nat,
{
    let start = toks[s.pos];
    let s1 = advance(toks, s);
    let n = consume(toks, s1, TokenType::Identifier, if store { "Expected store name"@ } else { "Expected object name"@ });
    match n.0 {
        Err(e) => (Err(e), n.1),
        Ok(name) => {
            let h = if store {
                (Ok(name), skip_newlines(toks, n.1))
            } else {
                consume(toks, n.1, TokenType::Newline, "Expected newline after object name"@)
            };
            match h.0 {
                Err(e) => (Err(e), h.1),
                Ok(_) => if !later(toks, s, h.1) {
                    (Err(ParseErrorView::UnexpectedEof), h.1)
                } else if !check(toks, h.1, TokenType::Indent) {
                    (Err(expected(toks, h.1, "indented block"@)), h.1)
                } else {
                    let b = p_members_from(toks, file, advance(toks, h.1), Seq::empty(), Seq::empty());
                    match b.0 {
                        Err(e) => (Err(e), b.1),
                        Ok(members) => {
                            let kind = if store {
                                PStmtKind::Store { name: name.lexeme, fields: members.0, methods: members.1 }
                            } else {
                                PStmtKind::Object { name: name.lexeme, fields: members.0, methods: members.1 }
                            };
                            let (st, s3) = mk_stmt(b.1, token_span(file, start), kind);
                            (Ok(st), s3)
                        },
                    }
                },
            }
        },
    }
}

/// The members of an object body from `s` on, after those gathered, and its closing `Dedent`.
pub open spec fn p_members_from(
    toks: Seq<TokenView>,
    file: Seq<char>,
    s: PState,
    fields: Seq<PField>,
    methods: Seq<PMethod>,
) -> PR<(Seq<PField>, Seq<PMethod>)>
    decreases left(toks, s), 195nat,
{
    if !check(toks, s, TokenType::Dedent) && !at_end(toks, s) {
        let s1 = skip_newlines(toks, s);
        if !moved(toks, s, s1) {
            (Err(ParseErrorView::UnexpectedEof), s1)
        } else if check(toks, s1, TokenType::Dedent) {
            close_members(toks, s1, fields, methods)
        } else if check(toks, s1, TokenType::Fn) {
            let f = p_function(toks, file, s1);
            match f.0 {
                Err(e) => (Err(e), f.1),
                Ok(st) => match st.kind {
                    PStmtKind::Function { name, params, return_type, body } => if later(toks, s, f.1) {
                        p_members_from(
                            toks,
                            file,
                            f.1,
                            fields,
                            methods.push(PMethod { name, params, return_type, body, span: st.span }),
                        )
                    } else {
                        (Err(ParseErrorView::UnexpectedEof), f.1)
                    },
                    _ => (Err(ParseErrorView::UnexpectedEof), f.1),
                },
            }
        } else {
            let m = p_member(toks, file, s1);
            match m.0 {
                Err(e) => (Err(e), m.1),
                Ok(member) => {
                    let s2 = skip_newlines(toks, m.1);
                    if !later(toks, s, s2) {
                        (Err(ParseErrorView::UnexpectedEof), s2)
                    } else {
                        match member {
                            PMember::Field(fl) => p_members_from(toks, file, s2, fields.push(fl), methods),
                            PMember::Method(me) => p_members_from(toks, file, s2, fields, methods.push(me)),
                        }
                    }
                },
            }
        }
    } else {
        close_members(toks, s, fields, methods)
    }
}

pub open spec fn close_members(toks: Seq<TokenView>, s: PState, fields: Seq<PField>, methods: Seq<PMethod>) -> PR<
    (Seq<PField>, Seq<PMethod>),
> {
    if check(toks, s, TokenType::Dedent) {
        (Ok((fields, methods)), advance(toks, s))
    } else {
        (Err(expected(toks, s, "dedent to close block"@)), s)
    }
}

/// The rest of a method from its `(`: parameters, `)`, an optional `-> type`, `:` and a block.
pub open spec fn p_method_rest(toks: Seq<TokenView>, file: Seq<char>, s: PState, name: TokenView, sp: SpanView) -> PR<PMethod>
    decreases left(toks, s), 170nat,
{
    let s2 = advance(toks, s);
    if !later(toks, s, s2) {
        (Err(ParseErrorView::UnexpectedEof), s2)
    } else {
        let ps: PR<Seq<PParam>> = if check(toks, s2, TokenType::RightParen) {
            (Ok(Seq::empty()), s2)
        } else {
            p_params_from(toks, file, s2, Seq::empty())
        };
        match ps.0 {
            Err(e) => (Err(e), ps.1),
            Ok(params) => {
                let c = consume(toks, ps.1, TokenType::RightParen, "Expected ')' after parameters"@);
                match c.0 {
                    Err(e) => (Err(e), c.1),
                    Ok(_) => if !later(toks, s, c.1) {
                        (Err(ParseErrorView::UnexpectedEof), c.1)
                    } else {
                        let rt: PR<Option<TypeView>> = if check(toks, c.1, TokenType::Arrow) {
                            let r = p_type(toks, advance(toks, c.1));
                            match r.0 {
                                Err(e) => (Err(e), r.1),
                                Ok(ty) => (Ok(Some(ty)), r.1),
                            }
                        } else {
                            (Ok(None), c.1)
                        };
                        match rt.0 {
                            Err(e) => (Err(e), rt.1),
                            Ok(return_type) => {
                                let k = consume(toks, rt.1, TokenType::Colon, "Expected ':' before method body"@);
                                match k.0 {
                                    Err(e) => (Err(e), k.1),
                                    Ok(_) => {
                                        let s3 = skip_newlines(toks, k.1);
                                        if !later(toks, s, s3) {
                                            (Err(ParseErrorView::UnexpectedEof), s3)
                                        } else {
                                            let b = p_block(toks, file, s3);
                                            match b.0 {
                                                Err(e) => (Err(e), b.1),
                                                Ok(body) => (
                                                    Ok(PMethod { name: name.lexeme, params, return_type, body, span: sp }),
                                                    b.1,
                                                ),
                                            }
                                        }
                                    },
                                }
                            },
                        }
                    },
                }
            },
        }
    }
}

/// One member: `name: type`, optionally `? default`; `name ? default`; `name(params) -> type:`
/// with a method body; or a bare `name`.
pub open spec fn p_member(toks: Seq<TokenView>, file: Seq<char>, s: PState) -> PR<PMember>
    decreases left(toks, s), 180nat,
{
    let n = consume(toks, s, TokenType::Identifier, "Expected field or method name"@);
    match n.0 {
        Err(e) => (Err(e), n.1),
        Ok(name) => {
            let sp = token_span(file, name);
            if !later(toks, s, n.1) {
                (Err(ParseErrorView::UnexpectedEof), n.1)
            } else if check(toks, n.1, TokenType::Colon) {
                let t = p_type(toks, advance(toks, n.1));
                match t.0 {
                    Err(e) => (Err(e), t.1),
                    Ok(ty) => if !later(toks, s, t.1) {
                        (Err(ParseErrorView::UnexpectedEof), t.1)
                    } else if check(toks, t.1, TokenType::Question) {
                        let r = p_expression(toks, file, advance(toks, t.1));
                        match r.0 {
                            Err(e) => (Err(e), r.1),
                            Ok(d) => (
                                Ok(PMember::Field(PField { name: name.lexeme, type_: ty, default_value: Some(d), span: sp })),
                                r.1,
                            ),
                        }
                    } else {
                        (Ok(PMember::Field(PField { name: name.lexeme, type_: ty, default_value: None, span: sp })), t.1)
                    },
                }
            } else if check(toks, n.1, TokenType::Question) {
                let r = p_expression(toks, file, advance(toks, n.1));
                match r.0 {
                    Err(e) => (Err(e), r.1),
                    Ok(d) => (
                        Ok(
                            PMember::Field(
                                PField { name: name.lexeme, type_: TypeView::Unknown, default_value: Some(d), span: sp },
                            ),
                        ),
                        r.1,
                    ),
                }
            } else if check(toks, n.1, TokenType::LeftParen) {
                let m = p_method_rest(toks, file, n.1, name, sp);
                match m.0 {
                    Err(e) => (Err(e), m.1),
                    Ok(me) => (Ok(PMember::Method(me)), m.1),
                }
            } else {
                (
                    Ok(PMember::Field(PField { name: name.lexeme, type_: TypeView::Unknown, default_value: None, span: sp })),
                    n.1,
                )
            }
        },
    }
}

/// From the start of `sp` to the end of the last statement of `body`, or of `sp` when it has none.
pub open spec fn body_end(file: Seq<char>, sp: SpanView, body: Seq<PStmt>) -> SpanView {
    between(file, sp, if body.len() > 0 { body.last().span } else { sp })
}

/// `actor Name` followed by an indented body of fields, methods and message handlers.
pub open spec fn p_actor(toks: Seq<TokenView>, file: Seq<char>, s: PState) -> PR<PStmt>
    decreases left(toks, s), 190nat,
{
    let start = toks[s.pos];
    let n = consume(toks, advance(toks, s), TokenType::Identifier, "Expected actor name"@);
    match n.0 {
        Err(e) => (Err(e), n.1),
        Ok(name) => {
            let s2 = skip_newlines(toks, n.1);
            if !later(toks, s, s2) {
                (Err(ParseErrorView::UnexpectedEof), s2)
            } else if !check(toks, s2, TokenType::Indent) {
                (Err(expected(toks, s2, "indented block"@)), s2)
            } else {
                let b = p_actor_from(toks, file, advance(toks, s2), Seq::empty(), Seq::empty());
                match b.0 {
                    Err(e) => (Err(e), b.1),
                    Ok(body) => {
                        let (st, s3) = mk_stmt(
                            b.1,
                            token_span(file, start),
                            PStmtKind::Actor { name: name.lexeme, fields: body.0, handlers: body.1 },
                        );
                        (Ok(st), s3)
                    },
                }
            }
        },
    }
}

/// The members of an actor body from `s` on, after those gathered; methods are parsed and
/// dropped. A closing `Dedent` is consumed when there is one.
pub open spec fn p_actor_from(
    toks: Seq<TokenView>,
    file: Seq<char>,
    s: PState,
    fields: Seq<PField>,
    handlers: Seq<PHandler>,
) -> PR<(Seq<PField>, Seq<PHandler>)>
    decreases left(toks, s), 196nat,
{
    if !check(toks, s, TokenType::Dedent) && !at_end(toks, s) {
        let s1 = skip_newlines(toks, s);
        if !moved(toks, s, s1) {
            (Err(ParseErrorView::UnexpectedEof), s1)
        } else if check(toks, s1, TokenType::Dedent) || at_end(toks, s1) {
            finish_actor(toks, s1, fields, handlers)
        } else if check(toks, s1, TokenType::At) {
            let h = p_handler(toks, file, s1);
            match h.0 {
                Err(e) => (Err(e), h.1),
                Ok(hd) => {
                    let s2 = skip_newlines(toks, h.1);
                    if !later(toks, s, s2) {
                        (Err(ParseErrorView::UnexpectedEof), s2)
                    } else {
                        p_actor_from(toks, file, s2, fields, handlers.push(hd))
                    }
                },
            }
        } else {
            let m = p_actor_member(toks, file, s1);
            match m.0 {
                Err(e) => (Err(e), m.1),
                Ok(member) => {
                    let s2 = skip_newlines(toks, m.1);
                    if !later(toks, s, s2) {
                        (Err(ParseErrorView::UnexpectedEof), s2)
                    } else {
                        match member {
                            PMember::Field(fl) => p_actor_from(toks, file, s2, fields.push(fl), handlers),
                            PMember::Method(_) => p_actor_from(toks, file, s2, fields, handlers),
                        }
                    }
                },
            }
        }
    } else {
        finish_actor(toks, s, fields, handlers)
    }
}

pub open spec fn finish_actor(toks: Seq<TokenView>, s: PState, fields: Seq<PField>, handlers: Seq<PHandler>) -> PR<
    (Seq<PField>, Seq<PHandler>),
> {
    (Ok((fields, handlers)), if check(toks, s, TokenType::Dedent) { advance(toks, s) } else { s })
}

/// A message handler: `@`, the message type, `=>`, `:` and a block.
pub open spec fn p_handler(toks: Seq<TokenView>, file: Seq<char>, s: PState) -> PR<PHandler>
    decreases left(toks, s), 180nat,
{
    let a = consume(toks, s, TokenType::At, "Expected '@' for message handler"@);
    match a.0 {
        Err(e) => (Err(e), a.1),
        Ok(at) => if !later(toks, s, a.1) {
            (Err(ParseErrorView::UnexpectedEof), a.1)
        } else {
            let t = p_type(toks, a.1);
            match t.0 {
                Err(e) => (Err(e), t.1),
                Ok(ty) => {
                    let ar = consume(toks, t.1, TokenType::Arrow, "Expected '=>' after message type"@);
                    match ar.0 {
                        Err(e) => (Err(e), ar.1),
                        Ok(_) => {
                            let c = consume(toks, ar.1, TokenType::Colon, "Expected ':' after '=>'"@);
                            match c.0 {
                                Err(e) => (Err(e), c.1),
                                Ok(_) => {
                                    let s3 = skip_newlines(toks, c.1);
                                    if !later(toks, s, s3) {
                                        (Err(ParseErrorView::UnexpectedEof), s3)
                                    } else {
                                        let b = p_block(toks, file, s3);
                                        match b.0 {
                                            Err(e) => (Err(e), b.1),
                                            Ok(body) => (
                                                Ok(PHandler { message_type: ty, body, span: token_span(file, at) }),
                                                b.1,
                                            ),
                                        }
                                    }
                                },
                            }
                        },
                    }
                },
            }
        },
    }
}

/// One member of an actor: `name:` with a method block, `name:` alone, `name: type` with an
/// optional `? default` or `= default`, `name ? default`, `name(params) -> type:` with a method
/// block, or a bare `name`.
pub open spec fn p_actor_member(toks: Seq<TokenView>, file: Seq<char>, s: PState) -> PR<PMember>
    decreases left(toks, s), 180nat,
{
    let n = consume(toks, s, TokenType::Identifier, "Expected field or method name"@);
    match n.0 {
        Err(e) => (Err(e), n.1),
        Ok(name) => {
            let sp = token_span(file, name);
            if !later(toks, s, n.1) {
                (Err(ParseErrorView::UnexpectedEof), n.1)
            } else if check(toks, n.1, TokenType::Colon) {
                let s2 = skip_newlines(toks, advance(toks, n.1));
                if !later(toks, s, s2) {
                    (Err(ParseErrorView::UnexpectedEof), s2)
                } else if check(toks, s2, TokenType::Indent) {
                    let b = p_block(toks, file, s2);
                    match b.0 {
                        Err(e) => (Err(e), b.1),
                        Ok(body) => (
                            Ok(
                                PMember::Method(
                                    PMethod {
                                        name: name.lexeme,
                                        params: Seq::empty(),
                                        return_type: None,
                                        body,
                                        span: body_end(file, sp, body),
                                    },
                                ),
                            ),
                            b.1,
                        ),
                    }
                } else if check(toks, s2, TokenType::Newline) {
                    let s3 = advance(toks, s2);
                    (
                        Ok(
                            PMember::Field(
                                PField {
                                    name: name.lexeme,
                                    type_: TypeView::Unknown,
                                    default_value: None,
                                    span: between(file, sp, prev_span(file, toks, s3)),
                                },
                            ),
                        ),
                        s3,
                    )
                } else {
                    let t = p_type(toks, s2);
                    match t.0 {
                        Err(e) => (Err(e), t.1),
                        Ok(ty) => if !later(toks, s, t.1) {
                            (Err(ParseErrorView::UnexpectedEof), t.1)
                        } else {
                            let dv: PR<Option<PExpr>> = if check(toks, t.1, TokenType::Question) || check(
                                toks,
                                t.1,
                                TokenType::Equal,
                            ) {
                                let r = p_expression(toks, file, advance(toks, t.1));
                                match r.0 {
                                    Err(e) => (Err(e), r.1),
                                    Ok(d) => (Ok(Some(d)), r.1),
                                }
                            } else {
                                (Ok(None), t.1)
                            };
                            match dv.0 {
                                Err(e) => (Err(e), dv.1),
                                Ok(d) => (
                                    Ok(
                                        PMember::Field(
                                            PField {
                                                name: name.lexeme,
                                                type_: ty,
                                                default_value: d,
                                                span: between(file, sp, prev_span(file, toks, dv.1)),
                                            },
                                        ),
                                    ),
                                    dv.1,
                                ),
                            }
                        },
                    }
                }
            } else if check(toks, n.1, TokenType::Question) {
                let r = p_expression(toks, file, advance(toks, n.1));
                match r.0 {
                    Err(e) => (Err(e), r.1),
                    Ok(d) => (
                        Ok(
                            PMember::Field(
                                PField {
                                    name: name.lexeme,
                                    type_: TypeView::Unknown,
                                    default_value: Some(d),
                                    span: between(file, sp, prev_span(file, toks, r.1)),
                                },
                            ),
                        ),
                        r.1,
                    ),
                }
            } else if check(toks, n.1, TokenType::LeftParen) {
                let m = p_method_rest(toks, file, n.1, name, sp);
                match m.0 {
                    Err(e) => (Err(e), m.1),
                    Ok(me) => (Ok(PMember::Method(PMethod { span: body_end(file, sp, me.body), ..me })), m.1),
                }
            } else {
                (
                    Ok(
                        PMember::Field(
                            PField {
                                name: name.lexeme,
                                type_: TypeView::Unknown,
                                default_value: None,
                                span: between(file, sp, prev_span(file, toks, n.1)),
                            },
                        ),
                    ),
                    n.1,
                )
            }
        },
    }
}

/// A statement: `return` with an optional value, `break`, `continue`, or an expression that may
/// be followed by `unless condition` or by `is value` (an assignment).
pub open spec fn p_statement(toks: Seq<TokenView>, file: Seq<char>, s: PState) -> PR<PStmt>
    decreases left(toks, s), 200nat,
{
    let s0 = skip_newlines(toks, s);
    if !moved(toks, s, s0) {
        (Err(ParseErrorView::UnexpectedEof), s0)
    } else {
        let t = toks[s0.pos];
        let k = t.token_type;
        if k == TokenType::Actor {
            p_actor(toks, file, s0)
        } else if k == TokenType::Object || k == TokenType::Store {
            p_object(toks, file, s0, k == TokenType::Store)
        } else if k == TokenType::Fn {
            p_function(toks, file, s0)
        } else if k == TokenType::If {
            p_if(toks, file, s0)
        } else if k == TokenType::Unless || k == TokenType::While || k == TokenType::Until || k == TokenType::Iterate {
            p_guarded(toks, file, s0)
        } else if k == TokenType::Import {
            p_import(toks, file, s0)
        } else if k == TokenType::Return {
            let s1 = advance(toks, s0);
            let v: PR<Option<PExpr>> = if check(toks, s1, TokenType::Newline) || check(toks, s1, TokenType::Eof) {
                (Ok(None), s1)
            } else {
                let r = p_expression(toks, file, s1);
                match r.0 {
                    Err(e) => (Err(e), r.1),
                    Ok(e) => (Ok(Some(e)), r.1),
                }
            };
            match v.0 {
                Err(e) => (Err(e), v.1),
                Ok(value) => {
                    let (st, s2) = mk_stmt(v.1, token_span(file, t), PStmtKind::Return(value));
                    (Ok(st), s2)
                },
            }
        } else if k == TokenType::Break {
            let (st, s2) = mk_stmt(advance(toks, s0), token_span(file, t), PStmtKind::Break);
            (Ok(st), s2)
        } else if k == TokenType::Continue {
            let (st, s2) = mk_stmt(advance(toks, s0), token_span(file, t), PStmtKind::Continue);
            (Ok(st), s2)
        } else {
            let r = p_expression(toks, file, s0);
            match r.0 {
                Err(e) => (Err(e), r.1),
                Ok(e) => if !moved(toks, s0, r.1) {
                    (Err(ParseErrorView::UnexpectedEof), r.1)
                } else if check(toks, r.1, TokenType::Unless) {
                    let c = p_expression(toks, file, advance(toks, r.1));
                    match c.0 {
                        Err(er) => (Err(er), c.1),
                        Ok(cond) => {
                            let (body, s2) = mk_stmt(c.1, e.span, PStmtKind::Expression(e));
                            let (st, s3) = mk_stmt(
                                s2,
                                between(file, body.span, cond.span),
                                PStmtKind::Unless { condition: cond, body: seq![body] },
                            );
                            (Ok(st), s3)
                        },
                    }
                } else if check(toks, r.1, TokenType::Is) {
                    let v = p_expression(toks, file, advance(toks, r.1));
                    match v.0 {
                        Err(er) => (Err(er), v.1),
                        Ok(value) => {
                            let (st, s2) = mk_stmt(v.1, between(file, e.span, value.span), PStmtKind::Assignment { target: e, value });
                            (Ok(st), s2)
                        },
                    }
                } else {
                    let (st, s2) = mk_stmt(r.1, e.span, PStmtKind::Expression(e));
                    (Ok(st), skip_newlines(toks, s2))
                },
            }
        }
    }
}

/// The statements of a program from `s` on, after those in `acc`.
pub open spec fn p_statements(toks: Seq<TokenView>, file: Seq<char>, s: PState, acc: Seq<PStmt>) -> PR<Seq<PStmt>>
    decreases left(toks, s), 300nat,
{
    if at_end(toks, s) {
        (Ok(acc), s)
    } else {
        let s1 = skip_layout(toks, skip_newlines(toks, s));
        if !moved(toks, s, s1) {
            (Err(ParseErrorView::UnexpectedEof), s1)
        } else if at_end(toks, s1) {
            (Ok(acc), s1)
        } else {
            let r = p_statement(toks, file, s1);
            match r.0 {
                Err(e) => (Err(e), r.1),
                Ok(st) => if moved(toks, s, r.1) && s.pos < r.1.pos {
                    p_statements(toks, file, r.1, acc.push(st))
                } else {
                    (Ok(acc.push(st)), r.1)
                },
            }
        }
    }
}

/// A whole program: its statements, and the span from the first token to the end of the last
/// statement (to the end of the first token when there is none).
pub open spec fn p_program(toks: Seq<TokenView>, file: Seq<char>, s: PState) -> PR<(Seq<PStmt>, SpanView)> {
    let start = token_span(file, toks[s.pos]);
    let r = p_statements(toks, file, s, Seq::empty());
    match r.0 {
        Err(e) => (Err(e), r.1),
        Ok(stmts) => {
            let end = if stmts.len() == 0 { start } else { stmts.last().span };
            (Ok((stmts, between(file, start, end))), r.1)
        },
    }
}

pub open spec fn stmt_res(r: Result<Stmt, ParseError>) -> Result<PStmt, ParseErrorView> {
    match r {
        Ok(s) => Ok(stmt_view(s)),
        Err(e) => Err(e@),
    }
}

pub open spec fn stmts_res(r: Result<Vec<Stmt>, ParseError>) -> Result<Seq<PStmt>, ParseErrorView> {
    match r {
        Ok(v) => Ok(stmts_view(v@)),
        Err(e) => Err(e@),
    }
}

pub open spec fn program_res(r: Result<Program, ParseError>) -> Result<(Seq<PStmt>, SpanView), ParseErrorView> {
    match r {
        Ok(p) => Ok((stmts_view(p.statements@), p.span@)),
        Err(e) => Err(e@),
    }
}

pub open spec fn type_res(r: Result<Type, ParseError>) -> Result<TypeView, ParseErrorView> {
    match r {
        Ok(t) => Ok(t@),
        Err(e) => Err(e@),
    }
}

pub open spec fn types_res(r: Result<Vec<Type>, ParseError>) -> Result<Seq<TypeView>, ParseErrorView> {
    match r {
        Ok(v) => Ok(crate::ast::types_view(v@)),
        Err(e) => Err(e@),
    }
}

pub open spec fn params_res(r: Result<Vec<Parameter>, ParseError>) -> Result<Seq<PParam>, ParseErrorView> {
    match r {
        Ok(v) => Ok(params_view(v@)),
        Err(e) => Err(e@),
    }
}

/// A parse result as mathematical values.
pub open spec fn expr_res(r: Result<Expr, ParseError>) -> Result<PExpr, ParseErrorView> {
    match r {
        Ok(e) => Ok(expr_view(e)),
        Err(e) => Err(e@),
    }
}

pub open spec fn args_res(r: Result<Vec<Argument>, ParseError>) -> Result<Seq<PArg>, ParseErrorView> {
    match r {
        Ok(v) => Ok(args_view(v@)),
        Err(e) => Err(e@),
    }
}

pub open spec fn exprs_res(r: Result<Vec<Expr>, ParseError>) -> Result<Seq<PExpr>, ParseErrorView> {
    match r {
        Ok(v) => Ok(exprs_view(v@)),
        Err(e) => Err(e@),
    }
}

pub open spec fn pairs_res(r: Result<Vec<(Expr, Expr)>, ParseError>) -> Result<Seq<(PExpr, PExpr)>, ParseErrorView> {
    match r {
        Ok(v) => Ok(pairs_view(v@)),
        Err(e) => Err(e@),
    }
}

pub open spec fn token_res(r: Result<Token, ParseError>) -> Result<TokenView, ParseErrorView> {
    match r {
        Ok(t) => Ok(t@),
        Err(e) => Err(e@),
    }
}

/// A copy of a token.
pub fn copy_token(t: &Token) -> (r: Token)
    ensures
        r@ == t@,
{
    Token { token_type: t.token_type, lexeme: t.lexeme.clone(), line: t.line, column: t.column }
}

/// The characters of `cs` from `from` on, as a string.
fn string_from(cs: &Vec<char>, from: usize) -> (s: String)
    requires
        from <= cs.len(),
    ensures
        s@ == cs@.skip(from as int),
{
    let mut s = String::new();
    let mut i = from;
    while i < cs.len()
        invariant
            from <= i <= cs.len(),
            s@ == cs@.subrange(from as int, i as int),
        decreases cs.len() - i,
    {
        crate::text::push_char(&mut s, cs[i]);
        assert(cs@.subrange(from as int, i + 1) =~= cs@.subrange(from as int, i as int).push(cs@[i as int]));
        i = i + 1;
    }
    assert(cs@.subrange(from as int, cs.len() as int) =~= cs@.skip(from as int));
    s
}

/// The value of an integer literal.
fn integer_value_of(lex: &String) -> (r: Result<i64, String>)
    ensures
        match r {
            Ok(v) => integer_value(lex@) == Ok::<i64, Seq<char>>(v),
            Err(m) => integer_value(lex@) == Err::<i64, Seq<char>>(m@),
        },
{
    let cs = crate::lexer::collect_chars(lex.as_str());
    if cs.len() >= 2 && cs[0] == '0' && (cs[1] == 'x' || cs[1] == 'X') {
        let rest = string_from(&cs, 2);
        from_str_radix(rest.as_str(), 16)
    } else if cs.len() >= 1 && cs[0] == 'b' {
        let rest = string_from(&cs, 1);
        from_str_radix(rest.as_str(), 2)
    } else {
        assert(cs@.skip(0) =~= cs@);
        from_str_radix(lex.as_str(), 10)
    }
}

/// A recursive-descent parser over a token sequence.
pub struct Parser {
    tokens: Vec<Token>,
    current: usize,
    file_name: String,
    ids: IdCounter,
}

impl Parser {
    /// The tokens as mathematical values.
    pub closed spec fn toks(self) -> Seq<TokenView> {
        self.tokens@.map_values(|t: Token| t@)
    }

    /// The name of the file the spans name.
    pub closed spec fn file(self) -> Seq<char> {
        self.file_name@
    }

    /// The position and the next node identity.
    pub closed spec fn st(self) -> PState {
        PState { pos: self.current as int, next: self.ids.next }
    }

    /// The tokens end with the end of input and the position is on one of them.
    pub closed spec fn wf(self) -> bool {
        wf_tokens(self.toks()) && self.current < self.tokens.len()
    }

    pub closed spec fn same_input(self, other: Parser) -> bool {
        self.tokens@ == other.tokens@ && self.file_name@ == other.file_name@
    }

    /// A parser at the first token, handing out node identities from zero.
    pub fn new(tokens: Vec<Token>, file_name: String) -> (p: Parser)
        requires
            wf_tokens(tokens@.map_values(|t: Token| t@)),
        ensures
            p.wf(),
            p.toks() == tokens@.map_values(|t: Token| t@),
            p.file() == file_name@,
            p.st() == (PState { pos: 0, next: 0 }),
    {
        Parser { tokens, current: 0, file_name, ids: IdCounter::new() }
    }

    fn is_at_end(&self) -> (b: bool)
        requires
            self.wf(),
        ensures
            b == at_end(self.toks(), self.st()),
    {
        self.current >= self.tokens.len() || self.tokens[self.current].token_type == TokenType::Eof
    }

    fn check(&self, t: TokenType) -> (b: bool)
        requires
            self.wf(),
        ensures
            b == check(self.toks(), self.st(), t),
    {
        !self.is_at_end() && self.tokens[self.current].token_type == t
    }

    fn advance(&mut self)
        requires
            old(self).wf(),
        ensures
            final(self).wf(),
            final(self).same_input(*old(self)),
            final(self).ids == old(self).ids,
            final(self).st() == advance(old(self).toks(), old(self).st()),
    {
        if !self.is_at_end() {
            self.current = self.current + 1;
        }
    }

    fn consume(&mut self, t: TokenType, msg: &str) -> (r: Result<Token, ParseError>)
        requires
            old(self).wf(),
        ensures
            final(self).wf(),
            final(self).same_input(*old(self)),
            old(self).st().pos <= final(self).st().pos,
            (token_res(r), final(self).st()) == consume(old(self).toks(), old(self).st(), t, msg@),
    {
        if self.check(t) {
            let tok = copy_token(&self.tokens[self.current]);
            self.advance();
            Ok(tok)
        } else {
            Err(ParseError::UnexpectedToken {
                expected: String::from_str(msg),
                found: copy_token(&self.tokens[self.current]),
            })
        }
    }

    fn token_span(&self, t: &Token) -> (s: SourceSpan)
        ensures
            s@ == token_span(self.file(), t@),
    {
        let n = utf8_length(t.lexeme.as_str());
        SourceSpan {
            file: self.file_name.clone(),
            start_line: t.line as u32,
            start_col: t.column as u32,
            end_line: t.line as u32,
            end_col: (t.column as u128 + n) as u32,
        }
    }

    fn prev_span(&self) -> (s: SourceSpan)
        requires
            self.wf(),
        ensures
            s@ == prev_span(self.file(), self.toks(), self.st()),
    {
        if self.current > 0 {
            self.token_span(&self.tokens[self.current - 1])
        } else {
            self.token_span(&self.tokens[self.current])
        }
    }

    fn between(&self, a: &SourceSpan, b: &SourceSpan) -> (s: SourceSpan)
        ensures
            s@ == between(self.file(), a@, b@),
    {
        SourceSpan {
            file: self.file_name.clone(),
            start_line: a.start_line,
            start_col: a.start_col,
            end_line: b.end_line,
            end_col: b.end_col,
        }
    }

    fn new_expr(&mut self, span: SourceSpan, kind: ExprKind) -> (e: Expr)
        ensures
            e == (Expr { id: NodeId(old(self).ids.next), span, type_: Type::Unknown, kind }),
            final(self).tokens == old(self).tokens,
            final(self).file_name == old(self).file_name,
            final(self).current == old(self).current,
            final(self).ids.next == bump(old(self).ids.next),
    {
        Expr::new(&mut self.ids, span, kind)
    }

    /// Parses an expression.
    pub fn parse_expression(&mut self) -> (r: Result<Expr, ParseError>)
        requires
            old(self).wf(),
        ensures
            final(self).wf(),
            final(self).same_input(*old(self)),
            old(self).st().pos <= final(self).st().pos,
            r is Ok ==> old(self).st().pos < final(self).st().pos,
            (expr_res(r), final(self).st()) == p_expression(old(self).toks(), old(self).file(), old(self).st()),
        decreases old(self).toks().len() - old(self).st().pos, 90nat,
    {
        let cond = match self.parse_binary(0) {
            Ok(e) => e,
            Err(e) => return Err(e),
        };
        if self.check(TokenType::Question) {
            self.advance();
            let then_e = match self.parse_expression() {
                Ok(e) => e,
                Err(e) => return Err(e),
            };
            match self.consume(TokenType::Bang, "Expected '!' after ternary then branch") {
                Ok(_) => {},
                Err(e) => return Err(e),
            }
            let else_e = match self.parse_expression() {
                Ok(e) => e,
                Err(e) => return Err(e),
            };
            let span = self.between(&cond.span, &else_e.span);
            let e = self.new_expr(
                span,
                ExprKind::If { condition: Box::new(cond), then_branch: Box::new(then_e), else_branch: Some(Box::new(else_e)) },
            );
            Ok(e)
        } else {
            Ok(cond)
        }
    }

    fn level_op_at(&self, level: usize) -> (r: Option<BinaryOp>)
        requires
            self.wf(),
            level < 10,
        ensures
            r == op_at(self.toks(), self.st(), level as nat),
    {
        if self.is_at_end() {
            return None;
        }
        let t = self.tokens[self.current].token_type;
        if level == 0 {
            if t == TokenType::Or || t == TokenType::LogicalOr { Some(BinaryOp::Or) } else { None }
        } else if level == 1 {
            if t == TokenType::And || t == TokenType::LogicalAnd { Some(BinaryOp::And) } else { None }
        } else if level == 2 {
            if t == TokenType::Equals || t == TokenType::EqualEqual {
                Some(BinaryOp::Eq)
            } else if t == TokenType::BangEqual {
                Some(BinaryOp::Ne)
            } else {
                None
            }
        } else if level == 3 {
            if t == TokenType::Gt {
                Some(BinaryOp::Gt)
            } else if t == TokenType::Gte {
                Some(BinaryOp::Ge)
            } else if t == TokenType::Lt {
                Some(BinaryOp::Lt)
            } else if t == TokenType::Lte {
                Some(BinaryOp::Le)
            } else {
                None
            }
        } else if level == 4 {
            if t == TokenType::Pipe { Some(BinaryOp::BitOr) } else { None }
        } else if level == 5 {
            if t == TokenType::Caret { Some(BinaryOp::BitXor) } else { None }
        } else if level == 6 {
            if t == TokenType::Ampersand { Some(BinaryOp::BitAnd) } else { None }
        } else if level == 7 {
            if t == TokenType::LeftShift {
                Some(BinaryOp::Shl)
            } else if t == TokenType::RightShift {
                Some(BinaryOp::Shr)
            } else {
                None
            }
        } else if level == 8 {
            if t == TokenType::Plus {
                Some(BinaryOp::Add)
            } else if t == TokenType::Minus {
                Some(BinaryOp::Sub)
            } else {
                None
            }
        } else {
            if t == TokenType::Star {
                Some(BinaryOp::Mul)
            } else if t == TokenType::Slash {
                Some(BinaryOp::Div)
            } else if t == TokenType::Percent {
                Some(BinaryOp::Mod)
            } else {
                None
            }
        }
    }

    fn parse_binary(&mut self, level: usize) -> (r: Result<Expr, ParseError>)
        requires
            level <= 10,
            old(self).wf(),
        ensures
            final(self).wf(),
            final(self).same_input(*old(self)),
            old(self).st().pos <= final(self).st().pos,
            r is Ok ==> old(self).st().pos < final(self).st().pos,
            (expr_res(r), final(self).st()) == p_binary(old(self).toks(), old(self).file(), old(self).st(), level as nat),
        decreases old(self).toks().len() - old(self).st().pos, 41 - 2 * level,
    {
        if level >= 10 {
            return self.parse_unary();
        }
        let first = match self.parse_binary(level + 1) {
            Ok(e) => e,
            Err(e) => return Err(e),
        };
        self.parse_binary_rest(level, first)
    }

    fn parse_binary_rest(&mut self, level: usize, acc: Expr) -> (r: Result<Expr, ParseError>)
        requires
            level < 10,
            old(self).wf(),
        ensures
            final(self).wf(),
            final(self).same_input(*old(self)),
            old(self).st().pos <= final(self).st().pos,
            (expr_res(r), final(self).st()) == p_binary_rest(old(self).toks(), old(self).file(), old(self).st(), level as nat, expr_view(acc)),
        decreases old(self).toks().len() - old(self).st().pos, 40 - 2 * level,
    {
        match self.level_op_at(level) {
            None => Ok(acc),
            Some(op) => {
                self.advance();
                let right = match self.parse_binary(level + 1) {
                    Ok(e) => e,
                    Err(e) => return Err(e),
                };
                let span = self.between(&acc.span, &right.span);
                let e = self.new_expr(span, ExprKind::Binary { op, left: Box::new(acc), right: Box::new(right) });
                self.parse_binary_rest(level, e)
            },
        }
    }

    fn parse_unary(&mut self) -> (r: Result<Expr, ParseError>)
        requires
            old(self).wf(),
        ensures
            final(self).wf(),
            final(self).same_input(*old(self)),
            old(self).st().pos <= final(self).st().pos,
            r is Ok ==> old(self).st().pos < final(self).st().pos,
            (expr_res(r), final(self).st()) == p_unary(old(self).toks(), old(self).file(), old(self).st()),
        decreases old(self).toks().len() - old(self).st().pos, 20nat,
    {
        let op = if self.is_at_end() {
            None
        } else {
            let t = self.tokens[self.current].token_type;
            if t == TokenType::Bang {
                Some(UnaryOp::Not)
            } else if t == TokenType::Minus {
                Some(UnaryOp::Neg)
            } else if t == TokenType::Tilde {
                Some(UnaryOp::BitNot)
            } else {
                None
            }
        };
        match op {
            Some(u) => {
                self.advance();
                let operand = match self.parse_unary() {
                    Ok(e) => e,
                    Err(e) => return Err(e),
                };
                let span = self.prev_span();
                Ok(self.new_expr(span, ExprKind::Unary { op: u, operand: Box::new(operand) }))
            },
            None => self.parse_postfix(),
        }
    }

    #[verifier::rlimit(100)]
    #[verifier::spinoff_prover]
    fn parse_postfix(&mut self) -> (r: Result<Expr, ParseError>)
        requires
            old(self).wf(),
        ensures
            final(self).wf(),
            final(self).same_input(*old(self)),
            old(self).st().pos <= final(self).st().pos,
            r is Ok ==> old(self).st().pos < final(self).st().pos,
            (expr_res(r), final(self).st()) == p_postfix(old(self).toks(), old(self).file(), old(self).st()),
        decreases old(self).toks().len() - old(self).st().pos, 19nat,
    {
        let e = match self.parse_primary() {
            Ok(e) => e,
            Err(e) => return Err(e),
        };
        self.parse_postfix_rest(e)
    }

    #[verifier::rlimit(40)]
    fn parse_postfix_rest(&mut self, acc: Expr) -> (r: Result<Expr, ParseError>)
        requires
            old(self).wf(),
        ensures
            final(self).wf(),
            final(self).same_input(*old(self)),
            old(self).st().pos <= final(self).st().pos,
            (expr_res(r), final(self).st()) == p_postfix_rest(old(self).toks(), old(self).file(), old(self).st(), expr_view(acc)),
        decreases old(self).toks().len() - old(self).st().pos, 18nat,
    {
        if self.check(TokenType::LeftParen) {
            self.advance();
            let args = match self.parse_arguments() {
                Ok(a) => a,
                Err(e) => return Err(e),
            };
            match self.consume(TokenType::RightParen, "Expected ')' after arguments") {
                Ok(_) => {},
                Err(e) => return Err(e),
            }
            let span = self.prev_span();
            let e = self.new_expr(span, ExprKind::Call { callee: Box::new(acc), args });
            self.parse_postfix_rest(e)
        } else if self.check(TokenType::LeftBracket) {
            self.advance();
            let index = match self.parse_expression() {
                Ok(e) => e,
                Err(e) => return Err(e),
            };
            match self.consume(TokenType::RightBracket, "Expected ']' after index") {
                Ok(_) => {},
                Err(e) => return Err(e),
            }
            let span = self.between(&acc.span, &index.span);
            let e = self.new_expr(span, ExprKind::Index { object: Box::new(acc), index: Box::new(index) });
            self.parse_postfix_rest(e)
        } else if self.check(TokenType::Dot) {
            self.advance();
            let ft = match self.consume(TokenType::Identifier, "Expected field name or 'put' for list append") {
                Ok(t) => t,
                Err(e) => return Err(e),
            };
            if ft.lexeme == String::from_str("put") {
                proof {
                    reveal_strlit("put");
                }
                let element = match self.parse_expression() {
                    Ok(e) => e,
                    Err(e) => return Err(e),
                };
                let span = self.between(&acc.span, &element.span);
                let e = self.new_expr(span, ExprKind::ListAppend { list: Box::new(acc), element: Box::new(element) });
                self.parse_postfix_rest(e)
            } else {
                proof {
                    reveal_strlit("put");
                }
                let span = self.token_span(&ft);
                let e = self.new_expr(span, ExprKind::FieldAccess { object: Box::new(acc), field: ft.lexeme });
                self.parse_postfix_rest(e)
            }
        } else {
            Ok(acc)
        }
    }

    fn parse_arguments(&mut self) -> (r: Result<Vec<Argument>, ParseError>)
        requires
            old(self).wf(),
        ensures
            final(self).wf(),
            final(self).same_input(*old(self)),
            old(self).st().pos <= final(self).st().pos,
            (args_res(r), final(self).st()) == p_arguments(old(self).toks(), old(self).file(), old(self).st()),
        decreases old(self).toks().len() - old(self).st().pos, 100nat,
    {
        if self.check(TokenType::RightParen) {
            let v: Vec<Argument> = Vec::new();
            assert(args_view(v@) =~= Seq::<PArg>::empty());
            Ok(v)
        } else {
            let v: Vec<Argument> = Vec::new();
            assert(args_view(v@) =~= Seq::<PArg>::empty());
            self.parse_arguments_from(v)
        }
    }

    fn parse_arguments_from(&mut self, acc: Vec<Argument>) -> (r: Result<Vec<Argument>, ParseError>)
        requires
            old(self).wf(),
        ensures
            final(self).wf(),
            final(self).same_input(*old(self)),
            old(self).st().pos <= final(self).st().pos,
            (args_res(r), final(self).st()) == p_arguments_from(old(self).toks(), old(self).file(), old(self).st(), args_view(acc@)),
        decreases old(self).toks().len() - old(self).st().pos, 99nat,
    {
        let named = self.check(TokenType::Identifier) && self.current + 1 < self.tokens.len()
            && self.tokens[self.current + 1].token_type == TokenType::Colon;
        let name = if named {
            let n = self.tokens[self.current].lexeme.clone();
            self.advance();
            self.advance();
            Some(n)
        } else {
            None
        };
        let value = match self.parse_expression() {
            Ok(e) => e,
            Err(e) => return Err(e),
        };
        let span = value.span.copy();
        let mut args = acc;
        let ghost before = args@;
        args.push(Argument { name, value, span });
        assert(args@.drop_last() =~= before);
        if self.check(TokenType::Comma) {
            self.advance();
            self.parse_arguments_from(args)
        } else {
            Ok(args)
        }
    }

    fn parse_expression_list(&mut self, acc: Vec<Expr>) -> (r: Result<Vec<Expr>, ParseError>)
        requires
            old(self).wf(),
        ensures
            final(self).wf(),
            final(self).same_input(*old(self)),
            old(self).st().pos <= final(self).st().pos,
            (exprs_res(r), final(self).st()) == p_expression_list(old(self).toks(), old(self).file(), old(self).st(), exprs_view(acc@)),
        decreases old(self).toks().len() - old(self).st().pos, 99nat,
    {
        let x = match self.parse_expression() {
            Ok(e) => e,
            Err(e) => return Err(e),
        };
        let mut items = acc;
        let ghost before = items@;
        items.push(x);
        assert(items@.drop_last() =~= before);
        if self.check(TokenType::Comma) {
            self.advance();
            self.parse_expression_list(items)
        } else {
            Ok(items)
        }
    }

    fn parse_map_entries(&mut self, acc: Vec<(Expr, Expr)>) -> (r: Result<Vec<(Expr, Expr)>, ParseError>)
        requires
            old(self).wf(),
        ensures
            final(self).wf(),
            final(self).same_input(*old(self)),
            old(self).st().pos <= final(self).st().pos,
            (pairs_res(r), final(self).st()) == p_map_entries(old(self).toks(), old(self).file(), old(self).st(), pairs_view(acc@)),
        decreases old(self).toks().len() - old(self).st().pos, 99nat,
    {
        let key = match self.parse_expression() {
            Ok(e) => e,
            Err(e) => return Err(e),
        };
        match self.consume(TokenType::Colon, "Expected ':' after map key") {
            Ok(_) => {},
            Err(e) => return Err(e),
        }
        let value = match self.parse_expression() {
            Ok(e) => e,
            Err(e) => return Err(e),
        };
        let mut items = acc;
        let ghost before = items@;
        items.push((key, value));
        assert(items@.drop_last() =~= before);
        if self.check(TokenType::Comma) {
            self.advance();
            self.parse_map_entries(items)
        } else {
            Ok(items)
        }
    }

    fn literal_here(&mut self, lit: Literal) -> (r: Result<Expr, ParseError>)
        requires
            old(self).wf(),
            !at_end(old(self).toks(), old(self).st()),
        ensures
            final(self).wf(),
            final(self).same_input(*old(self)),
            old(self).st().pos <= final(self).st().pos,
            (expr_res(r), final(self).st()) == literal_at(old(self).toks(), old(self).file(), old(self).st(), lit_view(lit)),
    {
        let span = self.token_span(&self.tokens[self.current]);
        self.advance();
        Ok(self.new_expr(span, ExprKind::Literal(lit)))
    }

    fn unsupported_here(&self, what: &str) -> (r: Result<Expr, ParseError>)
        requires
            self.wf(),
        ensures
            (expr_res(r), self.st()) == unsupported(self.toks(), self.file(), self.st(), what@),
    {
        let mut message = String::from_str(what);
        message.append(" is not supported");
        Err(ParseError::InvalidSyntax { message, span: self.token_span(&self.tokens[self.current]) })
    }

    #[verifier::rlimit(100)]
    #[verifier::spinoff_prover]
    fn parse_paren(&mut self, span: SourceSpan) -> (r: Result<Expr, ParseError>)
        requires
            old(self).wf(),
        ensures
            final(self).wf(),
            final(self).same_input(*old(self)),
            old(self).st().pos <= final(self).st().pos,
            r is Ok ==> old(self).st().pos < final(self).st().pos,
            (expr_res(r), final(self).st()) == p_paren(old(self).toks(), old(self).file(), old(self).st(), span@),
        decreases old(self).toks().len() - old(self).st().pos, 95nat,
    {
        if self.check(TokenType::RightParen) {
            self.advance();
            let v: Vec<Expr> = Vec::new();
            assert(exprs_view(v@) =~= Seq::<PExpr>::empty());
            return Ok(self.new_expr(span, ExprKind::ListLiteral(v)));
        }
        let first = match self.parse_expression() {
            Ok(e) => e,
            Err(e) => return Err(e),
        };
        if self.check(TokenType::Colon) {
            self.advance();
            let value = match self.parse_expression() {
                Ok(e) => e,
                Err(e) => return Err(e),
            };
            let ghost fv = expr_view(first);
            let ghost vv = expr_view(value);
            let mut pairs: Vec<(Expr, Expr)> = Vec::new();
            pairs.push((first, value));
            assert(pairs@.drop_last() =~= Seq::<(Expr, Expr)>::empty());
            proof {
                lemma_pairs_one(pairs@);
            }
            let pairs = if self.check(TokenType::Comma) {
                self.advance();
                match self.parse_map_entries(pairs) {
                    Ok(p) => p,
                    Err(e) => return Err(e),
                }
            } else {
                pairs
            };
            match self.consume(TokenType::RightParen, "Expected ')' after map pairs") {
                Ok(_) => {},
                Err(e) => return Err(e),
            }
            Ok(self.new_expr(span, ExprKind::MapLiteral(pairs)))
        } else if self.check(TokenType::Comma) {
            self.advance();
            let ghost fv = expr_view(first);
            let mut elements: Vec<Expr> = Vec::new();
            elements.push(first);
            assert(elements@.drop_last() =~= Seq::<Expr>::empty());
            proof {
                lemma_exprs_one(elements@);
            }
            let elements = if self.check(TokenType::RightParen) {
                elements
            } else {
                match self.parse_expression_list(elements) {
                    Ok(v) => v,
                    Err(e) => return Err(e),
                }
            };
            match self.consume(TokenType::RightParen, "Expected ')' after list elements") {
                Ok(_) => {},
                Err(e) => return Err(e),
            }
            Ok(self.new_expr(span, ExprKind::ListLiteral(elements)))
        } else {
            match self.consume(TokenType::RightParen, "Expected ')' after expression") {
                Ok(_) => Ok(first),
                Err(e) => Err(e),
            }
        }
    }

    #[verifier::rlimit(60)]
    #[verifier::spinoff_prover]
    fn parse_primary(&mut self) -> (r: Result<Expr, ParseError>)
        requires
            old(self).wf(),
        ensures
            final(self).wf(),
            final(self).same_input(*old(self)),
            old(self).st().pos <= final(self).st().pos,
            r is Ok ==> old(self).st().pos < final(self).st().pos,
            (expr_res(r), final(self).st()) == p_primary(old(self).toks(), old(self).file(), old(self).st()),
        decreases old(self).toks().len() - old(self).st().pos, 17nat,
    {
        let span = self.token_span(&self.tokens[self.current]);
        let k = self.tokens[self.current].token_type;
        if self.is_at_end() {
            return Err(ParseError::UnexpectedToken {
                expected: String::from_str("expression"),
                found: copy_token(&self.tokens[self.current]),
            });
        }
        if k == TokenType::Integer {
            match integer_value_of(&self.tokens[self.current].lexeme) {
                Ok(v) => self.literal_here(Literal::Integer(v)),
                Err(m) => {
                    let mut message = String::from_str("Invalid integer literal '");
                    message.append(self.tokens[self.current].lexeme.as_str());
                    message.append("': ");
                    message.append(m.as_str());
                    self.advance();
                    Err(ParseError::InvalidSyntax { message, span })
                },
            }
        } else if k == TokenType::Float {
            self.unsupported_here("A float literal")
        } else if k == TokenType::String {
            let s = self.tokens[self.current].lexeme.clone();
            self.literal_here(Literal::String(s))
        } else if k == TokenType::InterpolatedString {
            self.unsupported_here("An interpolated string")
        } else if k == TokenType::True || k == TokenType::Yes {
            self.literal_here(Literal::Bool(true))
        } else if k == TokenType::False {
            self.literal_here(Literal::Bool(false))
        } else if k == TokenType::No {
            self.literal_here(Literal::No)
        } else if k == TokenType::Empty {
            self.literal_here(Literal::Empty)
        } else if k == TokenType::Now {
            self.literal_here(Literal::Now)
        } else if k == TokenType::Identifier {
            let name = self.tokens[self.current].lexeme.clone();
            self.advance();
            Ok(self.new_expr(span, ExprKind::Identifier(name)))
        } else if k == TokenType::LeftParen {
            self.advance();
            self.parse_paren(span)
        } else if k == TokenType::LeftBracket {
            self.advance();
            let v: Vec<Expr> = Vec::new();
            assert(exprs_view(v@) =~= Seq::<PExpr>::empty());
            let elements = if self.check(TokenType::RightBracket) {
                v
            } else {
                match self.parse_expression_list(v) {
                    Ok(v) => v,
                    Err(e) => return Err(e),
                }
            };
            match self.consume(TokenType::RightBracket, "Expected ']' after list elements") {
                Ok(_) => {},
                Err(e) => return Err(e),
            }
            Ok(self.new_expr(span, ExprKind::ListLiteral(elements)))
        } else if k == TokenType::LeftBrace {
            self.advance();
            let v: Vec<(Expr, Expr)> = Vec::new();
            assert(pairs_view(v@) =~= Seq::<(PExpr, PExpr)>::empty());
            let pairs = if self.check(TokenType::RightBrace) {
                v
            } else {
                match self.parse_map_entries(v) {
                    Ok(p) => p,
                    Err(e) => return Err(e),
                }
            };
            match self.consume(TokenType::RightBrace, "Expected '}' after map pairs") {
                Ok(_) => {},
                Err(e) => return Err(e),
            }
            Ok(self.new_expr(span, ExprKind::MapLiteral(pairs)))
        } else if k == TokenType::Dollar {
            self.advance();
            let name = String::from_str("$");
            proof {
                reveal_strlit("$");
            }
            Ok(self.new_expr(span, ExprKind::Identifier(name)))
        } else if k == TokenType::If {
            self.parse_if_expression()
        } else if k == TokenType::Fn {
            self.parse_lambda()
        } else {
            Err(ParseError::UnexpectedToken {
                expected: String::from_str("expression"),
                found: copy_token(&self.tokens[self.current]),
            })
        }
    }

    fn new_stmt(&mut self, span: SourceSpan, kind: StmtKind) -> (s: Stmt)
        ensures
            s == (Stmt { id: NodeId(old(self).ids.next), span, kind }),
            final(self).tokens == old(self).tokens,
            final(self).file_name == old(self).file_name,
            final(self).current == old(self).current,
            final(self).ids.next == bump(old(self).ids.next),
    {
        Stmt::new(&mut self.ids, span, kind)
    }

    fn skip_newlines(&mut self)
        requires
            old(self).wf(),
        ensures
            final(self).wf(),
            final(self).same_input(*old(self)),
            final(self).st() == skip_newlines(old(self).toks(), old(self).st()),
            old(self).st().pos <= final(self).st().pos,
    {
        while self.current < self.tokens.len() && self.tokens[self.current].token_type == TokenType::Newline
            invariant
                self.wf(),
                self.same_input(*old(self)),
                old(self).st().pos <= self.st().pos,
                skip_newlines(self.toks(), self.st()) == skip_newlines(old(self).toks(), old(self).st()),
            decreases self.tokens.len() - self.current,
        {
            self.current = self.current + 1;
        }
    }

    fn skip_layout(&mut self)
        requires
            old(self).wf(),
        ensures
            final(self).wf(),
            final(self).same_input(*old(self)),
            final(self).st() == skip_layout(old(self).toks(), old(self).st()),
            old(self).st().pos <= final(self).st().pos,
    {
        while self.check(TokenType::Indent) || self.check(TokenType::Dedent)
            invariant
                self.wf(),
                self.same_input(*old(self)),
                old(self).st().pos <= self.st().pos,
                skip_layout(self.toks(), self.st()) == skip_layout(old(self).toks(), old(self).st()),
            decreases self.tokens.len() - self.current,
        {
            self.advance();
        }
    }

    /// Parses a statement.
    #[verifier::rlimit(60)]
    #[verifier::spinoff_prover]
    pub fn parse_statement(&mut self) -> (r: Result<Stmt, ParseError>)
        requires
            old(self).wf(),
        ensures
            final(self).wf(),
            final(self).same_input(*old(self)),
            old(self).st().pos <= final(self).st().pos,
            r is Ok ==> old(self).st().pos < final(self).st().pos,
            (stmt_res(r), final(self).st()) == p_statement(old(self).toks(), old(self).file(), old(self).st()),
        decreases old(self).toks().len() - old(self).st().pos, 200nat,
    {
        self.skip_newlines();
        let start = copy_token(&self.tokens[self.current]);
        let k = start.token_type;
        if k == TokenType::Actor {
            return self.parse_actor();
        }
        if k == TokenType::Object || k == TokenType::Store {
            return self.parse_object(k == TokenType::Store);
        }
        if k == TokenType::Fn {
            return self.parse_function();
        }
        if k == TokenType::If {
            return self.parse_if();
        }
        if k == TokenType::Unless || k == TokenType::While || k == TokenType::Until || k == TokenType::Iterate {
            return self.parse_guarded();
        }
        if k == TokenType::Import {
            return self.parse_import();
        }
        if k == TokenType::Return {
            self.advance();
            let value = if self.check(TokenType::Newline) || self.check(TokenType::Eof) {
                None
            } else {
                match self.parse_expression() {
                    Ok(e) => Some(e),
                    Err(e) => return Err(e),
                }
            };
            let span = self.token_span(&start);
            Ok(self.new_stmt(span, StmtKind::Return(value)))
        } else if k == TokenType::Break {
            self.advance();
            let span = self.token_span(&start);
            Ok(self.new_stmt(span, StmtKind::Break))
        } else if k == TokenType::Continue {
            self.advance();
            let span = self.token_span(&start);
            Ok(self.new_stmt(span, StmtKind::Continue))
        } else {
            let e = match self.parse_expression() {
                Ok(e) => e,
                Err(er) => return Err(er),
            };
            if self.check(TokenType::Unless) {
                self.advance();
                let cond = match self.parse_expression() {
                    Ok(c) => c,
                    Err(er) => return Err(er),
                };
                let espan = e.span.copy();
                let body = self.new_stmt(espan, StmtKind::Expression(e));
                let span = self.between(&body.span, &cond.span);
                let ghost bv = stmt_view(body);
                let mut stmts: Vec<Stmt> = Vec::new();
                stmts.push(body);
                proof {
                    assert(stmts@.drop_last() =~= Seq::<Stmt>::empty());
                    assert(stmts_view(stmts@.drop_last()) =~= Seq::<PStmt>::empty());
                    assert(stmts_view(stmts@) =~= seq![bv]);
                }
                Ok(self.new_stmt(span, StmtKind::Unless { condition: cond, body: stmts }))
            } else if self.check(TokenType::Is) {
                self.advance();
                let value = match self.parse_expression() {
                    Ok(v) => v,
                    Err(er) => return Err(er),
                };
                let span = self.between(&e.span, &value.span);
                Ok(self.new_stmt(span, StmtKind::Assignment { target: e, value }))
            } else {
                let espan = e.span.copy();
                let st = self.new_stmt(espan, StmtKind::Expression(e));
                self.skip_newlines();
                Ok(st)
            }
        }
    }

    fn parse_block(&mut self) -> (r: Result<Vec<Stmt>, ParseError>)
        requires
            old(self).wf(),
        ensures
            final(self).wf(),
            final(self).same_input(*old(self)),
            old(self).st().pos <= final(self).st().pos,
            (stmts_res(r), final(self).st()) == p_block(old(self).toks(), old(self).file(), old(self).st()),
        decreases old(self).toks().len() - old(self).st().pos, 150nat,
    {
        if !self.check(TokenType::Indent) {
            return Err(ParseError::UnexpectedToken {
                expected: String::from_str("indented block"),
                found: copy_token(&self.tokens[self.current]),
            });
        }
        self.advance();
        let mut statements: Vec<Stmt> = Vec::new();
        assert(stmts_view(statements@) =~= Seq::<PStmt>::empty());
        let ghost goal = p_block_from(self.toks(), self.file(), self.st(), Seq::empty());
        assert(goal == p_block(old(self).toks(), old(self).file(), old(self).st()));
        while !self.check(TokenType::Dedent) && !self.is_at_end()
            invariant
                self.wf(),
                self.same_input(*old(self)),
                old(self).st().pos < self.st().pos,
                goal == p_block(old(self).toks(), old(self).file(), old(self).st()),
                goal == p_block_from(self.toks(), self.file(), self.st(), stmts_view(statements@)),
            ensures
                self.wf(),
                self.same_input(*old(self)),
                old(self).st().pos < self.st().pos,
                goal == p_block(old(self).toks(), old(self).file(), old(self).st()),
                goal == close_block(self.toks(), self.st(), stmts_view(statements@)),
            decreases self.tokens.len() - self.current,
        {
            let ghost s0 = self.st();
            let ghost acc = stmts_view(statements@);
            self.skip_newlines();
            assert(goal == p_block_from(self.toks(), self.file(), s0, acc));
            if self.check(TokenType::Dedent) {
                assert(goal == close_block(self.toks(), self.st(), acc));
                break;
            }
            let st = match self.parse_statement() {
                Ok(s) => s,
                Err(e) => {
                    assert(goal == (Err::<Seq<PStmt>, ParseErrorView>(e@), self.st()));
                    return Err(e);
                },
            };
            let ghost before = statements@;
            statements.push(st);
            assert(statements@.drop_last() =~= before);
        }
        assert(goal == close_block(self.toks(), self.st(), stmts_view(statements@)));
        if !self.check(TokenType::Dedent) {
            return Err(ParseError::UnexpectedToken {
                expected: String::from_str("dedent to close block"),
                found: copy_token(&self.tokens[self.current]),
            });
        }
        self.advance();
        Ok(statements)
    }

    #[verifier::rlimit(60)]
    #[verifier::spinoff_prover]
    fn parse_if(&mut self) -> (r: Result<Stmt, ParseError>)
        requires
            old(self).wf(),
            old(self).toks()[old(self).st().pos].token_type == TokenType::If,
        ensures
            final(self).wf(),
            final(self).same_input(*old(self)),
            old(self).st().pos <= final(self).st().pos,
            r is Ok ==> old(self).st().pos < final(self).st().pos,
            (stmt_res(r), final(self).st()) == p_if(old(self).toks(), old(self).file(), old(self).st()),
        decreases old(self).toks().len() - old(self).st().pos, 190nat,
    {
        let start = copy_token(&self.tokens[self.current]);
        self.advance();
        let cond = match self.parse_expression() {
            Ok(c) => c,
            Err(e) => return Err(e),
        };
        self.skip_newlines();
        let then_branch = match self.parse_block() {
            Ok(b) => b,
            Err(e) => return Err(e),
        };
        let else_branch = if self.check(TokenType::Else) {
            self.advance();
            self.skip_newlines();
            if self.check(TokenType::If) {
                let nested = match self.parse_if() {
                    Ok(n) => n,
                    Err(e) => return Err(e),
                };
                let ghost nv = stmt_view(nested);
                let mut v: Vec<Stmt> = Vec::new();
                v.push(nested);
                proof {
                    assert(v@.drop_last() =~= Seq::<Stmt>::empty());
                    assert(stmts_view(v@.drop_last()) =~= Seq::<PStmt>::empty());
                    assert(stmts_view(v@) =~= seq![nv]);
                }
                Some(v)
            } else {
                match self.parse_block() {
                    Ok(b) => Some(b),
                    Err(e) => return Err(e),
                }
            }
        } else {
            None
        };
        let span = self.token_span(&start);
        Ok(self.new_stmt(span, StmtKind::If { condition: cond, then_branch, else_branch }))
    }

    #[verifier::rlimit(40)]
    fn parse_guarded(&mut self) -> (r: Result<Stmt, ParseError>)
        requires
            old(self).wf(),
            !at_end(old(self).toks(), old(self).st()),
        ensures
            final(self).wf(),
            final(self).same_input(*old(self)),
            old(self).st().pos <= final(self).st().pos,
            r is Ok ==> old(self).st().pos < final(self).st().pos,
            (stmt_res(r), final(self).st()) == p_guarded(old(self).toks(), old(self).file(), old(self).st()),
        decreases old(self).toks().len() - old(self).st().pos, 190nat,
    {
        let start = copy_token(&self.tokens[self.current]);
        let k = start.token_type;
        self.advance();
        let cond = match self.parse_expression() {
            Ok(c) => c,
            Err(e) => return Err(e),
        };
        self.skip_newlines();
        let body = match self.parse_block() {
            Ok(b) => b,
            Err(e) => return Err(e),
        };
        let kind = if k == TokenType::Unless {
            StmtKind::Unless { condition: cond, body }
        } else if k == TokenType::While {
            StmtKind::While { condition: cond, body }
        } else if k == TokenType::Until {
            StmtKind::Until { condition: cond, body }
        } else {
            StmtKind::Iterate { iterable: cond, body }
        };
        let span = self.token_span(&start);
        Ok(self.new_stmt(span, kind))
    }

    fn parse_import(&mut self) -> (r: Result<Stmt, ParseError>)
        requires
            old(self).wf(),
            !at_end(old(self).toks(), old(self).st()),
        ensures
            final(self).wf(),
            final(self).same_input(*old(self)),
            old(self).st().pos <= final(self).st().pos,
            r is Ok ==> old(self).st().pos < final(self).st().pos,
            (stmt_res(r), final(self).st()) == p_import(old(self).toks(), old(self).file(), old(self).st()),
    {
        let start = copy_token(&self.tokens[self.current]);
        self.advance();
        let module = match self.consume(TokenType::String, "Expected module name") {
            Ok(m) => m,
            Err(e) => return Err(e),
        };
        let items = if self.check(TokenType::LeftBrace) {
            self.advance();
            let mut names: Vec<String> = Vec::new();
            if !self.check(TokenType::RightBrace) {
                let ghost goal = p_import_items(self.toks(), self.st(), Seq::empty());
                let ghost whole = p_import(old(self).toks(), old(self).file(), old(self).st());
                assert(names_view(names@) =~= Seq::<Seq<char>>::empty());
                assert(whole == match goal.0 {
                    Err(e) => (Err(e), goal.1),
                    Ok(names) => {
                        let c = consume(old(self).toks(), goal.1, TokenType::RightBrace, "Expected '}' after import items"@);
                        match c.0 {
                            Err(e) => (Err::<PStmt, ParseErrorView>(e), c.1),
                            Ok(_) => {
                                let (st, s3) = mk_stmt(
                                    c.1,
                                    token_span(old(self).file(), start@),
                                    PStmtKind::Import { module: module@.lexeme, items: Some(names) },
                                );
                                (Ok(st), s3)
                            },
                        }
                    },
                });
                loop
                    invariant_except_break
                        goal == p_import_items(self.toks(), self.st(), names_view(names@)),
                    invariant
                        self.wf(),
                        self.same_input(*old(self)),
                        old(self).st().pos < self.st().pos,
                        whole == p_import(old(self).toks(), old(self).file(), old(self).st()),
                        whole == match goal.0 {
                            Err(e) => (Err(e), goal.1),
                            Ok(names) => {
                                let c = consume(old(self).toks(), goal.1, TokenType::RightBrace, "Expected '}' after import items"@);
                                match c.0 {
                                    Err(e) => (Err::<PStmt, ParseErrorView>(e), c.1),
                                    Ok(_) => {
                                        let (st, s3) = mk_stmt(
                                            c.1,
                                            token_span(old(self).file(), start@),
                                            PStmtKind::Import { module: module@.lexeme, items: Some(names) },
                                        );
                                        (Ok(st), s3)
                                    },
                                }
                            },
                        },
                    ensures
                        self.wf(),
                        self.same_input(*old(self)),
                        old(self).st().pos < self.st().pos,
                        goal == (Ok::<Seq<Seq<char>>, ParseErrorView>(names_view(names@)), self.st()),
                    decreases self.tokens.len() - self.current,
                {
                    let ghost s0 = self.st();
                    let ghost acc = names_view(names@);
                    let item = match self.consume(TokenType::Identifier, "Expected import item") {
                        Ok(i) => i,
                        Err(e) => {
                            assert(goal == (Err::<Seq<Seq<char>>, ParseErrorView>(e@), self.st()));
                            return Err(e);
                        },
                    };
                    let ghost iv = item.lexeme@;
                    let ghost before = names@;
                    names.push(item.lexeme);
                    assert(names_view(names@) =~= acc.push(iv));
                    if !self.check(TokenType::Comma) {
                        assert(goal == (Ok::<Seq<Seq<char>>, ParseErrorView>(names_view(names@)), self.st()));
                        break;
                    }
                    self.advance();
                }
            } else {
                assert(names_view(names@) =~= Seq::<Seq<char>>::empty());
            }
            match self.consume(TokenType::RightBrace, "Expected '}' after import items") {
                Ok(_) => {},
                Err(e) => return Err(e),
            }
            Some(names)
        } else {
            None
        };
        let span = self.token_span(&start);
        Ok(self.new_stmt(span, StmtKind::Import { module: module.lexeme, items }))
    }

    fn named_type(name: &String) -> (t: Type)
        ensures
            t@ == named_type(name@),
    {
        proof {
            reveal_strlit("i8");
            reveal_strlit("i16");
            reveal_strlit("i32");
            reveal_strlit("i64");
            reveal_strlit("f32");
            reveal_strlit("f64");
            reveal_strlit("bool");
            reveal_strlit("string");
            reveal_strlit("unit");
        }
                if *name == String::from_str("i8") {
            Type::I8
        } else if *name == String::from_str("i16") {
            Type::I16
        } else if *name == String::from_str("i32") {
            Type::I32
        } else if *name == String::from_str("i64") {
            Type::I64
        } else if *name == String::from_str("f32") {
            Type::F32
        } else if *name == String::from_str("f64") {
            Type::F64
        } else if *name == String::from_str("bool") {
            Type::Bool
        } else if *name == String::from_str("string") {
            Type::String
        } else if *name == String::from_str("unit") {
            Type::Unit
        } else {
            let fields: Vec<(String, Type)> = Vec::new();
            assert(crate::ast::fields_view(fields@) =~= Seq::<(Seq<char>, TypeView)>::empty());
            Type::Object { name: name.clone(), fields }
        }
    }

    /// Parses a type.
    pub fn parse_type(&mut self) -> (r: Result<Type, ParseError>)
        requires
            old(self).wf(),
        ensures
            final(self).wf(),
            final(self).same_input(*old(self)),
            old(self).st().pos <= final(self).st().pos,
            r is Ok ==> old(self).st().pos < final(self).st().pos,
            (type_res(r), final(self).st()) == p_type(old(self).toks(), old(self).st()),
        decreases old(self).toks().len() - old(self).st().pos, 1nat,
    {
        if self.is_at_end() {
            return Err(ParseError::UnexpectedToken { expected: String::from_str("type"), found: copy_token(&self.tokens[self.current]) });
        }
        let k = self.tokens[self.current].token_type;
        if k == TokenType::Identifier {
            let t = Self::named_type(&self.tokens[self.current].lexeme);
            self.advance();
            Ok(t)
        } else if k == TokenType::LeftParen {
            self.advance();
            if self.check(TokenType::RightParen) {
                self.advance();
                let u = Type::Unknown;
                assert(u@ == TypeView::Unknown);
                let l = Type::List(Box::new(u));
                assert(l@ == TypeView::List(Box::new(TypeView::Unknown)));
                return Ok(l);
            }
            let first = match self.parse_type() {
                Ok(t) => t,
                Err(e) => return Err(e),
            };
            if self.check(TokenType::Colon) {
                self.advance();
                let value = match self.parse_type() {
                    Ok(t) => t,
                    Err(e) => return Err(e),
                };
                match self.consume(TokenType::RightParen, "Expected ')' after map types") {
                    Ok(_) => Ok(Type::MapOf(Box::new(first), Box::new(value))),
                    Err(e) => Err(e),
                }
            } else {
                match self.consume(TokenType::RightParen, "Expected ')' after list element type") {
                    Ok(_) => Ok(Type::List(Box::new(first))),
                    Err(e) => Err(e),
                }
            }
        } else if k == TokenType::Fn {
            self.advance();
            match self.consume(TokenType::LeftParen, "Expected '(' after 'fn' in function type") {
                Ok(_) => {},
                Err(e) => return Err(e),
            }
            let params: Vec<Type> = if self.check(TokenType::RightParen) {
                let v: Vec<Type> = Vec::new();
                assert(crate::ast::types_view(v@) =~= Seq::<TypeView>::empty());
                v
            } else {
                let v: Vec<Type> = Vec::new();
                assert(crate::ast::types_view(v@) =~= Seq::<TypeView>::empty());
                match self.parse_type_list(v) {
                    Ok(v) => v,
                    Err(e) => return Err(e),
                }
            };
            match self.consume(TokenType::RightParen, "Expected ')' after function parameters") {
                Ok(_) => {},
                Err(e) => return Err(e),
            }
            match self.consume(TokenType::Arrow, "Expected '->' after function parameters") {
                Ok(_) => {},
                Err(e) => return Err(e),
            }
            let ret = match self.parse_type() {
                Ok(t) => t,
                Err(e) => return Err(e),
            };
            Ok(Type::Function { params, return_type: Box::new(ret) })
        } else {
            Err(ParseError::UnexpectedToken { expected: String::from_str("type"), found: copy_token(&self.tokens[self.current]) })
        }
    }

    fn parse_type_list(&mut self, acc: Vec<Type>) -> (r: Result<Vec<Type>, ParseError>)
        requires
            old(self).wf(),
        ensures
            final(self).wf(),
            final(self).same_input(*old(self)),
            old(self).st().pos <= final(self).st().pos,
            (types_res(r), final(self).st()) == p_type_list(old(self).toks(), old(self).st(), crate::ast::types_view(acc@)),
        decreases old(self).toks().len() - old(self).st().pos, 2nat,
    {
        let ty = match self.parse_type() {
            Ok(t) => t,
            Err(e) => return Err(e),
        };
        let mut items = acc;
        let ghost before = items@;
        items.push(ty);
        assert(items@.drop_last() =~= before);
        if self.check(TokenType::Comma) {
            self.advance();
            self.parse_type_list(items)
        } else {
            Ok(items)
        }
    }

    fn parse_params_from(&mut self, acc: Vec<Parameter>) -> (r: Result<Vec<Parameter>, ParseError>)
        requires
            old(self).wf(),
        ensures
            final(self).wf(),
            final(self).same_input(*old(self)),
            old(self).st().pos <= final(self).st().pos,
            r is Ok ==> old(self).st().pos < final(self).st().pos,
            (params_res(r), final(self).st()) == p_params_from(old(self).toks(), old(self).file(), old(self).st(), params_view(acc@)),
        decreases old(self).toks().len() - old(self).st().pos, 100nat,
    {
        let name = match self.consume(TokenType::Identifier, "Expected parameter name") {
            Ok(n) => n,
            Err(e) => return Err(e),
        };
        let type_ = if self.check(TokenType::Colon) {
            self.advance();
            match self.parse_type() {
                Ok(t) => t,
                Err(e) => return Err(e),
            }
        } else {
            Type::Unknown
        };
        let default_value = if self.check(TokenType::Question) {
            self.advance();
            match self.parse_expression() {
                Ok(e) => Some(e),
                Err(e) => return Err(e),
            }
        } else {
            None
        };
        let span = self.token_span(&name);
        let mut items = acc;
        let ghost before = items@;
        items.push(Parameter { name: name.lexeme, type_, default_value, span });
        assert(items@.drop_last() =~= before);
        if self.check(TokenType::Comma) {
            self.advance();
            self.parse_params_from(items)
        } else {
            Ok(items)
        }
    }

    #[verifier::rlimit(60)]
    #[verifier::spinoff_prover]
    fn parse_function(&mut self) -> (r: Result<Stmt, ParseError>)
        requires
            old(self).wf(),
            !at_end(old(self).toks(), old(self).st()),
        ensures
            final(self).wf(),
            final(self).same_input(*old(self)),
            old(self).st().pos <= final(self).st().pos,
            r is Ok ==> old(self).st().pos < final(self).st().pos,
            (stmt_res(r), final(self).st()) == p_function(old(self).toks(), old(self).file(), old(self).st()),
        decreases old(self).toks().len() - old(self).st().pos, 190nat,
    {
        let start = copy_token(&self.tokens[self.current]);
        self.advance();
        let name = match self.consume(TokenType::Identifier, "Expected function name") {
            Ok(n) => n,
            Err(e) => return Err(e),
        };
        match self.consume(TokenType::LeftParen, "Expected '(' after function name") {
            Ok(_) => {},
            Err(e) => return Err(e),
        }
        let v: Vec<Parameter> = Vec::new();
        assert(params_view(v@) =~= Seq::<PParam>::empty());
        let params = if self.check(TokenType::RightParen) {
            v
        } else {
            match self.parse_params_from(v) {
                Ok(p) => p,
                Err(e) => return Err(e),
            }
        };
        match self.consume(TokenType::RightParen, "Expected ')' after parameters") {
            Ok(_) => {},
            Err(e) => return Err(e),
        }
        let return_type = if self.check(TokenType::Arrow) {
            self.advance();
            match self.parse_type() {
                Ok(t) => Some(t),
                Err(e) => return Err(e),
            }
        } else {
            None
        };
        self.skip_newlines();
        let body = match self.parse_block() {
            Ok(b) => b,
            Err(e) => return Err(e),
        };
        let span = self.token_span(&start);
        Ok(self.new_stmt(span, StmtKind::Function { name: name.lexeme, params, return_type, body }))
    }

    #[verifier::rlimit(60)]
    #[verifier::spinoff_prover]
    fn parse_object(&mut self, store: bool) -> (r: Result<Stmt, ParseError>)
        requires
            old(self).wf(),
            !at_end(old(self).toks(), old(self).st()),
        ensures
            final(self).wf(),
            final(self).same_input(*old(self)),
            old(self).st().pos <= final(self).st().pos,
            r is Ok ==> old(self).st().pos < final(self).st().pos,
            (stmt_res(r), final(self).st()) == p_object(old(self).toks(), old(self).file(), old(self).st(), store),
        decreases old(self).toks().len() - old(self).st().pos, 190nat,
    {
        let start = copy_token(&self.tokens[self.current]);
        self.advance();
        let name = if store {
            match self.consume(TokenType::Identifier, "Expected store name") {
                Ok(n) => n,
                Err(e) => return Err(e),
            }
        } else {
            match self.consume(TokenType::Identifier, "Expected object name") {
                Ok(n) => n,
                Err(e) => return Err(e),
            }
        };
        if store {
            self.skip_newlines();
        } else {
            match self.consume(TokenType::Newline, "Expected newline after object name") {
                Ok(_) => {},
                Err(e) => return Err(e),
            }
        }
        if !self.check(TokenType::Indent) {
            return Err(
                ParseError::UnexpectedToken {
                    expected: String::from_str("indented block"),
                    found: copy_token(&self.tokens[self.current]),
                },
            );
        }
        self.advance();
        let fields: Vec<Field> = Vec::new();
        let methods: Vec<ObjectMethod> = Vec::new();
        assert(fields_view(fields@) =~= Seq::<PField>::empty());
        assert(methods_view(methods@) =~= Seq::<PMethod>::empty());
        let (fields, methods) = match self.parse_members_from(fields, methods) {
            Ok(m) => m,
            Err(e) => return Err(e),
        };
        let span = self.token_span(&start);
        if store {
            Ok(self.new_stmt(span, StmtKind::Store { name: name.lexeme, fields, methods }))
        } else {
            Ok(self.new_stmt(span, StmtKind::Object { name: name.lexeme, fields, methods }))
        }
    }

    fn close_members(&mut self, fields: Vec<Field>, methods: Vec<ObjectMethod>) -> (r: Result<
        (Vec<Field>, Vec<ObjectMethod>),
        ParseError,
    >)
        requires
            old(self).wf(),
        ensures
            final(self).wf(),
            final(self).same_input(*old(self)),
            old(self).st().pos <= final(self).st().pos,
            (members_res(r), final(self).st()) == close_members(
                old(self).toks(),
                old(self).st(),
                fields_view(fields@),
                methods_view(methods@),
            ),
    {
        if self.check(TokenType::Dedent) {
            self.advance();
            Ok((fields, methods))
        } else {
            Err(
                ParseError::UnexpectedToken {
                    expected: String::from_str("dedent to close block"),
                    found: copy_token(&self.tokens[self.current]),
                },
            )
        }
    }

    #[verifier::rlimit(100)]
    #[verifier::spinoff_prover]
    fn parse_members_from(&mut self, fields: Vec<Field>, methods: Vec<ObjectMethod>) -> (r: Result<
        (Vec<Field>, Vec<ObjectMethod>),
        ParseError,
    >)
        requires
            old(self).wf(),
        ensures
            final(self).wf(),
            final(self).same_input(*old(self)),
            old(self).st().pos <= final(self).st().pos,
            (members_res(r), final(self).st()) == p_members_from(
                old(self).toks(),
                old(self).file(),
                old(self).st(),
                fields_view(fields@),
                methods_view(methods@),
            ),
        decreases old(self).toks().len() - old(self).st().pos, 195nat,
    {
        let ghost toks = old(self).toks();
        let ghost file = old(self).file();
        let ghost s0 = old(self).st();
        let ghost fv = fields_view(fields@);
        let ghost mv = methods_view(methods@);
        if !self.check(TokenType::Dedent) && !self.is_at_end() {
            self.skip_newlines();
            let ghost s1 = self.st();
            assert(moved(toks, s0, s1));
            if self.check(TokenType::Dedent) {
                return self.close_members(fields, methods);
            }
            if self.check(TokenType::Fn) {
                let f = match self.parse_function() {
                    Ok(f) => f,
                    Err(e) => return Err(e),
                };
                assert(later(toks, s0, self.st()));
                let ghost fvw = stmt_view(f);
                assert(p_function(toks, file, s1) == (Ok::<PStmt, ParseErrorView>(fvw), self.st()));
                match method_of(f) {
                    Some(me) => {
                        let ms = push_method(methods, me);
                        self.parse_members_from(fields, ms)
                    },
                    None => Err(ParseError::UnexpectedEof),
                }
            } else {
                let m = match self.parse_member() {
                    Ok(m) => m,
                    Err(e) => return Err(e),
                };
                let ghost sm = self.st();
                assert(p_member(toks, file, s1) == (member_res(Ok::<Member, ParseError>(m)), sm));
                self.skip_newlines();
                assert(later(toks, s0, self.st()));
                match m {
                    Member::Field(fl) => {
                        let fs = push_field(fields, fl);
                        self.parse_members_from(fs, methods)
                    },
                    Member::Method(me) => {
                        let ms = push_method(methods, me);
                        self.parse_members_from(fields, ms)
                    },
                }
            }
        } else {
            self.close_members(fields, methods)
        }
    }

    #[verifier::rlimit(60)]
    #[verifier::spinoff_prover]
    fn parse_member(&mut self) -> (r: Result<Member, ParseError>)
        requires
            old(self).wf(),
        ensures
            final(self).wf(),
            final(self).same_input(*old(self)),
            old(self).st().pos <= final(self).st().pos,
            r is Ok ==> old(self).st().pos < final(self).st().pos,
            (member_res(r), final(self).st()) == p_member(old(self).toks(), old(self).file(), old(self).st()),
        decreases old(self).toks().len() - old(self).st().pos, 180nat,
    {
        let name = match self.consume(TokenType::Identifier, "Expected field or method name") {
            Ok(n) => n,
            Err(e) => return Err(e),
        };
        let span = self.token_span(&name);
        if self.check(TokenType::Colon) {
            self.advance();
            let ty = match self.parse_type() {
                Ok(t) => t,
                Err(e) => return Err(e),
            };
            if self.check(TokenType::Question) {
                self.advance();
                let d = match self.parse_expression() {
                    Ok(d) => d,
                    Err(e) => return Err(e),
                };
                Ok(Member::Field(Field { name: name.lexeme, type_: ty, default_value: Some(d), span }))
            } else {
                Ok(Member::Field(Field { name: name.lexeme, type_: ty, default_value: None, span }))
            }
        } else if self.check(TokenType::Question) {
            self.advance();
            let d = match self.parse_expression() {
                Ok(d) => d,
                Err(e) => return Err(e),
            };
            Ok(Member::Field(Field { name: name.lexeme, type_: Type::Unknown, default_value: Some(d), span }))
        } else if self.check(TokenType::LeftParen) {
            match self.parse_method_rest(name, span) {
                Ok(m) => Ok(Member::Method(m)),
                Err(e) => Err(e),
            }
        } else {
            Ok(Member::Field(Field { name: name.lexeme, type_: Type::Unknown, default_value: None, span }))
        }
    }

    #[verifier::rlimit(60)]
    #[verifier::spinoff_prover]
    fn parse_method_rest(&mut self, name: Token, span: SourceSpan) -> (r: Result<ObjectMethod, ParseError>)
        requires
            old(self).wf(),
            check(old(self).toks(), old(self).st(), TokenType::LeftParen),
        ensures
            final(self).wf(),
            final(self).same_input(*old(self)),
            old(self).st().pos <= final(self).st().pos,
            r is Ok ==> old(self).st().pos < final(self).st().pos,
            (method_res(r), final(self).st()) == p_method_rest(old(self).toks(), old(self).file(), old(self).st(), name@, span@),
        decreases old(self).toks().len() - old(self).st().pos, 170nat,
    {
        self.advance();
        let v: Vec<Parameter> = Vec::new();
        assert(params_view(v@) =~= Seq::<PParam>::empty());
        let params = if self.check(TokenType::RightParen) {
            v
        } else {
            match self.parse_params_from(v) {
                Ok(p) => p,
                Err(e) => return Err(e),
            }
        };
        match self.consume(TokenType::RightParen, "Expected ')' after parameters") {
            Ok(_) => {},
            Err(e) => return Err(e),
        }
        let return_type = if self.check(TokenType::Arrow) {
            self.advance();
            match self.parse_type() {
                Ok(t) => Some(t),
                Err(e) => return Err(e),
            }
        } else {
            None
        };
        match self.consume(TokenType::Colon, "Expected ':' before method body") {
            Ok(_) => {},
            Err(e) => return Err(e),
        }
        self.skip_newlines();
        let body = match self.parse_block() {
            Ok(b) => b,
            Err(e) => return Err(e),
        };
        Ok(ObjectMethod { name: name.lexeme, params, return_type, body, span })
    }

    /// The span from `sp` to the end of the last statement of `body`, or of `sp` when it has none.
    fn body_end(&self, sp: &SourceSpan, body: &Vec<Stmt>) -> (s: SourceSpan)
        ensures
            s@ == body_end(self.file(), sp@, stmts_view(body@)),
    {
        if body.len() > 0 {
            let last = &body[body.len() - 1];
            proof {
                assert(stmts_view(body@) == stmts_view(body@.drop_last()).push(stmt_view(body@.last())));
            }
            self.between(sp, &last.span)
        } else {
            self.between(sp, sp)
        }
    }

    #[verifier::rlimit(60)]
    #[verifier::spinoff_prover]
    fn parse_actor(&mut self) -> (r: Result<Stmt, ParseError>)
        requires
            old(self).wf(),
            !at_end(old(self).toks(), old(self).st()),
        ensures
            final(self).wf(),
            final(self).same_input(*old(self)),
            old(self).st().pos <= final(self).st().pos,
            r is Ok ==> old(self).st().pos < final(self).st().pos,
            (stmt_res(r), final(self).st()) == p_actor(old(self).toks(), old(self).file(), old(self).st()),
        decreases old(self).toks().len() - old(self).st().pos, 190nat,
    {
        let start = copy_token(&self.tokens[self.current]);
        self.advance();
        let name = match self.consume(TokenType::Identifier, "Expected actor name") {
            Ok(n) => n,
            Err(e) => return Err(e),
        };
        self.skip_newlines();
        if !self.check(TokenType::Indent) {
            return Err(
                ParseError::UnexpectedToken {
                    expected: String::from_str("indented block"),
                    found: copy_token(&self.tokens[self.current]),
                },
            );
        }
        self.advance();
        let fields: Vec<Field> = Vec::new();
        let handlers: Vec<MessageHandler> = Vec::new();
        assert(fields_view(fields@) =~= Seq::<PField>::empty());
        assert(handlers_view(handlers@) =~= Seq::<PHandler>::empty());
        let (fields, handlers) = match self.parse_actor_from(fields, handlers) {
            Ok(m) => m,
            Err(e) => return Err(e),
        };
        let span = self.token_span(&start);
        Ok(self.new_stmt(span, StmtKind::Actor { name: name.lexeme, fields, handlers }))
    }

    #[verifier::rlimit(100)]
    #[verifier::spinoff_prover]
    fn parse_actor_from(&mut self, fields: Vec<Field>, handlers: Vec<MessageHandler>) -> (r: Result<
        (Vec<Field>, Vec<MessageHandler>),
        ParseError,
    >)
        requires
            old(self).wf(),
        ensures
            final(self).wf(),
            final(self).same_input(*old(self)),
            old(self).st().pos <= final(self).st().pos,
            (actor_res(r), final(self).st()) == p_actor_from(
                old(self).toks(),
                old(self).file(),
                old(self).st(),
                fields_view(fields@),
                handlers_view(handlers@),
            ),
        decreases old(self).toks().len() - old(self).st().pos, 196nat,
    {
        let ghost toks = old(self).toks();
        let ghost file = old(self).file();
        let ghost s0 = old(self).st();
        if !self.check(TokenType::Dedent) && !self.is_at_end() {
            self.skip_newlines();
            let ghost s1 = self.st();
            assert(moved(toks, s0, s1));
            if self.check(TokenType::Dedent) || self.is_at_end() {
                return self.finish_actor(fields, handlers);
            }
            if self.check(TokenType::At) {
                let h = match self.parse_handler() {
                    Ok(h) => h,
                    Err(e) => return Err(e),
                };
                let ghost sh = self.st();
                assert(p_handler(toks, file, s1) == (handler_res(Ok::<MessageHandler, ParseError>(h)), sh));
                self.skip_newlines();
                assert(later(toks, s0, self.st()));
                let hs = push_handler(handlers, h);
                self.parse_actor_from(fields, hs)
            } else {
                let m = match self.parse_actor_member() {
                    Ok(m) => m,
                    Err(e) => return Err(e),
                };
                let ghost sm = self.st();
                assert(p_actor_member(toks, file, s1) == (member_res(Ok::<Member, ParseError>(m)), sm));
                self.skip_newlines();
                assert(later(toks, s0, self.st()));
                match m {
                    Member::Field(fl) => {
                        let fs = push_field(fields, fl);
                        self.parse_actor_from(fs, handlers)
                    },
                    Member::Method(_) => self.parse_actor_from(fields, handlers),
                }
            }
        } else {
            self.finish_actor(fields, handlers)
        }
    }

    fn finish_actor(&mut self, fields: Vec<Field>, handlers: Vec<MessageHandler>) -> (r: Result<
        (Vec<Field>, Vec<MessageHandler>),
        ParseError,
    >)
        requires
            old(self).wf(),
        ensures
            final(self).wf(),
            final(self).same_input(*old(self)),
            old(self).st().pos <= final(self).st().pos,
            (actor_res(r), final(self).st()) == finish_actor(
                old(self).toks(),
                old(self).st(),
                fields_view(fields@),
                handlers_view(handlers@),
            ),
    {
        if self.check(TokenType::Dedent) {
            self.advance();
        }
        Ok((fields, handlers))
    }

    #[verifier::rlimit(60)]
    #[verifier::spinoff_prover]
    fn parse_handler(&mut self) -> (r: Result<MessageHandler, ParseError>)
        requires
            old(self).wf(),
        ensures
            final(self).wf(),
            final(self).same_input(*old(self)),
            old(self).st().pos <= final(self).st().pos,
            r is Ok ==> old(self).st().pos < final(self).st().pos,
            (handler_res(r), final(self).st()) == p_handler(old(self).toks(), old(self).file(), old(self).st()),
        decreases old(self).toks().len() - old(self).st().pos, 180nat,
    {
        let at = match self.consume(TokenType::At, "Expected '@' for message handler") {
            Ok(a) => a,
            Err(e) => return Err(e),
        };
        let message_type = match self.parse_type() {
            Ok(t) => t,
            Err(e) => return Err(e),
        };
        match self.consume(TokenType::Arrow, "Expected '=>' after message type") {
            Ok(_) => {},
            Err(e) => return Err(e),
        }
        match self.consume(TokenType::Colon, "Expected ':' after '=>'") {
            Ok(_) => {},
            Err(e) => return Err(e),
        }
        self.skip_newlines();
        let body = match self.parse_block() {
            Ok(b) => b,
            Err(e) => return Err(e),
        };
        let span = self.token_span(&at);
        Ok(MessageHandler { message_type, body, span })
    }

    #[verifier::rlimit(100)]
    #[verifier::spinoff_prover]
    fn parse_actor_member(&mut self) -> (r: Result<Member, ParseError>)
        requires
            old(self).wf(),
        ensures
            final(self).wf(),
            final(self).same_input(*old(self)),
            old(self).st().pos <= final(self).st().pos,
            r is Ok ==> old(self).st().pos < final(self).st().pos,
            (member_res(r), final(self).st()) == p_actor_member(old(self).toks(), old(self).file(), old(self).st()),
        decreases old(self).toks().len() - old(self).st().pos, 185nat,
    {
        let name = match self.consume(TokenType::Identifier, "Expected field or method name") {
            Ok(n) => n,
            Err(e) => return Err(e),
        };
        let span = self.token_span(&name);
        if self.check(TokenType::Colon) {
            self.advance();
            self.skip_newlines();
            if self.check(TokenType::Indent) {
                let body = match self.parse_block() {
                    Ok(b) => b,
                    Err(e) => return Err(e),
                };
                let mspan = self.body_end(&span, &body);
                let params: Vec<Parameter> = Vec::new();
                assert(params_view(params@) =~= Seq::<PParam>::empty());
                Ok(Member::Method(ObjectMethod { name: name.lexeme, params, return_type: None, body, span: mspan }))
            } else if self.check(TokenType::Newline) {
                self.advance();
                let p = self.prev_span();
                let fspan = self.between(&span, &p);
                Ok(Member::Field(Field { name: name.lexeme, type_: Type::Unknown, default_value: None, span: fspan }))
            } else {
                let ty = match self.parse_type() {
                    Ok(t) => t,
                    Err(e) => return Err(e),
                };
                let d = if self.check(TokenType::Question) || self.check(TokenType::Equal) {
                    self.advance();
                    match self.parse_expression() {
                        Ok(d) => Some(d),
                        Err(e) => return Err(e),
                    }
                } else {
                    None
                };
                let p = self.prev_span();
                let fspan = self.between(&span, &p);
                Ok(Member::Field(Field { name: name.lexeme, type_: ty, default_value: d, span: fspan }))
            }
        } else if self.check(TokenType::Question) {
            self.advance();
            let d = match self.parse_expression() {
                Ok(d) => d,
                Err(e) => return Err(e),
            };
            let p = self.prev_span();
            let fspan = self.between(&span, &p);
            Ok(Member::Field(Field { name: name.lexeme, type_: Type::Unknown, default_value: Some(d), span: fspan }))
        } else if self.check(TokenType::LeftParen) {
            let sp2 = span.copy();
            match self.parse_method_rest(name, span) {
                Ok(m) => {
                    let mspan = self.body_end(&sp2, &m.body);
                    Ok(
                        Member::Method(
                            ObjectMethod {
                                name: m.name,
                                params: m.params,
                                return_type: m.return_type,
                                body: m.body,
                                span: mspan,
                            },
                        ),
                    )
                },
                Err(e) => Err(e),
            }
        } else {
            let p = self.prev_span();
            let fspan = self.between(&span, &p);
            Ok(Member::Field(Field { name: name.lexeme, type_: Type::Unknown, default_value: None, span: fspan }))
        }
    }

    #[verifier::rlimit(100)]
    #[verifier::spinoff_prover]
    fn parse_if_expression(&mut self) -> (r: Result<Expr, ParseError>)
        requires
            old(self).wf(),
            !at_end(old(self).toks(), old(self).st()),
        ensures
            final(self).wf(),
            final(self).same_input(*old(self)),
            old(self).st().pos <= final(self).st().pos,
            r is Ok ==> old(self).st().pos < final(self).st().pos,
            (expr_res(r), final(self).st()) == p_if_expression(old(self).toks(), old(self).file(), old(self).st()),
        decreases old(self).toks().len() - old(self).st().pos, 16nat,
    {
        let start = copy_token(&self.tokens[self.current]);
        self.advance();
        let ghost s1 = self.st();
        let cond = match self.parse_expression() {
            Ok(c) => c,
            Err(e) => return Err(e),
        };
        match self.consume(TokenType::Colon, "Expected ':' after if condition") {
            Ok(_) => {},
            Err(e) => return Err(e),
        }
        self.skip_newlines();
        assert(moved(old(self).toks(), s1, self.st()));
        let then_stmts = match self.parse_block() {
            Ok(b) => b,
            Err(e) => return Err(e),
        };
        let else_branch = if self.check(TokenType::Else) {
            self.advance();
            match self.consume(TokenType::Colon, "Expected ':' after else") {
                Ok(_) => {},
                Err(e) => return Err(e),
            }
            self.skip_newlines();
            assert(moved(old(self).toks(), s1, self.st()));
            if self.check(TokenType::If) {
                match self.parse_if_expression() {
                    Ok(n) => Some(Box::new(n)),
                    Err(e) => return Err(e),
                }
            } else {
                let else_stmts = match self.parse_block() {
                    Ok(b) => b,
                    Err(e) => return Err(e),
                };
                let span = self.prev_span();
                let ghost sb = self.st();
                let ghost ev = stmts_view(else_stmts@);
                let be = self.new_expr(span, ExprKind::Block(else_stmts));
                assert(expr_view(be) == mk_expr(sb, prev_span(old(self).file(), old(self).toks(), sb), PKind::Block(ev)).0);
                Some(Box::new(be))
            }
        } else {
            None
        };
        let span = self.token_span(&start);
        let tspan = self.token_span(&start);
        let ghost sel = self.st();
        let ghost tv = stmts_view(then_stmts@);
        let ghost cv = expr_view(cond);
        let ghost eo: Option<PExpr> = match &else_branch {
            Some(b) => Some(expr_view(**b)),
            None => None,
        };
        let tb = self.new_expr(tspan, ExprKind::Block(then_stmts));
        let ghost tbv = expr_view(tb);
        assert(tbv == mk_expr(sel, token_span(old(self).file(), start@), PKind::Block(tv)).0);
        let ghost s5 = self.st();
        let e = self.new_expr(span, ExprKind::If { condition: Box::new(cond), then_branch: Box::new(tb), else_branch });
        assert(expr_view(e) == mk_expr(
            s5,
            token_span(old(self).file(), start@),
            PKind::If {
                condition: Box::new(cv),
                then_branch: Box::new(tbv),
                else_branch: match eo {
                    Some(x) => Some(Box::new(x)),
                    None => None,
                },
            },
        ).0);
        Ok(e)
    }

    #[verifier::rlimit(100)]
    #[verifier::spinoff_prover]
    fn parse_lambda(&mut self) -> (r: Result<Expr, ParseError>)
        requires
            old(self).wf(),
            !at_end(old(self).toks(), old(self).st()),
        ensures
            final(self).wf(),
            final(self).same_input(*old(self)),
            old(self).st().pos <= final(self).st().pos,
            r is Ok ==> old(self).st().pos < final(self).st().pos,
            (expr_res(r), final(self).st()) == p_lambda(old(self).toks(), old(self).file(), old(self).st()),
        decreases old(self).toks().len() - old(self).st().pos, 16nat,
    {
        let start = copy_token(&self.tokens[self.current]);
        self.advance();
        match self.consume(TokenType::LeftParen, "Expected '(' after 'fn'") {
            Ok(_) => {},
            Err(e) => return Err(e),
        }
        let ghost so = self.st();
        let v: Vec<Parameter> = Vec::new();
        assert(params_view(v@) =~= Seq::<PParam>::empty());
        let params = if self.check(TokenType::RightParen) {
            v
        } else {
            match self.parse_params_from(v) {
                Ok(p) => p,
                Err(e) => return Err(e),
            }
        };
        match self.consume(TokenType::RightParen, "Expected ')' after parameters") {
            Ok(_) => {},
            Err(e) => return Err(e),
        }
        if self.check(TokenType::Arrow) {
            self.advance();
            let body = match self.parse_expression() {
                Ok(b) => b,
                Err(e) => return Err(e),
            };
            let span = self.token_span(&start);
            let ghost pv = params_view(params@);
            let ghost bv = expr_view(body);
            let ghost sb = self.st();
            let e = self.new_expr(span, ExprKind::Lambda { params, body: Box::new(body) });
            assert(expr_view(e) == mk_expr(sb, token_span(old(self).file(), start@), PKind::Lambda { params: pv, body: Box::new(bv) }).0);
            Ok(e)
        } else {
            let ghost sc = self.st();
            self.skip_newlines();
            let ghost s3 = self.st();
            assert(s3 == skip_newlines(old(self).toks(), sc));
            assert(moved(old(self).toks(), so, s3));
            let stmts = match self.parse_block() {
                Ok(b) => b,
                Err(e) => return Err(e),
            };
            let ghost sv = stmts_view(stmts@);
            let ghost sb = self.st();
            assert(p_block(old(self).toks(), old(self).file(), s3) == (Ok::<Seq<PStmt>, ParseErrorView>(sv), sb));
            let span = self.token_span(&start);
            let bspan = self.token_span(&start);
            let be = self.new_expr(bspan, ExprKind::Block(stmts));
            assert(expr_view(be) == mk_expr(sb, token_span(old(self).file(), start@), PKind::Block(sv)).0);
            Ok(self.new_expr(span, ExprKind::Lambda { params, body: Box::new(be) }))
        }
    }

    fn parse_statements(&mut self) -> (r: Result<Vec<Stmt>, ParseError>)
        requires
            old(self).wf(),
        ensures
            final(self).wf(),
            final(self).same_input(*old(self)),
            (stmts_res(r), final(self).st()) == p_statements(old(self).toks(), old(self).file(), old(self).st(), Seq::empty()),
    {
        let mut statements: Vec<Stmt> = Vec::new();
        assert(stmts_view(statements@) =~= Seq::<PStmt>::empty());
        while !self.is_at_end()
            invariant_except_break
                p_statements(old(self).toks(), old(self).file(), old(self).st(), Seq::empty()) == p_statements(
                    self.toks(),
                    self.file(),
                    self.st(),
                    stmts_view(statements@),
                ),
            invariant
                self.wf(),
                self.same_input(*old(self)),
            ensures
                p_statements(old(self).toks(), old(self).file(), old(self).st(), Seq::empty()) == (
                    Ok::<Seq<PStmt>, ParseErrorView>(stmts_view(statements@)),
                    self.st(),
                ),
            decreases self.tokens.len() - self.current,
        {
            let ghost s0 = self.st();
            self.skip_newlines();
            self.skip_layout();
            if self.is_at_end() {
                break;
            }
            let st = match self.parse_statement() {
                Ok(s) => s,
                Err(e) => return Err(e),
            };
            let ghost before = statements@;
            statements.push(st);
            assert(statements@.drop_last() =~= before);
        }
        Ok(statements)
    }

    /// Parses a whole program.
    pub fn parse(&mut self) -> (r: Result<Program, ParseError>)
        requires
            old(self).wf(),
        ensures
            final(self).wf(),
            final(self).same_input(*old(self)),
            (program_res(r), final(self).st()) == p_program(old(self).toks(), old(self).file(), old(self).st()),
    {
        let start = self.token_span(&self.tokens[self.current]);
        let statements = match self.parse_statements() {
            Ok(s) => s,
            Err(e) => return Err(e),
        };
        let span = if statements.len() == 0 {
            assert(stmts_view(statements@).len() == 0);
            self.between(&start, &start)
        } else {
            let last = &statements[statements.len() - 1];
            proof {
                assert(stmts_view(statements@) == stmts_view(statements@.drop_last()).push(stmt_view(statements@.last())));
                assert(stmts_view(statements@).last() == stmt_view(statements@.last()));
            }
            self.between(&start, &last.span)
        };
        Ok(Program { statements, span })
    }

    /// Parses a program; types are resolved by the resolver afterwards.
    pub fn parse_and_resolve(&mut self) -> (r: Result<Program, ParseError>)
        requires
            old(self).wf(),
        ensures
            final(self).wf(),
            final(self).same_input(*old(self)),
            (program_res(r), final(self).st()) == p_program(old(self).toks(), old(self).file(), old(self).st()),
    {
        self.parse()
    }
}


/// The method a function definition declares, when it is one.
fn method_of(f: Stmt) -> (r: Option<ObjectMethod>)
    ensures
        match stmt_view(f).kind {
            PStmtKind::Function { name, params, return_type, body } => r is Some && method_view(r->0) == (PMethod {
                name,
                params,
                return_type,
                body,
                span: stmt_view(f).span,
            }),
            _ => r is None,
        },
{
    let span = f.span;
    match f.kind {
        StmtKind::Function { name, params, return_type, body } => Some(ObjectMethod { name, params, return_type, body, span }),
        _ => None,
    }
}

fn push_method(methods: Vec<ObjectMethod>, m: ObjectMethod) -> (r: Vec<ObjectMethod>)
    ensures
        methods_view(r@) == methods_view(methods@).push(method_view(m)),
{
    let mut ms = methods;
    let ghost before = ms@;
    ms.push(m);
    assert(ms@.drop_last() =~= before);
    ms
}

fn push_handler(handlers: Vec<MessageHandler>, h: MessageHandler) -> (r: Vec<MessageHandler>)
    ensures
        handlers_view(r@) == handlers_view(handlers@).push(handler_view(h)),
{
    let mut hs = handlers;
    let ghost before = hs@;
    hs.push(h);
    assert(hs@.drop_last() =~= before);
    hs
}

fn push_field(fields: Vec<Field>, f: Field) -> (r: Vec<Field>)
    ensures
        fields_view(r@) == fields_view(fields@).push(field_view(f)),
{
    let mut fs = fields;
    let ghost before = fs@;
    fs.push(f);
    assert(fs@.drop_last() =~= before);
    fs
}

/// The parse of a source text: its tokens, parsed as a program of file `test.cor`.
pub open spec fn parse_source(input: Seq<char>) -> Result<(Seq<PStmt>, SpanView), ParseErrorView> {
    p_program(crate::lexer::lex(input), "test.cor"@, PState { pos: 0, next: 0 }).0
}

/// What semantic analysis of a parsed program reports: nothing, or the problems in order.
pub open spec fn analysis_outcome(p: Program, res: Result<(), Vec<SemanticError>>) -> bool {
    let st = stmts_check(p.statements@, 0, AnalysisState { scopes: seq![Seq::empty()], errors: Seq::empty() });
    match res {
        Ok(_) => st.errors.len() == 0,
        Err(es) => st.errors.len() > 0 && errors_view(es@) == st.errors,
    }
}

/// Lexes, parses and analyses a source text. The parse error, if any, is handed back; else the
/// parsed program as analysis leaves it (each node kept, types recorded on its expressions) and
/// what analysis found.
pub fn parse_and_analyze(input: &str) -> (r: Result<(Program, Result<(), Vec<SemanticError>>), ParseError>)
    requires
        input@.len() < usize::MAX / 8,
    ensures
        match r {
            Err(e) => parse_source(input@) == Err::<(Seq<PStmt>, SpanView), ParseErrorView>(e@),
            Ok((p, res)) => exists|pp: Program|
                parse_source(input@) == Ok::<(Seq<PStmt>, SpanView), ParseErrorView>((stmts_view(pp.statements@), pp.span@))
                    && analysis_outcome(pp, res) && stmts_kept(pp.statements@, p.statements@, 0) && p.span == pp.span,
        },
{
    let mut lexer = Lexer::new(String::from_str(input), String::from_str("test.cor"));
    let tokens = match lexer.tokenize() {
        Ok(t) => t,
        Err(m) => {
            assert(false);
            return Err(ParseError::InvalidSyntax { message: m, span: SourceSpan::default() });
        },
    };
    proof {
        crate::lexer::law_single_eof_at_end(input@);
    }
    let file = String::from_str("test.cor");
    proof {
        reveal_strlit("test.cor");
    }
    let ghost tv = tokens@;
    let mut parser = Parser::new(tokens, file);
    assert(parser.toks() =~= crate::lexer::lex(input@));
    assert(parser.file() == "test.cor"@);
    assert(parser.st() == (PState { pos: 0, next: 0 }));
    let mut program = match parser.parse_and_resolve() {
        Ok(p) => p,
        Err(e) => return Err(e),
    };
    let ghost pp = program;
    let mut analyzer = SemanticAnalyzer::new();
    proof {
        assert(errors_view(analyzer.errors@) =~= Seq::<(Seq<char>, SpanView)>::empty());
        assert(analyzer.state() == (AnalysisState { scopes: seq![Seq::empty()], errors: Seq::empty() }));
    }
    let res = analyzer.analyze(&mut program);
    assert(parse_source(input@) == Ok::<(Seq<PStmt>, SpanView), ParseErrorView>((stmts_view(pp.statements@), pp.span@)));
    assert(analysis_outcome(pp, res));
    assert(stmts_kept(pp.statements@, program.statements@, 0));
    Ok((program, res))
}


/// Tokens read as the same operator at a precedence level are the same token, up to the
/// spelled-out synonyms (`or`/`||`, `and`/`&&`, `equals`/`==`): distinct operator tokens are
/// never read as one operator.
pub proof fn law_operator_tokens_distinct(level: nat, t1: TokenType, t2: TokenType)
    requires
        level_op(level, t1) is Some,
        level_op(level, t1) == level_op(level, t2),
    ensures
        t1 == t2 || ((t1 == TokenType::Or || t1 == TokenType::LogicalOr) && (t2 == TokenType::Or || t2
            == TokenType::LogicalOr)) || ((t1 == TokenType::And || t1 == TokenType::LogicalAnd) && (t2
            == TokenType::And || t2 == TokenType::LogicalAnd)) || ((t1 == TokenType::Equals || t1
            == TokenType::EqualEqual) && (t2 == TokenType::Equals || t2 == TokenType::EqualEqual)),
{
}

} // verus!
