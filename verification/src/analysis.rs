use vstd::prelude::*;
use crate::assoc::assoc_get;
use crate::ast::{
    Expr, ExprKind, Stmt, StmtKind, Argument, Parameter, StringPart, ErrorAction, SpanView, TypeView, type_eq,
    debug_text,
};
use crate::semantic::{
    SymbolView, KindView, lookup_in_scopes, duplicate_message, literal_type_view, binary_result, unary_result,
    compatible, first_function_return,
};
use crate::text::decimal;

verus! {

/// What semantic analysis knows at a point: the scopes of declared names, innermost last,
/// and the problems found so far.
pub struct AnalysisState {
    pub scopes: Seq<Seq<(Seq<char>, SymbolView)>>,
    pub errors: Seq<(Seq<char>, SpanView)>,
}

/// A problem recorded at `span`.
pub open spec fn report(st: AnalysisState, message: Seq<char>, span: SpanView) -> AnalysisState {
    AnalysisState { errors: st.errors.push((message, span)), ..st }
}

/// A problem recorded when there is one.
pub open spec fn report_opt(st: AnalysisState, problem: Option<Seq<char>>, span: SpanView) -> AnalysisState {
    match problem {
        Some(m) => report(st, m, span),
        None => st,
    }
}

pub open spec fn enter(st: AnalysisState) -> AnalysisState {
    AnalysisState { scopes: st.scopes.push(Seq::empty()), ..st }
}

pub open spec fn exit(st: AnalysisState) -> AnalysisState {
    if st.scopes.len() > 0 {
        AnalysisState { scopes: st.scopes.drop_last(), ..st }
    } else {
        st
    }
}

/// Declares a symbol in the innermost scope; a name declared there already is a problem,
/// recorded at `span`.
pub open spec fn declare(st: AnalysisState, sym: SymbolView, span: SpanView) -> AnalysisState {
    if assoc_get(st.scopes.last(), sym.name) is Some {
        report(st, duplicate_message(sym.name), span)
    } else {
        AnalysisState { scopes: st.scopes.update(st.scopes.len() - 1, st.scopes.last().push((sym.name, sym))), ..st }
    }
}

/// A condition must be boolean; `what` names the construct in the message.
pub open spec fn check_condition(st: AnalysisState, t: TypeView, what: Seq<char>, span: SpanView) -> AnalysisState {
    if !type_eq(t, TypeView::Bool) {
        report(st, what + " condition must be boolean, found "@ + debug_text(t), span)
    } else {
        st
    }
}

pub open spec fn count_message(expected: nat, found: nat) -> Seq<char> {
    "Function call argument count mismatch: expected "@ + decimal(expected) + ", found "@ + decimal(found)
}

pub open spec fn arg_message(expected: TypeView, found: TypeView) -> Seq<char> {
    "Function call argument type mismatch: expected "@ + debug_text(expected) + ", found "@ + debug_text(found)
}

pub open spec fn assign_message(value: TypeView, target: TypeView) -> Seq<char> {
    "Assignment type mismatch: cannot assign "@ + debug_text(value) + " to "@ + debug_text(target)
}

/// Each argument from `i` on must fit its parameter.
pub open spec fn check_args_fit(params: Seq<TypeView>, args: Seq<TypeView>, i: int, st: AnalysisState, span: SpanView) -> AnalysisState
    decreases params.len() - i,
{
    if i < 0 || i >= params.len() || i >= args.len() {
        st
    } else {
        let st1 = if !compatible(args[i], params[i]) {
            report(st, arg_message(params[i], args[i]), span)
        } else {
            st
        };
        check_args_fit(params, args, i + 1, st1, span)
    }
}

/// The type of an expression and the state after analysing it.
pub open spec fn expr_check(e: Expr, st: AnalysisState) -> (TypeView, AnalysisState)
    decreases e, 0nat,
{
    match e.kind {
        ExprKind::Literal(lit) => (literal_type_view(lit), st),
        ExprKind::Identifier(name) => match lookup_in_scopes(st.scopes, name@) {
            Some(sym) => (sym.type_, st),
            None => (TypeView::Unknown, report(st, "Undefined variable: "@ + name@, e.span@)),
        },
        ExprKind::Binary { op, left, right } => {
            let l = expr_check(*left, st);
            let r = expr_check(*right, l.1);
            let b = binary_result(op, l.0, r.0);
            (b.0, report_opt(r.1, b.1, e.span@))
        },
        ExprKind::Unary { op, operand } => {
            let o = expr_check(*operand, st);
            let u = unary_result(op, o.0);
            (u.0, report_opt(o.1, u.1, e.span@))
        },
        ExprKind::Call { callee, args } => {
            let c = expr_check(*callee, st);
            let a = args_check(args@, 0, Seq::empty(), c.1);
            match c.0 {
                TypeView::Function { params, return_type } => if params.len() != a.0.len() {
                    (*return_type, report(a.1, count_message(params.len(), a.0.len()), e.span@))
                } else {
                    (*return_type, check_args_fit(params, a.0, 0, a.1, e.span@))
                },
                _ => (TypeView::Unknown, report(a.1, "Cannot call non-function type: "@ + debug_text(c.0), e.span@)),
            }
        },
        ExprKind::If { condition, then_branch, else_branch } => {
            let c = expr_check(*condition, st);
            let s1 = check_condition(c.1, c.0, "If"@, condition.span@);
            let t = expr_check(*then_branch, s1);
            match else_branch {
                Some(eb) => {
                    let el = expr_check(*eb, t.1);
                    if !compatible(t.0, el.0) {
                        (
                            t.0,
                            report(
                                el.1,
                                "If branch type mismatch: then branch is "@ + debug_text(t.0) + ", else branch is "@
                                    + debug_text(el.0),
                                e.span@,
                            ),
                        )
                    } else {
                        (t.0, el.1)
                    }
                },
                None => (t.0, t.1),
            }
        },
        ExprKind::Block(stmts) => {
            let b = block_check(stmts@, 0, TypeView::Unit, enter(st));
            (b.0, exit(b.1))
        },
        ExprKind::StringInterpolation { parts } => (TypeView::String, parts_check(parts@, 0, st)),
        _ => (TypeView::Unknown, st),
    }
}

/// Analyses the arguments from `i` on, collecting their types after `types`.
pub open spec fn args_check(args: Seq<Argument>, i: int, types: Seq<TypeView>, st: AnalysisState) -> (Seq<TypeView>, AnalysisState)
    decreases args, args.len() - i,
{
    if i < 0 || i >= args.len() {
        (types, st)
    } else {
        let a = expr_check(args[i].value, st);
        args_check(args, i + 1, types.push(a.0), a.1)
    }
}

/// Analyses the expressions embedded in string parts from `i` on.
pub open spec fn parts_check(parts: Seq<StringPart>, i: int, st: AnalysisState) -> AnalysisState
    decreases parts, parts.len() - i,
{
    if i < 0 || i >= parts.len() {
        st
    } else {
        match parts[i] {
            StringPart::Expression(pe) => parts_check(parts, i + 1, expr_check(pe, st).1),
            StringPart::Literal(_) => parts_check(parts, i + 1, st),
        }
    }
}

/// Analyses the statements of a block from `i` on; the block's type is that of its last
/// expression statement, `Unit` when it has none.
pub open spec fn block_check(stmts: Seq<Stmt>, i: int, last: TypeView, st: AnalysisState) -> (TypeView, AnalysisState)
    decreases stmts, stmts.len() - i,
{
    if i < 0 || i >= stmts.len() {
        (last, st)
    } else {
        let s1 = stmt_check(stmts[i], st);
        let last1 = match stmts[i].kind {
            StmtKind::Expression(se) => expr_check(se, st).0,
            _ => last,
        };
        block_check(stmts, i + 1, last1, s1)
    }
}

/// Analyses the statements from `i` on.
pub open spec fn stmts_check(stmts: Seq<Stmt>, i: int, st: AnalysisState) -> AnalysisState
    decreases stmts, stmts.len() - i,
{
    if i < 0 || i >= stmts.len() {
        st
    } else {
        stmts_check(stmts, i + 1, stmt_check(stmts[i], st))
    }
}

/// Declares the parameters from `i` on as variables.
pub open spec fn params_declare(params: Seq<Parameter>, i: int, st: AnalysisState) -> AnalysisState
    decreases params.len() - i,
{
    if i < 0 || i >= params.len() {
        st
    } else {
        let p = params[i];
        let sym = SymbolView { name: p.name@, type_: p.type_@, kind: KindView::Variable, span: p.span@ };
        params_declare(params, i + 1, declare(st, sym, p.span@))
    }
}

/// The symbol a function declaration introduces.
pub open spec fn function_symbol(name: Seq<char>, params: Seq<Parameter>, ret: TypeView, span: SpanView) -> SymbolView {
    let ptypes = params.map_values(|p: Parameter| p.type_@);
    SymbolView {
        name,
        type_: TypeView::Function { params: ptypes, return_type: Box::new(ret) },
        kind: KindView::Function { params: ptypes, return_type: ret },
        span,
    }
}

/// The element type of what is iterated over, and any problem with it.
pub open spec fn element_type(t: TypeView) -> Option<TypeView> {
    match t {
        TypeView::List(inner) => Some(*inner),
        TypeView::String => Some(TypeView::String),
        _ => None,
    }
}

/// The state after analysing a statement.
pub open spec fn stmt_check(s: Stmt, st: AnalysisState) -> AnalysisState
    decreases s, 0nat,
{
    match s.kind {
        StmtKind::Function { name, params, return_type, body } => {
            let ret = match return_type {
                Some(t) => t@,
                None => TypeView::Unit,
            };
            let s1 = declare(st, function_symbol(name@, params@, ret, s.span@), s.span@);
            let s2 = params_declare(params@, 0, enter(s1));
            exit(stmts_check(body@, 0, s2))
        },
        StmtKind::If { condition, then_branch, else_branch } => {
            let c = expr_check(condition, st);
            let s1 = check_condition(c.1, c.0, "If"@, condition.span@);
            let s2 = exit(stmts_check(then_branch@, 0, enter(s1)));
            match else_branch {
                Some(es) => exit(stmts_check(es@, 0, enter(s2))),
                None => s2,
            }
        },
        StmtKind::While { condition, body } => {
            let c = expr_check(condition, st);
            let s1 = check_condition(c.1, c.0, "While"@, condition.span@);
            exit(stmts_check(body@, 0, enter(s1)))
        },
        StmtKind::Unless { condition, body } => {
            let c = expr_check(condition, st);
            let s1 = check_condition(c.1, c.0, "Unless"@, condition.span@);
            exit(stmts_check(body@, 0, enter(s1)))
        },
        StmtKind::Until { condition, body } => {
            let c = expr_check(condition, st);
            let s1 = check_condition(c.1, c.0, "Until"@, condition.span@);
            exit(stmts_check(body@, 0, enter(s1)))
        },
        StmtKind::Iterate { iterable, body } => {
            let it = expr_check(iterable, st);
            let (elem, s1) = match element_type(it.0) {
                Some(t) => (t, it.1),
                None => (
                    TypeView::Unknown,
                    report(it.1, "Cannot iterate over type "@ + debug_text(it.0), iterable.span@),
                ),
            };
            let dollar = SymbolView { name: "$"@, type_: elem, kind: KindView::Variable, span: iterable.span@ };
            let s2 = declare(enter(s1), dollar, iterable.span@);
            exit(stmts_check(body@, 0, s2))
        },
        StmtKind::Assignment { target, value } => {
            let v = expr_check(value, st);
            match target.kind {
                ExprKind::Identifier(name) => match lookup_in_scopes(v.1.scopes, name@) {
                    Some(_) => {
                        let t = expr_check(target, v.1);
                        if !compatible(v.0, t.0) {
                            report(t.1, assign_message(v.0, t.0), s.span@)
                        } else {
                            t.1
                        }
                    },
                    None => declare(
                        v.1,
                        SymbolView { name: name@, type_: v.0, kind: KindView::Variable, span: target.span@ },
                        s.span@,
                    ),
                },
                _ => {
                    let t = expr_check(target, v.1);
                    if !compatible(v.0, t.0) {
                        report(t.1, assign_message(v.0, t.0), s.span@)
                    } else {
                        t.1
                    }
                },
            }
        },
        StmtKind::Return(r) => match r {
            Some(re) => expr_check(re, st).1,
            None => st,
        },
        StmtKind::Expression(se) => expr_check(se, st).1,
        StmtKind::ErrorHandler { handler, inner } => actions_check(handler.actions@, 0, stmt_check(*inner, st)),
        _ => st,
    }
}

/// Analyses the error handling actions from `i` on: a logged value should be a string, and a
/// returned value must fit the return type of the nearest function in scope.
pub open spec fn actions_check(actions: Seq<ErrorAction>, i: int, st: AnalysisState) -> AnalysisState
    decreases actions, actions.len() - i,
{
    if i < 0 || i >= actions.len() {
        st
    } else {
        let s1 = match actions[i] {
            ErrorAction::Log(opt) => match opt {
                Some(le) => {
                    let l = expr_check(le, st);
                    if !type_eq(l.0, TypeView::String) && !type_eq(l.0, TypeView::Unknown) {
                        report(l.1, "Log action expects string or convertible, found "@ + debug_text(l.0), le.span@)
                    } else {
                        l.1
                    }
                },
                None => st,
            },
            ErrorAction::Return(opt) => match opt {
                Some(re) => {
                    let r = expr_check(re, st);
                    match first_function_return(r.1.scopes) {
                        Some(expected) => if !compatible(r.0, expected) {
                            report(
                                r.1,
                                "Return type mismatch in error handler: expected "@ + debug_text(expected) + ", found "@
                                    + debug_text(r.0),
                                re.span@,
                            )
                        } else {
                            r.1
                        },
                        None => r.1,
                    }
                },
                None => st,
            },
            ErrorAction::Custom(ce) => expr_check(ce, st).1,
        };
        actions_check(actions, i + 1, s1)
    }
}


/// `a` is `b` as analysis leaves it: every node keeps its identity, its place and its kind,
/// and only the types recorded on expressions may differ.
pub open spec fn expr_kept(b: Expr, a: Expr) -> bool
    decreases b, 0nat,
{
    a == b || (a.id == b.id && a.span == b.span && match b.kind {
        ExprKind::Binary { op, left, right } => a.kind matches ExprKind::Binary { op: op2, left: l2, right: r2 }
            && op2 == op && expr_kept(*left, *l2) && expr_kept(*right, *r2),
        ExprKind::Unary { op, operand } => a.kind matches ExprKind::Unary { op: op2, operand: o2 } && op2 == op
            && expr_kept(*operand, *o2),
        ExprKind::Call { callee, args } => a.kind matches ExprKind::Call { callee: c2, args: a2 } && expr_kept(
            *callee,
            *c2,
        ) && args_kept(args@, a2@, 0),
        ExprKind::If { condition, then_branch, else_branch } => a.kind matches ExprKind::If {
            condition: c2,
            then_branch: t2,
            else_branch: e2,
        } && expr_kept(*condition, *c2) && expr_kept(*then_branch, *t2) && match else_branch {
            Some(eb) => e2 matches Some(eb2) && expr_kept(*eb, *eb2),
            None => e2 is None,
        },
        ExprKind::Block(stmts) => a.kind matches ExprKind::Block(s2) && stmts_kept(stmts@, s2@, 0),
        ExprKind::StringInterpolation { parts } => a.kind matches ExprKind::StringInterpolation { parts: p2 }
            && parts_kept(parts@, p2@, 0),
        _ => a.kind == b.kind,
    })
}

/// The arguments of `a` from `i` on are those of `b`, kept.
pub open spec fn args_kept(b: Seq<Argument>, a: Seq<Argument>, i: int) -> bool
    decreases b, b.len() - i,
{
    a.len() == b.len() && (i < 0 || i >= b.len() || (a[i].name == b[i].name && a[i].span == b[i].span
        && expr_kept(b[i].value, a[i].value) && args_kept(b, a, i + 1)))
}

/// The string parts of `a` from `i` on are those of `b`, kept.
pub open spec fn parts_kept(b: Seq<StringPart>, a: Seq<StringPart>, i: int) -> bool
    decreases b, b.len() - i,
{
    a.len() == b.len() && (i < 0 || i >= b.len() || (part_kept(b[i], a[i]) && parts_kept(b, a, i + 1)))
}

/// The statements of `a` from `i` on are those of `b`, kept.
pub open spec fn stmts_kept(b: Seq<Stmt>, a: Seq<Stmt>, i: int) -> bool
    decreases b, b.len() - i,
{
    a.len() == b.len() && (i < 0 || i >= b.len() || (stmt_kept(b[i], a[i]) && stmts_kept(b, a, i + 1)))
}

/// The error actions of `a` from `i` on are those of `b`, kept.
pub open spec fn actions_kept(b: Seq<ErrorAction>, a: Seq<ErrorAction>, i: int) -> bool
    decreases b, b.len() - i,
{
    a.len() == b.len() && (i < 0 || i >= b.len() || (action_kept(b[i], a[i]) && actions_kept(b, a, i + 1)))
}

/// `a` is the statement `b` as analysis leaves it: the same statement, with only the types
/// recorded on its expressions changed.
pub open spec fn stmt_kept(b: Stmt, a: Stmt) -> bool
    decreases b, 0nat,
{
    a == b || (a.id == b.id && a.span == b.span && match b.kind {
        StmtKind::Expression(e) => a.kind matches StmtKind::Expression(e2) && expr_kept(e, e2),
        StmtKind::Assignment { target, value } => a.kind matches StmtKind::Assignment { target: t2, value: v2 }
            && expr_kept(target, t2) && expr_kept(value, v2),
        StmtKind::If { condition, then_branch, else_branch } => a.kind matches StmtKind::If {
            condition: c2,
            then_branch: t2,
            else_branch: e2,
        } && expr_kept(condition, c2) && stmts_kept(then_branch@, t2@, 0) && match else_branch {
            Some(es) => e2 matches Some(es2) && stmts_kept(es@, es2@, 0),
            None => e2 is None,
        },
        StmtKind::While { condition, body } => a.kind matches StmtKind::While { condition: c2, body: b2 }
            && expr_kept(condition, c2) && stmts_kept(body@, b2@, 0),
        StmtKind::Unless { condition, body } => a.kind matches StmtKind::Unless { condition: c2, body: b2 }
            && expr_kept(condition, c2) && stmts_kept(body@, b2@, 0),
        StmtKind::Until { condition, body } => a.kind matches StmtKind::Until { condition: c2, body: b2 }
            && expr_kept(condition, c2) && stmts_kept(body@, b2@, 0),
        StmtKind::Iterate { iterable, body } => a.kind matches StmtKind::Iterate { iterable: c2, body: b2 }
            && expr_kept(iterable, c2) && stmts_kept(body@, b2@, 0),
        StmtKind::Return(r) => a.kind matches StmtKind::Return(r2) && match r {
            Some(re) => r2 matches Some(re2) && expr_kept(re, re2),
            None => r2 is None,
        },
        StmtKind::Function { name, params, return_type, body } => a.kind matches StmtKind::Function {
            name: n2,
            params: p2,
            return_type: rt2,
            body: b2,
        } && n2 == name && p2@ == params@ && rt2 == return_type && stmts_kept(body@, b2@, 0),
        StmtKind::ErrorHandler { handler, inner } => a.kind matches StmtKind::ErrorHandler {
            handler: h2,
            inner: i2,
        } && h2.span == handler.span && actions_kept(handler.actions@, h2.actions@, 0) && stmt_kept(*inner, *i2),
        _ => a.kind == b.kind,
    })
}

/// Arguments kept one by one from `i` on are kept.
pub proof fn lemma_args_kept(b: Seq<Argument>, a: Seq<Argument>, i: int)
    requires
        0 <= i <= b.len(),
        a.len() == b.len(),
        forall|j: int| i <= j < b.len() ==> (#[trigger] a[j]).name == b[j].name && a[j].span == b[j].span
            && expr_kept(b[j].value, a[j].value),
    ensures
        args_kept(b, a, i),
    decreases b.len() - i,
{
    if i < b.len() {
        lemma_args_kept(b, a, i + 1);
    }
}

/// String parts kept one by one from `i` on are kept.
pub proof fn lemma_parts_kept(b: Seq<StringPart>, a: Seq<StringPart>, i: int)
    requires
        0 <= i <= b.len(),
        a.len() == b.len(),
        forall|j: int| i <= j < b.len() ==> part_kept(b[j], #[trigger] a[j]),
    ensures
        parts_kept(b, a, i),
    decreases b.len() - i,
{
    if i < b.len() {
        lemma_parts_kept(b, a, i + 1);
    }
}

/// One string part kept.
pub open spec fn part_kept(b: StringPart, a: StringPart) -> bool
    decreases b, 0nat,
{
    match b {
        StringPart::Expression(pe) => a matches StringPart::Expression(pe2) && expr_kept(pe, pe2),
        StringPart::Literal(_) => a == b,
    }
}

/// One error action kept.
pub open spec fn action_kept(b: ErrorAction, a: ErrorAction) -> bool
    decreases b, 0nat,
{
    match b {
        ErrorAction::Log(opt) => a matches ErrorAction::Log(o2) && match opt {
            Some(le) => o2 matches Some(le2) && expr_kept(le, le2),
            None => o2 is None,
        },
        ErrorAction::Return(opt) => a matches ErrorAction::Return(o2) && match opt {
            Some(re) => o2 matches Some(re2) && expr_kept(re, re2),
            None => o2 is None,
        },
        ErrorAction::Custom(ce) => a matches ErrorAction::Custom(c2) && expr_kept(ce, c2),
    }
}

/// Statements kept one by one from `i` on are kept.
pub proof fn lemma_stmts_kept(b: Seq<Stmt>, a: Seq<Stmt>, i: int)
    requires
        0 <= i <= b.len(),
        a.len() == b.len(),
        forall|j: int| i <= j < b.len() ==> stmt_kept(b[j], #[trigger] a[j]),
    ensures
        stmts_kept(b, a, i),
    decreases b.len() - i,
{
    if i < b.len() {
        lemma_stmts_kept(b, a, i + 1);
    }
}

/// Error actions kept one by one from `i` on are kept.
pub proof fn lemma_actions_kept(b: Seq<ErrorAction>, a: Seq<ErrorAction>, i: int)
    requires
        0 <= i <= b.len(),
        a.len() == b.len(),
        forall|j: int| i <= j < b.len() ==> action_kept(b[j], #[trigger] a[j]),
    ensures
        actions_kept(b, a, i),
    decreases b.len() - i,
{
    if i < b.len() {
        lemma_actions_kept(b, a, i + 1);
    }
}

} // verus!
