use vstd::prelude::*;
use crate::ast::{Expr, ExprKind, Stmt, StmtKind, Argument, Parameter, Field, ObjectMethod, StringPart};
use super::types::{IType, ConstraintView};
use super::error::TypeErrorView;
use super::infer_spec::{InferState, fresh_var, add_constraint, infer_expr, infer_args, infer_elements, infer_pairs, infer_parts, bind_params, infer_block, infer_function, infer_stmt, method_type, method_params, object_fields, object_methods, object_type, actor_type, actor_fields, actor_handlers, convert, param_type, self_args, fun_type};

verus! {

/// `b` keeps every constraint `a` had gathered, in place.
pub open spec fn keeps(a: InferState, b: InferState) -> bool {
    &&& a.constraints.len() <= b.constraints.len()
    &&& forall|i: int| 0 <= i < a.constraints.len() ==> #[trigger] b.constraints[i] == a.constraints[i]
}

proof fn lemma_bind_params(params: Seq<Parameter>, i: int, acc: Seq<IType>, st: InferState)
    ensures
        bind_params(params, i, acc, st).1.constraints == st.constraints,
    decreases params.len() - i,
{
    if 0 <= i < params.len() {
        let (t, s1) = param_type(params[i].type_@, st);
        lemma_bind_params(params, i + 1, acc.push(t), super::infer_spec::bind_name(s1, params[i].name@, t));
    }
}

proof fn lemma_method_params(params: Seq<Parameter>, i: int, acc: Seq<IType>, st: InferState)
    ensures
        method_params(params, i, acc, st).1.constraints == st.constraints,
    decreases params.len() - i,
{
    if 0 <= i < params.len() {
        let (t, s1) = param_type(params[i].type_@, st);
        lemma_method_params(params, i + 1, acc.push(t), s1);
    }
}

/// Inferring an expression never drops or changes a constraint gathered before.
pub proof fn law_expr_keeps_constraints(e: Expr, st: InferState)
    ensures
        keeps(st, infer_expr(e, st).1),
    decreases e, 1nat,
{
    match e.kind {
        ExprKind::Binary { left, right, .. } => {
            law_expr_keeps_constraints(*left, st);
            let l = infer_expr(*left, st);
            if l.0 is Ok {
                law_expr_keeps_constraints(*right, l.1);
            }
        },
        ExprKind::Unary { operand, .. } => law_expr_keeps_constraints(*operand, st),
        ExprKind::Call { .. } => lemma_call(e, st),
        ExprKind::Index { object, index } => {
            law_expr_keeps_constraints(*object, st);
            let o = infer_expr(*object, st);
            if o.0 is Ok {
                law_expr_keeps_constraints(*index, o.1);
            }
        },
        ExprKind::FieldAccess { object, .. } => law_expr_keeps_constraints(*object, st),
        ExprKind::ListLiteral(elements) => {
            let (v, s1) = fresh_var(st);
            lemma_elements(elements@, 0, v, s1);
        },
        ExprKind::MapLiteral(pairs) => {
            let (k, s1) = fresh_var(st);
            let (v, s2) = fresh_var(s1);
            lemma_pairs(pairs@, 0, k, v, s2);
        },
        ExprKind::StringInterpolation { parts } => lemma_parts(parts@, 0, st),
        ExprKind::If { condition, then_branch, else_branch } => {
            law_expr_keeps_constraints(*condition, st);
            let c = infer_expr(*condition, st);
            if c.0 is Ok {
                let s1 = add_constraint(c.1, super::types::ConstraintView::Equal(c.0->Ok_0, IType::Bool));
                law_expr_keeps_constraints(*then_branch, s1);
                let t = infer_expr(*then_branch, s1);
                if t.0 is Ok {
                    if let Some(eb) = else_branch {
                        law_expr_keeps_constraints(*eb, t.1);
                    }
                }
            }
        },
        ExprKind::Block(stmts) => law_block_keeps_constraints(stmts@, 0, IType::Unit, st),
        ExprKind::Lambda { params, body } => {
            let lam = InferState { scopes: seq![Seq::empty()] + st.scopes, ..st };
            lemma_bind_params(params@, 0, Seq::empty(), lam);
            let p = bind_params(params@, 0, Seq::empty(), lam);
            law_expr_keeps_constraints(*body, p.1);
        },
        ExprKind::ListAppend { list, element } => {
            law_expr_keeps_constraints(*list, st);
            let l = infer_expr(*list, st);
            if l.0 is Ok {
                law_expr_keeps_constraints(*element, l.1);
            }
        },
        ExprKind::MapInsert { map, key, value } => {
            law_expr_keeps_constraints(*map, st);
            let m = infer_expr(*map, st);
            if m.0 is Ok {
                law_expr_keeps_constraints(*key, m.1);
                let k = infer_expr(*key, m.1);
                if k.0 is Ok {
                    law_expr_keeps_constraints(*value, k.1);
                }
            }
        },
        _ => {},
    }
}

#[verifier::rlimit(40)]
proof fn lemma_call(e: Expr, st: InferState)
    requires
        e.kind is Call,
    ensures
        keeps(st, infer_expr(e, st).1),
    decreases e, 0nat,
{
    if let ExprKind::Call { callee, args } = e.kind {
        match callee.kind {
            ExprKind::FieldAccess { object, field } => {
                law_expr_keeps_constraints(*object, st);
                let o1 = infer_expr(*object, st);
                if o1.0 is Ok {
                    lemma_args(args@, 0, Seq::empty(), o1.1);
                }
                let after_make = if field@ == "make"@ {
                    o1.1
                } else {
                    st
                };
                law_expr_keeps_constraints(*object, after_make);
                let o2 = infer_expr(*object, after_make);
                if o2.0 is Ok {
                    lemma_args(args@, 0, Seq::empty(), o2.1);
                }
                let after_with_id = if field@ == "with_id"@ {
                    o2.1
                } else {
                    after_make
                };
                law_expr_keeps_constraints(*object, after_with_id);
                let o3 = infer_expr(*object, after_with_id);
                if o3.0 is Ok {
                    let ot = o3.0->Ok_0;
                    lemma_args(args@, 0, self_args(field@, ot), o3.1);
                }
            },
            _ => {
                law_expr_keeps_constraints(*callee, st);
                let c = infer_expr(*callee, st);
                if c.0 is Ok {
                    lemma_args(args@, 0, Seq::empty(), c.1);
                }
            },
        }
    }
}

proof fn lemma_args(args: Seq<Argument>, i: int, acc: Seq<IType>, st: InferState)
    ensures
        keeps(st, infer_args(args, i, acc, st).1),
    decreases args, args.len() - i,
{
    if 0 <= i < args.len() {
        law_expr_keeps_constraints(args[i].value, st);
        let a = infer_expr(args[i].value, st);
        if a.0 is Ok {
            lemma_args(args, i + 1, acc.push(a.0->Ok_0), a.1);
        }
    }
}

proof fn lemma_elements(elements: Seq<Expr>, i: int, v: IType, st: InferState)
    ensures
        keeps(st, infer_elements(elements, i, v, st).1),
    decreases elements, elements.len() - i,
{
    if 0 <= i < elements.len() {
        law_expr_keeps_constraints(elements[i], st);
        let a = infer_expr(elements[i], st);
        if a.0 is Ok {
            lemma_elements(elements, i + 1, v, add_constraint(a.1, super::types::ConstraintView::Equal(v, a.0->Ok_0)));
        }
    }
}

proof fn lemma_pairs(pairs: Seq<(Expr, Expr)>, i: int, k: IType, v: IType, st: InferState)
    ensures
        keeps(st, infer_pairs(pairs, i, k, v, st).1),
    decreases pairs, pairs.len() - i,
{
    if 0 <= i < pairs.len() {
        law_expr_keeps_constraints(pairs[i].0, st);
        let a = infer_expr(pairs[i].0, st);
        if a.0 is Ok {
            law_expr_keeps_constraints(pairs[i].1, a.1);
            let b = infer_expr(pairs[i].1, a.1);
            if b.0 is Ok {
                lemma_pairs(
                    pairs,
                    i + 1,
                    k,
                    v,
                    add_constraint(
                        add_constraint(b.1, super::types::ConstraintView::Equal(k, a.0->Ok_0)),
                        super::types::ConstraintView::Equal(v, b.0->Ok_0),
                    ),
                );
            }
        }
    }
}

proof fn lemma_parts(parts: Seq<StringPart>, i: int, st: InferState)
    ensures
        keeps(st, infer_parts(parts, i, st).1),
    decreases parts, parts.len() - i,
{
    if 0 <= i < parts.len() {
        match parts[i] {
            StringPart::Expression(pe) => {
                law_expr_keeps_constraints(pe, st);
                let a = infer_expr(pe, st);
                if a.0 is Ok {
                    lemma_parts(parts, i + 1, a.1);
                }
            },
            StringPart::Literal(_) => lemma_parts(parts, i + 1, st),
        }
    }
}

/// Inferring a block never drops or changes a constraint gathered before.
pub proof fn law_block_keeps_constraints(stmts: Seq<Stmt>, i: int, last: IType, st: InferState)
    ensures
        keeps(st, infer_block(stmts, i, last, st).1),
    decreases stmts, stmts.len() - i,
{
    if 0 <= i < stmts.len() {
        law_stmt_keeps_constraints(stmts[i], st);
        let a = infer_stmt(stmts[i], st);
        if a.0 is Ok {
            law_block_keeps_constraints(stmts, i + 1, a.0->Ok_0, a.1);
        }
    }
}

proof fn lemma_function(params: Seq<Parameter>, return_type: Option<crate::ast::Type>, body: Seq<Stmt>, st: InferState)
    ensures
        keeps(st, infer_function(params, return_type, body, st).1),
    decreases body, body.len() + 1,
{
    let fenv = InferState { scopes: seq![Seq::empty()] + st.scopes, ..st };
    lemma_bind_params(params, 0, Seq::empty(), fenv);
    let p = bind_params(params, 0, Seq::empty(), fenv);
    if body.len() > 0 {
        law_block_keeps_constraints(body, 0, IType::Unit, p.1);
    }
}

/// Inferring a statement never drops or changes a constraint gathered before.
#[verifier::rlimit(80)]
pub proof fn law_stmt_keeps_constraints(s: Stmt, st: InferState)
    ensures
        keeps(st, infer_stmt(s, st).1),
    decreases s, 0nat,
{
    match s.kind {
        StmtKind::Expression(e) => law_expr_keeps_constraints(e, st),
        StmtKind::Assignment { value, .. } => law_expr_keeps_constraints(value, st),
        StmtKind::Function { name, params, return_type, body } => {
            let (fv, s1) = fresh_var(st);
            let s2 = super::infer_spec::bind_name(s1, name@, fv);
            lemma_function(params@, return_type, body@, s2);
        },
        StmtKind::Object { name, fields, methods } | StmtKind::Store { name, fields, methods } => {
            lemma_object_fields(fields@, 0, Seq::empty(), st);
            lemma_object_type(name@, object_fields(fields@, 0, Seq::empty(), st), methods@, false, s.kind is Store);
        },
        StmtKind::If { condition, then_branch, else_branch } => {
            law_expr_keeps_constraints(condition, st);
            let c = infer_expr(condition, st);
            if c.0 is Ok {
                let s1 = add_constraint(c.1, super::types::ConstraintView::Equal(c.0->Ok_0, IType::Bool));
                law_block_keeps_constraints(then_branch@, 0, IType::Unit, s1);
                let t = infer_block(then_branch@, 0, IType::Unit, s1);
                if t.0 is Ok {
                    if let Some(es) = else_branch {
                        law_block_keeps_constraints(es@, 0, IType::Unit, t.1);
                    }
                }
            }
        },
        StmtKind::While { condition, body } => {
            law_expr_keeps_constraints(condition, st);
            let c = infer_expr(condition, st);
            if c.0 is Ok {
                let s1 = add_constraint(c.1, super::types::ConstraintView::Equal(c.0->Ok_0, IType::Bool));
                law_block_keeps_constraints(body@, 0, IType::Unit, s1);
            }
        },
        StmtKind::Actor { name, fields, handlers } => lemma_actor_type(name@, fields@, handlers@, st),
        StmtKind::Return(Some(e)) => law_expr_keeps_constraints(e, st),
        _ => {},
    }
}

proof fn lemma_actor_type(name: Seq<char>, fields: Seq<Field>, handlers: Seq<crate::ast::MessageHandler>, st: InferState)
    ensures
        actor_type(name, fields, handlers, st).1.constraints == st.constraints,
{
    lemma_actor_fields(fields, 0, Seq::empty(), st);
    let f = actor_fields(fields, 0, Seq::empty(), st);
    lemma_actor_handlers(name, f.0, handlers, 0, Seq::empty(), f.1);
}

proof fn lemma_actor_fields(fields: Seq<Field>, i: int, acc: Seq<(Seq<char>, IType)>, st: InferState)
    ensures
        actor_fields(fields, i, acc, st).1.constraints == st.constraints,
    decreases fields.len() - i,
{
    if 0 <= i < fields.len() {
        let c = convert(fields[i].type_@, st);
        lemma_actor_fields(fields, i + 1, crate::assoc::assoc_insert(acc, fields[i].name@, c.0), c.1);
    }
}

proof fn lemma_actor_handlers(
    name: Seq<char>,
    afs: Seq<(Seq<char>, IType)>,
    handlers: Seq<crate::ast::MessageHandler>,
    i: int,
    acc: Seq<(crate::ast::TypeView, IType)>,
    st: InferState,
)
    ensures
        actor_handlers(name, afs, handlers, i, acc, st).1.constraints == st.constraints,
    decreases handlers.len() - i,
{
    if 0 <= i < handlers.len() {
        let h = handlers[i];
        let me = IType::Object { name, fields: afs, methods: Seq::empty(), is_actor: true, is_store: false };
        let c = convert(h.message_type@, st);
        let ht = fun_type(seq![me, c.0], IType::Unit, super::inference::actor_effects());
        lemma_actor_handlers(name, afs, handlers, i + 1, super::infer_spec::handler_insert(acc, h.message_type@, ht), c.1);
    }
}

proof fn lemma_method_type(m: ObjectMethod, st: InferState)
    ensures
        keeps(st, method_type(m, st).1),
    decreases m, 0nat,
{
    let (selft, s1) = fresh_var(st);
    lemma_method_params(m.params@, 0, seq![selft], s1);
    let p = method_params(m.params@, 0, seq![selft], s1);
    if m.return_type is None && m.body@.len() > 0 {
        law_block_keeps_constraints(m.body@, 0, IType::Unit, p.1);
    }
}

proof fn lemma_object_fields(fields: Seq<Field>, i: int, acc: Seq<(Seq<char>, IType)>, st: InferState)
    ensures
        keeps(st, object_fields(fields, i, acc, st).1),
    decreases fields, fields.len() - i,
{
    if 0 <= i < fields.len() {
        let f = fields[i];
        if let Some(d) = f.default_value {
            law_expr_keeps_constraints(d, st);
        }
        let r: super::infer_spec::Inferred = match f.default_value {
            Some(d) => infer_expr(d, st),
            None => {
                let c = convert(f.type_@, st);
                (Ok(c.0), c.1)
            },
        };
        if r.0 is Ok {
            lemma_object_fields(fields, i + 1, crate::assoc::assoc_insert(acc, f.name@, r.0->Ok_0), r.1);
        }
    }
}

proof fn lemma_object_methods(methods: Seq<ObjectMethod>, i: int, acc: Seq<(Seq<char>, IType)>, st: InferState)
    ensures
        keeps(st, object_methods(methods, i, acc, st).1),
    decreases methods, methods.len() - i,
{
    if 0 <= i < methods.len() {
        lemma_method_type(methods[i], st);
        let r = method_type(methods[i], st);
        if r.0 is Ok {
            lemma_object_methods(methods, i + 1, crate::assoc::assoc_insert(acc, methods[i].name@, r.0->Ok_0), r.1);
        }
    }
}

proof fn lemma_object_type(
    name: Seq<char>,
    f: (Result<Seq<(Seq<char>, IType)>, TypeErrorView>, InferState),
    methods: Seq<ObjectMethod>,
    is_actor: bool,
    is_store: bool,
)
    ensures
        keeps(f.1, object_type(name, f, methods, is_actor, is_store).1),
    decreases methods, methods.len() + 1,
{
    if f.0 is Ok {
        lemma_object_methods(methods, 0, Seq::empty(), f.1);
    }
}


/// A logical `and` or `or` has type `Bool`: whenever its inference succeeds the type is `Bool`,
/// and once both operands are inferred it succeeds, asking each operand to be `Bool`.
pub proof fn law_logical_is_bool(e: Expr, st: InferState)
    requires
        e.kind matches ExprKind::Binary { op, .. } && (op is And || op is Or),
    ensures
        infer_expr(e, st).0 is Ok ==> infer_expr(e, st).0 == Ok::<IType, TypeErrorView>(IType::Bool),
        match e.kind {
            ExprKind::Binary { left, right, .. } => {
                let l = infer_expr(*left, st);
                let r = infer_expr(*right, l.1);
                match (l.0, r.0) {
                    (Ok(lt), Ok(rt)) => {
                        &&& infer_expr(e, st).0 == Ok::<IType, TypeErrorView>(IType::Bool)
                        &&& infer_expr(e, st).1.constraints == r.1.constraints.push(
                            ConstraintView::Equal(lt, IType::Bool),
                        ).push(ConstraintView::Equal(rt, IType::Bool))
                    },
                    _ => true,
                }
            },
            _ => true,
        },
{
}


/// A comparison has type `Bool` once both operands are inferred, and asks the two operand
/// types to be equal.
pub proof fn law_comparison_is_bool(e: Expr, st: InferState)
    requires
        e.kind matches ExprKind::Binary { op, .. } && (op is Lt || op is Le || op is Gt || op is Ge || op is Eq
            || op is Ne),
    ensures
        infer_expr(e, st).0 is Ok ==> infer_expr(e, st).0 == Ok::<IType, TypeErrorView>(IType::Bool),
        match e.kind {
            ExprKind::Binary { left, right, .. } => {
                let l = infer_expr(*left, st);
                let r = infer_expr(*right, l.1);
                match (l.0, r.0) {
                    (Ok(lt), Ok(rt)) => {
                        &&& infer_expr(e, st).0 == Ok::<IType, TypeErrorView>(IType::Bool)
                        &&& infer_expr(e, st).1.constraints == r.1.constraints.push(ConstraintView::Equal(lt, rt))
                    },
                    _ => true,
                }
            },
            _ => true,
        },
{
}

/// Arithmetic on a number keeps its type: when the left operand is inferred `Int` (or
/// `Float`) the operation has that type, and it asks the two operand types to be equal.
pub proof fn law_arithmetic_keeps_type(e: Expr, st: InferState)
    requires
        e.kind matches ExprKind::Binary { op, .. } && (op is Add || op is Sub || op is Mul || op is Div || op is Mod),
    ensures
        match e.kind {
            ExprKind::Binary { left, right, .. } => {
                let l = infer_expr(*left, st);
                let r = infer_expr(*right, l.1);
                match (l.0, r.0) {
                    (Ok(lt), Ok(rt)) => (lt is Int || lt is Float) ==> {
                        &&& infer_expr(e, st).0 == Ok::<IType, TypeErrorView>(lt)
                        &&& infer_expr(e, st).1.constraints == r.1.constraints.push(ConstraintView::Equal(lt, rt))
                    },
                    _ => true,
                }
            },
            _ => true,
        },
{
}

} // verus!
