use vstd::prelude::*;
use crate::assoc::{assoc_insert};
use crate::ast::{
    Expr, ExprKind, Stmt, StmtKind, Argument, Parameter, Field, ObjectMethod, MessageHandler, StringPart, Literal,
    BinaryOp, UnaryOp, Type, TypeView, type_eq,
};
use super::env::scopes_lookup;
use super::error::TypeErrorView;
use super::types::{ConstraintView, EffectSet, IType, TypeVar, next_counter};
use super::convert::ast_to_infer;
use super::inference::{member_types, pure_effects, store_effects, actor_effects};

verus! {

/// What inference knows at a point: the scopes of the environment, innermost first, the
/// fresh-variable counter, the constraints gathered, and the named types defined.
pub struct InferState {
    pub scopes: Seq<Seq<(Seq<char>, IType)>>,
    pub counter: usize,
    pub constraints: Seq<ConstraintView>,
    pub objects: Seq<(Seq<char>, IType)>,
    pub stores: Seq<(Seq<char>, IType)>,
    pub actors: Seq<(Seq<char>, IType)>,
}

/// The outcome of inferring something: its type or an error, and the state afterwards.
pub type Inferred = (Result<IType, TypeErrorView>, InferState);

pub open spec fn fresh_var(st: InferState) -> (IType, InferState) {
    (IType::Var(TypeVar(st.counter)), InferState { counter: next_counter(st.counter), ..st })
}

pub open spec fn add_constraint(st: InferState, c: ConstraintView) -> InferState {
    InferState { constraints: st.constraints.push(c), ..st }
}

pub open spec fn bind_name(st: InferState, name: Seq<char>, t: IType) -> InferState {
    InferState { scopes: st.scopes.update(0, assoc_insert(st.scopes[0], name, t)), ..st }
}

/// The inference type of a written type in this state.
pub open spec fn convert(t: TypeView, st: InferState) -> (IType, InferState) {
    let r = ast_to_infer(t, st.objects, st.stores, st.actors, st.counter);
    (r.0, InferState { counter: r.1, ..st })
}

/// The type of a parameter: a fresh variable when it is not written, else the written type.
pub open spec fn param_type(t: TypeView, st: InferState) -> (IType, InferState) {
    if t is Unknown {
        fresh_var(st)
    } else {
        convert(t, st)
    }
}

pub open spec fn literal_infer(lit: Literal, st: InferState) -> (IType, InferState) {
    match lit {
        Literal::Integer(_) => (IType::Int, st),
        Literal::Float(_) => (IType::Float, st),
        Literal::String(_) => (IType::String, st),
        Literal::Bool(_) => (IType::Bool, st),
        Literal::Unit => (IType::Unit, st),
        Literal::No => (IType::Unit, st),
        Literal::Yes => (IType::Bool, st),
        Literal::Empty => fresh_var(st),
        Literal::Null => (IType::Unit, st),
        Literal::Now => (IType::Int, st),
        Literal::Error => (IType::Unknown, st),
    }
}

/// A binary operation on operands of the given types: the constraints it adds and its type.
pub open spec fn binary_infer(op: BinaryOp, l: IType, r: IType, st: InferState) -> Inferred {
    match op {
        BinaryOp::Add | BinaryOp::Sub | BinaryOp::Mul | BinaryOp::Div | BinaryOp::Mod => {
            let s1 = add_constraint(st, ConstraintView::Equal(l, r));
            match l {
                IType::Int | IType::Float => (Ok(l), s1),
                IType::Var(_) => {
                    let (n, s2) = fresh_var(s1);
                    (Ok(n), add_constraint(s2, ConstraintView::Equal(l, n)))
                },
                _ => (Err(TypeErrorView::TypeMismatch(IType::Int, l)), s1),
            }
        },
        BinaryOp::Lt | BinaryOp::Le | BinaryOp::Gt | BinaryOp::Ge | BinaryOp::Eq | BinaryOp::Ne | BinaryOp::Is => (
            Ok(IType::Bool),
            add_constraint(st, ConstraintView::Equal(l, r)),
        ),
        BinaryOp::And | BinaryOp::Or | BinaryOp::Xor => (
            Ok(IType::Bool),
            add_constraint(add_constraint(st, ConstraintView::Equal(l, IType::Bool)), ConstraintView::Equal(r, IType::Bool)),
        ),
        BinaryOp::BitAnd | BinaryOp::BitOr | BinaryOp::BitXor | BinaryOp::Shl | BinaryOp::Shr => (
            Ok(IType::Int),
            add_constraint(add_constraint(st, ConstraintView::Equal(l, IType::Int)), ConstraintView::Equal(r, IType::Int)),
        ),
    }
}

pub open spec fn unary_infer(op: UnaryOp, t: IType, st: InferState) -> Inferred {
    match op {
        UnaryOp::Neg => match t {
            IType::Int | IType::Float | IType::Var(_) => (Ok(t), st),
            _ => (Err(TypeErrorView::TypeMismatch(IType::Int, t)), st),
        },
        UnaryOp::Not => (Ok(IType::Bool), add_constraint(st, ConstraintView::Equal(t, IType::Bool))),
        UnaryOp::BitNot => (Ok(IType::Int), add_constraint(st, ConstraintView::Equal(t, IType::Int))),
    }
}

pub open spec fn fun_type(params: Seq<IType>, ret: IType, effects: EffectSet) -> IType {
    IType::Function { params, return_type: Box::new(ret), effects }
}

/// A method call: the object, the arguments (after the object itself, unless the method is
/// `make` or `with_id`), and a fresh method type and result type related by constraints.
pub open spec fn method_call_rest(method: Seq<char>, ot: IType, args: (Result<Seq<IType>, TypeErrorView>, InferState)) -> Inferred {
    match args.0 {
        Err(e) => (Err(e), args.1),
        Ok(ats) => {
            let (mt, s1) = fresh_var(args.1);
            let (rt, s2) = fresh_var(s1);
            let s3 = add_constraint(s2, ConstraintView::HasMethod(ot, method, mt));
            let s4 = add_constraint(s3, ConstraintView::IsCallable(mt, ats, rt));
            (Ok(rt), s4)
        },
    }
}

pub open spec fn self_args(method: Seq<char>, ot: IType) -> Seq<IType> {
    if method != "make"@ && method != "with_id"@ {
        seq![ot]
    } else {
        Seq::empty()
    }
}

/// The type of an expression, and the state after inferring it.
pub open spec fn infer_expr(e: Expr, st: InferState) -> Inferred
    decreases e, 0nat,
{
    match e.kind {
        ExprKind::Literal(lit) => {
            let r = literal_infer(lit, st);
            (Ok(r.0), r.1)
        },
        ExprKind::Identifier(name) => match scopes_lookup(st.scopes, name@) {
            Some(t) => (Ok(t), st),
            None => (Err(TypeErrorView::UnknownVariable(name@)), st),
        },
        ExprKind::Binary { op, left, right } => {
            let l = infer_expr(*left, st);
            match l.0 {
                Err(er) => (Err(er), l.1),
                Ok(lt) => {
                    let r = infer_expr(*right, l.1);
                    match r.0 {
                        Err(er) => (Err(er), r.1),
                        Ok(rt) => binary_infer(op, lt, rt, r.1),
                    }
                },
            }
        },
        ExprKind::Unary { op, operand } => {
            let o = infer_expr(*operand, st);
            match o.0 {
                Err(er) => (Err(er), o.1),
                Ok(ot) => unary_infer(op, ot, o.1),
            }
        },
        ExprKind::Call { callee, args } => match callee.kind {
            ExprKind::FieldAccess { object, field } => {
                let made = if field@ == "make"@ {
                    let o = infer_expr(*object, st);
                    match o.0 {
                        Err(er) => Some((Err(er), o.1)),
                        Ok(ot) => match ot {
                            IType::Object { fields, .. } => {
                                let a = infer_args(args@, 0, Seq::empty(), o.1);
                                match a.0 {
                                    Err(er) => Some((Err(er), a.1)),
                                    Ok(ats) => Some(
                                        (
                                            Ok(ot),
                                            add_constraint(
                                                a.1,
                                                ConstraintView::IsCallable(
                                                    fun_type(member_types(fields), ot, pure_effects()),
                                                    ats,
                                                    ot,
                                                ),
                                            ),
                                        ),
                                    ),
                                }
                            },
                            _ => None,
                        },
                    }
                } else {
                    None
                };
                let after_make = if field@ == "make"@ {
                    infer_expr(*object, st).1
                } else {
                    st
                };
                match made {
                    Some(res) => res,
                    None => {
                        let with_id = if field@ == "with_id"@ {
                            let o = infer_expr(*object, after_make);
                            match o.0 {
                                Err(er) => Some((Err(er), o.1)),
                                Ok(ot) => match ot {
                                    IType::Store { value_type, .. } => {
                                        let a = infer_args(args@, 0, Seq::empty(), o.1);
                                        match a.0 {
                                            Err(er) => Some((Err(er), a.1)),
                                            Ok(ats) => Some(
                                                (
                                                    Ok(*value_type),
                                                    add_constraint(
                                                        a.1,
                                                        ConstraintView::IsCallable(
                                                            fun_type(seq![IType::Int], *value_type, store_effects()),
                                                            ats,
                                                            *value_type,
                                                        ),
                                                    ),
                                                ),
                                            ),
                                        }
                                    },
                                    _ => None,
                                },
                            }
                        } else {
                            None
                        };
                        let after_with_id = if field@ == "with_id"@ {
                            infer_expr(*object, after_make).1
                        } else {
                            after_make
                        };
                        match with_id {
                            Some(res) => res,
                            None => {
                                let o = infer_expr(*object, after_with_id);
                                match o.0 {
                                    Err(er) => (Err(er), o.1),
                                    Ok(ot) => method_call_rest(
                                        field@,
                                        ot,
                                        infer_args(args@, 0, self_args(field@, ot), o.1),
                                    ),
                                }
                            },
                        }
                    },
                }
            },
            _ => {
                let c = infer_expr(*callee, st);
                match c.0 {
                    Err(er) => (Err(er), c.1),
                    Ok(ct) => {
                        let a = infer_args(args@, 0, Seq::empty(), c.1);
                        match a.0 {
                            Err(er) => (Err(er), a.1),
                            Ok(ats) => {
                                let (rt, s1) = fresh_var(a.1);
                                (Ok(rt), add_constraint(s1, ConstraintView::IsCallable(ct, ats, rt)))
                            },
                        }
                    },
                }
            },
        },
        ExprKind::Index { object, index } => {
            let o = infer_expr(*object, st);
            match o.0 {
                Err(er) => (Err(er), o.1),
                Ok(ot) => {
                    let i = infer_expr(*index, o.1);
                    match i.0 {
                        Err(er) => (Err(er), i.1),
                        Ok(it) => {
                            let (el, s1) = fresh_var(i.1);
                            match ot {
                                IType::List(_) => (Ok(el), add_constraint(s1, ConstraintView::Equal(it, IType::Int))),
                                IType::MapOf(k, _) => (Ok(el), add_constraint(s1, ConstraintView::Equal(it, *k))),
                                _ => (Ok(el), s1),
                            }
                        },
                    }
                },
            }
        },
        ExprKind::FieldAccess { object, field } => {
            let o = infer_expr(*object, st);
            match o.0 {
                Err(er) => (Err(er), o.1),
                Ok(ot) => {
                    let (ft, s1) = fresh_var(o.1);
                    (Ok(ft), add_constraint(s1, ConstraintView::HasField(ot, field@, ft)))
                },
            }
        },
        ExprKind::ListLiteral(elements) => {
            let (v, s1) = fresh_var(st);
            let r = infer_elements(elements@, 0, v, s1);
            match r.0 {
                Err(er) => (Err(er), r.1),
                Ok(_) => (Ok(IType::List(Box::new(v))), r.1),
            }
        },
        ExprKind::MapLiteral(pairs) => {
            let (k, s1) = fresh_var(st);
            let (v, s2) = fresh_var(s1);
            let r = infer_pairs(pairs@, 0, k, v, s2);
            match r.0 {
                Err(er) => (Err(er), r.1),
                Ok(_) => (Ok(IType::MapOf(Box::new(k), Box::new(v))), r.1),
            }
        },
        ExprKind::StringInterpolation { parts } => {
            let r = infer_parts(parts@, 0, st);
            match r.0 {
                Err(er) => (Err(er), r.1),
                Ok(_) => (Ok(IType::String), r.1),
            }
        },
        ExprKind::If { condition, then_branch, else_branch } => {
            let c = infer_expr(*condition, st);
            match c.0 {
                Err(er) => (Err(er), c.1),
                Ok(ct) => {
                    let s1 = add_constraint(c.1, ConstraintView::Equal(ct, IType::Bool));
                    let t = infer_expr(*then_branch, s1);
                    match t.0 {
                        Err(er) => (Err(er), t.1),
                        Ok(tt) => {
                            let el: Inferred = match else_branch {
                                Some(eb) => infer_expr(*eb, t.1),
                                None => (Ok(IType::Unit), t.1),
                            };
                            match el.0 {
                                Err(er) => (Err(er), el.1),
                                Ok(et) => (Ok(tt), add_constraint(el.1, ConstraintView::Equal(tt, et))),
                            }
                        },
                    }
                },
            }
        },
        ExprKind::Block(stmts) => infer_block(stmts@, 0, IType::Unit, st),
        ExprKind::Lambda { params, body } => {
            let lam = InferState { scopes: seq![Seq::empty()] + st.scopes, ..st };
            let p = bind_params(params@, 0, Seq::empty(), lam);
            let b = infer_expr(*body, p.1);
            match b.0 {
                Err(er) => (Err(er), b.1),
                Ok(rt) => (Ok(fun_type(p.0, rt, pure_effects())), InferState { scopes: st.scopes, ..b.1 }),
            }
        },
        ExprKind::ListAppend { list, element } => {
            let l = infer_expr(*list, st);
            match l.0 {
                Err(er) => (Err(er), l.1),
                Ok(lt) => {
                    let el = infer_expr(*element, l.1);
                    match el.0 {
                        Err(er) => (Err(er), el.1),
                        Ok(et) => {
                            let (le, s1) = fresh_var(el.1);
                            let s2 = add_constraint(s1, ConstraintView::Equal(lt, IType::List(Box::new(le))));
                            (Ok(IType::Unit), add_constraint(s2, ConstraintView::Equal(le, et)))
                        },
                    }
                },
            }
        },
        ExprKind::MapInsert { map, key, value } => {
            let m = infer_expr(*map, st);
            match m.0 {
                Err(er) => (Err(er), m.1),
                Ok(mt) => {
                    let k = infer_expr(*key, m.1);
                    match k.0 {
                        Err(er) => (Err(er), k.1),
                        Ok(kt) => {
                            let v = infer_expr(*value, k.1);
                            match v.0 {
                                Err(er) => (Err(er), v.1),
                                Ok(vt) => {
                                    let (mk, s1) = fresh_var(v.1);
                                    let (mv, s2) = fresh_var(s1);
                                    let s3 = add_constraint(
                                        s2,
                                        ConstraintView::Equal(mt, IType::MapOf(Box::new(mk), Box::new(mv))),
                                    );
                                    let s4 = add_constraint(s3, ConstraintView::Equal(mk, kt));
                                    (Ok(IType::Unit), add_constraint(s4, ConstraintView::Equal(mv, vt)))
                                },
                            }
                        },
                    }
                },
            }
        },
        _ => (Ok(IType::Unknown), st),
    }
}

/// Infers the argument values from `i` on, collecting their types after `acc`.
pub open spec fn infer_args(args: Seq<Argument>, i: int, acc: Seq<IType>, st: InferState) -> (Result<Seq<IType>, TypeErrorView>, InferState)
    decreases args, args.len() - i,
{
    if i < 0 || i >= args.len() {
        (Ok(acc), st)
    } else {
        let a = infer_expr(args[i].value, st);
        match a.0 {
            Err(er) => (Err(er), a.1),
            Ok(t) => infer_args(args, i + 1, acc.push(t), a.1),
        }
    }
}

/// Infers list elements from `i` on, each equal to the element type `v`.
pub open spec fn infer_elements(elements: Seq<Expr>, i: int, v: IType, st: InferState) -> Inferred
    decreases elements, elements.len() - i,
{
    if i < 0 || i >= elements.len() {
        (Ok(IType::Unit), st)
    } else {
        let a = infer_expr(elements[i], st);
        match a.0 {
            Err(er) => (Err(er), a.1),
            Ok(t) => infer_elements(elements, i + 1, v, add_constraint(a.1, ConstraintView::Equal(v, t))),
        }
    }
}

/// Infers map entries from `i` on, keys equal to `k` and values to `v`.
pub open spec fn infer_pairs(pairs: Seq<(Expr, Expr)>, i: int, k: IType, v: IType, st: InferState) -> Inferred
    decreases pairs, pairs.len() - i,
{
    if i < 0 || i >= pairs.len() {
        (Ok(IType::Unit), st)
    } else {
        let a = infer_expr(pairs[i].0, st);
        match a.0 {
            Err(er) => (Err(er), a.1),
            Ok(kt) => {
                let b = infer_expr(pairs[i].1, a.1);
                match b.0 {
                    Err(er) => (Err(er), b.1),
                    Ok(vt) => infer_pairs(
                        pairs,
                        i + 1,
                        k,
                        v,
                        add_constraint(add_constraint(b.1, ConstraintView::Equal(k, kt)), ConstraintView::Equal(v, vt)),
                    ),
                }
            },
        }
    }
}

/// Infers the expressions embedded in string parts from `i` on.
pub open spec fn infer_parts(parts: Seq<StringPart>, i: int, st: InferState) -> Inferred
    decreases parts, parts.len() - i,
{
    if i < 0 || i >= parts.len() {
        (Ok(IType::Unit), st)
    } else {
        match parts[i] {
            StringPart::Expression(pe) => {
                let a = infer_expr(pe, st);
                match a.0 {
                    Err(er) => (Err(er), a.1),
                    Ok(_) => infer_parts(parts, i + 1, a.1),
                }
            },
            StringPart::Literal(_) => infer_parts(parts, i + 1, st),
        }
    }
}

/// Gives the parameters from `i` on their types and binds them in the innermost scope.
pub open spec fn bind_params(params: Seq<Parameter>, i: int, acc: Seq<IType>, st: InferState) -> (Seq<IType>, InferState)
    decreases params.len() - i,
{
    if i < 0 || i >= params.len() {
        (acc, st)
    } else {
        let (t, s1) = param_type(params[i].type_@, st);
        bind_params(params, i + 1, acc.push(t), bind_name(s1, params[i].name@, t))
    }
}

/// The type of a block: that of its last statement, `Unit` when it is empty.
pub open spec fn infer_block(stmts: Seq<Stmt>, i: int, last: IType, st: InferState) -> Inferred
    decreases stmts, stmts.len() - i,
{
    if i < 0 || i >= stmts.len() {
        (Ok(last), st)
    } else {
        let a = infer_stmt(stmts[i], st);
        match a.0 {
            Err(er) => (Err(er), a.1),
            Ok(t) => infer_block(stmts, i + 1, t, a.1),
        }
    }
}

/// The type of a function definition: its parameters are bound in a new scope for its body,
/// and a declared return type must equal the inferred one.
pub open spec fn infer_function(params: Seq<Parameter>, return_type: Option<Type>, body: Seq<Stmt>, st: InferState) -> Inferred
    decreases body, body.len() + 1,
{
    let fenv = InferState { scopes: seq![Seq::empty()] + st.scopes, ..st };
    let p = bind_params(params, 0, Seq::empty(), fenv);
    let b: Inferred = if body.len() == 0 {
        (Ok(IType::Unit), p.1)
    } else {
        infer_block(body, 0, IType::Unit, p.1)
    };
    match b.0 {
        Err(er) => (Err(er), b.1),
        Ok(ir) => {
            let s1 = InferState { scopes: st.scopes, ..b.1 };
            match return_type {
                Some(declared) => {
                    let (dt, s2) = convert(declared@, s1);
                    (Ok(fun_type(p.0, dt, pure_effects())), add_constraint(s2, ConstraintView::Equal(ir, dt)))
                },
                None => (Ok(fun_type(p.0, ir, pure_effects())), s1),
            }
        },
    }
}

/// The state after a statement, and its type.
pub open spec fn infer_stmt(s: Stmt, st: InferState) -> Inferred
    decreases s, 0nat,
{
    match s.kind {
        StmtKind::Expression(e) => infer_expr(e, st),
        StmtKind::Assignment { target, value } => {
            let v = infer_expr(value, st);
            match v.0 {
                Err(er) => (Err(er), v.1),
                Ok(vt) => match target.kind {
                    ExprKind::Identifier(name) => (Ok(IType::Unit), bind_name(v.1, name@, vt)),
                    _ => (Ok(IType::Unit), v.1),
                },
            }
        },
        StmtKind::Function { name, params, return_type, body } => {
            let (fv, s1) = fresh_var(st);
            let s2 = bind_name(s1, name@, fv);
            let f = infer_function(params@, return_type, body@, s2);
            match f.0 {
                Err(er) => (Err(er), f.1),
                Ok(ft) => (Ok(IType::Unit), add_constraint(f.1, ConstraintView::Equal(fv, ft))),
            }
        },
        StmtKind::Object { name, fields, methods } => {
            let o = object_type(name@, object_fields(fields@, 0, Seq::empty(), st), methods@, false, false);
            match o.0 {
                Err(er) => (Err(er), o.1),
                Ok(ot) => {
                    let s1 = InferState { objects: assoc_insert(o.1.objects, name@, ot), ..o.1 };
                    (Ok(IType::Unit), bind_name(s1, name@, ot))
                },
            }
        },
        StmtKind::Store { name, fields, methods } => {
            let o = object_type(name@, object_fields(fields@, 0, Seq::empty(), st), methods@, false, true);
            match o.0 {
                Err(er) => (Err(er), o.1),
                Ok(ot) => {
                    let s1 = InferState { stores: assoc_insert(o.1.stores, name@, ot), ..o.1 };
                    (Ok(IType::Unit), bind_name(s1, name@, ot))
                },
            }
        },
        StmtKind::Actor { name, fields, handlers } => {
            let a = actor_type(name@, fields@, handlers@, st);
            match a.0 {
                Err(er) => (Err(er), a.1),
                Ok(at) => (Ok(IType::Unit), InferState { actors: assoc_insert(a.1.actors, name@, at), ..a.1 }),
            }
        },
        StmtKind::If { condition, then_branch, else_branch } => {
            let c = infer_expr(condition, st);
            match c.0 {
                Err(er) => (Err(er), c.1),
                Ok(ct) => {
                    let s1 = add_constraint(c.1, ConstraintView::Equal(ct, IType::Bool));
                    let t = infer_block(then_branch@, 0, IType::Unit, s1);
                    match t.0 {
                        Err(er) => (Err(er), t.1),
                        Ok(tt) => match else_branch {
                            Some(es) => {
                                let el = infer_block(es@, 0, IType::Unit, t.1);
                                match el.0 {
                                    Err(er) => (Err(er), el.1),
                                    Ok(et) => (Ok(tt), add_constraint(el.1, ConstraintView::Equal(tt, et))),
                                }
                            },
                            None => (Ok(tt), t.1),
                        },
                    }
                },
            }
        },
        StmtKind::While { condition, body } => {
            let c = infer_expr(condition, st);
            match c.0 {
                Err(er) => (Err(er), c.1),
                Ok(ct) => {
                    let s1 = add_constraint(c.1, ConstraintView::Equal(ct, IType::Bool));
                    let b = infer_block(body@, 0, IType::Unit, s1);
                    match b.0 {
                        Err(er) => (Err(er), b.1),
                        Ok(_) => (Ok(IType::Unit), b.1),
                    }
                },
            }
        },
        StmtKind::Return(v) => match v {
            Some(e) => infer_expr(e, st),
            None => (Ok(IType::Unit), st),
        },
        _ => (Ok(IType::Unit), st),
    }
}

/// The type of a method: a fresh variable for the object itself, then its parameters; its
/// result is the declared type, `Unit` for an empty body, else the type of the body.
pub open spec fn method_type(m: ObjectMethod, st: InferState) -> Inferred
    decreases m, 0nat,
{
    let (selft, s1) = fresh_var(st);
    let p = method_params(m.params@, 0, seq![selft], s1);
    let r: Inferred = match m.return_type {
        Some(rt) => {
            let c = convert(rt@, p.1);
            (Ok(c.0), c.1)
        },
        None => if m.body@.len() == 0 {
            (Ok(IType::Unit), p.1)
        } else {
            infer_block(m.body@, 0, IType::Unit, p.1)
        },
    };
    match r.0 {
        Err(er) => (Err(er), r.1),
        Ok(rt) => (Ok(fun_type(p.0, rt, pure_effects())), r.1),
    }
}

/// The types of method parameters from `i` on, without binding them.
pub open spec fn method_params(params: Seq<Parameter>, i: int, acc: Seq<IType>, st: InferState) -> (Seq<IType>, InferState)
    decreases params.len() - i,
{
    if i < 0 || i >= params.len() {
        (acc, st)
    } else {
        let (t, s1) = param_type(params[i].type_@, st);
        method_params(params, i + 1, acc.push(t), s1)
    }
}

/// The field types of an object from `i` on, bound after `acc`: the type of the default value
/// when there is one, else the written type.
pub open spec fn object_fields(fields: Seq<Field>, i: int, acc: Seq<(Seq<char>, IType)>, st: InferState) -> (Result<Seq<(Seq<char>, IType)>, TypeErrorView>, InferState)
    decreases fields, fields.len() - i,
{
    if i < 0 || i >= fields.len() {
        (Ok(acc), st)
    } else {
        let f = fields[i];
        let r: Inferred = match f.default_value {
            Some(d) => infer_expr(d, st),
            None => {
                let c = convert(f.type_@, st);
                (Ok(c.0), c.1)
            },
        };
        match r.0 {
            Err(er) => (Err(er), r.1),
            Ok(t) => object_fields(fields, i + 1, assoc_insert(acc, f.name@, t), r.1),
        }
    }
}

/// The method types of an object from `i` on, bound after `acc`.
pub open spec fn object_methods(methods: Seq<ObjectMethod>, i: int, acc: Seq<(Seq<char>, IType)>, st: InferState) -> (Result<Seq<(Seq<char>, IType)>, TypeErrorView>, InferState)
    decreases methods, methods.len() - i,
{
    if i < 0 || i >= methods.len() {
        (Ok(acc), st)
    } else {
        let r = method_type(methods[i], st);
        match r.0 {
            Err(er) => (Err(er), r.1),
            Ok(t) => object_methods(methods, i + 1, assoc_insert(acc, methods[i].name@, t), r.1),
        }
    }
}

/// The built-in methods every object gets, then those of stores and of actors.
pub open spec fn builtin_methods(ms: Seq<(Seq<char>, IType)>, fields: Seq<(Seq<char>, IType)>, is_actor: bool, is_store: bool, st: InferState) -> (Seq<(Seq<char>, IType)>, InferState) {
    let (mk, s1) = fresh_var(st);
    let (asv, s2) = fresh_var(s1);
    let m1 = assoc_insert(
        assoc_insert(ms, "make"@, fun_type(member_types(fields), mk, pure_effects())),
        "as"@,
        fun_type(seq![IType::String], asv, pure_effects()),
    );
    let (m2, s3) = if is_store {
        let (w, t1) = fresh_var(s2);
        let (p, t2) = fresh_var(t1);
        let (r, t3) = fresh_var(t2);
        (
            assoc_insert(
                assoc_insert(m1, "with_id"@, fun_type(seq![IType::Int], w, store_effects())),
                "find"@,
                fun_type(seq![p], IType::List(Box::new(r)), store_effects()),
            ),
            t3,
        )
    } else {
        (m1, s2)
    };
    if is_actor {
        let (m, t1) = fresh_var(s3);
        (assoc_insert(m2, "send"@, fun_type(seq![m], IType::Unit, actor_effects())), t1)
    } else {
        (m2, s3)
    }
}

/// The type of an object or store defined with fields and methods, given the outcome of
/// inferring its fields; its `make` builds an instance from the field values in order.
pub open spec fn object_type(
    name: Seq<char>,
    f: (Result<Seq<(Seq<char>, IType)>, TypeErrorView>, InferState),
    methods: Seq<ObjectMethod>,
    is_actor: bool,
    is_store: bool,
) -> Inferred
    decreases methods, methods.len() + 1,
{
    match f.0 {
        Err(er) => (Err(er), f.1),
        Ok(fts) => {
            let m = object_methods(methods, 0, Seq::empty(), f.1);
            match m.0 {
                Err(er) => (Err(er), m.1),
                Ok(mts) => {
                    let (all, s1) = builtin_methods(mts, fts, is_actor, is_store, m.1);
                    let instance = IType::Object { name, fields: fts, methods: Seq::empty(), is_actor, is_store };
                    let with_make = assoc_insert(all, "make"@, fun_type(member_types(fts), instance, pure_effects()));
                    (Ok(IType::Object { name, fields: fts, methods: with_make, is_actor, is_store }), s1)
                },
            }
        },
    }
}

/// Binds a handler type under a message type; an equal message type already there keeps its
/// place and takes the new handler.
pub open spec fn handler_insert(hs: Seq<(TypeView, IType)>, k: TypeView, v: IType) -> Seq<(TypeView, IType)> {
    if exists|j: int| 0 <= j < hs.len() && #[trigger] type_eq(hs[j].0, k) {
        let j = choose|j: int|
            0 <= j < hs.len() && type_eq(hs[j].0, k) && forall|i: int| 0 <= i < j ==> !#[trigger] type_eq(hs[i].0, k);
        hs.update(j, (hs[j].0, v))
    } else {
        hs.push((k, v))
    }
}

/// The field types of an actor from `i` on: their written types.
pub open spec fn actor_fields(fields: Seq<Field>, i: int, acc: Seq<(Seq<char>, IType)>, st: InferState) -> (Seq<(Seq<char>, IType)>, InferState)
    decreases fields.len() - i,
{
    if i < 0 || i >= fields.len() {
        (acc, st)
    } else {
        let c = convert(fields[i].type_@, st);
        actor_fields(fields, i + 1, assoc_insert(acc, fields[i].name@, c.0), c.1)
    }
}

/// The handler types of an actor from `i` on: each takes the actor and its message.
pub open spec fn actor_handlers(name: Seq<char>, afs: Seq<(Seq<char>, IType)>, handlers: Seq<MessageHandler>, i: int, acc: Seq<(TypeView, IType)>, st: InferState) -> (Seq<(TypeView, IType)>, InferState)
    decreases handlers.len() - i,
{
    if i < 0 || i >= handlers.len() {
        (acc, st)
    } else {
        let h = handlers[i];
        let me = IType::Object { name, fields: afs, methods: Seq::empty(), is_actor: true, is_store: false };
        let c = convert(h.message_type@, st);
        let ht = fun_type(seq![me, c.0], IType::Unit, actor_effects());
        actor_handlers(name, afs, handlers, i + 1, handler_insert(acc, h.message_type@, ht), c.1)
    }
}

pub open spec fn actor_type(name: Seq<char>, fields: Seq<Field>, handlers: Seq<MessageHandler>, st: InferState) -> Inferred {
    let f = actor_fields(fields, 0, Seq::empty(), st);
    let h = actor_handlers(name, f.0, handlers, 0, Seq::empty(), f.1);
    (Ok(IType::Actor { name, fields: f.0, handlers: h.0 }), h.1)
}

} // verus!
