use vstd::prelude::*;
use crate::ast::{Expr, Stmt, StmtKind, Parameter, Program, Type, TypeView};
use super::{TypeResolver, same_but_counter};
use super::subst::{Substitution, apply_subst};
use super::solve::{constraints_view, solve_spec};
use super::types::{Constraint, ConstraintView, EffectSet, InferType, itypes_view, members_view, lemma_itypes_view_push, copy_itype, insert_member};
use super::infer::{function_type, type_result};
use super::inference::{one_type, store_effects};
use super::types::{IType, TypeVar};

use super::error::TypeError;
use super::convert::{ast_to_infer, infer_to_ast};
use crate::assoc::assoc_insert;
use super::error::TypeErrorView;
use super::inference::pure_effects;
use super::infer_spec::{
    InferState, infer_stmt, infer_expr, add_constraint, actor_type, bind_name, method_params, convert, fresh_var, fun_type,
};
use super::infer::istate;

verus! {

pub open spec fn unit_result(r: Result<(), TypeError>) -> Result<(), TypeErrorView> {
    match r {
        Ok(_) => Ok(()),
        Err(e) => Err(e@),
    }
}

/// The named types a resolver knows, which is all that rewriting types reads of it.
pub open spec fn defined_types(r: TypeResolver) -> InferState {
    InferState { counter: 0, ..istate(r) }
}

/// A written type once inference is done: converted in the state `st` from counter `c` on, with
/// the solution applied, and written back; and the counter afterwards.
pub open spec fn updated_type(t: TypeView, c: usize, st: InferState, s: Map<TypeVar, IType>) -> (TypeView, usize) {
    let r = ast_to_infer(t, st.objects, st.stores, st.actors, c);
    (infer_to_ast(apply_subst(r.0, s)), r.1)
}

/// Whether `new` is `old` with its type updated from counter `c` on: the counter afterwards.
pub open spec fn expr_update(old: Expr, new: Expr, c: usize, st: InferState, s: Map<TypeVar, IType>) -> Option<usize> {
    let u = updated_type(old.type_@, c, st, s);
    if new.id == old.id && new.span == old.span && new.kind == old.kind && new.type_@ == u.0 {
        Some(u.1)
    } else {
        None
    }
}

pub open spec fn opt_expr_update(old: Option<Expr>, new: Option<Expr>, c: usize, st: InferState, s: Map<TypeVar, IType>) -> Option<usize> {
    match (old, new) {
        (None, None) => Some(c),
        (Some(a), Some(b)) => expr_update(a, b, c, st, s),
        _ => None,
    }
}

pub open spec fn opt_type_update(old: Option<Type>, new: Option<Type>, c: usize, st: InferState, s: Map<TypeVar, IType>) -> Option<usize> {
    match (old, new) {
        (None, None) => Some(c),
        (Some(a), Some(b)) => {
            let u = updated_type(a@, c, st, s);
            if b@ == u.0 {
                Some(u.1)
            } else {
                None
            }
        },
        _ => None,
    }
}

/// Whether the parameters `new` are `old` from `i` on with their types updated.
pub open spec fn params_update(old: Seq<Parameter>, new: Seq<Parameter>, i: int, c: usize, st: InferState, s: Map<TypeVar, IType>) -> Option<usize>
    decreases old.len() - i,
{
    if old.len() != new.len() {
        None
    } else if i < 0 || i >= old.len() {
        Some(c)
    } else {
        let u = updated_type(old[i].type_@, c, st, s);
        if new[i].name == old[i].name && new[i].span == old[i].span && new[i].type_@ == u.0 {
            match opt_expr_update(old[i].default_value, new[i].default_value, u.1, st, s) {
                Some(c2) => params_update(old, new, i + 1, c2, st, s),
                None => None,
            }
        } else {
            None
        }
    }
}

/// Whether the statements `new` are `old` from `i` on with their types updated.
pub open spec fn stmts_update(old: Seq<Stmt>, new: Seq<Stmt>, i: int, c: usize, st: InferState, s: Map<TypeVar, IType>) -> Option<usize>
    decreases old, old.len() - i,
{
    if old.len() != new.len() {
        None
    } else if i < 0 || i >= old.len() {
        Some(c)
    } else {
        match stmt_update(old[i], new[i], c, st, s) {
            Some(c2) => stmts_update(old, new, i + 1, c2, st, s),
            None => None,
        }
    }
}

pub open spec fn opt_stmts_update(old: Option<Vec<Stmt>>, new: Option<Vec<Stmt>>, c: usize, st: InferState, s: Map<TypeVar, IType>) -> Option<usize>
    decreases old, 0nat,
{
    match (old, new) {
        (None, None) => Some(c),
        (Some(a), Some(b)) => stmts_update(a@, b@, 0, c, st, s),
        _ => None,
    }
}

/// Whether `new` is `old` with the types of its expressions, parameters and return type
/// updated, and those of the statements in its body.
pub open spec fn stmt_update(old: Stmt, new: Stmt, c: usize, st: InferState, s: Map<TypeVar, IType>) -> Option<usize>
    decreases old, 0nat,
{
    if new.id != old.id || new.span != old.span {
        None
    } else {
        match (old.kind, new.kind) {
            (StmtKind::Expression(a), StmtKind::Expression(b)) => expr_update(a, b, c, st, s),
            (StmtKind::Assignment { target: t0, value: v0 }, StmtKind::Assignment { target: t1, value: v1 }) => match expr_update(t0, t1, c, st, s) {
                Some(c2) => expr_update(v0, v1, c2, st, s),
                None => None,
            },
            (
                StmtKind::Function { name: n0, params: p0, return_type: r0, body: b0 },
                StmtKind::Function { name: n1, params: p1, return_type: r1, body: b1 },
            ) => if n0 == n1 {
                match params_update(p0@, p1@, 0, c, st, s) {
                    Some(c2) => match opt_type_update(r0, r1, c2, st, s) {
                        Some(c3) => stmts_update(b0@, b1@, 0, c3, st, s),
                        None => None,
                    },
                    None => None,
                }
            } else {
                None
            },
            (
                StmtKind::If { condition: x0, then_branch: t0, else_branch: e0 },
                StmtKind::If { condition: x1, then_branch: t1, else_branch: e1 },
            ) => match expr_update(x0, x1, c, st, s) {
                Some(c2) => match stmts_update(t0@, t1@, 0, c2, st, s) {
                    Some(c3) => opt_stmts_update(e0, e1, c3, st, s),
                    None => None,
                },
                None => None,
            },
            (StmtKind::While { condition: x0, body: b0 }, StmtKind::While { condition: x1, body: b1 }) => match expr_update(
                x0,
                x1,
                c,
                st,
                s,
            ) {
                Some(c2) => stmts_update(b0@, b1@, 0, c2, st, s),
                None => None,
            },
            (StmtKind::Return(v0), StmtKind::Return(v1)) => opt_expr_update(v0, v1, c, st, s),
            (StmtKind::Expression(_), _) | (StmtKind::Assignment { .. }, _) | (StmtKind::Function { .. }, _) | (
                StmtKind::If { .. },
                _,
            ) | (StmtKind::While { .. }, _) | (StmtKind::Return(_), _) => None,
            _ => if new.kind == old.kind {
                Some(c)
            } else {
                None
            },
        }
    }
}

/// A definition gathered before inference: objects and stores as inference records them, and
/// actors, which are also bound to their names.
pub open spec fn collect_step(s: Stmt, st: InferState) -> (Result<(), TypeErrorView>, InferState) {
    match s.kind {
        StmtKind::Object { .. } | StmtKind::Store { .. } => {
            let r = infer_stmt(s, st);
            match r.0 {
                Ok(_) => (Ok(()), r.1),
                Err(e) => (Err(e), r.1),
            }
        },
        StmtKind::Actor { name, fields, handlers } => {
            let a = actor_type(name@, fields@, handlers@, st);
            match a.0 {
                Ok(at) => (Ok(()), bind_name(InferState { actors: assoc_insert(a.1.actors, name@, at), ..a.1 }, name@, at)),
                Err(e) => (Err(e), a.1),
            }
        },
        _ => (Ok(()), st),
    }
}

/// The definitions of the statements from `i` on, gathered in turn.
pub open spec fn collect_types(stmts: Seq<Stmt>, i: int, st: InferState) -> (Result<(), TypeErrorView>, InferState)
    decreases stmts.len() - i,
{
    if i < 0 || i >= stmts.len() {
        (Ok(()), st)
    } else {
        let r = collect_step(stmts[i], st);
        match r.0 {
            Ok(_) => collect_types(stmts, i + 1, r.1),
            Err(e) => (Err(e), r.1),
        }
    }
}

/// A function's signature bound to its name before inference: its parameters' types, and the
/// declared return type or a fresh one.
pub open spec fn signature_step(s: Stmt, st: InferState) -> InferState {
    match s.kind {
        StmtKind::Function { name, params, return_type, .. } => {
            let p = method_params(params@, 0, Seq::empty(), st);
            let r = match return_type {
                Some(t) => convert(t@, p.1),
                None => fresh_var(p.1),
            };
            bind_name(r.1, name@, fun_type(p.0, r.0, pure_effects()))
        },
        _ => st,
    }
}

pub open spec fn collect_signatures(stmts: Seq<Stmt>, i: int, st: InferState) -> InferState
    decreases stmts.len() - i,
{
    if i < 0 || i >= stmts.len() {
        st
    } else {
        collect_signatures(stmts, i + 1, signature_step(stmts[i], st))
    }
}

/// The statements from `i` on inferred in turn.
pub open spec fn infer_all(stmts: Seq<Stmt>, i: int, st: InferState) -> (Result<(), TypeErrorView>, InferState)
    decreases stmts.len() - i,
{
    if i < 0 || i >= stmts.len() {
        (Ok(()), st)
    } else {
        let r = infer_stmt(stmts[i], st);
        match r.0 {
            Ok(_) => infer_all(stmts, i + 1, r.1),
            Err(e) => (Err(e), r.1),
        }
    }
}

/// The constraints of a program: definitions first, then signatures, then every statement.
pub open spec fn program_constraints(stmts: Seq<Stmt>, st: InferState) -> (Result<(), TypeErrorView>, InferState) {
    let c = collect_types(stmts, 0, st);
    match c.0 {
        Ok(_) => infer_all(stmts, 0, collect_signatures(stmts, 0, c.1)),
        Err(e) => (Err(e), c.1),
    }
}

/// The type of a store holding values of one written type, checked against its initial value:
/// `get`, `set`, `update` and `with_id` read and write that value.
pub open spec fn store_type(name: Seq<char>, value_type: TypeView, initial_value: Option<Expr>, st: InferState) -> (
    Result<IType, TypeErrorView>,
    InferState,
) {
    let (stored, s1) = convert(value_type, st);
    let init: (Result<(), TypeErrorView>, InferState) = match initial_value {
        Some(e) => {
            let r = infer_expr(e, s1);
            match r.0 {
                Ok(t) => (Ok(()), add_constraint(r.1, ConstraintView::Equal(stored, t))),
                Err(er) => (Err(er), r.1),
            }
        },
        None => (Ok(()), s1),
    };
    match init.0 {
        Err(er) => (Err(er), init.1),
        Ok(_) => {
            let methods = assoc_insert(
                assoc_insert(
                    assoc_insert(
                        assoc_insert(Seq::empty(), "get"@, fun_type(Seq::empty(), stored, store_effects())),
                        "set"@,
                        fun_type(seq![stored], IType::Unit, store_effects()),
                    ),
                    "update"@,
                    fun_type(seq![fun_type(seq![stored], stored, pure_effects())], IType::Unit, store_effects()),
                ),
                "with_id"@,
                fun_type(seq![IType::Int], stored, store_effects()),
            );
            (Ok(IType::Store { name, value_type: Box::new(stored), methods }), init.1)
        },
    }
}

impl TypeResolver {
    /// Rewrites a written type with the solution applied.
    fn update_type(&mut self, ast_type: &mut Type, subst: &Substitution)
        ensures
            (final(ast_type)@, final(self).var_gen.counter) == updated_type(
                old(ast_type)@,
                old(self).var_gen.counter,
                defined_types(*old(self)),
                subst@,
            ),
            same_but_counter(*final(self), *old(self)),
    {
        if let Ok(infer_type) = self.ast_type_to_infer_type(ast_type) {
            let substituted = self.apply_substitution(&infer_type, subst);
            *ast_type = self.infer_type_to_ast_type(&substituted);
        }
    }

    fn update_expr(&mut self, expr: &mut Expr, subst: &Substitution)
        ensures
            expr_update(*old(expr), *final(expr), old(self).var_gen.counter, defined_types(*old(self)), subst@) == Some(
                final(self).var_gen.counter,
            ),
            same_but_counter(*final(self), *old(self)),
    {
        self.update_type(&mut expr.type_, subst);
    }

    fn update_opt_expr(&mut self, expr: &mut Option<Expr>, subst: &Substitution)
        ensures
            opt_expr_update(*old(expr), *final(expr), old(self).var_gen.counter, defined_types(*old(self)), subst@) == Some(
                final(self).var_gen.counter,
            ),
            same_but_counter(*final(self), *old(self)),
    {
        if let Some(e) = expr {
            self.update_expr(e, subst);
        }
    }

    fn update_params(&mut self, params: &mut Vec<Parameter>, subst: &Substitution)
        ensures
            params_update(old(params)@, final(params)@, 0, old(self).var_gen.counter, defined_types(*old(self)), subst@)
                == Some(final(self).var_gen.counter),
            same_but_counter(*final(self), *old(self)),
    {
        let ghost p0 = params@;
        let ghost st = defined_types(*self);
        let ghost c0 = self.var_gen.counter;
        let ghost r0 = *self;
        let mut i: usize = 0;
        while i < params.len()
            invariant
                i <= params.len(),
                params@.len() == p0.len(),
                st == defined_types(r0),
                same_but_counter(*self, r0),
                forall|j: int| i <= j < p0.len() ==> params@[j] == p0[j],
                forall|n: Seq<Parameter>|
                    n.len() == p0.len() && (forall|j: int| 0 <= j < i ==> n[j] == params@[j]) ==> #[trigger] params_update(
                        p0,
                        n,
                        0,
                        c0,
                        st,
                        subst@,
                    ) == params_update(p0, n, i as int, self.var_gen.counter, st, subst@),
            decreases params.len() - i,
        {
            let ghost before = params@;
            let ghost ci = self.var_gen.counter;
            self.update_type(&mut params[i].type_, subst);
            self.update_opt_expr(&mut params[i].default_value, subst);
            assert forall|n: Seq<Parameter>|
                n.len() == p0.len() && (forall|j: int| 0 <= j < i + 1 ==> n[j] == params@[j]) implies #[trigger] params_update(
                p0,
                n,
                0,
                c0,
                st,
                subst@,
            ) == params_update(p0, n, i + 1, self.var_gen.counter, st, subst@) by {
                assert forall|j: int| 0 <= j < i implies n[j] == before[j] by {
                    assert(n[j] == params@[j]);
                }
                assert(params_update(p0, n, 0, c0, st, subst@) == params_update(p0, n, i as int, ci, st, subst@));
            }
            i = i + 1;
        }
        assert(params_update(p0, params@, 0, c0, st, subst@) == params_update(p0, params@, i as int, self.var_gen.counter, st, subst@));
    }

    fn update_stmts(&mut self, stmts: &mut Vec<Stmt>, subst: &Substitution)
        ensures
            stmts_update(old(stmts)@, final(stmts)@, 0, old(self).var_gen.counter, defined_types(*old(self)), subst@) == Some(
                final(self).var_gen.counter,
            ),
            same_but_counter(*final(self), *old(self)),
        decreases old(stmts)@, 1nat,
    {
        let ghost p0 = stmts@;
        let ghost st = defined_types(*self);
        let ghost c0 = self.var_gen.counter;
        let ghost r0 = *self;
        let mut i: usize = 0;
        while i < stmts.len()
            invariant
                i <= stmts.len(),
                stmts@.len() == p0.len(),
                st == defined_types(r0),
                p0 == old(stmts)@,
                same_but_counter(*self, r0),
                forall|j: int| i <= j < p0.len() ==> stmts@[j] == p0[j],
                forall|n: Seq<Stmt>|
                    n.len() == p0.len() && (forall|j: int| 0 <= j < i ==> n[j] == stmts@[j]) ==> #[trigger] stmts_update(
                        p0,
                        n,
                        0,
                        c0,
                        st,
                        subst@,
                    ) == stmts_update(p0, n, i as int, self.var_gen.counter, st, subst@),
            decreases stmts.len() - i,
        {
            let ghost before = stmts@;
            let ghost ci = self.var_gen.counter;
            proof {
                assert(decreases_to!(p0 => p0[i as int]));
            }
            self.update_stmt(&mut stmts[i], subst);
            assert forall|n: Seq<Stmt>|
                n.len() == p0.len() && (forall|j: int| 0 <= j < i + 1 ==> n[j] == stmts@[j]) implies #[trigger] stmts_update(
                p0,
                n,
                0,
                c0,
                st,
                subst@,
            ) == stmts_update(p0, n, i + 1, self.var_gen.counter, st, subst@) by {
                assert forall|j: int| 0 <= j < i implies n[j] == before[j] by {
                    assert(n[j] == stmts@[j]);
                }
                assert(stmts_update(p0, n, 0, c0, st, subst@) == stmts_update(p0, n, i as int, ci, st, subst@));
            }
            i = i + 1;
        }
        assert(stmts_update(p0, stmts@, 0, c0, st, subst@) == stmts_update(p0, stmts@, i as int, self.var_gen.counter, st, subst@));
    }

    fn update_stmt(&mut self, stmt: &mut Stmt, subst: &Substitution)
        ensures
            stmt_update(*old(stmt), *final(stmt), old(self).var_gen.counter, defined_types(*old(self)), subst@) == Some(
                final(self).var_gen.counter,
            ),
            same_but_counter(*final(self), *old(self)),
        decreases *old(stmt), 2nat,
    {
        match &mut stmt.kind {
            StmtKind::Expression(e) => self.update_expr(e, subst),
            StmtKind::Assignment { target, value } => {
                self.update_expr(target, subst);
                self.update_expr(value, subst);
            },
            StmtKind::Function { params, return_type, body, .. } => {
                self.update_params(params, subst);
                if let Some(ret_type) = return_type {
                    self.update_type(ret_type, subst);
                }
                self.update_stmts(body, subst);
            },
            StmtKind::If { condition, then_branch, else_branch } => {
                self.update_expr(condition, subst);
                self.update_stmts(then_branch, subst);
                if let Some(else_block) = else_branch {
                    self.update_stmts(else_block, subst);
                }
            },
            StmtKind::While { condition, body } => {
                self.update_expr(condition, subst);
                self.update_stmts(body, subst);
            },
            StmtKind::Return(value) => self.update_opt_expr(value, subst),
            _ => {},
        }
    }

    /// Rewrites the types written in the program with the solution applied.
    pub fn apply_substitutions_to_program(&mut self, program: &mut Program, subst: &Substitution) -> (r: Result<
        (),
        TypeError,
    >)
        ensures
            r is Ok,
            final(program).span == old(program).span,
            stmts_update(
                old(program).statements@,
                final(program).statements@,
                0,
                old(self).var_gen.counter,
                defined_types(*old(self)),
                subst@,
            ) == Some(final(self).var_gen.counter),
            same_but_counter(*final(self), *old(self)),
    {
        self.update_stmts(&mut program.statements, subst);
        Ok(())
    }

    /// The types of parameters, a fresh one where none is written, without binding them.
    fn parameter_types(&mut self, params: &Vec<Parameter>) -> (r: Vec<InferType>)
        ensures
            (itypes_view(r@), istate(*final(self))) == method_params(params@, 0, Seq::empty(), istate(*old(self))),
            same_but_counter(*final(self), *old(self)),
    {
        let ghost goal = method_params(params@, 0, Seq::empty(), istate(*self));
        let ghost r0 = *self;
        let mut param_types: Vec<InferType> = Vec::new();
        assert(itypes_view(param_types@) =~= Seq::<IType>::empty());
        let mut i: usize = 0;
        while i < params.len()
            invariant
                i <= params.len(),
                goal == method_params(params@, i as int, itypes_view(param_types@), istate(*self)),
                same_but_counter(*self, r0),
            decreases params.len() - i,
        {
            let param_type = match self.parameter_type(&params[i].type_) {
                Ok(t) => t,
                Err(_) => InferType::Unknown,
            };
            proof {
                lemma_itypes_view_push(param_types@, param_type);
            }
            param_types.push(param_type);
            i = i + 1;
        }
        param_types
    }

    /// Binds each function's signature to its name, so that calls may come before definitions.
    pub fn collect_function_signatures(&mut self, program: &Program) -> (r: Result<(), TypeError>)
        ensures
            r is Ok,
            istate(*final(self)) == collect_signatures(program.statements@, 0, istate(*old(self))),
            final(self).builtin_types == old(self).builtin_types,
    {
        let stmts = &program.statements;
        let ghost goal = collect_signatures(stmts@, 0, istate(*self));
        let ghost b0 = self.builtin_types;
        let mut i: usize = 0;
        while i < stmts.len()
            invariant
                i <= stmts.len(),
                stmts == program.statements,
                goal == collect_signatures(stmts@, i as int, istate(*self)),
                self.builtin_types == b0,
            decreases stmts.len() - i,
        {
            if let StmtKind::Function { name, params, return_type, .. } = &stmts[i].kind {
                let param_types = self.parameter_types(params);
                let return_infer_type = match return_type {
                    Some(ty) => match self.convert_type(ty) {
                        Ok(t) => t,
                        Err(e) => return Err(e),
                    },
                    None => self.fresh_type(),
                };
                let func_type = function_type(param_types, return_infer_type, EffectSet::pure());
                self.env.bind(name.clone(), func_type);
            }
            i = i + 1;
        }
        Ok(())
    }

    /// Records every object, store and actor defined at the top of the program, so that uses may
    /// come before definitions.
    #[verifier::loop_isolation(false)]
    pub fn collect_type_definitions(&mut self, program: &Program) -> (r: Result<(), TypeError>)
        ensures
            (unit_result(r), istate(*final(self))) == collect_types(program.statements@, 0, istate(*old(self))),
            final(self).builtin_types == old(self).builtin_types,
    {
        let stmts = &program.statements;
        let ghost goal = collect_types(stmts@, 0, istate(*old(self)));
        let mut i: usize = 0;
        while i < stmts.len()
            invariant
                i <= stmts.len(),
                goal == collect_types(stmts@, i as int, istate(*self)),
                self.builtin_types == old(self).builtin_types,
            decreases stmts.len() - i,
        {
            let stmt = &stmts[i];
            match &stmt.kind {
                StmtKind::Object { .. } | StmtKind::Store { .. } => {
                    match self.infer_object_definition(stmt) {
                        Ok(_) => {},
                        Err(e) => return Err(e),
                    }
                },
                StmtKind::Actor { name, fields, handlers } => {
                    let actor_type = match self.create_actor_type(name, fields, handlers) {
                        Ok(t) => t,
                        Err(e) => return Err(e),
                    };
                    insert_member(&mut self.actor_types, name.clone(), copy_itype(&actor_type));
                    self.env.bind(name.clone(), actor_type);
                },
                _ => {},
            }
            i = i + 1;
        }
        Ok(())
    }

    /// Infers every statement in turn.
    #[verifier::loop_isolation(false)]
    fn infer_statements(&mut self, stmts: &Vec<Stmt>) -> (r: Result<(), TypeError>)
        ensures
            (unit_result(r), istate(*final(self))) == infer_all(stmts@, 0, istate(*old(self))),
            final(self).builtin_types == old(self).builtin_types,
    {
        let ghost goal = infer_all(stmts@, 0, istate(*old(self)));
        let mut i: usize = 0;
        while i < stmts.len()
            invariant
                i <= stmts.len(),
                goal == infer_all(stmts@, i as int, istate(*self)),
                self.builtin_types == old(self).builtin_types,
            decreases stmts.len() - i,
        {
            match self.infer_statement(&stmts[i]) {
                Ok(_) => {},
                Err(e) => return Err(e),
            }
            i = i + 1;
        }
        Ok(())
    }

    /// Resolves the types of a program: definitions and signatures are gathered, every statement
    /// is inferred, the constraints are solved, and the solution is written into the program's
    /// types. On an error the program is left as it was.
    pub fn resolve_program(&mut self, program: &mut Program) -> (r: Result<(), TypeError>)
        ensures
            ({
                let ph = program_constraints(old(program).statements@, istate(*old(self)));
                let sol = solve_spec(ph.1.constraints, Map::empty(), ph.1.counter);
                match ph.0 {
                    Err(e) => r is Err && r->Err_0@ == e && *final(program) == *old(program),
                    Ok(_) => match sol.0 {
                        Err(e) => r is Err && r->Err_0@ == e && *final(program) == *old(program),
                        Ok(s) => r is Ok && final(program).span == old(program).span && stmts_update(
                            old(program).statements@,
                            final(program).statements@,
                            0,
                            sol.1,
                            InferState { counter: 0, constraints: Seq::empty(), ..ph.1 },
                            s,
                        ) == Some(final(self).var_gen.counter),
                    },
                }
            }),
            final(self).builtin_types == old(self).builtin_types,
    {
        match self.collect_type_definitions(program) {
            Ok(()) => {},
            Err(e) => return Err(e),
        }
        match self.collect_function_signatures(program) {
            Ok(()) => {},
            Err(e) => return Err(e),
        }
        match self.infer_statements(&program.statements) {
            Ok(()) => {},
            Err(e) => return Err(e),
        }
        let ghost before_solve = istate(*self);
        let subst = match self.solve_constraints() {
            Ok(s) => s,
            Err(e) => return Err(e),
        };
        assert(constraints_view(self.constraints@) =~= Seq::<ConstraintView>::empty());
        assert(defined_types(*self) == InferState { counter: 0, constraints: Seq::empty(), ..before_solve });
        match self.apply_substitutions_to_program(program, &subst) {
            Ok(()) => {},
            Err(e) => return Err(e),
        }
        Ok(())
    }

    /// The type of a store of values of `value_type`, whose initial value, if any, must have
    /// that type.
    pub fn create_store_type(&mut self, name: &String, value_type: &Type, initial_value: &Option<Expr>) -> (r: Result<
        InferType,
        TypeError,
    >)
        ensures
            (type_result(r), istate(*final(self))) == store_type(name@, value_type@, *initial_value, istate(*old(self))),
            final(self).builtin_types == old(self).builtin_types,
    {
        let stored_type = match self.convert_type(value_type) {
            Ok(t) => t,
            Err(e) => return Err(e),
        };
        if let Some(init_expr) = initial_value {
            let init_type = match self.infer_expression(init_expr) {
                Ok(t) => t,
                Err(e) => return Err(e),
            };
            self.push_constraint(Constraint::Equal(copy_itype(&stored_type), init_type));
        }
        let mut methods: Vec<(String, InferType)> = Vec::new();
        assert(members_view(methods@) =~= Seq::<(Seq<char>, IType)>::empty());
        let no_params: Vec<InferType> = Vec::new();
        assert(itypes_view(no_params@) =~= Seq::<IType>::empty());
        insert_member(
            &mut methods,
            String::from_str("get"),
            function_type(no_params, copy_itype(&stored_type), EffectSet::store()),
        );
        insert_member(
            &mut methods,
            String::from_str("set"),
            function_type(one_type(copy_itype(&stored_type)), InferType::Unit, EffectSet::store()),
        );
        let updater = function_type(one_type(copy_itype(&stored_type)), copy_itype(&stored_type), EffectSet::pure());
        insert_member(
            &mut methods,
            String::from_str("update"),
            function_type(one_type(updater), InferType::Unit, EffectSet::store()),
        );
        insert_member(
            &mut methods,
            String::from_str("with_id"),
            function_type(one_type(InferType::Int), copy_itype(&stored_type), EffectSet::store()),
        );
        Ok(InferType::Store { name: name.clone(), value_type: Box::new(stored_type), methods })
    }
}

} // verus!
