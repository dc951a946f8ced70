use vstd::prelude::*;
use std::collections::VecDeque;
use crate::assoc::{assoc_get, find_name};
use crate::text::{decimal, push_decimal};
use super::{TypeResolver, same_but_counter};
use super::error::{TypeError, TypeErrorView};
use super::subst::{Substitution, apply_subst, apply_subst_all, compose_spec};
use super::types::{
    Constraint, ConstraintView, EffectSet, InferType, IType, TypeVar, copy_itype, itypes_view, members_view,
    lemma_itypes_view, lemma_members_view, lemma_members_pos, lemma_members_none, lemma_members_view_push,
};
use super::unification::{unify_spec, result_view};

verus! {

/// The constraints of a queue as mathematical values.
pub open spec fn constraints_view(cs: Seq<Constraint>) -> Seq<ConstraintView> {
    cs.map_values(|c: Constraint| c@)
}

/// A constraint with a substitution applied to each of its types.
pub open spec fn apply_constraint(c: ConstraintView, s: Map<TypeVar, IType>) -> ConstraintView {
    match c {
        ConstraintView::Equal(a, b) => ConstraintView::Equal(apply_subst(a, s), apply_subst(b, s)),
        ConstraintView::HasField(o, f, t) => ConstraintView::HasField(apply_subst(o, s), f, apply_subst(t, s)),
        ConstraintView::HasMethod(o, m, t) => ConstraintView::HasMethod(apply_subst(o, s), m, apply_subst(t, s)),
        ConstraintView::IsCallable(f, args, r) => ConstraintView::IsCallable(
            apply_subst(f, s),
            apply_subst_all(args, s),
            apply_subst(r, s),
        ),
        ConstraintView::IsIterable(c, e) => ConstraintView::IsIterable(apply_subst(c, s), apply_subst(e, s)),
    }
}

/// The name given to an object type inferred for a type variable.
pub open spec fn inferred_name(v: TypeVar) -> Seq<char> {
    "Inferred_"@ + decimal(v.0 as nat)
}

/// The equalities between a function's parameters and the arguments of a call.
pub open spec fn call_equalities(params: Seq<IType>, args: Seq<IType>) -> Seq<ConstraintView> {
    Seq::new(params.len(), |i: int| ConstraintView::Equal(params[i], args[i]))
}

pub open spec fn no_effects() -> EffectSet {
    EffectSet { io: false, store: false, actor_send: false, mutation: false }
}

/// A field constraint: an object's field must equal the given type; a variable becomes an
/// object with just that field.
pub open spec fn step_has_field(
    obj: IType,
    name: Seq<char>,
    ft: IType,
    rest: Seq<ConstraintView>,
    subst: Map<TypeVar, IType>,
) -> Result<(Seq<ConstraintView>, Map<TypeVar, IType>), TypeErrorView> {
    match obj {
        IType::Object { fields, .. } => match assoc_get(fields, name) {
            Some(actual) => Ok((rest.push(ConstraintView::Equal(ft, actual)), subst)),
            None => Err(TypeErrorView::FieldNotFound(name)),
        },
        IType::Var(v) => Ok((
            rest,
            subst.insert(
                v,
                IType::Object {
                    name: inferred_name(v),
                    fields: seq![(name, ft)],
                    methods: Seq::empty(),
                    is_actor: false,
                    is_store: false,
                },
            ),
        )),
        _ => Err(TypeErrorView::NotAnObject(obj)),
    }
}

/// A method constraint: an object's or store's method must equal the given type; a variable
/// becomes an object with just that method.
pub open spec fn step_has_method(
    obj: IType,
    name: Seq<char>,
    mt: IType,
    rest: Seq<ConstraintView>,
    subst: Map<TypeVar, IType>,
) -> Result<(Seq<ConstraintView>, Map<TypeVar, IType>), TypeErrorView> {
    match obj {
        IType::Object { methods, .. } => match assoc_get(methods, name) {
            Some(actual) => Ok((rest.push(ConstraintView::Equal(mt, actual)), subst)),
            None => Err(TypeErrorView::MethodNotFound(name)),
        },
        IType::Store { methods, .. } => match assoc_get(methods, name) {
            Some(actual) => Ok((rest.push(ConstraintView::Equal(mt, actual)), subst)),
            None => Err(TypeErrorView::MethodNotFound(name)),
        },
        IType::Var(v) => Ok((
            rest,
            subst.insert(
                v,
                IType::Object {
                    name: inferred_name(v),
                    fields: Seq::empty(),
                    methods: seq![(name, mt)],
                    is_actor: false,
                    is_store: false,
                },
            ),
        )),
        _ => Err(TypeErrorView::NotAnObject(obj)),
    }
}

/// A call constraint: a function's parameters must equal the arguments and its result the
/// result type; a variable becomes a pure function of these types.
pub open spec fn step_callable(
    f: IType,
    args: Seq<IType>,
    ret: IType,
    rest: Seq<ConstraintView>,
    subst: Map<TypeVar, IType>,
) -> Result<(Seq<ConstraintView>, Map<TypeVar, IType>), TypeErrorView> {
    match f {
        IType::Function { params, return_type, .. } => if params.len() != args.len() {
            Err(TypeErrorView::ArityMismatch(params.len(), args.len()))
        } else {
            Ok(((rest + call_equalities(params, args)).push(ConstraintView::Equal(*return_type, ret)), subst))
        },
        IType::Var(v) => Ok((
            rest,
            subst.insert(v, IType::Function { params: args, return_type: Box::new(ret), effects: no_effects() }),
        )),
        _ => Err(TypeErrorView::NotCallable(f)),
    }
}

/// An iteration constraint: the elements of a list or iterator must equal the element type;
/// a variable becomes a list of it.
pub open spec fn step_iterable(
    cont: IType,
    elem: IType,
    rest: Seq<ConstraintView>,
    subst: Map<TypeVar, IType>,
) -> Result<(Seq<ConstraintView>, Map<TypeVar, IType>), TypeErrorView> {
    match cont {
        IType::List(inner) => Ok((rest.push(ConstraintView::Equal(*inner, elem)), subst)),
        IType::Iterator(inner) => Ok((rest.push(ConstraintView::Equal(*inner, elem)), subst)),
        IType::Var(v) => Ok((rest, subst.insert(v, IType::List(Box::new(elem))))),
        _ => Err(TypeErrorView::NotIterable(cont)),
    }
}

/// One step of the solver on the constraint at the front of the queue: an equality is unified,
/// the substitution found is composed onto the one so far and applied to the rest of the queue.
pub open spec fn solve_step(
    c: ConstraintView,
    rest: Seq<ConstraintView>,
    subst: Map<TypeVar, IType>,
    counter: usize,
) -> (Result<(Seq<ConstraintView>, Map<TypeVar, IType>), TypeErrorView>, usize) {
    match c {
        ConstraintView::Equal(t1, t2) => {
            let u = unify_spec(t1, t2, counter);
            match u.0 {
                Err(e) => (Err(e), u.1),
                Ok(s) => (Ok((rest.map_values(|x: ConstraintView| apply_constraint(x, s)), compose_spec(subst, s))), u.1),
            }
        },
        ConstraintView::HasField(o, f, t) => (step_has_field(o, f, t, rest, subst), counter),
        ConstraintView::HasMethod(o, m, t) => (step_has_method(o, m, t, rest, subst), counter),
        ConstraintView::IsCallable(f, args, r) => (step_callable(f, args, r, rest, subst), counter),
        ConstraintView::IsIterable(c, e) => (step_iterable(c, e, rest, subst), counter),
    }
}

/// How much work a constraint can still make: an equality is solved at once; the others each
/// add at most one equality, a call one per argument and one for the result.
pub open spec fn weight(c: ConstraintView) -> nat {
    match c {
        ConstraintView::Equal(..) => 1,
        ConstraintView::IsCallable(_, args, _) => args.len() + 2,
        _ => 2,
    }
}

pub open spec fn total_weight(q: Seq<ConstraintView>) -> nat
    decreases q.len(),
{
    if q.len() == 0 {
        0
    } else {
        weight(q[0]) + total_weight(q.drop_first())
    }
}

proof fn lemma_total_weight_push(q: Seq<ConstraintView>, c: ConstraintView)
    ensures
        total_weight(q.push(c)) == total_weight(q) + weight(c),
    decreases q.len(),
{
    if q.len() > 0 {
        assert(q.push(c).drop_first() =~= q.drop_first().push(c));
        assert(q.push(c)[0] == q[0]);
        lemma_total_weight_push(q.drop_first(), c);
    } else {
        assert(q.push(c).drop_first() =~= Seq::<ConstraintView>::empty());
        assert(q.push(c)[0] == c);
        assert(total_weight(q.push(c).drop_first()) == 0);
    }
}

proof fn lemma_total_weight_concat(a: Seq<ConstraintView>, b: Seq<ConstraintView>)
    ensures
        total_weight(a + b) == total_weight(a) + total_weight(b),
    decreases a.len(),
{
    if a.len() > 0 {
        assert((a + b).drop_first() =~= a.drop_first() + b);
        assert((a + b)[0] == a[0]);
        lemma_total_weight_concat(a.drop_first(), b);
    } else {
        assert(a + b =~= b);
    }
}

proof fn lemma_total_weight_equalities(params: Seq<IType>, args: Seq<IType>)
    requires
        params.len() == args.len(),
    ensures
        total_weight(call_equalities(params, args)) == params.len(),
    decreases params.len(),
{
    if params.len() > 0 {
        assert(call_equalities(params, args).drop_first() =~= call_equalities(
            params.drop_first(),
            args.drop_first(),
        ));
        lemma_total_weight_equalities(params.drop_first(), args.drop_first());
    }
}

proof fn lemma_apply_subst_all_len(ts: Seq<IType>, s: Map<TypeVar, IType>)
    ensures
        apply_subst_all(ts, s).len() == ts.len(),
    decreases ts.len(),
{
    if ts.len() > 0 {
        lemma_apply_subst_all_len(ts.drop_last(), s);
    }
}

proof fn lemma_total_weight_apply(q: Seq<ConstraintView>, s: Map<TypeVar, IType>)
    ensures
        total_weight(q.map_values(|x: ConstraintView| apply_constraint(x, s))) == total_weight(q),
    decreases q.len(),
{
    if q.len() > 0 {
        let f = |x: ConstraintView| apply_constraint(x, s);
        assert(q.map_values(f).drop_first() =~= q.drop_first().map_values(f));
        lemma_total_weight_apply(q.drop_first(), s);
        if let ConstraintView::IsCallable(_, args, _) = q[0] {
            lemma_apply_subst_all_len(args, s);
        }
    }
}

/// Each step leaves less work in the queue than there was.
pub proof fn lemma_step_weight(c: ConstraintView, rest: Seq<ConstraintView>, subst: Map<TypeVar, IType>, counter: usize)
    ensures
        solve_step(c, rest, subst, counter).0 matches Ok((q2, _)) ==> total_weight(q2) < weight(c) + total_weight(rest),
{
    match c {
        ConstraintView::Equal(t1, t2) => {
            let u = unify_spec(t1, t2, counter);
            if let Ok(s) = u.0 {
                lemma_total_weight_apply(rest, s);
            }
        },
        ConstraintView::HasField(o, f, t) => {
            if let IType::Object { fields, .. } = o {
                if let Some(actual) = assoc_get(fields, f) {
                    lemma_total_weight_push(rest, ConstraintView::Equal(t, actual));
                }
            }
        },
        ConstraintView::HasMethod(o, m, t) => {
            if let IType::Object { methods, .. } = o {
                if let Some(actual) = assoc_get(methods, m) {
                    lemma_total_weight_push(rest, ConstraintView::Equal(t, actual));
                }
            }
            if let IType::Store { methods, .. } = o {
                if let Some(actual) = assoc_get(methods, m) {
                    lemma_total_weight_push(rest, ConstraintView::Equal(t, actual));
                }
            }
        },
        ConstraintView::IsCallable(f, args, r) => {
            if let IType::Function { params, return_type, .. } = f {
                if params.len() == args.len() {
                    lemma_total_weight_equalities(params, args);
                    lemma_total_weight_concat(rest, call_equalities(params, args));
                    lemma_total_weight_push(rest + call_equalities(params, args), ConstraintView::Equal(*return_type, r));
                }
            }
        },
        ConstraintView::IsIterable(cont, e) => {
            if let IType::List(inner) = cont {
                lemma_total_weight_push(rest, ConstraintView::Equal(*inner, e));
            }
            if let IType::Iterator(inner) = cont {
                lemma_total_weight_push(rest, ConstraintView::Equal(*inner, e));
            }
        },
    }
}

/// Solving a queue of constraints, front first, onto the substitution `subst`, with
/// fresh-variable counter `counter`: the final substitution, or the first error.
pub open spec fn solve_spec(q: Seq<ConstraintView>, subst: Map<TypeVar, IType>, counter: usize) -> (Result<Map<TypeVar, IType>, TypeErrorView>, usize)
    decreases total_weight(q),
{
    if q.len() == 0 {
        (Ok(subst), counter)
    } else {
        let st = solve_step(q[0], q.drop_first(), subst, counter);
        match st.0 {
            Err(e) => (Err(e), st.1),
            Ok((q2, s2)) => {
                proof {
                    lemma_step_weight(q[0], q.drop_first(), subst, counter);
                }
                solve_spec(q2, s2, st.1)
            },
        }
    }
}

/// The name of the object type inferred for `v`.
fn inferred_name_exec(v: TypeVar) -> (r: String)
    ensures
        r@ == inferred_name(v),
{
    let mut s = String::from_str("Inferred_");
    push_decimal(&mut s, v.0 as u64);
    s
}

/// A one-member list.
fn single_member(name: String, t: InferType) -> (r: Vec<(String, InferType)>)
    ensures
        members_view(r@) == seq![(name@, t@)],
{
    let mut v: Vec<(String, InferType)> = Vec::new();
    proof {
        lemma_members_view_push(v@, (name, t));
        assert(members_view(v@) =~= Seq::<(Seq<char>, IType)>::empty());
    }
    v.push((name, t));
    assert(members_view(v@) =~= seq![(name@, t@)]);
    v
}

fn no_members() -> (r: Vec<(String, InferType)>)
    ensures
        members_view(r@) == Seq::<(Seq<char>, IType)>::empty(),
{
    let v: Vec<(String, InferType)> = Vec::new();
    assert(members_view(v@) =~= Seq::<(Seq<char>, IType)>::empty());
    v
}

/// The outcome of a solver step as mathematical values.
pub open spec fn step_view(
    r: Result<(), TypeError>,
    queue: Seq<Constraint>,
    subst: Map<TypeVar, IType>,
) -> Result<(Seq<ConstraintView>, Map<TypeVar, IType>), TypeErrorView> {
    match r {
        Ok(_) => Ok((constraints_view(queue), subst)),
        Err(e) => Err(e@),
    }
}

/// A method lookup in a list of members, pushing the equality it asks for.
fn require_member(
    members: &Vec<(String, InferType)>,
    name: String,
    t: InferType,
    work_queue: &mut VecDeque<Constraint>,
    is_field: bool,
) -> (r: Result<(), TypeError>)
    ensures
        match assoc_get(members_view(members@), name@) {
            Some(actual) => r is Ok && constraints_view(final(work_queue)@) == constraints_view(old(work_queue)@).push(
                ConstraintView::Equal(t@, actual),
            ),
            None => r is Err && (if is_field {
                r->Err_0@ == TypeErrorView::FieldNotFound(name@)
            } else {
                r->Err_0@ == TypeErrorView::MethodNotFound(name@)
            }) && final(work_queue)@ == old(work_queue)@,
        },
{
    proof {
        lemma_members_view(members@);
    }
    match find_name(members, name.as_str()) {
        Some(j) => {
            proof {
                lemma_members_pos(members@, name@, j as int);
            }
            let actual = copy_itype(&members[j].1);
            let ghost before = work_queue@;
            let c = Constraint::Equal(t, actual);
            work_queue.push_back(c);
            assert(constraints_view(work_queue@) =~= constraints_view(before).push(c@));
            Ok(())
        },
        None => {
            proof {
                lemma_members_none(members@, name@);
            }
            if is_field {
                Err(TypeError::FieldNotFound(name))
            } else {
                Err(TypeError::MethodNotFound(name))
            }
        },
    }
}

impl TypeResolver {
    /// A constraint with `subst` applied to each of its types.
    pub fn apply_subst_to_constraint(&self, constraint: &Constraint, subst: &Substitution) -> (r: Constraint)
        ensures
            r@ == apply_constraint(constraint@, subst@),
    {
        match constraint {
            Constraint::Equal(a, b) => Constraint::Equal(subst.apply(a), subst.apply(b)),
            Constraint::HasField(o, f, t) => Constraint::HasField(subst.apply(o), f.clone(), subst.apply(t)),
            Constraint::HasMethod(o, m, t) => Constraint::HasMethod(subst.apply(o), m.clone(), subst.apply(t)),
            Constraint::IsCallable(f, args, r) => Constraint::IsCallable(
                subst.apply(f),
                subst.apply_all(args),
                subst.apply(r),
            ),
            Constraint::IsIterable(c, e) => Constraint::IsIterable(subst.apply(c), subst.apply(e)),
        }
    }

    /// Solves a field constraint, queueing the equality it asks for.
    pub fn solve_has_field_constraint(
        &mut self,
        obj_type: InferType,
        field_name: String,
        field_type: InferType,
        subst: &mut Substitution,
        work_queue: &mut VecDeque<Constraint>,
    ) -> (r: Result<(), TypeError>)
        ensures
            *final(self) == *old(self),
            step_view(r, final(work_queue)@, final(subst)@) == step_has_field(
                obj_type@,
                field_name@,
                field_type@,
                constraints_view(old(work_queue)@),
                old(subst)@,
            ),
    {
        let ghost ov = obj_type@;
        match obj_type {
            InferType::Object { fields, .. } => require_member(&fields, field_name, field_type, work_queue, true),
            InferType::Var(v) => {
                let obj = InferType::Object {
                    name: inferred_name_exec(v),
                    fields: single_member(field_name, field_type),
                    methods: no_members(),
                    is_actor: false,
                    is_store: false,
                };
                subst.insert(v, obj);
                Ok(())
            },
            _ => Err(TypeError::NotAnObject(obj_type)),
        }
    }

    /// Solves a method constraint, queueing the equality it asks for.
    pub fn solve_has_method_constraint(
        &mut self,
        obj_type: InferType,
        method_name: String,
        method_type: InferType,
        subst: &mut Substitution,
        work_queue: &mut VecDeque<Constraint>,
    ) -> (r: Result<(), TypeError>)
        ensures
            *final(self) == *old(self),
            step_view(r, final(work_queue)@, final(subst)@) == step_has_method(
                obj_type@,
                method_name@,
                method_type@,
                constraints_view(old(work_queue)@),
                old(subst)@,
            ),
    {
        match obj_type {
            InferType::Object { methods, .. } => require_member(&methods, method_name, method_type, work_queue, false),
            InferType::Store { methods, .. } => require_member(&methods, method_name, method_type, work_queue, false),
            InferType::Var(v) => {
                let obj = InferType::Object {
                    name: inferred_name_exec(v),
                    fields: no_members(),
                    methods: single_member(method_name, method_type),
                    is_actor: false,
                    is_store: false,
                };
                subst.insert(v, obj);
                Ok(())
            },
            _ => Err(TypeError::NotAnObject(obj_type)),
        }
    }

    /// Solves a call constraint, queueing an equality per argument and one for the result.
    pub fn solve_callable_constraint(
        &mut self,
        func_type: InferType,
        arg_types: Vec<InferType>,
        return_type: InferType,
        subst: &mut Substitution,
        work_queue: &mut VecDeque<Constraint>,
    ) -> (r: Result<(), TypeError>)
        ensures
            *final(self) == *old(self),
            step_view(r, final(work_queue)@, final(subst)@) == step_callable(
                func_type@,
                itypes_view(arg_types@),
                return_type@,
                constraints_view(old(work_queue)@),
                old(subst)@,
            ),
    {
        match func_type {
            InferType::Function { params, return_type: func_return, .. } => {
                proof {
                    lemma_itypes_view(params@);
                    lemma_itypes_view(arg_types@);
                }
                if params.len() != arg_types.len() {
                    return Err(TypeError::ArityMismatch(params.len(), arg_types.len()));
                }
                let ghost q0 = constraints_view(work_queue@);
                let ghost eqs = call_equalities(itypes_view(params@), itypes_view(arg_types@));
                let mut i: usize = 0;
                while i < params.len()
                    invariant
                        i <= params.len(),
                        params.len() == arg_types.len(),
                        eqs == call_equalities(itypes_view(params@), itypes_view(arg_types@)),
                        itypes_view(params@).len() == params.len(),
                        itypes_view(arg_types@).len() == arg_types.len(),
                        forall|j: int| 0 <= j < params.len() ==> #[trigger] itypes_view(params@)[j] == params@[j]@,
                        forall|j: int| 0 <= j < arg_types.len() ==> #[trigger] itypes_view(arg_types@)[j] == arg_types@[j]@,
                        constraints_view(work_queue@) == q0 + eqs.take(i as int),
                    decreases params.len() - i,
                {
                    let ghost before = work_queue@;
                    let c = Constraint::Equal(copy_itype(&params[i]), copy_itype(&arg_types[i]));
                    work_queue.push_back(c);
                    proof {
                        assert(c@ == eqs[i as int]);
                        assert(constraints_view(work_queue@) =~= constraints_view(before).push(c@));
                        assert(eqs.take(i + 1) =~= eqs.take(i as int).push(eqs[i as int]));
                        assert(q0 + eqs.take(i + 1) =~= (q0 + eqs.take(i as int)).push(eqs[i as int]));
                    }
                    i = i + 1;
                }
                let ghost before = work_queue@;
                let c = Constraint::Equal(*func_return, return_type);
                work_queue.push_back(c);
                proof {
                    assert(eqs.take(params.len() as int) =~= eqs);
                    assert(constraints_view(work_queue@) =~= constraints_view(before).push(c@));
                }
                Ok(())
            },
            InferType::Var(v) => {
                let f = InferType::Function {
                    params: arg_types,
                    return_type: Box::new(return_type),
                    effects: EffectSet::pure(),
                };
                subst.insert(v, f);
                Ok(())
            },
            _ => Err(TypeError::NotCallable(func_type)),
        }
    }

    /// Solves an iteration constraint, queueing the equality it asks for.
    pub fn solve_iterable_constraint(
        &mut self,
        container_type: InferType,
        element_type: InferType,
        subst: &mut Substitution,
        work_queue: &mut VecDeque<Constraint>,
    ) -> (r: Result<(), TypeError>)
        ensures
            *final(self) == *old(self),
            step_view(r, final(work_queue)@, final(subst)@) == step_iterable(
                container_type@,
                element_type@,
                constraints_view(old(work_queue)@),
                old(subst)@,
            ),
    {
        let ghost before = work_queue@;
        match container_type {
            InferType::List(inner) => {
                let c = Constraint::Equal(*inner, element_type);
                work_queue.push_back(c);
                assert(constraints_view(work_queue@) =~= constraints_view(before).push(c@));
                Ok(())
            },
            InferType::Iterator(inner) => {
                let c = Constraint::Equal(*inner, element_type);
                work_queue.push_back(c);
                assert(constraints_view(work_queue@) =~= constraints_view(before).push(c@));
                Ok(())
            },
            InferType::Var(v) => {
                subst.insert(v, InferType::List(Box::new(element_type)));
                Ok(())
            },
            _ => Err(TypeError::NotIterable(container_type)),
        }
    }

    /// One step of the solver on `constraint`, taken off the front of the queue.
    pub fn solve_one(
        &mut self,
        constraint: Constraint,
        subst: &mut Substitution,
        work_queue: &mut VecDeque<Constraint>,
    ) -> (r: Result<(), TypeError>)
        ensures
            (step_view(r, final(work_queue)@, final(subst)@), final(self).var_gen.counter) == solve_step(
                constraint@,
                constraints_view(old(work_queue)@),
                old(subst)@,
                old(self).var_gen.counter,
            ),
            same_but_counter(*final(self), *old(self)),
    {
        match constraint {
            Constraint::Equal(t1, t2) => {
                let u = match self.unify(&t1, &t2) {
                    Ok(u) => u,
                    Err(e) => return Err(e),
                };
                *subst = self.compose_substitutions(subst, &u);
                let ghost rest = constraints_view(work_queue@);
                let ghost f = |x: ConstraintView| apply_constraint(x, u@);
                let n = work_queue.len();
                let mut k: usize = 0;
                while k < n
                    invariant
                        k <= n,
                        n == rest.len(),
                        f == (|x: ConstraintView| apply_constraint(x, u@)),
                        constraints_view(work_queue@) == rest.subrange(k as int, n as int) + rest.take(k as int).map_values(f),
                    decreases n - k,
                {
                    let ghost before = work_queue@;
                    assert(constraints_view(before).len() == n);
                    assert(constraints_view(before)[0] == rest[k as int]);
                    let c = work_queue.pop_front().unwrap();
                    assert(c@ == rest[k as int]);
                    let c2 = self.apply_subst_to_constraint(&c, &u);
                    work_queue.push_back(c2);
                    proof {
                        assert(rest.take(k + 1).map_values(f) =~= rest.take(k as int).map_values(f).push(f(rest[k as int])));
                        assert(constraints_view(work_queue@) =~= constraints_view(before).drop_first().push(c2@));
                        assert(constraints_view(work_queue@) =~= rest.subrange(k + 1, n as int) + rest.take(k + 1).map_values(f));
                    }
                    k = k + 1;
                }
                proof {
                    assert(rest.subrange(n as int, n as int) + rest.take(n as int).map_values(f) =~= rest.map_values(f));
                }
                Ok(())
            },
            Constraint::HasField(o, name, t) => {
                match self.solve_has_field_constraint(o, name, t, subst, work_queue) {
                    Ok(()) => Ok(()),
                    Err(e) => Err(e),
                }
            },
            Constraint::HasMethod(o, name, t) => {
                match self.solve_has_method_constraint(o, name, t, subst, work_queue) {
                    Ok(()) => Ok(()),
                    Err(e) => Err(e),
                }
            },
            Constraint::IsCallable(f, args, ret) => {
                match self.solve_callable_constraint(f, args, ret, subst, work_queue) {
                    Ok(()) => Ok(()),
                    Err(e) => Err(e),
                }
            },
            Constraint::IsIterable(c, e) => {
                match self.solve_iterable_constraint(c, e, subst, work_queue) {
                    Ok(()) => Ok(()),
                    Err(e) => Err(e),
                }
            },
        }
    }

    /// Solves all gathered constraints, front first, and hands back the substitution that
    /// solves them; the constraints are used up.
    pub fn solve_constraints(&mut self) -> (r: Result<Substitution, TypeError>)
        ensures
            (result_view(r), final(self).var_gen.counter) == solve_spec(
                constraints_view(old(self).constraints@),
                Map::empty(),
                old(self).var_gen.counter,
            ),
            final(self).constraints@ == Seq::<Constraint>::empty(),
            final(self).env == old(self).env,
            final(self).builtin_types == old(self).builtin_types,
            final(self).object_definitions == old(self).object_definitions,
            final(self).store_types == old(self).store_types,
            final(self).actor_types == old(self).actor_types,
    {
        let ghost q0 = constraints_view(self.constraints@);
        let ghost c0 = self.var_gen.counter;
        let mut cs: Vec<Constraint> = Vec::new();
        std::mem::swap(&mut cs, &mut self.constraints);
        let mut work_queue: VecDeque<Constraint> = VecDeque::new();
        let mut i: usize = 0;
        while i < cs.len()
            invariant
                i <= cs.len(),
                q0 == constraints_view(cs@),
                constraints_view(work_queue@) == constraints_view(cs@).take(i as int),
            decreases cs.len() - i,
        {
            let ghost before = work_queue@;
            let c = cs[i].clone();
            assert(c@ == cs@[i as int]@);
            work_queue.push_back(c);
            assert(constraints_view(work_queue@) =~= constraints_view(before).push(c@));
            assert(constraints_view(cs@).take(i + 1) =~= constraints_view(cs@).take(i as int).push(c@));
            i = i + 1;
        }
        assert(constraints_view(cs@).take(cs.len() as int) =~= q0);
        let mut subst = Substitution::new();
        while work_queue.len() > 0
            invariant
                q0 == constraints_view(old(self).constraints@),
                c0 == old(self).var_gen.counter,
                solve_spec(q0, Map::empty(), c0) == solve_spec(constraints_view(work_queue@), subst@, self.var_gen.counter),
                self.constraints@ == Seq::<Constraint>::empty(),
                self.env == old(self).env,
                self.builtin_types == old(self).builtin_types,
                self.object_definitions == old(self).object_definitions,
                self.store_types == old(self).store_types,
                self.actor_types == old(self).actor_types,
            decreases total_weight(constraints_view(work_queue@)),
        {
            let ghost q = constraints_view(work_queue@);
            let ghost sub = subst@;
            let ghost cnt = self.var_gen.counter;
            let constraint = work_queue.pop_front().unwrap();
            proof {
                assert(constraints_view(work_queue@) =~= q.drop_first());
                assert(q[0] == constraint@);
                lemma_step_weight(q[0], q.drop_first(), sub, cnt);
            }
            match self.solve_one(constraint, &mut subst, &mut work_queue) {
                Ok(()) => {},
                Err(e) => return Err(e),
            }
        }
        Ok(subst)
    }
}

} // verus!
