use vstd::prelude::*;
use crate::assoc::{assoc_get, find_name};
use super::{TypeResolver, same_but_counter};
use super::error::{TypeError, TypeErrorView};
use super::subst::{
    Substitution, compose_spec, apply_subst, apply_subst_all, apply_subst_members, law_apply_empty, law_compose_empty,
    law_compose_apply, lemma_compose_apply_all,
};
use super::types::EffectSet;
use super::types::{
    TypeVar, TypeVarGen, InferType, IType, copy_itype, itypes_view, members_view, lemma_itypes_view,
    lemma_members_view, lemma_members_pos, lemma_members_none, next_counter,
};

verus! {

/// Whether `v` occurs in `t`. Store and actor types are not looked into, and a variable bound
/// by a `Forall` does not occur in it.
pub open spec fn occurs(v: TypeVar, t: IType) -> bool
    decreases t,
{
    match t {
        IType::Var(w) => v == w,
        IType::List(inner) => occurs(v, *inner),
        IType::MapOf(k, w) => occurs(v, *k) || occurs(v, *w),
        IType::Function { params, return_type, .. } => occurs_any(v, params) || occurs(v, *return_type),
        IType::Object { fields, methods, .. } => occurs_members(v, fields) || occurs_members(v, methods),
        IType::Forall(vars, body) => !vars.contains(v) && occurs(v, *body),
        IType::Union(ts) => occurs_any(v, ts),
        IType::Result(o, e) => occurs(v, *o) || occurs(v, *e),
        IType::Iterator(inner) => occurs(v, *inner),
        IType::Pipe(inner) => occurs(v, *inner),
        _ => false,
    }
}

pub open spec fn occurs_any(v: TypeVar, ts: Seq<IType>) -> bool
    decreases ts,
{
    ts.len() > 0 && (occurs_any(v, ts.drop_last()) || occurs(v, ts.last()))
}

pub open spec fn occurs_members(v: TypeVar, ms: Seq<(Seq<char>, IType)>) -> bool
    decreases ms,
{
    ms.len() > 0 && (occurs_members(v, ms.drop_last()) || occurs(v, ms.last().1))
}

proof fn lemma_occurs_any(v: TypeVar, ts: Seq<IType>)
    ensures
        occurs_any(v, ts) == exists|i: int| 0 <= i < ts.len() && #[trigger] occurs(v, ts[i]),
    decreases ts.len(),
{
    if ts.len() > 0 {
        lemma_occurs_any(v, ts.drop_last());
        if occurs(v, ts.last()) {
            assert(occurs(v, ts[ts.len() - 1]));
        }
        if occurs_any(v, ts.drop_last()) {
            let i = choose|i: int| 0 <= i < ts.len() - 1 && #[trigger] occurs(v, ts.drop_last()[i]);
            assert(ts.drop_last()[i] == ts[i]);
            assert(occurs(v, ts[i]));
        }
        if exists|i: int| 0 <= i < ts.len() && #[trigger] occurs(v, ts[i]) {
            let i = choose|i: int| 0 <= i < ts.len() && #[trigger] occurs(v, ts[i]);
            if i < ts.len() - 1 {
                assert(ts.drop_last()[i] == ts[i]);
            }
        }
    }
}

proof fn lemma_occurs_members(v: TypeVar, ms: Seq<(Seq<char>, IType)>)
    ensures
        occurs_members(v, ms) == exists|i: int| 0 <= i < ms.len() && #[trigger] occurs(v, ms[i].1),
    decreases ms.len(),
{
    if ms.len() > 0 {
        lemma_occurs_members(v, ms.drop_last());
        if occurs(v, ms.last().1) {
            assert(occurs(v, ms[ms.len() - 1].1));
        }
        if occurs_members(v, ms.drop_last()) {
            let i = choose|i: int| 0 <= i < ms.len() - 1 && #[trigger] occurs(v, ms.drop_last()[i].1);
            assert(ms.drop_last()[i] == ms[i]);
            assert(occurs(v, ms[i].1));
        }
        if exists|i: int| 0 <= i < ms.len() && #[trigger] occurs(v, ms[i].1) {
            let i = choose|i: int| 0 <= i < ms.len() && #[trigger] occurs(v, ms[i].1);
            if i < ms.len() - 1 {
                assert(ms.drop_last()[i] == ms[i]);
            }
        }
    }
}

/// Whether `var` occurs in `ty`.
pub fn occurs_in(var: TypeVar, ty: &InferType) -> (r: bool)
    ensures
        r == occurs(var, ty@),
    decreases ty,
{
    match ty {
        InferType::Var(v) => var == *v,
        InferType::List(inner) => occurs_in(var, inner),
        InferType::MapOf(k, v) => occurs_in(var, k) || occurs_in(var, v),
        InferType::Function { params, return_type, .. } => occurs_in_all(var, params) || occurs_in(var, return_type),
        InferType::Object { fields, methods, .. } => occurs_in_members(var, fields) || occurs_in_members(var, methods),
        InferType::Forall(vars, body) => {
            let mut bound = false;
            let mut i: usize = 0;
            while i < vars.len()
                invariant
                    i <= vars.len(),
                    bound == exists|j: int| 0 <= j < i && vars@[j] == var,
                decreases vars.len() - i,
            {
                if vars[i] == var {
                    bound = true;
                }
                i = i + 1;
            }
            assert(bound == vars@.contains(var));
            !bound && occurs_in(var, body)
        },
        InferType::Union(ts) => occurs_in_all(var, ts),
        InferType::Result(o, e) => occurs_in(var, o) || occurs_in(var, e),
        InferType::Iterator(inner) => occurs_in(var, inner),
        InferType::Pipe(inner) => occurs_in(var, inner),
        _ => false,
    }
}

fn occurs_in_all(var: TypeVar, ts: &Vec<InferType>) -> (r: bool)
    ensures
        r == occurs_any(var, itypes_view(ts@)),
    decreases ts,
{
    proof {
        lemma_itypes_view(ts@);
        lemma_occurs_any(var, itypes_view(ts@));
    }
    let mut i: usize = 0;
    while i < ts.len()
        invariant
            i <= ts.len(),
            itypes_view(ts@).len() == ts@.len(),
            forall|j: int| 0 <= j < ts@.len() ==> #[trigger] itypes_view(ts@)[j] == ts@[j]@,
            forall|j: int| 0 <= j < i ==> !#[trigger] occurs(var, itypes_view(ts@)[j]),
        decreases ts.len() - i,
    {
        if occurs_in(var, &ts[i]) {
            proof {
                lemma_occurs_any(var, itypes_view(ts@));
                assert(occurs(var, itypes_view(ts@)[i as int]));
            }
            return true;
        }
        i = i + 1;
    }
    false
}

fn occurs_in_members(var: TypeVar, ms: &Vec<(String, InferType)>) -> (r: bool)
    ensures
        r == occurs_members(var, members_view(ms@)),
    decreases ms,
{
    proof {
        lemma_members_view(ms@);
        lemma_occurs_members(var, members_view(ms@));
    }
    let mut i: usize = 0;
    while i < ms.len()
        invariant
            i <= ms.len(),
            members_view(ms@).len() == ms@.len(),
            forall|j: int| 0 <= j < ms@.len() ==> #[trigger] members_view(ms@)[j] == (ms@[j].0@, ms@[j].1@),
            forall|j: int| 0 <= j < i ==> !#[trigger] occurs(var, members_view(ms@)[j].1),
        decreases ms.len() - i,
    {
        if occurs_in(var, &ms[i].1) {
            proof {
                lemma_occurs_members(var, members_view(ms@));
                assert(occurs(var, members_view(ms@)[i as int].1));
            }
            return true;
        }
        i = i + 1;
    }
    false
}

/// The outcome of a unification: a substitution or an error, and the counter of fresh
/// variables afterwards.
pub type Unified = (Result<Map<TypeVar, IType>, TypeErrorView>, usize);

pub open spec fn same_base(t1: IType, t2: IType) -> bool {
    ||| t1 is Unit && t2 is Unit
    ||| t1 is Bool && t2 is Bool
    ||| t1 is Int && t2 is Int
    ||| t1 is Float && t2 is Float
    ||| t1 is String && t2 is String
}

/// A variable against a type: nothing to do if it is the variable itself, an infinite type if
/// the variable occurs in it, else the variable is bound to it.
pub open spec fn unify_var(v: TypeVar, t: IType, c: usize) -> Unified {
    if t == IType::Var(v) {
        (Ok(Map::empty()), c)
    } else if occurs(v, t) {
        (Err(TypeErrorView::InfiniteType(v, t)), c)
    } else {
        (Ok(Map::empty().insert(v, t)), c)
    }
}

/// The pairs that no structural rule covers: an unknown type is bound to a fresh variable
/// standing for the other side; anything else is a mismatch.
pub open spec fn unify_fallback(t1: IType, t2: IType, c: usize) -> Unified {
    if t1 is Unknown || t2 is Unknown {
        let t = if t1 is Unknown { t2 } else { t1 };
        if t is Unknown {
            (Ok(Map::empty()), c)
        } else {
            (Ok(Map::empty().insert(TypeVar(c), t)), next_counter(c))
        }
    } else {
        (Err(TypeErrorView::TypeMismatch(t1, t2)), c)
    }
}

/// How deep unification may nest before it gives up with a mismatch: the largest `u64`, a
/// depth no call stack can reach, so the bound only serves to show that unification ends.
pub const UNIFY_DEPTH: u64 = 18446744073709551615;

/// Unification of two types, starting with fresh-variable counter `c`.
pub open spec fn unify_spec(t1: IType, t2: IType, c: usize) -> Unified {
    unify_depth(t1, t2, c, UNIFY_DEPTH as nat)
}

/// Unification with at most `d` nested steps. The parts of a compound type are unified in
/// order, each after the substitution found for the earlier parts has been applied to it, and
/// the substitutions are composed.
pub open spec fn unify_depth(t1: IType, t2: IType, c: usize, d: nat) -> Unified
    decreases d, 0nat,
{
    if d == 0 {
        (Err(TypeErrorView::TypeMismatch(t1, t2)), c)
    } else if same_base(t1, t2) {
        (Ok(Map::empty()), c)
    } else if t1 is Var {
        unify_var(t1->Var_0, t2, c)
    } else if t2 is Var {
        unify_var(t2->Var_0, t1, c)
    } else {
        match t1 {
            IType::List(a) => match t2 {
                IType::List(b) => unify_depth(*a, *b, c, (d - 1) as nat),
                _ => unify_fallback(t1, t2, c),
            },
            IType::MapOf(k1, v1) => match t2 {
                IType::MapOf(k2, v2) => unify_pair(*k1, *k2, *v1, *v2, c, (d - 1) as nat),
                _ => unify_fallback(t1, t2, c),
            },
            IType::Function { params: p1, return_type: r1, .. } => match t2 {
                IType::Function { params: p2, return_type: r2, .. } => if p1.len() != p2.len() {
                    (Err(TypeErrorView::ArityMismatch(p1.len(), p2.len())), c)
                } else {
                    let first = unify_seq(p1, p2, 0, Map::empty(), c, (d - 1) as nat);
                    match first.0 {
                        Err(e) => (Err(e), first.1),
                        Ok(s1) => {
                            let second = unify_depth(apply_subst(*r1, s1), apply_subst(*r2, s1), first.1, (d - 1) as nat);
                            match second.0 {
                                Err(e) => (Err(e), second.1),
                                Ok(s2) => (Ok(compose_spec(s1, s2)), second.1),
                            }
                        },
                    }
                },
                _ => unify_fallback(t1, t2, c),
            },
            IType::Object { name: n1, fields: f1, .. } => match t2 {
                IType::Object { name: n2, fields: f2, .. } => if n1 != n2 {
                    (Err(TypeErrorView::TypeMismatch(t1, t2)), c)
                } else {
                    unify_fields(f1, f2, 0, Map::empty(), c, (d - 1) as nat)
                },
                _ => unify_fallback(t1, t2, c),
            },
            IType::Result(o1, e1) => match t2 {
                IType::Result(o2, e2) => unify_pair(*o1, *o2, *e1, *e2, c, (d - 1) as nat),
                _ => unify_fallback(t1, t2, c),
            },
            IType::Union(a) => match t2 {
                IType::Union(b) => if a.len() != b.len() {
                    (Err(TypeErrorView::TypeMismatch(t1, t2)), c)
                } else {
                    unify_seq(a, b, 0, Map::empty(), c, (d - 1) as nat)
                },
                _ => unify_fallback(t1, t2, c),
            },
            _ => unify_fallback(t1, t2, c),
        }
    }
}

/// Unifies `a1` with `a2`, then `b1` with `b2` under the first substitution, and composes.
pub open spec fn unify_pair(a1: IType, a2: IType, b1: IType, b2: IType, c: usize, d: nat) -> Unified
    decreases d, 1nat,
{
    let first = unify_depth(a1, a2, c, d);
    match first.0 {
        Err(e) => (Err(e), first.1),
        Ok(s1) => {
            let second = unify_depth(apply_subst(b1, s1), apply_subst(b2, s1), first.1, d);
            match second.0 {
                Err(e) => (Err(e), second.1),
                Ok(s2) => (Ok(compose_spec(s1, s2)), second.1),
            }
        },
    }
}

/// Unifies `a[i..]` with `b[i..]` pairwise, each pair under the substitution `acc` found so far,
/// composing onto `acc`.
pub open spec fn unify_seq(a: Seq<IType>, b: Seq<IType>, i: int, acc: Map<TypeVar, IType>, c: usize, d: nat) -> Unified
    decreases d, if i < a.len() { a.len() - i + 1 } else { 0 },
{
    if i < 0 || i >= a.len() {
        (Ok(acc), c)
    } else {
        let r = unify_depth(apply_subst(a[i], acc), apply_subst(b[i], acc), c, d);
        match r.0 {
            Err(e) => (Err(e), r.1),
            Ok(s) => unify_seq(a, b, i + 1, compose_spec(acc, s), r.1, d),
        }
    }
}

/// Unifies each field of `f1[i..]` that `f2` also has with the type `f2` gives it, under the
/// substitution `acc` found so far.
pub open spec fn unify_fields(
    f1: Seq<(Seq<char>, IType)>,
    f2: Seq<(Seq<char>, IType)>,
    i: int,
    acc: Map<TypeVar, IType>,
    c: usize,
    d: nat,
) -> Unified
    decreases d, if i < f1.len() { f1.len() - i + 1 } else { 0 },
{
    if i < 0 || i >= f1.len() {
        (Ok(acc), c)
    } else {
        match assoc_get(f2, f1[i].0) {
            None => unify_fields(f1, f2, i + 1, acc, c, d),
            Some(t2) => {
                let r = unify_depth(apply_subst(f1[i].1, acc), apply_subst(t2, acc), c, d);
                match r.0 {
                    Err(e) => (Err(e), r.1),
                    Ok(s) => unify_fields(f1, f2, i + 1, compose_spec(acc, s), r.1, d),
                }
            },
        }
    }
}

/// A unification result as mathematical values.
pub open spec fn result_view(r: Result<Substitution, TypeError>) -> Result<Map<TypeVar, IType>, TypeErrorView> {
    match r {
        Ok(s) => Ok(s@),
        Err(e) => Err(e@),
    }
}

fn unify_var_exec(v: TypeVar, t: &InferType, Ghost(c): Ghost<usize>) -> (r: Result<Substitution, TypeError>)
    ensures
        (result_view(r), c) == unify_var(v, t@, c),
{
    let same = match t {
        InferType::Var(w) => *w == v,
        _ => false,
    };
    if same {
        Ok(Substitution::new())
    } else if occurs_in(v, t) {
        Err(TypeError::InfiniteType(v, copy_itype(t)))
    } else {
        let mut s = Substitution::new();
        s.insert(v, copy_itype(t));
        Ok(s)
    }
}

fn unify_fallback_exec(gen: &mut TypeVarGen, t1: &InferType, t2: &InferType) -> (r: Result<Substitution, TypeError>)
    ensures
        (result_view(r), final(gen).counter) == unify_fallback(t1@, t2@, old(gen).counter),
{
    let u1 = match t1 {
        InferType::Unknown => true,
        _ => false,
    };
    let u2 = match t2 {
        InferType::Unknown => true,
        _ => false,
    };
    if u1 || u2 {
        let t = if u1 { t2 } else { t1 };
        let tu = match t {
            InferType::Unknown => true,
            _ => false,
        };
        if tu {
            Ok(Substitution::new())
        } else {
            let v = gen.fresh();
            let mut s = Substitution::new();
            s.insert(v, copy_itype(t));
            Ok(s)
        }
    } else {
        Err(TypeError::TypeMismatch(copy_itype(t1), copy_itype(t2)))
    }
}

/// Unifies `t1` with `t2`, drawing fresh variables from `gen`.
pub fn unify_types(gen: &mut TypeVarGen, t1: &InferType, t2: &InferType) -> (r: Result<Substitution, TypeError>)
    ensures
        (result_view(r), final(gen).counter) == unify_spec(t1@, t2@, old(gen).counter),
{
    unify_with(gen, t1, t2, UNIFY_DEPTH)
}

fn unify_with(gen: &mut TypeVarGen, t1: &InferType, t2: &InferType, depth: u64) -> (r: Result<Substitution, TypeError>)
    ensures
        (result_view(r), final(gen).counter) == unify_depth(t1@, t2@, old(gen).counter, depth as nat),
    decreases depth, 0nat,
{
    if depth == 0 {
        return Err(TypeError::TypeMismatch(copy_itype(t1), copy_itype(t2)));
    }
    let base = match (t1, t2) {
        (InferType::Unit, InferType::Unit) => true,
        (InferType::Bool, InferType::Bool) => true,
        (InferType::Int, InferType::Int) => true,
        (InferType::Float, InferType::Float) => true,
        (InferType::String, InferType::String) => true,
        _ => false,
    };
    if base {
        return Ok(Substitution::new());
    }
    if let InferType::Var(v) = t1 {
        return unify_var_exec(*v, t2, Ghost(gen.counter));
    }
    if let InferType::Var(v) = t2 {
        return unify_var_exec(*v, t1, Ghost(gen.counter));
    }
    match t1 {
        InferType::List(a) => match t2 {
            InferType::List(b) => unify_with(gen, a, b, depth - 1),
            _ => unify_fallback_exec(gen, t1, t2),
        },
        InferType::MapOf(k1, v1) => match t2 {
            InferType::MapOf(k2, v2) => unify_pair_exec(gen, k1, k2, v1, v2, depth - 1),
            _ => unify_fallback_exec(gen, t1, t2),
        },
        InferType::Function { params: p1, return_type: r1, .. } => match t2 {
            InferType::Function { params: p2, return_type: r2, .. } => {
                proof {
                    lemma_itypes_view(p1@);
                    lemma_itypes_view(p2@);
                }
                if p1.len() != p2.len() {
                    return Err(TypeError::ArityMismatch(p1.len(), p2.len()));
                }
                let s1 = match unify_seq_exec(gen, p1, p2, depth - 1) {
                    Ok(s) => s,
                    Err(e) => return Err(e),
                };
                let a = s1.apply(r1);
                let b = s1.apply(r2);
                let s2 = match unify_with(gen, &a, &b, depth - 1) {
                    Ok(s) => s,
                    Err(e) => return Err(e),
                };
                Ok(s1.compose(&s2))
            },
            _ => unify_fallback_exec(gen, t1, t2),
        },
        InferType::Object { name: n1, fields: f1, .. } => match t2 {
            InferType::Object { name: n2, fields: f2, .. } => {
                if *n1 != *n2 {
                    return Err(TypeError::TypeMismatch(copy_itype(t1), copy_itype(t2)));
                }
                unify_fields_exec(gen, f1, f2, depth - 1)
            },
            _ => unify_fallback_exec(gen, t1, t2),
        },
        InferType::Result(o1, e1) => match t2 {
            InferType::Result(o2, e2) => unify_pair_exec(gen, o1, o2, e1, e2, depth - 1),
            _ => unify_fallback_exec(gen, t1, t2),
        },
        InferType::Union(a) => match t2 {
            InferType::Union(b) => {
                proof {
                    lemma_itypes_view(a@);
                    lemma_itypes_view(b@);
                }
                if a.len() != b.len() {
                    return Err(TypeError::TypeMismatch(copy_itype(t1), copy_itype(t2)));
                }
                unify_seq_exec(gen, a, b, depth - 1)
            },
            _ => unify_fallback_exec(gen, t1, t2),
        },
        _ => unify_fallback_exec(gen, t1, t2),
    }
}

fn unify_pair_exec(
    gen: &mut TypeVarGen,
    a1: &InferType,
    a2: &InferType,
    b1: &InferType,
    b2: &InferType,
    depth: u64,
) -> (r: Result<Substitution, TypeError>)
    ensures
        (result_view(r), final(gen).counter) == unify_pair(a1@, a2@, b1@, b2@, old(gen).counter, depth as nat),
    decreases depth, 1nat,
{
    let s1 = match unify_with(gen, a1, a2, depth) {
        Ok(s) => s,
        Err(e) => return Err(e),
    };
    let x = s1.apply(b1);
    let y = s1.apply(b2);
    let s2 = match unify_with(gen, &x, &y, depth) {
        Ok(s) => s,
        Err(e) => return Err(e),
    };
    Ok(s1.compose(&s2))
}

fn unify_seq_exec(gen: &mut TypeVarGen, a: &Vec<InferType>, b: &Vec<InferType>, depth: u64) -> (r: Result<Substitution, TypeError>)
    requires
        a.len() == b.len(),
    ensures
        (result_view(r), final(gen).counter) == unify_seq(
            itypes_view(a@),
            itypes_view(b@),
            0,
            Map::empty(),
            old(gen).counter,
            depth as nat,
        ),
    decreases depth, a.len() + 2,
{
    let ghost sa = itypes_view(a@);
    let ghost sb = itypes_view(b@);
    proof {
        lemma_itypes_view(a@);
        lemma_itypes_view(b@);
    }
    let mut acc = Substitution::new();
    let mut i: usize = 0;
    while i < a.len()
        invariant
            i <= a.len(),
            a.len() == b.len(),
            sa == itypes_view(a@),
            sb == itypes_view(b@),
            sa.len() == a.len(),
            sb.len() == b.len(),
            forall|j: int| 0 <= j < a.len() ==> #[trigger] sa[j] == a@[j]@,
            forall|j: int| 0 <= j < b.len() ==> #[trigger] sb[j] == b@[j]@,
            unify_seq(sa, sb, 0, Map::empty(), old(gen).counter, depth as nat) == unify_seq(
                sa,
                sb,
                i as int,
                acc@,
                gen.counter,
                depth as nat,
            ),
        decreases a.len() - i,
    {
        assert(sa[i as int] == a@[i as int]@);
        assert(sb[i as int] == b@[i as int]@);
        let x = acc.apply(&a[i]);
        let y = acc.apply(&b[i]);
        let s = match unify_with(gen, &x, &y, depth) {
            Ok(s) => s,
            Err(e) => return Err(e),
        };
        acc = acc.compose(&s);
        i = i + 1;
    }
    Ok(acc)
}

fn unify_fields_exec(
    gen: &mut TypeVarGen,
    f1: &Vec<(String, InferType)>,
    f2: &Vec<(String, InferType)>,
    depth: u64,
) -> (r: Result<Substitution, TypeError>)
    ensures
        (result_view(r), final(gen).counter) == unify_fields(
            members_view(f1@),
            members_view(f2@),
            0,
            Map::empty(),
            old(gen).counter,
            depth as nat,
        ),
    decreases depth, f1.len() + 2,
{
    let ghost m1 = members_view(f1@);
    let ghost m2 = members_view(f2@);
    proof {
        lemma_members_view(f1@);
        lemma_members_view(f2@);
    }
    let mut acc = Substitution::new();
    let mut i: usize = 0;
    while i < f1.len()
        invariant
            i <= f1.len(),
            m1 == members_view(f1@),
            m2 == members_view(f2@),
            m1.len() == f1.len(),
            forall|j: int| 0 <= j < f1.len() ==> #[trigger] m1[j] == (f1@[j].0@, f1@[j].1@),
            unify_fields(m1, m2, 0, Map::empty(), old(gen).counter, depth as nat) == unify_fields(
                m1,
                m2,
                i as int,
                acc@,
                gen.counter,
                depth as nat,
            ),
        decreases f1.len() - i,
    {
        assert(m1[i as int] == (f1@[i as int].0@, f1@[i as int].1@));
        match find_name(f2, f1[i].0.as_str()) {
            Some(j) => {
                proof {
                    lemma_members_pos(f2@, f1@[i as int].0@, j as int);
                }
                let x = acc.apply(&f1[i].1);
                let y = acc.apply(&f2[j].1);
                let s = match unify_with(gen, &x, &y, depth) {
                    Ok(s) => s,
                    Err(e) => return Err(e),
                };
                acc = acc.compose(&s);
            },
            None => {
                proof {
                    lemma_members_none(f2@, f1@[i as int].0@);
                }
            },
        }
        i = i + 1;
    }
    Ok(acc)
}

impl TypeResolver {
    /// Unifies two types, drawing fresh variables from the resolver's generator.
    pub fn unify(&mut self, t1: &InferType, t2: &InferType) -> (r: Result<Substitution, TypeError>)
        ensures
            (result_view(r), final(self).var_gen.counter) == unify_spec(t1@, t2@, old(self).var_gen.counter),
            same_but_counter(*final(self), *old(self)),
    {
        unify_types(&mut self.var_gen, t1, t2)
    }

    /// Whether `var` occurs in `ty`, which would make binding it to `ty` an infinite type.
    pub fn occurs_check(&self, var: TypeVar, ty: &InferType) -> (r: bool)
        ensures
            r == occurs(var, ty@),
    {
        occurs_in(var, ty)
    }

    /// `s1` followed by `s2`.
    pub fn compose_substitutions(&self, s1: &Substitution, s2: &Substitution) -> (r: Substitution)
        ensures
            r@ == compose_spec(s1@, s2@),
    {
        s1.compose(s2)
    }

    /// `ty` with `subst` applied.
    pub fn apply_substitution(&self, ty: &InferType, subst: &Substitution) -> (r: InferType)
        ensures
            r@ == apply_subst(ty@, subst@),
    {
        subst.apply(ty)
    }
}

/// A substitution of one variable leaves alone every type the variable does not occur in.
pub proof fn lemma_apply_not_occurs(v: TypeVar, u: IType, t: IType)
    requires
        !occurs(v, t),
    ensures
        apply_subst(t, Map::empty().insert(v, u)) == t,
    decreases t,
{
    match t {
        IType::List(inner) => lemma_apply_not_occurs(v, u, *inner),
        IType::MapOf(k, w) => {
            lemma_apply_not_occurs(v, u, *k);
            lemma_apply_not_occurs(v, u, *w);
        },
        IType::Function { params, return_type, .. } => {
            lemma_apply_not_occurs_all(v, u, params);
            lemma_apply_not_occurs(v, u, *return_type);
        },
        IType::Object { fields, methods, .. } => {
            lemma_apply_not_occurs_members(v, u, fields);
            lemma_apply_not_occurs_members(v, u, methods);
        },
        _ => {},
    }
}

proof fn lemma_apply_not_occurs_all(v: TypeVar, u: IType, ts: Seq<IType>)
    requires
        !occurs_any(v, ts),
    ensures
        apply_subst_all(ts, Map::empty().insert(v, u)) == ts,
    decreases ts,
{
    if ts.len() > 0 {
        lemma_apply_not_occurs_all(v, u, ts.drop_last());
        lemma_apply_not_occurs(v, u, ts.last());
        assert(ts.drop_last().push(ts.last()) =~= ts);
    }
}

proof fn lemma_apply_not_occurs_members(v: TypeVar, u: IType, ms: Seq<(Seq<char>, IType)>)
    requires
        !occurs_members(v, ms),
    ensures
        apply_subst_members(ms, Map::empty().insert(v, u)) == ms,
    decreases ms,
{
    if ms.len() > 0 {
        lemma_apply_not_occurs_members(v, u, ms.drop_last());
        lemma_apply_not_occurs(v, u, ms.last().1);
        assert(ms.drop_last().push(ms.last()) =~= ms);
    }
}

/// A variable is unified with a type it does not occur in by binding it to that type, which
/// makes the two equal.
pub proof fn law_unify_binds_variable(v: TypeVar, t: IType, c: usize)
    requires
        t != IType::Var(v),
        !occurs(v, t),
    ensures
        unify_spec(IType::Var(v), t, c) == (Ok::<Map<TypeVar, IType>, TypeErrorView>(Map::empty().insert(v, t)), c),
        apply_subst(IType::Var(v), Map::empty().insert(v, t)) == apply_subst(t, Map::empty().insert(v, t)),
{
    lemma_apply_not_occurs(v, t, t);
}

/// A variable is never bound to a type it occurs in: unification reports an infinite type.
pub proof fn law_occurs_check(v: TypeVar, t: IType, c: usize)
    requires
        t != IType::Var(v),
        occurs(v, t),
    ensures
        unify_spec(IType::Var(v), t, c) == (Err::<Map<TypeVar, IType>, TypeErrorView>(TypeErrorView::InfiniteType(v, t)), c),
        unify_spec(t, IType::Var(v), c) == (Err::<Map<TypeVar, IType>, TypeErrorView>(TypeErrorView::InfiniteType(v, t)), c),
{
}

/// Types built from the base types, variables, lists, maps, and functions whose effects are
/// all `eff`.
pub open spec fn sound_type(t: IType, eff: EffectSet) -> bool
    decreases t,
{
    match t {
        IType::Unit | IType::Bool | IType::Int | IType::Float | IType::String | IType::Var(_) => true,
        IType::List(inner) => sound_type(*inner, eff),
        IType::MapOf(k, v) => sound_type(*k, eff) && sound_type(*v, eff),
        IType::Function { params, return_type, effects } => effects == eff && sound_all(params, eff) && sound_type(
            *return_type,
            eff,
        ),
        _ => false,
    }
}

pub open spec fn sound_all(ts: Seq<IType>, eff: EffectSet) -> bool
    decreases ts,
{
    ts.len() == 0 || (sound_all(ts.drop_last(), eff) && sound_type(ts.last(), eff))
}

/// A substitution that binds variables only to such types.
pub open spec fn sound_subst(s: Map<TypeVar, IType>, eff: EffectSet) -> bool {
    forall|v: TypeVar| #[trigger] s.dom().contains(v) ==> sound_type(s[v], eff)
}

proof fn lemma_sound_all(ts: Seq<IType>, eff: EffectSet)
    ensures
        sound_all(ts, eff) == forall|j: int| 0 <= j < ts.len() ==> #[trigger] sound_type(ts[j], eff),
    decreases ts.len(),
{
    if ts.len() > 0 {
        lemma_sound_all(ts.drop_last(), eff);
        if sound_all(ts, eff) {
            assert forall|j: int| 0 <= j < ts.len() implies #[trigger] sound_type(ts[j], eff) by {
                if j < ts.len() - 1 {
                    assert(ts.drop_last()[j] == ts[j]);
                }
            }
        }
        if forall|j: int| 0 <= j < ts.len() ==> #[trigger] sound_type(ts[j], eff) {
            assert forall|j: int| 0 <= j < ts.drop_last().len() implies #[trigger] sound_type(ts.drop_last()[j], eff) by {
                assert(ts.drop_last()[j] == ts[j]);
            }
            assert(sound_type(ts[ts.len() - 1], eff));
        }
    }
}

proof fn lemma_apply_all_index(ts: Seq<IType>, s: Map<TypeVar, IType>)
    ensures
        apply_subst_all(ts, s).len() == ts.len(),
        forall|j: int| 0 <= j < ts.len() ==> #[trigger] apply_subst_all(ts, s)[j] == apply_subst(ts[j], s),
    decreases ts.len(),
{
    if ts.len() > 0 {
        lemma_apply_all_index(ts.drop_last(), s);
        assert forall|j: int| 0 <= j < ts.len() implies #[trigger] apply_subst_all(ts, s)[j] == apply_subst(ts[j], s) by {
            if j < ts.len() - 1 {
                assert(ts.drop_last()[j] == ts[j]);
            }
        }
    }
}

proof fn lemma_apply_sound(t: IType, s: Map<TypeVar, IType>, eff: EffectSet)
    requires
        sound_type(t, eff),
        sound_subst(s, eff),
    ensures
        sound_type(apply_subst(t, s), eff),
    decreases t,
{
    match t {
        IType::List(inner) => lemma_apply_sound(*inner, s, eff),
        IType::MapOf(k, v) => {
            lemma_apply_sound(*k, s, eff);
            lemma_apply_sound(*v, s, eff);
        },
        IType::Function { params, return_type, .. } => {
            lemma_apply_sound(*return_type, s, eff);
            lemma_sound_all(params, eff);
            lemma_apply_all_index(params, s);
            let ps = apply_subst_all(params, s);
            assert forall|j: int| 0 <= j < ps.len() implies #[trigger] sound_type(ps[j], eff) by {
                lemma_apply_sound(params[j], s, eff);
            }
            lemma_sound_all(ps, eff);
        },
        _ => {},
    }
}

proof fn lemma_compose_sound(s1: Map<TypeVar, IType>, s2: Map<TypeVar, IType>, eff: EffectSet)
    requires
        sound_subst(s1, eff),
        sound_subst(s2, eff),
    ensures
        sound_subst(compose_spec(s1, s2), eff),
{
    assert forall|v: TypeVar| #[trigger] compose_spec(s1, s2).dom().contains(v) implies sound_type(compose_spec(s1, s2)[v], eff) by {
        if s1.dom().contains(v) {
            lemma_apply_sound(s1[v], s2, eff);
        }
    }
}

proof fn lemma_unify_var_sound(v: TypeVar, t: IType, c: usize, eff: EffectSet)
    requires
        sound_type(t, eff),
    ensures
        unify_var(v, t, c).0 matches Ok(s) ==> apply_subst(IType::Var(v), s) == apply_subst(t, s) && sound_subst(s, eff),
{
    if t != IType::Var(v) && !occurs(v, t) {
        lemma_apply_not_occurs(v, t, t);
    }
}

proof fn lemma_unify_depth_sound(t1: IType, t2: IType, c: usize, d: nat, eff: EffectSet)
    requires
        sound_type(t1, eff),
        sound_type(t2, eff),
    ensures
        unify_depth(t1, t2, c, d).0 matches Ok(s) ==> apply_subst(t1, s) == apply_subst(t2, s) && sound_subst(s, eff),
    decreases d, 0nat,
{
    if d == 0 {
    } else if same_base(t1, t2) {
        law_apply_empty(t1);
        law_apply_empty(t2);
    } else if t1 is Var {
        lemma_unify_var_sound(t1->Var_0, t2, c, eff);
    } else if t2 is Var {
        lemma_unify_var_sound(t2->Var_0, t1, c, eff);
    } else {
        match t1 {
            IType::List(a) => match t2 {
                IType::List(b) => lemma_unify_depth_sound(*a, *b, c, (d - 1) as nat, eff),
                _ => {},
            },
            IType::MapOf(k1, v1) => match t2 {
                IType::MapOf(k2, v2) => lemma_unify_pair_sound(*k1, *k2, *v1, *v2, c, (d - 1) as nat, eff),
                _ => {},
            },
            IType::Function { params: p1, return_type: r1, .. } => match t2 {
                IType::Function { params: p2, return_type: r2, .. } => if p1.len() == p2.len() {
                    lemma_sound_all(p1, eff);
                    lemma_sound_all(p2, eff);
                    lemma_unify_seq_sound(p1, p2, 0, Map::empty(), c, (d - 1) as nat, eff);
                    let first = unify_seq(p1, p2, 0, Map::empty(), c, (d - 1) as nat);
                    if let Ok(s1) = first.0 {
                        lemma_apply_sound(*r1, s1, eff);
                        lemma_apply_sound(*r2, s1, eff);
                        let ra = apply_subst(*r1, s1);
                        let rb = apply_subst(*r2, s1);
                        lemma_unify_depth_sound(ra, rb, first.1, (d - 1) as nat, eff);
                        let second = unify_depth(ra, rb, first.1, (d - 1) as nat);
                        if let Ok(s2) = second.0 {
                            lemma_compose_sound(s1, s2, eff);
                            law_compose_apply(s1, s2, *r1);
                            law_compose_apply(s1, s2, *r2);
                            lemma_compose_apply_all(s1, s2, p1);
                            lemma_compose_apply_all(s1, s2, p2);
                            lemma_apply_all_index(p1, s1);
                            lemma_apply_all_index(p2, s1);
                            assert(apply_subst_all(p1, s1) =~= apply_subst_all(p2, s1));
                        }
                    }
                },
                _ => {},
            },
            _ => {},
        }
    }
}

proof fn lemma_unify_pair_sound(a1: IType, a2: IType, b1: IType, b2: IType, c: usize, d: nat, eff: EffectSet)
    requires
        sound_type(a1, eff),
        sound_type(a2, eff),
        sound_type(b1, eff),
        sound_type(b2, eff),
    ensures
        unify_pair(a1, a2, b1, b2, c, d).0 matches Ok(s) ==> apply_subst(a1, s) == apply_subst(a2, s) && apply_subst(b1, s)
            == apply_subst(b2, s) && sound_subst(s, eff),
    decreases d, 1nat,
{
    lemma_unify_depth_sound(a1, a2, c, d, eff);
    let first = unify_depth(a1, a2, c, d);
    if let Ok(s1) = first.0 {
        lemma_apply_sound(b1, s1, eff);
        lemma_apply_sound(b2, s1, eff);
        let x = apply_subst(b1, s1);
        let y = apply_subst(b2, s1);
        lemma_unify_depth_sound(x, y, first.1, d, eff);
        let second = unify_depth(x, y, first.1, d);
        if let Ok(s2) = second.0 {
            lemma_compose_sound(s1, s2, eff);
            law_compose_apply(s1, s2, a1);
            law_compose_apply(s1, s2, a2);
            law_compose_apply(s1, s2, b1);
            law_compose_apply(s1, s2, b2);
        }
    }
}

proof fn lemma_unify_seq_sound(a: Seq<IType>, b: Seq<IType>, i: int, acc: Map<TypeVar, IType>, c: usize, d: nat, eff: EffectSet)
    requires
        a.len() == b.len(),
        0 <= i <= a.len(),
        forall|j: int| 0 <= j < a.len() ==> #[trigger] sound_type(a[j], eff),
        forall|j: int| 0 <= j < b.len() ==> #[trigger] sound_type(b[j], eff),
        sound_subst(acc, eff),
        forall|j: int| 0 <= j < i ==> #[trigger] apply_subst(a[j], acc) == apply_subst(b[j], acc),
    ensures
        unify_seq(a, b, i, acc, c, d).0 matches Ok(s) ==> sound_subst(s, eff) && forall|j: int|
            0 <= j < a.len() ==> #[trigger] apply_subst(a[j], s) == apply_subst(b[j], s),
    decreases d, if i < a.len() { a.len() - i + 1 } else { 0 },
{
    if i < a.len() {
        lemma_apply_sound(a[i], acc, eff);
        lemma_apply_sound(b[i], acc, eff);
        let x = apply_subst(a[i], acc);
        let y = apply_subst(b[i], acc);
        lemma_unify_depth_sound(x, y, c, d, eff);
        let r = unify_depth(x, y, c, d);
        if let Ok(s) = r.0 {
            let acc2 = compose_spec(acc, s);
            lemma_compose_sound(acc, s, eff);
            assert forall|j: int| 0 <= j < i + 1 implies #[trigger] apply_subst(a[j], acc2) == apply_subst(b[j], acc2) by {
                law_compose_apply(acc, s, a[j]);
                law_compose_apply(acc, s, b[j]);
            }
            lemma_unify_seq_sound(a, b, i + 1, acc2, r.1, d, eff);
        }
    }
}

/// For types built from base types, variables, lists, maps and functions, where every function
/// type in either has the same effects `eff` (unification does not look at effects), a
/// substitution that unification finds makes the two types equal.
pub proof fn law_unify_sound(t1: IType, t2: IType, c: usize, eff: EffectSet)
    requires
        sound_type(t1, eff),
        sound_type(t2, eff),
    ensures
        unify_spec(t1, t2, c).0 matches Ok(s) ==> apply_subst(t1, s) == apply_subst(t2, s),
{
    lemma_unify_depth_sound(t1, t2, c, UNIFY_DEPTH as nat, eff);
}

/// Types built from the base types, variables, the unknown type, lists, maps and results.
pub open spec fn plain_type(t: IType) -> bool
    decreases t,
{
    match t {
        IType::Unit | IType::Bool | IType::Int | IType::Float | IType::String | IType::Var(_) | IType::Unknown => true,
        IType::List(inner) => plain_type(*inner),
        IType::MapOf(k, v) => plain_type(*k) && plain_type(*v),
        IType::Result(o, e) => plain_type(*o) && plain_type(*e),
        _ => false,
    }
}

/// How deeply a type nests.
pub open spec fn type_depth(t: IType) -> nat
    decreases t,
{
    match t {
        IType::List(inner) => 1 + type_depth(*inner),
        IType::MapOf(k, v) => 1 + if type_depth(*k) >= type_depth(*v) { type_depth(*k) } else { type_depth(*v) },
        IType::Result(o, e) => 1 + if type_depth(*o) >= type_depth(*e) { type_depth(*o) } else { type_depth(*e) },
        _ => 0,
    }
}

proof fn lemma_unify_depth_reflexive(t: IType, c: usize, d: nat)
    requires
        plain_type(t),
        type_depth(t) < d,
    ensures
        unify_depth(t, t, c, d) == (Ok::<Map<TypeVar, IType>, TypeErrorView>(Map::empty()), c),
    decreases t,
{
    law_compose_empty(Map::empty());
    match t {
        IType::List(inner) => lemma_unify_depth_reflexive(*inner, c, (d - 1) as nat),
        IType::MapOf(k, v) => {
            lemma_unify_depth_reflexive(*k, c, (d - 1) as nat);
            law_apply_empty(*v);
            lemma_unify_depth_reflexive(*v, c, (d - 1) as nat);
            assert(unify_pair(*k, *k, *v, *v, c, (d - 1) as nat) == (Ok::<Map<TypeVar, IType>, TypeErrorView>(Map::empty()), c));
        },
        IType::Result(o, e) => {
            lemma_unify_depth_reflexive(*o, c, (d - 1) as nat);
            law_apply_empty(*e);
            lemma_unify_depth_reflexive(*e, c, (d - 1) as nat);
            assert(unify_pair(*o, *o, *e, *e, c, (d - 1) as nat) == (Ok::<Map<TypeVar, IType>, TypeErrorView>(Map::empty()), c));
        },
        IType::Var(v) => {
            assert(unify_var(v, t, c) == (Ok::<Map<TypeVar, IType>, TypeErrorView>(Map::empty()), c));
        },
        _ => {},
    }
}

/// Such a type, nested less deeply than unification may go, unifies with itself by the empty
/// substitution, without drawing a fresh variable.
pub proof fn law_unify_reflexive(t: IType, c: usize)
    requires
        plain_type(t),
        type_depth(t) < UNIFY_DEPTH,
    ensures
        unify_spec(t, t, c) == (Ok::<Map<TypeVar, IType>, TypeErrorView>(Map::empty()), c),
{
    lemma_unify_depth_reflexive(t, c, UNIFY_DEPTH as nat);
}

} // verus!
