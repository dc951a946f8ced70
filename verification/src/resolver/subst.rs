use vstd::prelude::*;
use crate::assoc::{
    assoc_pos, assoc_get, assoc_insert, lemma_assoc_pos, lemma_assoc_pos_unique, lemma_assoc_pos_none,
    lemma_assoc_insert_get, lemma_assoc_get_push, lemma_assoc_pos_same_keys,
};
use super::types::{
    TypeVar, InferType, IType, copy_itype, itypes_view, members_view, lemma_itypes_view_push,
    lemma_members_view_push,
};

verus! {

/// The bindings of a substitution as mathematical values.
pub open spec fn bindings_view(es: Seq<(TypeVar, InferType)>) -> Seq<(TypeVar, IType)> {
    es.map_values(|e: (TypeVar, InferType)| (e.0, e.1@))
}

/// The map that an association list of bindings stands for: the first binding of a variable counts.
pub open spec fn lookup_map(bs: Seq<(TypeVar, IType)>) -> Map<TypeVar, IType> {
    Map::new(|v: TypeVar| assoc_get(bs, v) is Some, |v: TypeVar| assoc_get(bs, v)->Some_0)
}

/// A substitution of types for type variables.
#[derive(Debug)]
pub struct Substitution {
    entries: Vec<(TypeVar, InferType)>,
}

impl View for Substitution {
    type V = Map<TypeVar, IType>;

    closed spec fn view(&self) -> Map<TypeVar, IType> {
        lookup_map(bindings_view(self.entries@))
    }
}

/// What a substitution does to a type: each variable it binds is replaced; lists, maps,
/// functions and the fields and methods of objects are entered; every other type stays as it is.
pub open spec fn apply_subst(t: IType, s: Map<TypeVar, IType>) -> IType
    decreases t,
{
    match t {
        IType::Var(v) => if s.dom().contains(v) {
            s[v]
        } else {
            IType::Var(v)
        },
        IType::List(inner) => IType::List(Box::new(apply_subst(*inner, s))),
        IType::MapOf(k, v) => IType::MapOf(Box::new(apply_subst(*k, s)), Box::new(apply_subst(*v, s))),
        IType::Function { params, return_type, effects } => IType::Function {
            params: apply_subst_all(params, s),
            return_type: Box::new(apply_subst(*return_type, s)),
            effects,
        },
        IType::Object { name, fields, methods, is_actor, is_store } => IType::Object {
            name,
            fields: apply_subst_members(fields, s),
            methods: apply_subst_members(methods, s),
            is_actor,
            is_store,
        },
        _ => t,
    }
}

pub open spec fn apply_subst_all(ts: Seq<IType>, s: Map<TypeVar, IType>) -> Seq<IType>
    decreases ts,
{
    if ts.len() == 0 {
        Seq::empty()
    } else {
        apply_subst_all(ts.drop_last(), s).push(apply_subst(ts.last(), s))
    }
}

pub open spec fn apply_subst_members(ms: Seq<(Seq<char>, IType)>, s: Map<TypeVar, IType>) -> Seq<(Seq<char>, IType)>
    decreases ms,
{
    if ms.len() == 0 {
        Seq::empty()
    } else {
        apply_subst_members(ms.drop_last(), s).push((ms.last().0, apply_subst(ms.last().1, s)))
    }
}

/// `s1` followed by `s2`: the bindings of `s1` with `s2` applied to them, and the bindings of
/// `s2` for the variables that `s1` leaves alone.
pub open spec fn compose_spec(s1: Map<TypeVar, IType>, s2: Map<TypeVar, IType>) -> Map<TypeVar, IType> {
    Map::new(
        |v: TypeVar| s1.dom().contains(v) || s2.dom().contains(v),
        |v: TypeVar| if s1.dom().contains(v) {
            apply_subst(s1[v], s2)
        } else {
            s2[v]
        },
    )
}

proof fn lemma_apply_subst_all_push(ts: Seq<IType>, t: IType, s: Map<TypeVar, IType>)
    ensures
        apply_subst_all(ts.push(t), s) == apply_subst_all(ts, s).push(apply_subst(t, s)),
{
    assert(ts.push(t).drop_last() =~= ts);
}

proof fn lemma_apply_subst_members_push(ms: Seq<(Seq<char>, IType)>, m: (Seq<char>, IType), s: Map<TypeVar, IType>)
    ensures
        apply_subst_members(ms.push(m), s) == apply_subst_members(ms, s).push((m.0, apply_subst(m.1, s))),
{
    assert(ms.push(m).drop_last() =~= ms);
}

impl Substitution {
    /// The substitution that binds nothing.
    pub fn new() -> (s: Self)
        ensures
            s@ == Map::<TypeVar, IType>::empty(),
    {
        let s = Substitution { entries: Vec::new() };
        assert(s@ =~= Map::<TypeVar, IType>::empty());
        s
    }

    fn position(&self, v: &TypeVar) -> (r: Option<usize>)
        ensures
            match r {
                Some(i) => i < self.entries.len() && assoc_pos(bindings_view(self.entries@), *v) == Some(
                    i as int,
                ),
                None => assoc_pos(bindings_view(self.entries@), *v) == None::<int>,
            },
    {
        let ghost bv = bindings_view(self.entries@);
        let mut i: usize = 0;
        while i < self.entries.len()
            invariant
                i <= self.entries.len(),
                bv == bindings_view(self.entries@),
                forall|j: int| 0 <= j < i ==> #[trigger] bv[j].0 != *v,
            decreases self.entries.len() - i,
        {
            if self.entries[i].0 == *v {
                proof {
                    lemma_assoc_pos_unique(bv, *v, i as int);
                }
                return Some(i);
            }
            i = i + 1;
        }
        proof {
            lemma_assoc_pos_none(bv, *v);
        }
        None
    }

    /// Whether the substitution binds `v`.
    pub fn contains_key(&self, v: &TypeVar) -> (r: bool)
        ensures
            r == self@.dom().contains(*v),
    {
        self.position(v).is_some()
    }

    /// A copy of the type bound to `v`, if any.
    pub fn get(&self, v: &TypeVar) -> (r: Option<InferType>)
        ensures
            match r {
                Some(t) => self@.dom().contains(*v) && self@[*v] == t@,
                None => !self@.dom().contains(*v),
            },
    {
        match self.position(v) {
            Some(i) => Some(copy_itype(&self.entries[i].1)),
            None => None,
        }
    }

    /// Binds `v` to `t`, replacing any earlier binding of `v`.
    pub fn insert(&mut self, v: TypeVar, t: InferType)
        ensures
            final(self)@ == old(self)@.insert(v, t@),
    {
        let ghost bv = bindings_view(self.entries@);
        let ghost tv = t@;
        match self.position(&v) {
            Some(i) => {
                self.entries.set(i, (v, t));
                assert(bindings_view(self.entries@) =~= bv.update(i as int, (v, tv)));
            },
            None => {
                self.entries.push((v, t));
                assert(bindings_view(self.entries@) =~= bv.push((v, tv)));
            },
        }
        assert(bindings_view(self.entries@) == assoc_insert(bv, v, tv));
        assert forall|k: TypeVar| #[trigger] assoc_get(assoc_insert(bv, v, tv), k) == (if k == v {
            Some(tv)
        } else {
            assoc_get(bv, k)
        }) by {
            lemma_assoc_insert_get(bv, v, tv, k);
        }
        assert(self@ =~= old(self)@.insert(v, tv));
    }

    /// `ty` with this substitution applied.
    pub fn apply(&self, ty: &InferType) -> (r: InferType)
        ensures
            r@ == apply_subst(ty@, self@),
        decreases ty,
    {
        match ty {
            InferType::Var(v) => match self.get(v) {
                Some(rep) => rep,
                None => InferType::Var(*v),
            },
            InferType::List(inner) => InferType::List(Box::new(self.apply(inner))),
            InferType::MapOf(k, v) => InferType::MapOf(Box::new(self.apply(k)), Box::new(self.apply(v))),
            InferType::Function { params, return_type, effects } => InferType::Function {
                params: self.apply_all(params),
                return_type: Box::new(self.apply(return_type)),
                effects: *effects,
            },
            InferType::Object { name, fields, methods, is_actor, is_store } => InferType::Object {
                name: name.clone(),
                fields: self.apply_members(fields),
                methods: self.apply_members(methods),
                is_actor: *is_actor,
                is_store: *is_store,
            },
            _ => copy_itype(ty),
        }
    }

    pub fn apply_all(&self, ts: &Vec<InferType>) -> (r: Vec<InferType>)
        ensures
            itypes_view(r@) == apply_subst_all(itypes_view(ts@), self@),
        decreases ts,
    {
        let mut r: Vec<InferType> = Vec::new();
        let mut i: usize = 0;
        while i < ts.len()
            invariant
                i <= ts.len(),
                itypes_view(r@) == apply_subst_all(itypes_view(ts@.take(i as int)), self@),
            decreases ts.len() - i,
        {
            let c = self.apply(&ts[i]);
            proof {
                lemma_itypes_view_push(r@, c);
                lemma_itypes_view_push(ts@.take(i as int), ts@[i as int]);
                assert(ts@.take(i as int).push(ts@[i as int]) =~= ts@.take(i + 1));
                lemma_apply_subst_all_push(itypes_view(ts@.take(i as int)), ts@[i as int]@, self@);
            }
            r.push(c);
            i = i + 1;
        }
        assert(ts@.take(ts.len() as int) =~= ts@);
        r
    }

    pub fn apply_members(&self, ms: &Vec<(String, InferType)>) -> (r: Vec<(String, InferType)>)
        ensures
            members_view(r@) == apply_subst_members(members_view(ms@), self@),
        decreases ms,
    {
        let mut r: Vec<(String, InferType)> = Vec::new();
        let mut i: usize = 0;
        while i < ms.len()
            invariant
                i <= ms.len(),
                members_view(r@) == apply_subst_members(members_view(ms@.take(i as int)), self@),
            decreases ms.len() - i,
        {
            let m = (ms[i].0.clone(), self.apply(&ms[i].1));
            proof {
                lemma_members_view_push(r@, m);
                lemma_members_view_push(ms@.take(i as int), ms@[i as int]);
                assert(ms@.take(i as int).push(ms@[i as int]) =~= ms@.take(i + 1));
                lemma_apply_subst_members_push(
                    members_view(ms@.take(i as int)),
                    (ms@[i as int].0@, ms@[i as int].1@),
                    self@,
                );
            }
            r.push(m);
            i = i + 1;
        }
        assert(ms@.take(ms.len() as int) =~= ms@);
        r
    }

    /// This substitution followed by `s2`.
    pub fn compose(&self, s2: &Substitution) -> (r: Substitution)
        ensures
            r@ == compose_spec(self@, s2@),
    {
        let ghost b1 = bindings_view(self.entries@);
        let mut result: Vec<(TypeVar, InferType)> = Vec::new();
        let mut i: usize = 0;
        while i < self.entries.len()
            invariant
                i <= self.entries.len(),
                b1 == bindings_view(self.entries@),
                result@.len() == i,
                forall|j: int| 0 <= j < i ==> #[trigger] result@[j].0 == self.entries@[j].0 && result@[j].1@
                    == apply_subst(self.entries@[j].1@, s2@),
            decreases self.entries.len() - i,
        {
            let e = (self.entries[i].0, s2.apply(&self.entries[i].1));
            result.push(e);
            i = i + 1;
        }
        let mut r = Substitution { entries: result };
        proof {
            let br = bindings_view(r.entries@);
            assert forall|v: TypeVar| #[trigger] r@.dom().contains(v) == self@.dom().contains(v) && (
            self@.dom().contains(v) ==> r@[v] == apply_subst(self@[v], s2@)) by {
                lemma_assoc_pos_same_keys(br, b1, v);
                lemma_assoc_pos(b1, v);
            }
        }
        let ghost b2 = bindings_view(s2.entries@);
        let mut j: usize = 0;
        while j < s2.entries.len()
            invariant
                j <= s2.entries.len(),
                b2 == bindings_view(s2.entries@),
                forall|v: TypeVar| #[trigger] r@.dom().contains(v) == (self@.dom().contains(v)
                    || lookup_map(b2.take(j as int)).dom().contains(v)),
                forall|v: TypeVar| #[trigger] r@.dom().contains(v) ==> r@[v] == (if self@.dom().contains(v) {
                    apply_subst(self@[v], s2@)
                } else {
                    lookup_map(b2.take(j as int))[v]
                }),
            decreases s2.entries.len() - j,
        {
            let k = s2.entries[j].0;
            proof {
                assert(b2.take(j as int).push(b2[j as int]) =~= b2.take(j + 1));
                assert forall|v: TypeVar| #[trigger] assoc_get(b2.take(j + 1), v) == (if assoc_get(
                    b2.take(j as int),
                    v,
                ) is Some {
                    assoc_get(b2.take(j as int), v)
                } else if k == v {
                    Some(b2[j as int].1)
                } else {
                    None
                }) by {
                    lemma_assoc_get_push(b2.take(j as int), k, b2[j as int].1, v);
                }
            }
            if !r.contains_key(&k) {
                let t = copy_itype(&s2.entries[j].1);
                r.insert(k, t);
            }
            j = j + 1;
        }
        proof {
            assert(b2.take(s2.entries.len() as int) =~= b2);
            assert(r@ =~= compose_spec(self@, s2@));
        }
        r
    }
}

/// Applying a composition is applying its parts in turn: `compose(s1, s2)` acts on every type
/// as `s1` followed by `s2`.
pub proof fn law_compose_apply(s1: Map<TypeVar, IType>, s2: Map<TypeVar, IType>, t: IType)
    ensures
        apply_subst(t, compose_spec(s1, s2)) == apply_subst(apply_subst(t, s1), s2),
    decreases t,
{
    match t {
        IType::List(inner) => law_compose_apply(s1, s2, *inner),
        IType::MapOf(k, v) => {
            law_compose_apply(s1, s2, *k);
            law_compose_apply(s1, s2, *v);
        },
        IType::Function { params, return_type, .. } => {
            lemma_compose_apply_all(s1, s2, params);
            law_compose_apply(s1, s2, *return_type);
        },
        IType::Object { fields, methods, .. } => {
            lemma_compose_apply_members(s1, s2, fields);
            lemma_compose_apply_members(s1, s2, methods);
        },
        _ => {},
    }
}

pub proof fn lemma_compose_apply_all(s1: Map<TypeVar, IType>, s2: Map<TypeVar, IType>, ts: Seq<IType>)
    ensures
        apply_subst_all(ts, compose_spec(s1, s2)) == apply_subst_all(apply_subst_all(ts, s1), s2),
    decreases ts,
{
    if ts.len() > 0 {
        lemma_compose_apply_all(s1, s2, ts.drop_last());
        law_compose_apply(s1, s2, ts.last());
        lemma_apply_subst_all_push(apply_subst_all(ts.drop_last(), s1), apply_subst(ts.last(), s1), s2);
    }
}

proof fn lemma_compose_apply_members(s1: Map<TypeVar, IType>, s2: Map<TypeVar, IType>, ms: Seq<(Seq<char>, IType)>)
    ensures
        apply_subst_members(ms, compose_spec(s1, s2)) == apply_subst_members(apply_subst_members(ms, s1), s2),
    decreases ms,
{
    if ms.len() > 0 {
        lemma_compose_apply_members(s1, s2, ms.drop_last());
        law_compose_apply(s1, s2, ms.last().1);
        lemma_apply_subst_members_push(
            apply_subst_members(ms.drop_last(), s1),
            (ms.last().0, apply_subst(ms.last().1, s1)),
            s2,
        );
    }
}

/// The empty substitution changes nothing.
pub proof fn law_apply_empty(t: IType)
    ensures
        apply_subst(t, Map::empty()) == t,
    decreases t,
{
    match t {
        IType::List(inner) => law_apply_empty(*inner),
        IType::MapOf(k, v) => {
            law_apply_empty(*k);
            law_apply_empty(*v);
        },
        IType::Function { params, return_type, .. } => {
            lemma_apply_empty_all(params);
            law_apply_empty(*return_type);
        },
        IType::Object { fields, methods, .. } => {
            lemma_apply_empty_members(fields);
            lemma_apply_empty_members(methods);
        },
        _ => {},
    }
}

proof fn lemma_apply_empty_all(ts: Seq<IType>)
    ensures
        apply_subst_all(ts, Map::empty()) == ts,
    decreases ts,
{
    if ts.len() > 0 {
        lemma_apply_empty_all(ts.drop_last());
        law_apply_empty(ts.last());
        assert(ts.drop_last().push(ts.last()) =~= ts);
    }
}

proof fn lemma_apply_empty_members(ms: Seq<(Seq<char>, IType)>)
    ensures
        apply_subst_members(ms, Map::empty()) == ms,
    decreases ms,
{
    if ms.len() > 0 {
        lemma_apply_empty_members(ms.drop_last());
        law_apply_empty(ms.last().1);
        assert(ms.drop_last().push(ms.last()) =~= ms);
    }
}

/// Composing with the empty substitution, on either side, changes nothing.
pub proof fn law_compose_empty(s: Map<TypeVar, IType>)
    ensures
        compose_spec(Map::empty(), s) == s,
        compose_spec(s, Map::empty()) == s,
{
    assert forall|v: TypeVar| s.dom().contains(v) implies apply_subst(s[v], Map::empty()) == s[v] by {
        law_apply_empty(s[v]);
    }
    assert(compose_spec(Map::empty(), s) =~= s);
    assert(compose_spec(s, Map::empty()) =~= s);
}

} // verus!
