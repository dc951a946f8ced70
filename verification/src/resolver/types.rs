use vstd::prelude::*;
use crate::assoc::{assoc_get, assoc_pos, assoc_insert, find_name, lemma_assoc_pos_unique, lemma_assoc_pos_none};
use crate::ast::{Type, TypeView, type_view, copy_type};

verus! {

/// Source of fresh type variables for Hindley-Milner style inference.
#[derive(Debug)]
pub struct TypeVarGen {
    pub counter: usize,
}

/// A type variable.
#[derive(Debug, Clone, Copy, PartialEq, Eq, Structural, Hash)]
pub struct TypeVar(pub usize);

/// The successor of a counter, wrapping at the maximum as release builds do.
pub open spec fn next_counter(c: usize) -> usize {
    if c == usize::MAX { 0 } else { (c + 1) as usize }
}

impl TypeVarGen {
    pub fn new() -> (g: Self)
        ensures
            g.counter == 0,
    {
        TypeVarGen { counter: 0 }
    }

    /// A variable numbered by the counter; the counter moves on.
    pub fn fresh(&mut self) -> (v: TypeVar)
        ensures
            v == TypeVar(old(self).counter),
            final(self).counter == next_counter(old(self).counter),
    {
        let var = TypeVar(self.counter);
        self.counter = if self.counter == usize::MAX { 0 } else { self.counter + 1 };
        var
    }
}

/// The side effects a function may have.
#[derive(Debug, Clone, Copy, PartialEq, Eq, Structural)]
pub struct EffectSet {
    pub io: bool,
    pub store: bool,
    pub actor_send: bool,
    pub mutation: bool,
}

impl EffectSet {
    pub fn pure() -> (e: Self)
        ensures
            e == (EffectSet { io: false, store: false, actor_send: false, mutation: false }),
    {
        EffectSet { io: false, store: false, actor_send: false, mutation: false }
    }

    pub fn io() -> (e: Self)
        ensures
            e == (EffectSet { io: true, store: false, actor_send: false, mutation: false }),
    {
        EffectSet { io: true, store: false, actor_send: false, mutation: false }
    }

    pub fn store() -> (e: Self)
        ensures
            e == (EffectSet { io: false, store: true, actor_send: false, mutation: false }),
    {
        EffectSet { io: false, store: true, actor_send: false, mutation: false }
    }

    pub fn actor() -> (e: Self)
        ensures
            e == (EffectSet { io: false, store: false, actor_send: true, mutation: false }),
    {
        EffectSet { io: false, store: false, actor_send: true, mutation: false }
    }

    /// The effects of either set.
    pub fn union(&self, other: &Self) -> (e: Self)
        ensures
            e.io == (self.io || other.io),
            e.store == (self.store || other.store),
            e.actor_send == (self.actor_send || other.actor_send),
            e.mutation == (self.mutation || other.mutation),
    {
        EffectSet {
            io: self.io || other.io,
            store: self.store || other.store,
            actor_send: self.actor_send || other.actor_send,
            mutation: self.mutation || other.mutation,
        }
    }
}

impl Default for EffectSet {
    /// No effects.
    fn default() -> (e: Self)
        ensures
            e == (EffectSet { io: false, store: false, actor_send: false, mutation: false }),
    {
        EffectSet::pure()
    }
}

/// The types of the inference engine.
#[derive(Debug)]
pub enum InferType {
    Unit,
    Bool,
    Int,
    Float,
    String,
    List(Box<InferType>),
    MapOf(Box<InferType>, Box<InferType>),
    Function { params: Vec<InferType>, return_type: Box<InferType>, effects: EffectSet },
    Object {
        name: String,
        fields: Vec<(String, InferType)>,
        methods: Vec<(String, InferType)>,
        is_actor: bool,
        is_store: bool,
    },
    Store { name: String, value_type: Box<InferType>, methods: Vec<(String, InferType)> },
    Actor { name: String, fields: Vec<(String, InferType)>, handlers: Vec<(Type, InferType)> },
    Var(TypeVar),
    Forall(Vec<TypeVar>, Box<InferType>),
    Union(Vec<InferType>),
    Result(Box<InferType>, Box<InferType>),
    Pipe(Box<InferType>),
    Iterator(Box<InferType>),
    Unknown,
}

/// The mathematical model of an `InferType`.
pub enum IType {
    Unit,
    Bool,
    Int,
    Float,
    String,
    List(Box<IType>),
    MapOf(Box<IType>, Box<IType>),
    Function { params: Seq<IType>, return_type: Box<IType>, effects: EffectSet },
    Object {
        name: Seq<char>,
        fields: Seq<(Seq<char>, IType)>,
        methods: Seq<(Seq<char>, IType)>,
        is_actor: bool,
        is_store: bool,
    },
    Store { name: Seq<char>, value_type: Box<IType>, methods: Seq<(Seq<char>, IType)> },
    Actor { name: Seq<char>, fields: Seq<(Seq<char>, IType)>, handlers: Seq<(TypeView, IType)> },
    Var(TypeVar),
    Forall(Seq<TypeVar>, Box<IType>),
    Union(Seq<IType>),
    Result(Box<IType>, Box<IType>),
    Pipe(Box<IType>),
    Iterator(Box<IType>),
    Unknown,
}

pub open spec fn itype_view(t: InferType) -> IType
    decreases t,
{
    match t {
        InferType::Unit => IType::Unit,
        InferType::Bool => IType::Bool,
        InferType::Int => IType::Int,
        InferType::Float => IType::Float,
        InferType::String => IType::String,
        InferType::List(inner) => IType::List(Box::new(itype_view(*inner))),
        InferType::MapOf(k, v) => IType::MapOf(Box::new(itype_view(*k)), Box::new(itype_view(*v))),
        InferType::Function { params, return_type, effects } => IType::Function {
            params: itypes_view(params@),
            return_type: Box::new(itype_view(*return_type)),
            effects,
        },
        InferType::Object { name, fields, methods, is_actor, is_store } => IType::Object {
            name: name@,
            fields: members_view(fields@),
            methods: members_view(methods@),
            is_actor,
            is_store,
        },
        InferType::Store { name, value_type, methods } => IType::Store {
            name: name@,
            value_type: Box::new(itype_view(*value_type)),
            methods: members_view(methods@),
        },
        InferType::Actor { name, fields, handlers } => IType::Actor {
            name: name@,
            fields: members_view(fields@),
            handlers: handlers_view(handlers@),
        },
        InferType::Var(v) => IType::Var(v),
        InferType::Forall(vars, body) => IType::Forall(vars@, Box::new(itype_view(*body))),
        InferType::Union(ts) => IType::Union(itypes_view(ts@)),
        InferType::Result(o, e) => IType::Result(Box::new(itype_view(*o)), Box::new(itype_view(*e))),
        InferType::Pipe(inner) => IType::Pipe(Box::new(itype_view(*inner))),
        InferType::Iterator(inner) => IType::Iterator(Box::new(itype_view(*inner))),
        InferType::Unknown => IType::Unknown,
    }
}

pub open spec fn itypes_view(ts: Seq<InferType>) -> Seq<IType>
    decreases ts,
{
    if ts.len() == 0 {
        Seq::empty()
    } else {
        itypes_view(ts.drop_last()).push(itype_view(ts.last()))
    }
}

pub open spec fn members_view(ms: Seq<(String, InferType)>) -> Seq<(Seq<char>, IType)>
    decreases ms,
{
    if ms.len() == 0 {
        Seq::empty()
    } else {
        members_view(ms.drop_last()).push((ms.last().0@, itype_view(ms.last().1)))
    }
}

pub open spec fn handlers_view(hs: Seq<(Type, InferType)>) -> Seq<(TypeView, IType)>
    decreases hs,
{
    if hs.len() == 0 {
        Seq::empty()
    } else {
        handlers_view(hs.drop_last()).push((type_view(hs.last().0), itype_view(hs.last().1)))
    }
}

impl View for InferType {
    type V = IType;

    open spec fn view(&self) -> IType {
        itype_view(*self)
    }
}

pub proof fn lemma_itypes_view(ts: Seq<InferType>)
    ensures
        itypes_view(ts).len() == ts.len(),
        forall|i: int| 0 <= i < ts.len() ==> #[trigger] itypes_view(ts)[i] == itype_view(ts[i]),
    decreases ts.len(),
{
    if ts.len() > 0 {
        lemma_itypes_view(ts.drop_last());
        assert forall|i: int| 0 <= i < ts.len() implies #[trigger] itypes_view(ts)[i] == itype_view(ts[i]) by {
            if i < ts.len() - 1 {
                assert(ts.drop_last()[i] == ts[i]);
            }
        }
    }
}

pub proof fn lemma_itypes_view_push(ts: Seq<InferType>, t: InferType)
    ensures
        itypes_view(ts.push(t)) == itypes_view(ts).push(itype_view(t)),
{
    assert(ts.push(t).drop_last() =~= ts);
}

pub proof fn lemma_members_view(ms: Seq<(String, InferType)>)
    ensures
        members_view(ms).len() == ms.len(),
        forall|i: int|
            0 <= i < ms.len() ==> #[trigger] members_view(ms)[i] == (ms[i].0@, itype_view(ms[i].1)),
    decreases ms.len(),
{
    if ms.len() > 0 {
        lemma_members_view(ms.drop_last());
        assert forall|i: int| 0 <= i < ms.len() implies #[trigger] members_view(ms)[i] == (
            ms[i].0@,
            itype_view(ms[i].1),
        ) by {
            if i < ms.len() - 1 {
                assert(ms.drop_last()[i] == ms[i]);
            }
        }
    }
}

/// The first binding of `key` sits at `i`.
pub proof fn lemma_members_pos(ms: Seq<(String, InferType)>, key: Seq<char>, i: int)
    requires
        0 <= i < ms.len(),
        ms[i].0@ == key,
        forall|j: int| 0 <= j < i ==> #[trigger] ms[j].0@ != key,
    ensures
        assoc_pos(members_view(ms), key) == Some(i),
        assoc_get(members_view(ms), key) == Some(ms[i].1@),
{
    lemma_members_view(ms);
    assert forall|j: int| 0 <= j < i implies #[trigger] members_view(ms)[j].0 != key by {
        assert(ms[j].0@ != key);
    }
    lemma_assoc_pos_unique(members_view(ms), key, i);
}

pub proof fn lemma_members_none(ms: Seq<(String, InferType)>, key: Seq<char>)
    requires
        forall|j: int| 0 <= j < ms.len() ==> #[trigger] ms[j].0@ != key,
    ensures
        assoc_get(members_view(ms), key) == None::<IType>,
{
    lemma_members_view(ms);
    assert forall|j: int| 0 <= j < ms.len() implies #[trigger] members_view(ms)[j].0 != key by {
        assert(ms[j].0@ != key);
    }
    lemma_assoc_pos_none(members_view(ms), key);
}

pub proof fn lemma_members_view_push(ms: Seq<(String, InferType)>, m: (String, InferType))
    ensures
        members_view(ms.push(m)) == members_view(ms).push((m.0@, itype_view(m.1))),
{
    assert(ms.push(m).drop_last() =~= ms);
}

pub proof fn lemma_handlers_view(hs: Seq<(Type, InferType)>)
    ensures
        handlers_view(hs).len() == hs.len(),
        forall|i: int|
            0 <= i < hs.len() ==> #[trigger] handlers_view(hs)[i] == (type_view(hs[i].0), itype_view(hs[i].1)),
    decreases hs.len(),
{
    if hs.len() > 0 {
        lemma_handlers_view(hs.drop_last());
        assert forall|i: int| 0 <= i < hs.len() implies #[trigger] handlers_view(hs)[i] == (
            type_view(hs[i].0),
            itype_view(hs[i].1),
        ) by {
            if i < hs.len() - 1 {
                assert(hs.drop_last()[i] == hs[i]);
            }
        }
    }
}

pub proof fn lemma_handlers_view_push(hs: Seq<(Type, InferType)>, h: (Type, InferType))
    ensures
        handlers_view(hs.push(h)) == handlers_view(hs).push((type_view(h.0), itype_view(h.1))),
{
    assert(hs.push(h).drop_last() =~= hs);
}

/// A copy of an inference type, equal to it in every respect.
pub fn copy_itype(t: &InferType) -> (r: InferType)
    ensures
        r@ == t@,
    decreases t,
{
    match t {
        InferType::Unit => InferType::Unit,
        InferType::Bool => InferType::Bool,
        InferType::Int => InferType::Int,
        InferType::Float => InferType::Float,
        InferType::String => InferType::String,
        InferType::List(inner) => InferType::List(Box::new(copy_itype(inner))),
        InferType::MapOf(k, v) => InferType::MapOf(Box::new(copy_itype(k)), Box::new(copy_itype(v))),
        InferType::Function { params, return_type, effects } => InferType::Function {
            params: copy_itypes(params),
            return_type: Box::new(copy_itype(return_type)),
            effects: *effects,
        },
        InferType::Object { name, fields, methods, is_actor, is_store } => InferType::Object {
            name: name.clone(),
            fields: copy_members(fields),
            methods: copy_members(methods),
            is_actor: *is_actor,
            is_store: *is_store,
        },
        InferType::Store { name, value_type, methods } => InferType::Store {
            name: name.clone(),
            value_type: Box::new(copy_itype(value_type)),
            methods: copy_members(methods),
        },
        InferType::Actor { name, fields, handlers } => InferType::Actor {
            name: name.clone(),
            fields: copy_members(fields),
            handlers: copy_handlers(handlers),
        },
        InferType::Var(v) => InferType::Var(*v),
        InferType::Forall(vars, body) => {
            let mut vs: Vec<TypeVar> = Vec::new();
            let mut i: usize = 0;
            while i < vars.len()
                invariant
                    i <= vars.len(),
                    vs@ == vars@.take(i as int),
                decreases vars.len() - i,
            {
                vs.push(vars[i]);
                i = i + 1;
                assert(vs@ =~= vars@.take(i as int));
            }
            assert(vars@.take(vars.len() as int) =~= vars@);
            InferType::Forall(vs, Box::new(copy_itype(body)))
        },
        InferType::Union(ts) => InferType::Union(copy_itypes(ts)),
        InferType::Result(o, e) => InferType::Result(Box::new(copy_itype(o)), Box::new(copy_itype(e))),
        InferType::Pipe(inner) => InferType::Pipe(Box::new(copy_itype(inner))),
        InferType::Iterator(inner) => InferType::Iterator(Box::new(copy_itype(inner))),
        InferType::Unknown => InferType::Unknown,
    }
}

pub fn copy_itypes(ts: &Vec<InferType>) -> (r: Vec<InferType>)
    ensures
        itypes_view(r@) == itypes_view(ts@),
    decreases ts,
{
    let mut r: Vec<InferType> = Vec::new();
    let mut i: usize = 0;
    while i < ts.len()
        invariant
            i <= ts.len(),
            itypes_view(r@) == itypes_view(ts@.take(i as int)),
        decreases ts.len() - i,
    {
        let c = copy_itype(&ts[i]);
        proof {
            lemma_itypes_view_push(r@, c);
            lemma_itypes_view_push(ts@.take(i as int), ts@[i as int]);
            assert(ts@.take(i as int).push(ts@[i as int]) =~= ts@.take(i + 1));
        }
        r.push(c);
        i = i + 1;
    }
    assert(ts@.take(ts.len() as int) =~= ts@);
    r
}

pub fn copy_members(ms: &Vec<(String, InferType)>) -> (r: Vec<(String, InferType)>)
    ensures
        members_view(r@) == members_view(ms@),
    decreases ms,
{
    let mut r: Vec<(String, InferType)> = Vec::new();
    let mut i: usize = 0;
    while i < ms.len()
        invariant
            i <= ms.len(),
            members_view(r@) == members_view(ms@.take(i as int)),
        decreases ms.len() - i,
    {
        let m = (ms[i].0.clone(), copy_itype(&ms[i].1));
        proof {
            lemma_members_view_push(r@, m);
            lemma_members_view_push(ms@.take(i as int), ms@[i as int]);
            assert(ms@.take(i as int).push(ms@[i as int]) =~= ms@.take(i + 1));
        }
        r.push(m);
        i = i + 1;
    }
    assert(ms@.take(ms.len() as int) =~= ms@);
    r
}

pub fn copy_handlers(hs: &Vec<(Type, InferType)>) -> (r: Vec<(Type, InferType)>)
    ensures
        handlers_view(r@) == handlers_view(hs@),
    decreases hs,
{
    let mut r: Vec<(Type, InferType)> = Vec::new();
    let mut i: usize = 0;
    while i < hs.len()
        invariant
            i <= hs.len(),
            handlers_view(r@) == handlers_view(hs@.take(i as int)),
        decreases hs.len() - i,
    {
        let h = (copy_type(&hs[i].0), copy_itype(&hs[i].1));
        proof {
            lemma_handlers_view_push(r@, h);
            lemma_handlers_view_push(hs@.take(i as int), hs@[i as int]);
            assert(hs@.take(i as int).push(hs@[i as int]) =~= hs@.take(i + 1));
        }
        r.push(h);
        i = i + 1;
    }
    assert(hs@.take(hs.len() as int) =~= hs@);
    r
}

/// Binds `name` to `t` in a list of members, replacing the first binding of `name`.
pub fn insert_member(ms: &mut Vec<(String, InferType)>, name: String, t: InferType)
    ensures
        members_view(final(ms)@) == assoc_insert(members_view(old(ms)@), name@, t@),
{
    let ghost mv = members_view(ms@);
    let ghost key = name@;
    let ghost tv = t@;
    proof {
        lemma_members_view(ms@);
    }
    match find_name(ms, name.as_str()) {
        Some(i) => {
            proof {
                lemma_members_pos(ms@, key, i as int);
            }
            ms.set(i, (name, t));
            proof {
                lemma_members_view(ms@);
                assert(members_view(ms@) =~= mv.update(i as int, (key, tv)));
            }
        },
        None => {
            proof {
                lemma_members_none(ms@, key);
                lemma_members_view(ms@);
                crate::assoc::lemma_assoc_pos_none(mv, key);
            }
            ms.push((name, t));
            proof {
                lemma_members_view(ms@);
                assert(members_view(ms@) =~= mv.push((key, tv)));
            }
        },
    }
}

impl Clone for InferType {
    fn clone(&self) -> (r: Self)
        ensures
            r@ == self@,
    {
        copy_itype(self)
    }
}

/// A relation between types that inference must establish.
#[derive(Debug)]
pub enum Constraint {
    Equal(InferType, InferType),
    HasField(InferType, String, InferType),
    HasMethod(InferType, String, InferType),
    IsCallable(InferType, Vec<InferType>, InferType),
    IsIterable(InferType, InferType),
}

/// The mathematical model of a `Constraint`.
pub enum ConstraintView {
    Equal(IType, IType),
    HasField(IType, Seq<char>, IType),
    HasMethod(IType, Seq<char>, IType),
    IsCallable(IType, Seq<IType>, IType),
    IsIterable(IType, IType),
}

impl View for Constraint {
    type V = ConstraintView;

    open spec fn view(&self) -> ConstraintView {
        match *self {
            Constraint::Equal(a, b) => ConstraintView::Equal(a@, b@),
            Constraint::HasField(o, f, t) => ConstraintView::HasField(o@, f@, t@),
            Constraint::HasMethod(o, m, t) => ConstraintView::HasMethod(o@, m@, t@),
            Constraint::IsCallable(f, args, r) => ConstraintView::IsCallable(f@, itypes_view(args@), r@),
            Constraint::IsIterable(c, e) => ConstraintView::IsIterable(c@, e@),
        }
    }
}

impl Clone for Constraint {
    fn clone(&self) -> (r: Self)
        ensures
            r@ == self@,
    {
        match self {
            Constraint::Equal(a, b) => Constraint::Equal(copy_itype(a), copy_itype(b)),
            Constraint::HasField(o, f, t) => Constraint::HasField(copy_itype(o), f.clone(), copy_itype(t)),
            Constraint::HasMethod(o, m, t) => Constraint::HasMethod(copy_itype(o), m.clone(), copy_itype(t)),
            Constraint::IsCallable(f, args, r) => Constraint::IsCallable(copy_itype(f), copy_itypes(args), copy_itype(r)),
            Constraint::IsIterable(c, e) => Constraint::IsIterable(copy_itype(c), copy_itype(e)),
        }
    }
}

} // verus!
