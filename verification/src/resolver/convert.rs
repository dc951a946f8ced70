use vstd::prelude::*;
use crate::assoc::{assoc_get, find_name};
use crate::ast::{
    Type, TypeView, type_view, types_view, fields_view, lemma_types_view, lemma_types_view_push, lemma_fields_view_push,
    copy_type,
};
use crate::text::{decimal, join, push_decimal, lemma_join_push};
use super::{TypeResolver, same_but_counter};
use super::error::TypeError;
use super::types::{EffectSet, InferType, IType, TypeVar, itypes_view, members_view, handlers_view, lemma_itypes_view, lemma_itypes_view_push, lemma_members_view, lemma_members_pos, lemma_members_none, copy_itype, next_counter};

verus! {

/// The named type that a name stands for: an object first, then a store, then an actor.
pub open spec fn named_type(
    name: Seq<char>,
    objects: Seq<(Seq<char>, IType)>,
    stores: Seq<(Seq<char>, IType)>,
    actors: Seq<(Seq<char>, IType)>,
) -> Option<IType> {
    match assoc_get(objects, name) {
        Some(t) => Some(t),
        None => match assoc_get(stores, name) {
            Some(t) => Some(t),
            None => assoc_get(actors, name),
        },
    }
}

pub open spec fn pure_fun(params: Seq<IType>, ret: IType) -> IType {
    IType::Function {
        params,
        return_type: Box::new(ret),
        effects: EffectSet { io: false, store: false, actor_send: false, mutation: false },
    }
}

/// The inference type of a written type, with `c` the first fresh variable: an unknown type,
/// and a named type that is not defined, each take a fresh variable.
pub open spec fn ast_to_infer(
    t: TypeView,
    o: Seq<(Seq<char>, IType)>,
    s: Seq<(Seq<char>, IType)>,
    a: Seq<(Seq<char>, IType)>,
    c: usize,
) -> (IType, usize)
    decreases t,
{
    match t {
        TypeView::I8 | TypeView::I16 | TypeView::I32 | TypeView::I64 => (IType::Int, c),
        TypeView::F32 | TypeView::F64 => (IType::Float, c),
        TypeView::String => (IType::String, c),
        TypeView::Bool => (IType::Bool, c),
        TypeView::Unit => (IType::Unit, c),
        TypeView::List(inner) => {
            let r = ast_to_infer(*inner, o, s, a, c);
            (IType::List(Box::new(r.0)), r.1)
        },
        TypeView::MapOf(k, v) => {
            let rk = ast_to_infer(*k, o, s, a, c);
            let rv = ast_to_infer(*v, o, s, a, rk.1);
            (IType::MapOf(Box::new(rk.0), Box::new(rv.0)), rv.1)
        },
        TypeView::Function { params, return_type } => {
            let rp = ast_to_infer_all(params, o, s, a, c);
            let rr = ast_to_infer(*return_type, o, s, a, rp.1);
            (pure_fun(rp.0, rr.0), rr.1)
        },
        TypeView::Object { name, .. } | TypeView::Store { name, .. } | TypeView::Actor { name, .. } => match named_type(
            name,
            o,
            s,
            a,
        ) {
            Some(nt) => (nt, c),
            None => (IType::Var(TypeVar(c)), next_counter(c)),
        },
        TypeView::TypeVar(id) => (IType::Var(TypeVar(id as usize)), c),
        TypeView::Result(ok, err) => {
            let ro = ast_to_infer(*ok, o, s, a, c);
            let re = ast_to_infer(*err, o, s, a, ro.1);
            (IType::Result(Box::new(ro.0), Box::new(re.0)), re.1)
        },
        TypeView::Pipe(inner) => {
            let r = ast_to_infer(*inner, o, s, a, c);
            (IType::Pipe(Box::new(r.0)), r.1)
        },
        TypeView::Unknown => (IType::Var(TypeVar(c)), next_counter(c)),
    }
}

pub open spec fn ast_to_infer_all(
    ts: Seq<TypeView>,
    o: Seq<(Seq<char>, IType)>,
    s: Seq<(Seq<char>, IType)>,
    a: Seq<(Seq<char>, IType)>,
    c: usize,
) -> (Seq<IType>, usize)
    decreases ts,
{
    if ts.len() == 0 {
        (Seq::empty(), c)
    } else {
        let rp = ast_to_infer_all(ts.drop_last(), o, s, a, c);
        let rl = ast_to_infer(ts.last(), o, s, a, rp.1);
        (rp.0.push(rl.0), rl.1)
    }
}

/// The same conversion without fresh variables: what is unknown stays unknown.
pub open spec fn ast_to_infer_ro(
    t: TypeView,
    o: Seq<(Seq<char>, IType)>,
    s: Seq<(Seq<char>, IType)>,
    a: Seq<(Seq<char>, IType)>,
) -> IType
    decreases t,
{
    match t {
        TypeView::I8 | TypeView::I16 | TypeView::I32 | TypeView::I64 => IType::Int,
        TypeView::F32 | TypeView::F64 => IType::Float,
        TypeView::String => IType::String,
        TypeView::Bool => IType::Bool,
        TypeView::Unit => IType::Unit,
        TypeView::List(inner) => IType::List(Box::new(ast_to_infer_ro(*inner, o, s, a))),
        TypeView::MapOf(k, v) => IType::MapOf(
            Box::new(ast_to_infer_ro(*k, o, s, a)),
            Box::new(ast_to_infer_ro(*v, o, s, a)),
        ),
        TypeView::Function { params, return_type } => pure_fun(
            ast_to_infer_ro_all(params, o, s, a),
            ast_to_infer_ro(*return_type, o, s, a),
        ),
        TypeView::Object { name, .. } | TypeView::Store { name, .. } | TypeView::Actor { name, .. } => match named_type(
            name,
            o,
            s,
            a,
        ) {
            Some(nt) => nt,
            None => IType::Unknown,
        },
        TypeView::TypeVar(id) => IType::Var(TypeVar(id as usize)),
        TypeView::Result(ok, err) => IType::Result(
            Box::new(ast_to_infer_ro(*ok, o, s, a)),
            Box::new(ast_to_infer_ro(*err, o, s, a)),
        ),
        TypeView::Pipe(inner) => IType::Pipe(Box::new(ast_to_infer_ro(*inner, o, s, a))),
        TypeView::Unknown => IType::Unknown,
    }
}

pub open spec fn ast_to_infer_ro_all(
    ts: Seq<TypeView>,
    o: Seq<(Seq<char>, IType)>,
    s: Seq<(Seq<char>, IType)>,
    a: Seq<(Seq<char>, IType)>,
) -> Seq<IType>
    decreases ts,
{
    if ts.len() == 0 {
        Seq::empty()
    } else {
        ast_to_infer_ro_all(ts.drop_last(), o, s, a).push(ast_to_infer_ro(ts.last(), o, s, a))
    }
}

impl TypeResolver {
    /// The object, store or actor type defined under `name`, in that order.
    pub fn lookup_named_type(&self, name: &String) -> (r: Option<InferType>)
        ensures
            match r {
                Some(t) => named_type(
                    name@,
                    members_view(self.object_definitions@),
                    members_view(self.store_types@),
                    members_view(self.actor_types@),
                ) == Some(t@),
                None => named_type(
                    name@,
                    members_view(self.object_definitions@),
                    members_view(self.store_types@),
                    members_view(self.actor_types@),
                ) is None,
            },
    {
        proof {
            lemma_members_view(self.object_definitions@);
            lemma_members_view(self.store_types@);
            lemma_members_view(self.actor_types@);
        }
        match find_name(&self.object_definitions, name.as_str()) {
            Some(i) => {
                proof {
                    lemma_members_pos(self.object_definitions@, name@, i as int);
                }
                return Some(copy_itype(&self.object_definitions[i].1));
            },
            None => {
                proof {
                    lemma_members_none(self.object_definitions@, name@);
                }
            },
        }
        match find_name(&self.store_types, name.as_str()) {
            Some(i) => {
                proof {
                    lemma_members_pos(self.store_types@, name@, i as int);
                }
                return Some(copy_itype(&self.store_types[i].1));
            },
            None => {
                proof {
                    lemma_members_none(self.store_types@, name@);
                }
            },
        }
        match find_name(&self.actor_types, name.as_str()) {
            Some(i) => {
                proof {
                    lemma_members_pos(self.actor_types@, name@, i as int);
                }
                Some(copy_itype(&self.actor_types[i].1))
            },
            None => {
                proof {
                    lemma_members_none(self.actor_types@, name@);
                }
                None
            },
        }
    }

    /// The inference type of a written type; an unknown or undefined type takes a fresh variable.
    pub fn ast_type_to_infer_type(&mut self, ast_type: &Type) -> (r: Result<InferType, TypeError>)
        ensures
            r is Ok,
            (r->Ok_0@, final(self).var_gen.counter) == ast_to_infer(
                ast_type@,
                members_view(old(self).object_definitions@),
                members_view(old(self).store_types@),
                members_view(old(self).actor_types@),
                old(self).var_gen.counter,
            ),
            same_but_counter(*final(self), *old(self)),
        decreases ast_type,
    {
        let t = match ast_type {
            Type::I8 | Type::I16 | Type::I32 | Type::I64 => InferType::Int,
            Type::F32 | Type::F64 => InferType::Float,
            Type::String => InferType::String,
            Type::Bool => InferType::Bool,
            Type::Unit => InferType::Unit,
            Type::List(inner) => {
                let i = match self.ast_type_to_infer_type(inner) {
                    Ok(i) => i,
                    Err(e) => return Err(e),
                };
                InferType::List(Box::new(i))
            },
            Type::MapOf(k, v) => {
                let kt = match self.ast_type_to_infer_type(k) {
                    Ok(i) => i,
                    Err(e) => return Err(e),
                };
                let vt = match self.ast_type_to_infer_type(v) {
                    Ok(i) => i,
                    Err(e) => return Err(e),
                };
                InferType::MapOf(Box::new(kt), Box::new(vt))
            },
            Type::Function { params, return_type } => {
                let ps = self.ast_types_to_infer_types(params);
                let rt = match self.ast_type_to_infer_type(return_type) {
                    Ok(i) => i,
                    Err(e) => return Err(e),
                };
                InferType::Function { params: ps, return_type: Box::new(rt), effects: EffectSet::pure() }
            },
            Type::Object { name, .. } | Type::Store { name, .. } | Type::Actor { name, .. } => {
                match self.lookup_named_type(name) {
                    Some(t) => t,
                    None => InferType::Var(self.var_gen.fresh()),
                }
            },
            Type::TypeVar(id) => InferType::Var(TypeVar(*id as usize)),
            Type::Result(ok, err) => {
                let ot = match self.ast_type_to_infer_type(ok) {
                    Ok(i) => i,
                    Err(e) => return Err(e),
                };
                let et = match self.ast_type_to_infer_type(err) {
                    Ok(i) => i,
                    Err(e) => return Err(e),
                };
                InferType::Result(Box::new(ot), Box::new(et))
            },
            Type::Pipe(inner) => {
                let i = match self.ast_type_to_infer_type(inner) {
                    Ok(i) => i,
                    Err(e) => return Err(e),
                };
                InferType::Pipe(Box::new(i))
            },
            Type::Unknown => InferType::Var(self.var_gen.fresh()),
        };
        Ok(t)
    }

    fn ast_types_to_infer_types(&mut self, ts: &Vec<Type>) -> (r: Vec<InferType>)
        ensures
            (itypes_view(r@), final(self).var_gen.counter) == ast_to_infer_all(
                types_view(ts@),
                members_view(old(self).object_definitions@),
                members_view(old(self).store_types@),
                members_view(old(self).actor_types@),
                old(self).var_gen.counter,
            ),
            same_but_counter(*final(self), *old(self)),
        decreases ts,
    {
        let ghost o = members_view(self.object_definitions@);
        let ghost s = members_view(self.store_types@);
        let ghost a = members_view(self.actor_types@);
        let ghost tv = types_view(ts@);
        proof {
            lemma_types_view(ts@);
        }
        let mut r: Vec<InferType> = Vec::new();
        let mut i: usize = 0;
        while i < ts.len()
            invariant
                i <= ts.len(),
                tv == types_view(ts@),
                tv.len() == ts.len(),
                forall|j: int| 0 <= j < ts.len() ==> #[trigger] tv[j] == ts@[j]@,
                o == members_view(self.object_definitions@),
                s == members_view(self.store_types@),
                a == members_view(self.actor_types@),
                same_but_counter(*self, *old(self)),
                (itypes_view(r@), self.var_gen.counter) == ast_to_infer_all(tv.take(i as int), o, s, a, old(self).var_gen.counter),
            decreases ts.len() - i,
        {
            let t = match self.ast_type_to_infer_type(&ts[i]) {
                Ok(t) => t,
                Err(_) => InferType::Unknown,
            };
            proof {
                lemma_itypes_view_push(r@, t);
                assert(tv.take(i + 1).drop_last() =~= tv.take(i as int));
                assert(tv.take(i + 1).last() == tv[i as int]);
            }
            r.push(t);
            i = i + 1;
        }
        assert(tv.take(ts.len() as int) =~= tv);
        r
    }

    /// The inference type of a written type, without drawing fresh variables: what is unknown
    /// or undefined becomes the unknown type.
    pub fn ast_type_to_infer_type_readonly(&self, ast_type: &Type) -> (r: Result<InferType, TypeError>)
        ensures
            r is Ok,
            r->Ok_0@ == ast_to_infer_ro(
                ast_type@,
                members_view(self.object_definitions@),
                members_view(self.store_types@),
                members_view(self.actor_types@),
            ),
        decreases ast_type,
    {
        let t = match ast_type {
            Type::I8 | Type::I16 | Type::I32 | Type::I64 => InferType::Int,
            Type::F32 | Type::F64 => InferType::Float,
            Type::String => InferType::String,
            Type::Bool => InferType::Bool,
            Type::Unit => InferType::Unit,
            Type::List(inner) => {
                let i = match self.ast_type_to_infer_type_readonly(inner) {
                    Ok(i) => i,
                    Err(e) => return Err(e),
                };
                InferType::List(Box::new(i))
            },
            Type::MapOf(k, v) => {
                let kt = match self.ast_type_to_infer_type_readonly(k) {
                    Ok(i) => i,
                    Err(e) => return Err(e),
                };
                let vt = match self.ast_type_to_infer_type_readonly(v) {
                    Ok(i) => i,
                    Err(e) => return Err(e),
                };
                InferType::MapOf(Box::new(kt), Box::new(vt))
            },
            Type::Function { params, return_type } => {
                let ps = self.ast_types_to_infer_types_readonly(params);
                let rt = match self.ast_type_to_infer_type_readonly(return_type) {
                    Ok(i) => i,
                    Err(e) => return Err(e),
                };
                InferType::Function { params: ps, return_type: Box::new(rt), effects: EffectSet::pure() }
            },
            Type::Object { name, .. } | Type::Store { name, .. } | Type::Actor { name, .. } => {
                match self.lookup_named_type(name) {
                    Some(t) => t,
                    None => InferType::Unknown,
                }
            },
            Type::TypeVar(id) => InferType::Var(TypeVar(*id as usize)),
            Type::Result(ok, err) => {
                let ot = match self.ast_type_to_infer_type_readonly(ok) {
                    Ok(i) => i,
                    Err(e) => return Err(e),
                };
                let et = match self.ast_type_to_infer_type_readonly(err) {
                    Ok(i) => i,
                    Err(e) => return Err(e),
                };
                InferType::Result(Box::new(ot), Box::new(et))
            },
            Type::Pipe(inner) => {
                let i = match self.ast_type_to_infer_type_readonly(inner) {
                    Ok(i) => i,
                    Err(e) => return Err(e),
                };
                InferType::Pipe(Box::new(i))
            },
            Type::Unknown => InferType::Unknown,
        };
        Ok(t)
    }

    fn ast_types_to_infer_types_readonly(&self, ts: &Vec<Type>) -> (r: Vec<InferType>)
        ensures
            itypes_view(r@) == ast_to_infer_ro_all(
                types_view(ts@),
                members_view(self.object_definitions@),
                members_view(self.store_types@),
                members_view(self.actor_types@),
            ),
        decreases ts,
    {
        let ghost o = members_view(self.object_definitions@);
        let ghost s = members_view(self.store_types@);
        let ghost a = members_view(self.actor_types@);
        let ghost tv = types_view(ts@);
        proof {
            lemma_types_view(ts@);
        }
        let mut r: Vec<InferType> = Vec::new();
        let mut i: usize = 0;
        while i < ts.len()
            invariant
                i <= ts.len(),
                tv == types_view(ts@),
                tv.len() == ts.len(),
                forall|j: int| 0 <= j < ts.len() ==> #[trigger] tv[j] == ts@[j]@,
                o == members_view(self.object_definitions@),
                s == members_view(self.store_types@),
                a == members_view(self.actor_types@),
                itypes_view(r@) == ast_to_infer_ro_all(tv.take(i as int), o, s, a),
            decreases ts.len() - i,
        {
            let t = match self.ast_type_to_infer_type_readonly(&ts[i]) {
                Ok(t) => t,
                Err(_) => InferType::Unknown,
            };
            proof {
                lemma_itypes_view_push(r@, t);
                assert(tv.take(i + 1).drop_last() =~= tv.take(i as int));
                assert(tv.take(i + 1).last() == tv[i as int]);
            }
            r.push(t);
            i = i + 1;
        }
        assert(tv.take(ts.len() as int) =~= tv);
        r
    }
}

/// The written type that an inference type stands for, as the resolver writes it back:
/// integers as `i32`, floats as `f64`; variables and what has no written form become unknown.
pub open spec fn infer_to_ast(t: IType) -> TypeView
    decreases t,
{
    match t {
        IType::Unit => TypeView::Unit,
        IType::Bool => TypeView::Bool,
        IType::Int => TypeView::I32,
        IType::Float => TypeView::F64,
        IType::String => TypeView::String,
        IType::List(inner) => TypeView::List(Box::new(infer_to_ast(*inner))),
        IType::MapOf(k, v) => TypeView::MapOf(Box::new(infer_to_ast(*k)), Box::new(infer_to_ast(*v))),
        IType::Function { params, return_type, .. } => TypeView::Function {
            params: infer_to_ast_all(params),
            return_type: Box::new(infer_to_ast(*return_type)),
        },
        IType::Object { name, fields, .. } => TypeView::Object { name, fields: infer_to_ast_fields(fields) },
        IType::Store { name, value_type, .. } => TypeView::Store { name, value_type: Box::new(infer_to_ast(*value_type)) },
        IType::Actor { name, .. } => TypeView::Actor { name, message_types: Seq::empty() },
        IType::Result(o, e) => TypeView::Result(Box::new(infer_to_ast(*o)), Box::new(infer_to_ast(*e))),
        _ => TypeView::Unknown,
    }
}

pub open spec fn infer_to_ast_all(ts: Seq<IType>) -> Seq<TypeView>
    decreases ts,
{
    if ts.len() == 0 {
        Seq::empty()
    } else {
        infer_to_ast_all(ts.drop_last()).push(infer_to_ast(ts.last()))
    }
}

pub open spec fn infer_to_ast_fields(ms: Seq<(Seq<char>, IType)>) -> Seq<(Seq<char>, TypeView)>
    decreases ms,
{
    if ms.len() == 0 {
        Seq::empty()
    } else {
        infer_to_ast_fields(ms.drop_last()).push((ms.last().0, infer_to_ast(ms.last().1)))
    }
}

/// The written form of an inference type: integers as `i64`, floats as `f64`, a variable as
/// the type variable of its number cut to 32 bits, an actor with the message types it handles;
/// what has no written form becomes unknown.
pub open spec fn to_ast_view(t: IType) -> TypeView
    decreases t,
{
    match t {
        IType::Unit => TypeView::Unit,
        IType::Bool => TypeView::Bool,
        IType::Int => TypeView::I64,
        IType::Float => TypeView::F64,
        IType::String => TypeView::String,
        IType::List(inner) => TypeView::List(Box::new(to_ast_view(*inner))),
        IType::MapOf(k, v) => TypeView::MapOf(Box::new(to_ast_view(*k)), Box::new(to_ast_view(*v))),
        IType::Function { params, return_type, .. } => TypeView::Function {
            params: to_ast_view_all(params),
            return_type: Box::new(to_ast_view(*return_type)),
        },
        IType::Object { name, fields, .. } => TypeView::Object { name, fields: to_ast_view_fields(fields) },
        IType::Store { name, value_type, .. } => TypeView::Store { name, value_type: Box::new(to_ast_view(*value_type)) },
        IType::Actor { name, handlers, .. } => TypeView::Actor {
            name,
            message_types: handlers.map_values(|h: (TypeView, IType)| h.0),
        },
        IType::Var(v) => TypeView::TypeVar(v.0 as u32),
        IType::Result(o, e) => TypeView::Result(Box::new(to_ast_view(*o)), Box::new(to_ast_view(*e))),
        IType::Pipe(inner) => TypeView::Pipe(Box::new(to_ast_view(*inner))),
        _ => TypeView::Unknown,
    }
}

pub open spec fn to_ast_view_all(ts: Seq<IType>) -> Seq<TypeView>
    decreases ts,
{
    if ts.len() == 0 {
        Seq::empty()
    } else {
        to_ast_view_all(ts.drop_last()).push(to_ast_view(ts.last()))
    }
}

pub open spec fn to_ast_view_fields(ms: Seq<(Seq<char>, IType)>) -> Seq<(Seq<char>, TypeView)>
    decreases ms,
{
    if ms.len() == 0 {
        Seq::empty()
    } else {
        to_ast_view_fields(ms.drop_last()).push((ms.last().0, to_ast_view(ms.last().1)))
    }
}

/// The readable rendering of an inference type.
pub open spec fn infer_text(t: IType) -> Seq<char>
    decreases t,
{
    match t {
        IType::Unit => "unit"@,
        IType::Bool => "bool"@,
        IType::Int => "int"@,
        IType::Float => "float"@,
        IType::String => "string"@,
        IType::List(inner) => "List["@ + infer_text(*inner) + "]"@,
        IType::MapOf(k, v) => "Map["@ + infer_text(*k) + ", "@ + infer_text(*v) + "]"@,
        IType::Function { params, return_type, .. } => "("@ + join(infer_texts(params), ", "@) + ") -> "@
            + infer_text(*return_type),
        IType::Object { name, .. } => "object "@ + name,
        IType::Store { name, .. } => "store "@ + name,
        IType::Actor { name, .. } => "actor "@ + name,
        IType::Result(o, e) => "Result["@ + infer_text(*o) + ", "@ + infer_text(*e) + "]"@,
        IType::Var(v) => "?t"@ + decimal(v.0 as nat),
        _ => "?"@,
    }
}

pub open spec fn infer_texts(ts: Seq<IType>) -> Seq<Seq<char>>
    decreases ts,
{
    if ts.len() == 0 {
        Seq::empty()
    } else {
        infer_texts(ts.drop_last()).push(infer_text(ts.last()))
    }
}

/// The LLVM type of an inference type: lists, maps, stores, actors, pipes and iterators are
/// pointers, a result is its success type, and what is not resolved is `i8*`.
pub open spec fn infer_llvm_text(t: IType) -> Seq<char>
    decreases t,
{
    match t {
        IType::Unit => "void"@,
        IType::Bool => "i1"@,
        IType::Int => "i64"@,
        IType::Float => "double"@,
        IType::String => "%string"@,
        IType::List(_) => "%list*"@,
        IType::MapOf(_, _) => "%map*"@,
        IType::Function { params, return_type, .. } => infer_llvm_text(*return_type) + " ("@ + join(
            infer_llvm_texts(params),
            ", "@,
        ) + ")*"@,
        IType::Object { name, .. } => "%"@ + name,
        IType::Store { name, .. } => "%"@ + name + "*"@,
        IType::Actor { name, .. } => "%"@ + name + "*"@,
        IType::Result(o, _) => infer_llvm_text(*o),
        IType::Pipe(_) => "%pipe*"@,
        IType::Iterator(_) => "%iterator*"@,
        _ => "i8*"@,
    }
}

pub open spec fn infer_llvm_texts(ts: Seq<IType>) -> Seq<Seq<char>>
    decreases ts,
{
    if ts.len() == 0 {
        Seq::empty()
    } else {
        infer_llvm_texts(ts.drop_last()).push(infer_llvm_text(ts.last()))
    }
}

proof fn lemma_seq_push_take<A>(s: Seq<A>, i: int)
    requires
        0 <= i < s.len(),
    ensures
        s.take(i + 1).drop_last() == s.take(i),
        s.take(i + 1).last() == s[i],
{
    assert(s.take(i + 1).drop_last() =~= s.take(i));
}

impl TypeResolver {
    /// The written type for an inference type, as the resolver writes types back.
    #[verifier::loop_isolation(false)]
    pub fn infer_type_to_ast_type(&self, infer_type: &InferType) -> (r: Type)
        ensures
            r@ == infer_to_ast(infer_type@),
        decreases infer_type,
    {
        match infer_type {
            InferType::Unit => Type::Unit,
            InferType::Bool => Type::Bool,
            InferType::Int => Type::I32,
            InferType::Float => Type::F64,
            InferType::String => Type::String,
            InferType::List(inner) => Type::List(Box::new(self.infer_type_to_ast_type(inner))),
            InferType::MapOf(k, v) => Type::MapOf(
                Box::new(self.infer_type_to_ast_type(k)),
                Box::new(self.infer_type_to_ast_type(v)),
            ),
            InferType::Function { params, return_type, .. } => {
                let ghost pv = itypes_view(params@);
                proof {
                    lemma_itypes_view(params@);
                }
                let mut ps: Vec<Type> = Vec::new();
                let mut i: usize = 0;
                while i < params.len()
                    invariant
                        i <= params.len(),
                        pv == itypes_view(params@),
                        pv.len() == params.len(),
                        forall|j: int| 0 <= j < params.len() ==> #[trigger] pv[j] == params@[j]@,
                        types_view(ps@) == infer_to_ast_all(pv.take(i as int)),
                    decreases params.len() - i,
                {
                    let p = self.infer_type_to_ast_type(&params[i]);
                    proof {
                        lemma_types_view_push(ps@, p);
                        lemma_seq_push_take(pv, i as int);
                    }
                    ps.push(p);
                    i = i + 1;
                }
                assert(pv.take(params.len() as int) =~= pv);
                Type::Function { params: ps, return_type: Box::new(self.infer_type_to_ast_type(return_type)) }
            },
            InferType::Object { name, fields, .. } => {
                let ghost mv = members_view(fields@);
                proof {
                    lemma_members_view(fields@);
                }
                let mut fs: Vec<(String, Type)> = Vec::new();
                let mut i: usize = 0;
                while i < fields.len()
                    invariant
                        i <= fields.len(),
                        mv == members_view(fields@),
                        mv.len() == fields.len(),
                        forall|j: int| 0 <= j < fields.len() ==> #[trigger] mv[j] == (fields@[j].0@, fields@[j].1@),
                        fields_view(fs@) == infer_to_ast_fields(mv.take(i as int)),
                    decreases fields.len() - i,
                {
                    let f = (fields[i].0.clone(), self.infer_type_to_ast_type(&fields[i].1));
                    proof {
                        lemma_fields_view_push(fs@, f);
                        lemma_seq_push_take(mv, i as int);
                    }
                    fs.push(f);
                    i = i + 1;
                }
                assert(mv.take(fields.len() as int) =~= mv);
                Type::Object { name: name.clone(), fields: fs }
            },
            InferType::Store { name, value_type, .. } => Type::Store {
                name: name.clone(),
                value_type: Box::new(self.infer_type_to_ast_type(value_type)),
            },
            InferType::Actor { name, .. } => {
                let ms: Vec<Type> = Vec::new();
                assert(types_view(ms@) =~= Seq::<TypeView>::empty());
                Type::Actor { name: name.clone(), message_types: ms }
            },
            InferType::Result(o, e) => Type::Result(
                Box::new(self.infer_type_to_ast_type(o)),
                Box::new(self.infer_type_to_ast_type(e)),
            ),
            _ => Type::Unknown,
        }
    }

    /// A readable rendering of an inference type.
    #[verifier::loop_isolation(false)]
    pub fn type_to_string(&self, ty: &InferType) -> (s: String)
        ensures
            s@ == infer_text(ty@),
        decreases ty,
    {
        match ty {
            InferType::Unit => String::from_str("unit"),
            InferType::Bool => String::from_str("bool"),
            InferType::Int => String::from_str("int"),
            InferType::Float => String::from_str("float"),
            InferType::String => String::from_str("string"),
            InferType::List(inner) => {
                let mut s = String::from_str("List[");
                let t = self.type_to_string(inner);
                s.append(t.as_str());
                s.append("]");
                s
            },
            InferType::MapOf(k, v) => {
                let mut s = String::from_str("Map[");
                let kt = self.type_to_string(k);
                s.append(kt.as_str());
                s.append(", ");
                let vt = self.type_to_string(v);
                s.append(vt.as_str());
                s.append("]");
                s
            },
            InferType::Function { params, return_type, .. } => {
                let mut s = String::from_str("(");
                let ghost head = s@;
                let ghost pv = itypes_view(params@);
                proof {
                    lemma_itypes_view(params@);
                }
                let mut i: usize = 0;
                while i < params.len()
                    invariant
                        i <= params.len(),
                        pv == itypes_view(params@),
                        pv.len() == params.len(),
                        forall|j: int| 0 <= j < params.len() ==> #[trigger] pv[j] == params@[j]@,
                        s@ == head + join(infer_texts(pv.take(i as int)), ", "@),
                    decreases params.len() - i,
                {
                    let p = self.type_to_string(&params[i]);
                    proof {
                        lemma_seq_push_take(pv, i as int);
                        lemma_join_push(infer_texts(pv.take(i as int)), ", "@, p@);
                    }
                    if i > 0 {
                        s.append(", ");
                    }
                    s.append(p.as_str());
                    i = i + 1;
                    assert(s@ =~= head + join(infer_texts(pv.take(i as int)), ", "@));
                }
                s.append(") -> ");
                let r = self.type_to_string(return_type);
                s.append(r.as_str());
                assert(pv.take(params.len() as int) =~= pv);
                s
            },
            InferType::Object { name, .. } => {
                let mut s = String::from_str("object ");
                s.append(name.as_str());
                s
            },
            InferType::Store { name, .. } => {
                let mut s = String::from_str("store ");
                s.append(name.as_str());
                s
            },
            InferType::Actor { name, .. } => {
                let mut s = String::from_str("actor ");
                s.append(name.as_str());
                s
            },
            InferType::Result(o, e) => {
                let mut s = String::from_str("Result[");
                let ot = self.type_to_string(o);
                s.append(ot.as_str());
                s.append(", ");
                let et = self.type_to_string(e);
                s.append(et.as_str());
                s.append("]");
                s
            },
            InferType::Var(v) => {
                let mut s = String::from_str("?t");
                push_decimal(&mut s, v.0 as u64);
                s
            },
            _ => String::from_str("?"),
        }
    }
}

impl InferType {
    /// The written form of this type.
    #[verifier::loop_isolation(false)]
    pub fn to_ast_type(&self) -> (r: Type)
        ensures
            r@ == to_ast_view(self@),
        decreases self,
    {
        match self {
            InferType::Unit => Type::Unit,
            InferType::Bool => Type::Bool,
            InferType::Int => Type::I64,
            InferType::Float => Type::F64,
            InferType::String => Type::String,
            InferType::List(t) => Type::List(Box::new(t.to_ast_type())),
            InferType::MapOf(k, v) => Type::MapOf(Box::new(k.to_ast_type()), Box::new(v.to_ast_type())),
            InferType::Function { params, return_type, .. } => {
                let ghost pv = itypes_view(params@);
                proof {
                    lemma_itypes_view(params@);
                }
                let mut ps: Vec<Type> = Vec::new();
                let mut i: usize = 0;
                while i < params.len()
                    invariant
                        i <= params.len(),
                        pv == itypes_view(params@),
                        pv.len() == params.len(),
                        forall|j: int| 0 <= j < params.len() ==> #[trigger] pv[j] == params@[j]@,
                        types_view(ps@) == to_ast_view_all(pv.take(i as int)),
                    decreases params.len() - i,
                {
                    let p = params[i].to_ast_type();
                    proof {
                        lemma_types_view_push(ps@, p);
                        lemma_seq_push_take(pv, i as int);
                    }
                    ps.push(p);
                    i = i + 1;
                }
                assert(pv.take(params.len() as int) =~= pv);
                Type::Function { params: ps, return_type: Box::new(return_type.to_ast_type()) }
            },
            InferType::Object { name, fields, .. } => {
                let ghost mv = members_view(fields@);
                proof {
                    lemma_members_view(fields@);
                }
                let mut fs: Vec<(String, Type)> = Vec::new();
                let mut i: usize = 0;
                while i < fields.len()
                    invariant
                        i <= fields.len(),
                        mv == members_view(fields@),
                        mv.len() == fields.len(),
                        forall|j: int| 0 <= j < fields.len() ==> #[trigger] mv[j] == (fields@[j].0@, fields@[j].1@),
                        fields_view(fs@) == to_ast_view_fields(mv.take(i as int)),
                    decreases fields.len() - i,
                {
                    let f = (fields[i].0.clone(), fields[i].1.to_ast_type());
                    proof {
                        lemma_fields_view_push(fs@, f);
                        lemma_seq_push_take(mv, i as int);
                    }
                    fs.push(f);
                    i = i + 1;
                }
                assert(mv.take(fields.len() as int) =~= mv);
                Type::Object { name: name.clone(), fields: fs }
            },
            InferType::Store { name, value_type, .. } => Type::Store {
                name: name.clone(),
                value_type: Box::new(value_type.to_ast_type()),
            },
            InferType::Actor { name, handlers, .. } => {
                let ghost hv = handlers_view(handlers@);
                proof {
                    super::types::lemma_handlers_view(handlers@);
                }
                let mut ms: Vec<Type> = Vec::new();
                let mut i: usize = 0;
                while i < handlers.len()
                    invariant
                        i <= handlers.len(),
                        hv == handlers_view(handlers@),
                        hv.len() == handlers.len(),
                        forall|j: int| 0 <= j < handlers.len() ==> #[trigger] hv[j] == (type_view(handlers@[j].0), handlers@[j].1@),
                        types_view(ms@) == hv.take(i as int).map_values(|h: (TypeView, IType)| h.0),
                    decreases handlers.len() - i,
                {
                    let m = copy_type(&handlers[i].0);
                    proof {
                        lemma_types_view_push(ms@, m);
                        assert(hv.take(i + 1).map_values(|h: (TypeView, IType)| h.0) =~= hv.take(i as int).map_values(
                            |h: (TypeView, IType)| h.0,
                        ).push(m@));
                    }
                    ms.push(m);
                    i = i + 1;
                }
                assert(hv.take(handlers.len() as int) =~= hv);
                Type::Actor { name: name.clone(), message_types: ms }
            },
            InferType::Var(v) => Type::TypeVar(#[verifier::truncate] (v.0 as u32)),
            InferType::Result(ok, err) => Type::Result(Box::new(ok.to_ast_type()), Box::new(err.to_ast_type())),
            InferType::Pipe(t) => Type::Pipe(Box::new(t.to_ast_type())),
            _ => Type::Unknown,
        }
    }

    /// The LLVM IR type of this type.
    #[verifier::loop_isolation(false)]
    pub fn to_llvm_type(&self) -> (s: String)
        ensures
            s@ == infer_llvm_text(self@),
        decreases self,
    {
        match self {
            InferType::Unit => String::from_str("void"),
            InferType::Bool => String::from_str("i1"),
            InferType::Int => String::from_str("i64"),
            InferType::Float => String::from_str("double"),
            InferType::String => String::from_str("%string"),
            InferType::List(_) => String::from_str("%list*"),
            InferType::MapOf(_, _) => String::from_str("%map*"),
            InferType::Function { params, return_type, .. } => {
                let mut s = return_type.to_llvm_type();
                s.append(" (");
                let ghost head = s@;
                let ghost pv = itypes_view(params@);
                proof {
                    lemma_itypes_view(params@);
                }
                let mut i: usize = 0;
                while i < params.len()
                    invariant
                        i <= params.len(),
                        pv == itypes_view(params@),
                        pv.len() == params.len(),
                        forall|j: int| 0 <= j < params.len() ==> #[trigger] pv[j] == params@[j]@,
                        s@ == head + join(infer_llvm_texts(pv.take(i as int)), ", "@),
                    decreases params.len() - i,
                {
                    let p = params[i].to_llvm_type();
                    proof {
                        lemma_seq_push_take(pv, i as int);
                        lemma_join_push(infer_llvm_texts(pv.take(i as int)), ", "@, p@);
                    }
                    if i > 0 {
                        s.append(", ");
                    }
                    s.append(p.as_str());
                    i = i + 1;
                    assert(s@ =~= head + join(infer_llvm_texts(pv.take(i as int)), ", "@));
                }
                s.append(")*");
                assert(pv.take(params.len() as int) =~= pv);
                s
            },
            InferType::Object { name, .. } => {
                let mut s = String::from_str("%");
                s.append(name.as_str());
                s
            },
            InferType::Store { name, .. } | InferType::Actor { name, .. } => {
                let mut s = String::from_str("%");
                s.append(name.as_str());
                s.append("*");
                s
            },
            InferType::Result(ok, _) => ok.to_llvm_type(),
            InferType::Pipe(_) => String::from_str("%pipe*"),
            InferType::Iterator(_) => String::from_str("%iterator*"),
            _ => String::from_str("i8*"),
        }
    }
}

} // verus!
