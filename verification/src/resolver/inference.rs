use vstd::prelude::*;
use crate::assoc::assoc_insert;
use super::{TypeResolver, same_but_counter};
use super::env::TypeEnv;
use super::error::TypeError;
use super::types::{
    itype_view,
    EffectSet, InferType, IType, TypeVar, TypeVarGen, insert_member, itypes_view, members_view, lemma_itypes_view_push,
    lemma_members_view, copy_itype, next_counter,
};

verus! {

/// Binds each name of `items` in turn.
pub open spec fn insert_all(ms: Seq<(Seq<char>, IType)>, items: Seq<(Seq<char>, IType)>) -> Seq<(Seq<char>, IType)>
    decreases items.len(),
{
    if items.len() == 0 {
        ms
    } else {
        assoc_insert(insert_all(ms, items.drop_last()), items.last().0, items.last().1)
    }
}

pub open spec fn io_effects() -> EffectSet {
    EffectSet { io: true, store: false, actor_send: false, mutation: false }
}

pub open spec fn pure_effects() -> EffectSet {
    EffectSet { io: false, store: false, actor_send: false, mutation: false }
}

pub open spec fn store_effects() -> EffectSet {
    EffectSet { io: false, store: true, actor_send: false, mutation: false }
}

pub open spec fn actor_effects() -> EffectSet {
    EffectSet { io: false, store: false, actor_send: true, mutation: false }
}

pub open spec fn fun(params: Seq<IType>, ret: IType, effects: EffectSet) -> IType {
    IType::Function { params, return_type: Box::new(ret), effects }
}

/// The built-in named types.
pub open spec fn builtin_type_names() -> Seq<(Seq<char>, IType)> {
    seq![("int"@, IType::Int), ("float"@, IType::Float), ("string"@, IType::String), ("bool"@, IType::Bool)]
}

/// The built-in names of the environment, with `c` the first fresh variable they use.
pub open spec fn builtin_bindings(c: usize) -> Seq<(Seq<char>, IType)> {
    seq![
        ("log"@, fun(seq![IType::Var(TypeVar(c))], IType::Unit, io_effects())),
        ("hash.blake3"@, fun(seq![IType::String], IType::String, pure_effects())),
        ("now"@, IType::Int),
        ("empty"@, IType::Var(TypeVar(next_counter(c)))),
        ("print"@, fun(seq![IType::String], IType::Unit, io_effects())),
    ]
}

/// The types of the members of a list, in order.
pub open spec fn member_types(ms: Seq<(Seq<char>, IType)>) -> Seq<IType> {
    ms.map_values(|m: (Seq<char>, IType)| m.1)
}

fn named(s: &str, t: InferType) -> (r: (String, InferType))
    ensures
        r.0@ == s@,
        r.1@ == t@,
{
    (String::from_str(s), t)
}

pub(crate) fn one_type(t: InferType) -> (r: Vec<InferType>)
    ensures
        itypes_view(r@) == seq![t@],
{
    let mut v: Vec<InferType> = Vec::new();
    proof {
        lemma_itypes_view_push(v@, t);
        assert(itypes_view(v@) =~= Seq::<IType>::empty());
    }
    v.push(t);
    assert(itypes_view(v@) =~= seq![t@]);
    v
}

impl TypeResolver {
    /// A resolver that knows the built-in types and names, with nothing else gathered.
    pub fn new() -> (r: Self)
        ensures
            members_view(r.builtin_types@) == insert_all(Seq::empty(), builtin_type_names()),
            r.env.scopes() == seq![insert_all(Seq::empty(), builtin_bindings(0))],
            r.var_gen.counter == 2,
            r.constraints@ == Seq::<super::types::Constraint>::empty(),
            r.object_definitions@ == Seq::<(String, InferType)>::empty(),
            r.store_types@ == Seq::<(String, InferType)>::empty(),
            r.actor_types@ == Seq::<(String, InferType)>::empty(),
    {
        let mut resolver = TypeResolver {
            var_gen: TypeVarGen::new(),
            constraints: Vec::new(),
            env: TypeEnv::new(),
            builtin_types: Vec::new(),
            object_definitions: Vec::new(),
            store_types: Vec::new(),
            actor_types: Vec::new(),
        };
        assert(members_view(resolver.builtin_types@) =~= Seq::<(Seq<char>, IType)>::empty());
        resolver.initialize_builtins();
        resolver
    }

    /// Adds the built-in types and binds the built-in names.
    pub fn initialize_builtins(&mut self)
        ensures
            members_view(final(self).builtin_types@) == insert_all(members_view(old(self).builtin_types@), builtin_type_names()),
            final(self).env.scopes() == old(self).env.scopes().update(
                0,
                insert_all(old(self).env.scopes()[0], builtin_bindings(old(self).var_gen.counter)),
            ),
            final(self).var_gen.counter == next_counter(next_counter(old(self).var_gen.counter)),
            final(self).constraints == old(self).constraints,
            final(self).object_definitions == old(self).object_definitions,
            final(self).store_types == old(self).store_types,
            final(self).actor_types == old(self).actor_types,
    {
        let ghost b0 = members_view(self.builtin_types@);
        let ghost c = self.var_gen.counter;
        let ghost sc = self.env.scopes();
        let ghost names = builtin_type_names();
        proof {
            self.env.lemma_scopes_nonempty();
        }
        let (n, t) = named("int", InferType::Int);
        insert_member(&mut self.builtin_types, n, t);
        let (n, t) = named("float", InferType::Float);
        insert_member(&mut self.builtin_types, n, t);
        let (n, t) = named("string", InferType::String);
        insert_member(&mut self.builtin_types, n, t);
        let (n, t) = named("bool", InferType::Bool);
        insert_member(&mut self.builtin_types, n, t);
        proof {
            reveal_with_fuel(insert_all, 5);
            assert(names.drop_last().drop_last().drop_last().drop_last() =~= Seq::<(Seq<char>, IType)>::empty());
            assert(names.drop_last().drop_last().drop_last() =~= seq![("int"@, IType::Int)]);
            assert(names.drop_last().drop_last() =~= seq![("int"@, IType::Int), ("float"@, IType::Float)]);
            assert(names.drop_last() =~= seq![("int"@, IType::Int), ("float"@, IType::Float), ("string"@, IType::String)]);
        }

        proof {
            reveal_with_fuel(itype_view, 2);
        }
        let log_type = InferType::Function {
            params: one_type(InferType::Var(self.var_gen.fresh())),
            return_type: Box::new(InferType::Unit),
            effects: EffectSet::io(),
        };
        self.env.bind(String::from_str("log"), log_type);
        let hash_type = InferType::Function {
            params: one_type(InferType::String),
            return_type: Box::new(InferType::String),
            effects: EffectSet::pure(),
        };
        self.env.bind(String::from_str("hash.blake3"), hash_type);
        self.env.bind(String::from_str("now"), InferType::Int);
        self.env.bind(String::from_str("empty"), InferType::Var(self.var_gen.fresh()));
        let print_type = InferType::Function {
            params: one_type(InferType::String),
            return_type: Box::new(InferType::Unit),
            effects: EffectSet::io(),
        };
        self.env.bind(String::from_str("print"), print_type);
        proof {
            reveal_with_fuel(insert_all, 6);
            let bb = builtin_bindings(c);
            assert(bb.drop_last().drop_last().drop_last().drop_last().drop_last() =~= Seq::<(Seq<char>, IType)>::empty());
            assert(bb.drop_last().drop_last().drop_last().drop_last() =~= seq![bb[0]]);
            assert(bb.drop_last().drop_last().drop_last() =~= seq![bb[0], bb[1]]);
            assert(bb.drop_last().drop_last() =~= seq![bb[0], bb[1], bb[2]]);
            assert(bb.drop_last() =~= seq![bb[0], bb[1], bb[2], bb[3]]);
        }
    }

    /// Adds the methods every object has: `make`, which takes the fields in order, and `as`.
    pub fn add_builtin_object_methods(
        &mut self,
        method_types: &mut Vec<(String, InferType)>,
        field_types: &Vec<(String, InferType)>,
    ) -> (r: Result<(), TypeError>)
        ensures
            r is Ok,
            members_view(final(method_types)@) == assoc_insert(
                assoc_insert(
                    members_view(old(method_types)@),
                    "make"@,
                    fun(member_types(members_view(field_types@)), IType::Var(TypeVar(old(self).var_gen.counter)), pure_effects()),
                ),
                "as"@,
                fun(seq![IType::String], IType::Var(TypeVar(next_counter(old(self).var_gen.counter))), pure_effects()),
            ),
            final(self).var_gen.counter == next_counter(next_counter(old(self).var_gen.counter)),
            same_but_counter(*final(self), *old(self)),
    {
        let ghost fv = members_view(field_types@);
        proof {
            lemma_members_view(field_types@);
        }
        let mut make_params: Vec<InferType> = Vec::new();
        let mut i: usize = 0;
        while i < field_types.len()
            invariant
                i <= field_types.len(),
                fv == members_view(field_types@),
                fv.len() == field_types.len(),
                forall|j: int| 0 <= j < field_types.len() ==> #[trigger] fv[j] == (field_types@[j].0@, field_types@[j].1@),
                itypes_view(make_params@) == member_types(fv).take(i as int),
            decreases field_types.len() - i,
        {
            let t = copy_itype(&field_types[i].1);
            proof {
                lemma_itypes_view_push(make_params@, t);
                assert(member_types(fv).take(i + 1) =~= member_types(fv).take(i as int).push(t@));
            }
            make_params.push(t);
            i = i + 1;
        }
        assert(member_types(fv).take(field_types.len() as int) =~= member_types(fv));
        proof {
            reveal_with_fuel(itype_view, 2);
        }
        let make_return = InferType::Var(self.var_gen.fresh());
        let make = InferType::Function {
            params: make_params,
            return_type: Box::new(make_return),
            effects: EffectSet::pure(),
        };
        insert_member(method_types, String::from_str("make"), make);
        let as_type = InferType::Function {
            params: one_type(InferType::String),
            return_type: Box::new(InferType::Var(self.var_gen.fresh())),
            effects: EffectSet::pure(),
        };
        insert_member(method_types, String::from_str("as"), as_type);
        Ok(())
    }

    /// Adds the methods of stores: `with_id` and `find`.
    pub fn add_store_methods(&mut self, method_types: &mut Vec<(String, InferType)>, store_name: &str) -> (r: Result<
        (),
        TypeError,
    >)
        ensures
            r is Ok,
            members_view(final(method_types)@) == assoc_insert(
                assoc_insert(
                    members_view(old(method_types)@),
                    "with_id"@,
                    fun(seq![IType::Int], IType::Var(TypeVar(old(self).var_gen.counter)), store_effects()),
                ),
                "find"@,
                fun(
                    seq![IType::Var(TypeVar(next_counter(old(self).var_gen.counter)))],
                    IType::List(Box::new(IType::Var(TypeVar(next_counter(next_counter(old(self).var_gen.counter)))))),
                    store_effects(),
                ),
            ),
            final(self).var_gen.counter == next_counter(next_counter(next_counter(old(self).var_gen.counter))),
            same_but_counter(*final(self), *old(self)),
    {
        proof {
            reveal_with_fuel(itype_view, 3);
        }
        let with_id = InferType::Function {
            params: one_type(InferType::Int),
            return_type: Box::new(InferType::Var(self.var_gen.fresh())),
            effects: EffectSet::store(),
        };
        insert_member(method_types, String::from_str("with_id"), with_id);
        let find = InferType::Function {
            params: one_type(InferType::Var(self.var_gen.fresh())),
            return_type: Box::new(InferType::List(Box::new(InferType::Var(self.var_gen.fresh())))),
            effects: EffectSet::store(),
        };
        insert_member(method_types, String::from_str("find"), find);
        Ok(())
    }

    /// Adds the method of actors: `send`.
    pub fn add_actor_methods(&mut self, method_types: &mut Vec<(String, InferType)>) -> (r: Result<(), TypeError>)
        ensures
            r is Ok,
            members_view(final(method_types)@) == assoc_insert(
                members_view(old(method_types)@),
                "send"@,
                fun(seq![IType::Var(TypeVar(old(self).var_gen.counter))], IType::Unit, actor_effects()),
            ),
            final(self).var_gen.counter == next_counter(old(self).var_gen.counter),
            same_but_counter(*final(self), *old(self)),
    {
        let ghost c = self.var_gen.counter;
        let v = self.var_gen.fresh();
        let ps = one_type(InferType::Var(v));
        let send = InferType::Function { params: ps, return_type: Box::new(InferType::Unit), effects: EffectSet::actor() };
        proof {
            reveal_with_fuel(itype_view, 2);
        }
        insert_member(method_types, String::from_str("send"), send);
        Ok(())
    }
}

} // verus!
