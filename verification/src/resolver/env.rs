use vstd::prelude::*;
use crate::assoc::{assoc_get, assoc_insert, find_name, lemma_assoc_insert_get};
use super::types::{
    InferType, IType, copy_itype, copy_members, members_view, lemma_members_view, lemma_members_pos,
    lemma_members_none, insert_member,
};

verus! {

/// Scoped bindings of names to types; a scope sees the bindings of the scopes around it.
#[derive(Debug)]
pub struct TypeEnv {
    bindings: Vec<(String, InferType)>,
    parent: Option<Box<TypeEnv>>,
}

/// Looks a name up in a chain of scopes, innermost first.
pub open spec fn scopes_lookup(scopes: Seq<Seq<(Seq<char>, IType)>>, name: Seq<char>) -> Option<IType>
    decreases scopes.len(),
{
    if scopes.len() == 0 {
        None
    } else {
        match assoc_get(scopes[0], name) {
            Some(t) => Some(t),
            None => scopes_lookup(scopes.drop_first(), name),
        }
    }
}

impl TypeEnv {
    /// The scopes of this environment, innermost first.
    pub closed spec fn scopes(self) -> Seq<Seq<(Seq<char>, IType)>>
        decreases self,
    {
        match self.parent {
            Some(p) => seq![members_view(self.bindings@)] + (*p).scopes(),
            None => seq![members_view(self.bindings@)],
        }
    }

    /// The type that `name` has in this environment.
    pub open spec fn lookup_spec(self, name: Seq<char>) -> Option<IType> {
        scopes_lookup(self.scopes(), name)
    }

    /// An environment with one empty scope.
    pub fn new() -> (e: Self)
        ensures
            e.scopes() == seq![Seq::<(Seq<char>, IType)>::empty()],
    {
        let e = TypeEnv { bindings: Vec::new(), parent: None };
        assert(members_view(e.bindings@) =~= Seq::<(Seq<char>, IType)>::empty());
        e
    }

    fn copy(&self) -> (r: Self)
        ensures
            r.scopes() == self.scopes(),
        decreases self,
    {
        let bindings = copy_members(&self.bindings);
        match &self.parent {
            Some(p) => TypeEnv { bindings, parent: Some(Box::new(p.copy())) },
            None => TypeEnv { bindings, parent: None },
        }
    }

    /// A new empty scope inside this one.
    pub fn extend(&self) -> (e: Self)
        ensures
            e.scopes() == seq![Seq::<(Seq<char>, IType)>::empty()] + self.scopes(),
    {
        let e = TypeEnv { bindings: Vec::new(), parent: Some(Box::new(self.copy())) };
        assert(members_view(e.bindings@) =~= Seq::<(Seq<char>, IType)>::empty());
        e
    }

    /// Binds `name` to `ty` in the innermost scope, replacing a binding of it there.
    pub fn bind(&mut self, name: String, ty: InferType)
        ensures
            final(self).scopes() == old(self).scopes().update(0, assoc_insert(old(self).scopes()[0], name@, ty@)),
    {
        let ghost mv = members_view(self.bindings@);
        let ghost key = name@;
        let ghost tv = ty@;
        insert_member(&mut self.bindings, name, ty);
        assert(final(self).scopes() =~= old(self).scopes().update(0, assoc_insert(mv, key, tv)));
    }

    /// The type bound to `name` in the innermost scope that binds it.
    pub fn lookup(&self, name: &str) -> (r: Option<InferType>)
        ensures
            match r {
                Some(t) => self.lookup_spec(name@) == Some(t@),
                None => self.lookup_spec(name@) is None,
            },
        decreases self,
    {
        proof {
            lemma_members_view(self.bindings@);
            assert(self.scopes()[0] == members_view(self.bindings@));
            assert(self.scopes().len() > 0);
        }
        match find_name(&self.bindings, name) {
            Some(i) => {
                proof {
                    lemma_members_pos(self.bindings@, name@, i as int);
                    assert(assoc_get(self.scopes()[0], name@) == Some(self.bindings@[i as int].1@));
                    assert(scopes_lookup(self.scopes(), name@) == Some(self.bindings@[i as int].1@));
                }
                let t = copy_itype(&self.bindings[i].1);
                assert(t@ == self.bindings@[i as int].1@);
                Some(t)
            },
            None => {
                proof {
                    lemma_members_none(self.bindings@, name@);
                }
                match &self.parent {
                    Some(p) => {
                        let r = p.lookup(name);
                        proof {
                            assert(self.scopes().drop_first() =~= (**p).scopes());
                            assert(assoc_get(self.scopes()[0], name@) is None);
                            assert(self.lookup_spec(name@) == (**p).lookup_spec(name@));
                        }
                        r
                    },
                    None => {
                        proof {
                            assert(self.scopes().drop_first().len() == 0);
                            assert(assoc_get(self.scopes()[0], name@) is None);
                            assert(scopes_lookup(self.scopes().drop_first(), name@) is None);
                            assert(scopes_lookup(self.scopes(), name@) is None);
                        }
                        None
                    },
                }
            },
        }
    }
}

impl TypeEnv {
    /// Every environment has a scope to bind names in.
    pub proof fn lemma_scopes_nonempty(self)
        ensures
            self.scopes().len() > 0,
    {
    }
}

/// After a name is bound in the innermost scope, looking it up gives the type it was bound to,
/// and every other name is found as before.
pub proof fn law_bind_lookup(
    scopes: Seq<Seq<(Seq<char>, IType)>>,
    name: Seq<char>,
    ty: IType,
    other: Seq<char>,
)
    requires
        scopes.len() > 0,
    ensures
        scopes_lookup(scopes.update(0, assoc_insert(scopes[0], name, ty)), name) == Some(ty),
        other != name ==> scopes_lookup(scopes.update(0, assoc_insert(scopes[0], name, ty)), other)
            == scopes_lookup(scopes, other),
{
    let s2 = scopes.update(0, assoc_insert(scopes[0], name, ty));
    lemma_assoc_insert_get(scopes[0], name, ty, other);
    lemma_assoc_insert_get(scopes[0], name, ty, name);
    assert(s2.drop_first() =~= scopes.drop_first());
}

/// A new scope sees every binding of the environment it extends.
pub proof fn law_extend_lookup(scopes: Seq<Seq<(Seq<char>, IType)>>, name: Seq<char>)
    ensures
        scopes_lookup(seq![Seq::<(Seq<char>, IType)>::empty()] + scopes, name) == scopes_lookup(scopes, name),
{
    let s2 = seq![Seq::<(Seq<char>, IType)>::empty()] + scopes;
    assert(s2.drop_first() =~= scopes);
    assert(s2[0] == Seq::<(Seq<char>, IType)>::empty());
}

/// A fresh environment binds no name.
pub proof fn law_new_env_empty(name: Seq<char>)
    ensures
        scopes_lookup(seq![Seq::<(Seq<char>, IType)>::empty()], name) is None,
{
    let s = seq![Seq::<(Seq<char>, IType)>::empty()];
    assert(s.drop_first() =~= Seq::<Seq<(Seq<char>, IType)>>::empty());
    assert(scopes_lookup(s.drop_first(), name) is None);
    assert(assoc_get(s[0], name) is None);
}

} // verus!
