use vstd::prelude::*;
use crate::assoc::{assoc_get, assoc_insert, find_name};
use crate::resolver::types::{InferType, IType, copy_itype, copy_members, members_view};

verus! {

/// A compiled value: its type, its LLVM type and the operand that names it.
#[derive(Debug)]
pub struct LLVMValue {
    pub type_info: InferType,
    pub llvm_type: String,
    pub value_id: String,
}

/// The mathematical model of an `LLVMValue`.
pub struct LValue {
    pub type_info: IType,
    pub llvm_type: Seq<char>,
    pub value_id: Seq<char>,
}

impl View for LLVMValue {
    type V = LValue;

    open spec fn view(&self) -> LValue {
        LValue { type_info: self.type_info@, llvm_type: self.llvm_type@, value_id: self.value_id@ }
    }
}

impl Clone for LLVMValue {
    fn clone(&self) -> (r: Self)
        ensures
            r@ == self@,
    {
        LLVMValue {
            type_info: copy_itype(&self.type_info),
            llvm_type: self.llvm_type.clone(),
            value_id: self.value_id.clone(),
        }
    }
}

/// A compiled function.
#[derive(Debug)]
pub struct LLVMFunction {
    pub name: String,
    pub parameters: Vec<(String, InferType)>,
    pub return_type: InferType,
    pub body: String,
}

/// The mathematical model of an `LLVMFunction`.
pub struct LFunction {
    pub name: Seq<char>,
    pub parameters: Seq<(Seq<char>, IType)>,
    pub return_type: IType,
    pub body: Seq<char>,
}

impl View for LLVMFunction {
    type V = LFunction;

    open spec fn view(&self) -> LFunction {
        LFunction {
            name: self.name@,
            parameters: members_view(self.parameters@),
            return_type: self.return_type@,
            body: self.body@,
        }
    }
}

impl Clone for LLVMFunction {
    fn clone(&self) -> (r: Self)
        ensures
            r@ == self@,
    {
        LLVMFunction {
            name: self.name.clone(),
            parameters: copy_members(&self.parameters),
            return_type: copy_itype(&self.return_type),
            body: self.body.clone(),
        }
    }
}

pub open spec fn values_view(vs: Seq<(String, LLVMValue)>) -> Seq<(Seq<char>, LValue)> {
    vs.map_values(|e: (String, LLVMValue)| (e.0@, e.1@))
}

pub open spec fn functions_view(fs: Seq<(String, LLVMFunction)>) -> Seq<(Seq<char>, LFunction)> {
    fs.map_values(|e: (String, LLVMFunction)| (e.0@, e.1@))
}

/// The variables and functions known while compiling, with an enclosing table.
#[derive(Debug)]
pub struct SymbolTable {
    variables: Vec<(String, LLVMValue)>,
    functions: Vec<(String, LLVMFunction)>,
    parent: Option<Box<SymbolTable>>,
}

/// Binds `name` in a list of named entries, replacing its first binding.
pub(crate) fn insert_named<V: View>(entries: &mut Vec<(String, V)>, name: String, value: V)
    ensures
        final(entries)@.map_values(|e: (String, V)| (e.0@, e.1@)) == assoc_insert(
            old(entries)@.map_values(|e: (String, V)| (e.0@, e.1@)),
            name@,
            value@,
        ),
{
    let ghost f = |e: (String, V)| (e.0@, e.1@);
    let ghost before = entries@.map_values(f);
    let ghost key = name@;
    let ghost vv = value@;
    match find_name(entries, name.as_str()) {
        Some(i) => {
            proof {
                crate::assoc::lemma_assoc_pos_unique(before, key, i as int);
            }
            entries.set(i, (name, value));
            assert(entries@.map_values(f) =~= before.update(i as int, (key, vv)));
        },
        None => {
            proof {
                crate::assoc::lemma_assoc_pos_none(before, key);
            }
            entries.push((name, value));
            assert(entries@.map_values(f) =~= before.push((key, vv)));
        },
    }
}

/// The position of the first entry named `name`, with what it says of the model.
pub(crate) fn position_of<V: View>(entries: &Vec<(String, V)>, name: &str) -> (r: Option<usize>)
    ensures
        match r {
            Some(i) => i < entries.len() && assoc_get(entries@.map_values(|e: (String, V)| (e.0@, e.1@)), name@)
                == Some(entries@[i as int].1@),
            None => assoc_get(entries@.map_values(|e: (String, V)| (e.0@, e.1@)), name@) is None,
        },
{
    let ghost f = |e: (String, V)| (e.0@, e.1@);
    let r = find_name(entries, name);
    match r {
        Some(i) => {
            proof {
                crate::assoc::lemma_assoc_pos_unique(entries@.map_values(f), name@, i as int);
            }
        },
        None => {
            proof {
                crate::assoc::lemma_assoc_pos_none(entries@.map_values(f), name@);
            }
        },
    }
    r
}

impl SymbolTable {
    /// The value a variable name has: its binding in this table, else in the enclosing ones.
    pub closed spec fn variable_spec(self, name: Seq<char>) -> Option<LValue>
        decreases self,
    {
        match assoc_get(values_view(self.variables@), name) {
            Some(v) => Some(v),
            None => match self.parent {
                Some(p) => (*p).variable_spec(name),
                None => None,
            },
        }
    }

    /// The function a name stands for: its binding in this table, else in the enclosing ones.
    pub closed spec fn function_spec(self, name: Seq<char>) -> Option<LFunction>
        decreases self,
    {
        match assoc_get(functions_view(self.functions@), name) {
            Some(f) => Some(f),
            None => match self.parent {
                Some(p) => (*p).function_spec(name),
                None => None,
            },
        }
    }

    /// The variable this table itself binds to `name`, if any.
    pub closed spec fn own_variable(self, name: Seq<char>) -> Option<LValue> {
        assoc_get(values_view(self.variables@), name)
    }

    /// The function this table itself binds to `name`, if any.
    pub closed spec fn own_function(self, name: Seq<char>) -> Option<LFunction> {
        assoc_get(functions_view(self.functions@), name)
    }

    /// The enclosing table, if any.
    pub closed spec fn enclosing(self) -> Option<SymbolTable> {
        match self.parent {
            Some(p) => Some(*p),
            None => None,
        }
    }

    /// A name is looked up in this table first; only where the table itself does not bind it is
    /// the enclosing table asked, and with no enclosing table the name is unbound. So the
    /// innermost binding wins.
    pub proof fn law_variable_lookup(self, name: Seq<char>)
        ensures
            self.variable_spec(name) == match self.own_variable(name) {
                Some(v) => Some(v),
                None => match self.enclosing() {
                    Some(p) => p.variable_spec(name),
                    None => None,
                },
            },
    {
    }

    /// The same for functions.
    pub proof fn law_function_lookup(self, name: Seq<char>)
        ensures
            self.function_spec(name) == match self.own_function(name) {
                Some(f) => Some(f),
                None => match self.enclosing() {
                    Some(p) => p.function_spec(name),
                    None => None,
                },
            },
    {
    }

    /// A table with nothing in it and nothing around it.
    pub fn new() -> (t: Self)
        ensures
            forall|n: Seq<char>| #[trigger] t.variable_spec(n) is None && t.function_spec(n) is None,
    {
        let t = SymbolTable { variables: Vec::new(), functions: Vec::new(), parent: None };
        assert(values_view(t.variables@) =~= Seq::<(Seq<char>, LValue)>::empty());
        assert(functions_view(t.functions@) =~= Seq::<(Seq<char>, LFunction)>::empty());
        t
    }

    /// An empty table inside `parent`: it sees everything `parent` binds.
    pub fn with_parent(parent: SymbolTable) -> (t: Self)
        ensures
            forall|n: Seq<char>| #[trigger] t.variable_spec(n) == parent.variable_spec(n),
            forall|n: Seq<char>| #[trigger] t.function_spec(n) == parent.function_spec(n),
    {
        let t = SymbolTable { variables: Vec::new(), functions: Vec::new(), parent: Some(Box::new(parent)) };
        assert(values_view(t.variables@) =~= Seq::<(Seq<char>, LValue)>::empty());
        assert(functions_view(t.functions@) =~= Seq::<(Seq<char>, LFunction)>::empty());
        t
    }

    /// Binds a variable in this table.
    pub fn define_variable(&mut self, name: String, value: LLVMValue)
        ensures
            final(self).own_variable(name@) == Some(value@),
            final(self).enclosing() == old(self).enclosing(),
            final(self).variable_spec(name@) == Some(value@),
            forall|n: Seq<char>| n != name@ ==> #[trigger] final(self).variable_spec(n) == old(self).variable_spec(n),
            forall|n: Seq<char>| #[trigger] final(self).function_spec(n) == old(self).function_spec(n),
    {
        let ghost key = name@;
        let ghost vv = value@;
        let ghost before = values_view(self.variables@);
        insert_named(&mut self.variables, name, value);
        assert forall|n: Seq<char>| #[trigger] assoc_get(values_view(self.variables@), n) == (if n == key {
            Some(vv)
        } else {
            assoc_get(before, n)
        }) by {
            crate::assoc::lemma_assoc_insert_get(before, key, vv, n);
        }
    }

    /// Binds a function in this table.
    pub fn define_function(&mut self, name: String, function: LLVMFunction)
        ensures
            final(self).function_spec(name@) == Some(function@),
            forall|n: Seq<char>| n != name@ ==> #[trigger] final(self).function_spec(n) == old(self).function_spec(n),
            forall|n: Seq<char>| #[trigger] final(self).variable_spec(n) == old(self).variable_spec(n),
    {
        let ghost key = name@;
        let ghost fv = function@;
        let ghost before = functions_view(self.functions@);
        insert_named(&mut self.functions, name, function);
        assert forall|n: Seq<char>| #[trigger] assoc_get(functions_view(self.functions@), n) == (if n == key {
            Some(fv)
        } else {
            assoc_get(before, n)
        }) by {
            crate::assoc::lemma_assoc_insert_get(before, key, fv, n);
        }
    }

    /// The value of a variable, looked up from this table outwards.
    pub fn lookup_variable(&self, name: &str) -> (r: Option<&LLVMValue>)
        ensures
            match r {
                Some(v) => self.variable_spec(name@) == Some(v@),
                None => self.variable_spec(name@) is None,
            },
        decreases self,
    {
        match position_of(&self.variables, name) {
            Some(i) => Some(&self.variables[i].1),
            None => match &self.parent {
                Some(p) => p.lookup_variable(name),
                None => None,
            },
        }
    }

    /// A function, looked up from this table outwards.
    pub fn lookup_function(&self, name: &str) -> (r: Option<&LLVMFunction>)
        ensures
            match r {
                Some(f) => self.function_spec(name@) == Some(f@),
                None => self.function_spec(name@) is None,
            },
        decreases self,
    {
        match position_of(&self.functions, name) {
            Some(i) => Some(&self.functions[i].1),
            None => match &self.parent {
                Some(p) => p.lookup_function(name),
                None => None,
            },
        }
    }

    /// A table with the same bindings as this one, and copies of the enclosing tables.
    pub fn copy(&self) -> (t: Self)
        ensures
            forall|n: Seq<char>| #[trigger] t.variable_spec(n) == self.variable_spec(n),
            forall|n: Seq<char>| #[trigger] t.function_spec(n) == self.function_spec(n),
        decreases self,
    {
        let mut variables: Vec<(String, LLVMValue)> = Vec::new();
        let mut i: usize = 0;
        while i < self.variables.len()
            invariant
                i <= self.variables.len(),
                variables@.len() == i,
                forall|k: int| 0 <= k < i ==> #[trigger] variables@[k].0@ == self.variables@[k].0@ && variables@[k].1@
                    == self.variables@[k].1@,
            decreases self.variables.len() - i,
        {
            let e = (self.variables[i].0.clone(), self.variables[i].1.clone());
            variables.push(e);
            i = i + 1;
        }
        assert(values_view(variables@) =~= values_view(self.variables@));
        let mut functions: Vec<(String, LLVMFunction)> = Vec::new();
        let mut j: usize = 0;
        while j < self.functions.len()
            invariant
                j <= self.functions.len(),
                functions@.len() == j,
                forall|k: int| 0 <= k < j ==> #[trigger] functions@[k].0@ == self.functions@[k].0@ && functions@[k].1@
                    == self.functions@[k].1@,
            decreases self.functions.len() - j,
        {
            let e = (self.functions[j].0.clone(), self.functions[j].1.clone());
            functions.push(e);
            j = j + 1;
        }
        assert(functions_view(functions@) =~= functions_view(self.functions@));
        let parent = match &self.parent {
            Some(p) => Some(Box::new(p.copy())),
            None => None,
        };
        let t = SymbolTable { variables, functions, parent };
        assert forall|n: Seq<char>| #[trigger] t.variable_spec(n) == self.variable_spec(n) by {
            if let Some(p) = self.parent {
                assert((*t.parent->0).variable_spec(n) == (*p).variable_spec(n));
            }
        }
        assert forall|n: Seq<char>| #[trigger] t.function_spec(n) == self.function_spec(n) by {
            if let Some(p) = self.parent {
                assert((*t.parent->0).function_spec(n) == (*p).function_spec(n));
            }
        }
        t
    }
}

} // verus!
