use vstd::prelude::*;
use crate::text::{decimal, join, push_decimal, lemma_join_push};

verus! {

/// Source location information.
#[derive(Debug, PartialEq, Eq)]
pub struct SourceSpan {
    pub file: String,
    pub start_line: u32,
    pub start_col: u32,
    pub end_line: u32,
    pub end_col: u32,
}

impl SourceSpan {
    pub fn new(file: String, start_line: u32, start_col: u32, end_line: u32, end_col: u32) -> (s: Self)
        ensures
            s.file@ == file@,
            s.start_line == start_line,
            s.start_col == start_col,
            s.end_line == end_line,
            s.end_col == end_col,
    {
        SourceSpan { file, start_line, start_col, end_line, end_col }
    }

    /// A span that covers the single character at `line`, `col`.
    pub fn single_char(file: String, line: u32, col: u32) -> (s: Self)
        requires
            col < u32::MAX,
        ensures
            s.file@ == file@,
            s.start_line == line,
            s.start_col == col,
            s.end_line == line,
            s.end_col == col + 1,
    {
        Self::new(file, line, col, line, col + 1)
    }

    pub fn copy(&self) -> (s: Self)
        ensures
            s.file@ == self.file@,
            s.start_line == self.start_line,
            s.start_col == self.start_col,
            s.end_line == self.end_line,
            s.end_col == self.end_col,
    {
        SourceSpan {
            file: self.file.clone(),
            start_line: self.start_line,
            start_col: self.start_col,
            end_line: self.end_line,
            end_col: self.end_col,
        }
    }
}

/// The mathematical model of a `SourceSpan`.
pub struct SpanView {
    pub file: Seq<char>,
    pub start_line: u32,
    pub start_col: u32,
    pub end_line: u32,
    pub end_col: u32,
}

impl View for SourceSpan {
    type V = SpanView;

    open spec fn view(&self) -> SpanView {
        SpanView {
            file: self.file@,
            start_line: self.start_line,
            start_col: self.start_col,
            end_line: self.end_line,
            end_col: self.end_col,
        }
    }
}

impl Clone for SourceSpan {
    fn clone(&self) -> (s: Self)
        ensures
            s.file@ == self.file@,
            s.start_line == self.start_line,
            s.start_col == self.start_col,
            s.end_line == self.end_line,
            s.end_col == self.end_col,
    {
        self.copy()
    }
}

impl Default for SourceSpan {
    /// The placeholder span used by tests: file "test", line 1, column 1.
    fn default() -> (s: Self)
        ensures
            s.file@ == "test"@,
            s.start_line == 1,
            s.start_col == 1,
            s.end_line == 1,
            s.end_col == 1,
    {
        SourceSpan::new(String::from_str("test"), 1, 1, 1, 1)
    }
}

/// The source of fresh identifiers: the next one to hand out.
#[derive(Debug)]
pub struct IdCounter {
    pub next: u32,
}

impl IdCounter {
    pub fn new() -> (c: Self)
        ensures
            c.next == 0,
    {
        IdCounter { next: 0 }
    }

    /// Hands out the current value and advances, wrapping at `u32::MAX`.
    pub fn take(&mut self) -> (id: u32)
        ensures
            id == old(self).next,
            final(self).next == (if old(self).next == u32::MAX { 0 } else { (old(self).next + 1) as u32 }),
    {
        let id = self.next;
        self.next = if self.next == u32::MAX { 0 } else { self.next + 1 };
        id
    }
}

/// Unique identifier for each AST node.
#[derive(Debug, Clone, Copy, PartialEq, Eq, Structural, Hash)]
pub struct NodeId(pub u32);

impl NodeId {
    /// A fresh node identifier, taken from `counter`.
    pub fn new(counter: &mut IdCounter) -> (id: Self)
        ensures
            id.0 == old(counter).next,
            final(counter).next == (if old(counter).next == u32::MAX { 0 } else { (old(counter).next + 1) as u32 }),
    {
        NodeId(counter.take())
    }

    pub fn as_u32(&self) -> (n: u32)
        ensures
            n == self.0,
    {
        self.0
    }
}

/// The type system of Coral.
#[derive(Debug, Hash)]
pub enum Type {
    I8,
    I16,
    I32,
    I64,
    F32,
    F64,
    Bool,
    String,
    List(Box<Type>),
    MapOf(Box<Type>, Box<Type>),
    Function { params: Vec<Type>, return_type: Box<Type> },
    Object { name: String, fields: Vec<(String, Type)> },
    Store { name: String, value_type: Box<Type> },
    Actor { name: String, message_types: Vec<Type> },
    TypeVar(u32),
    Result(Box<Type>, Box<Type>),
    Pipe(Box<Type>),
    Unit,
    Unknown,
}

/// The mathematical model of a `Type`: vectors become sequences, strings their characters.
pub enum TypeView {
    I8,
    I16,
    I32,
    I64,
    F32,
    F64,
    Bool,
    String,
    List(Box<TypeView>),
    MapOf(Box<TypeView>, Box<TypeView>),
    Function { params: Seq<TypeView>, return_type: Box<TypeView> },
    Object { name: Seq<char>, fields: Seq<(Seq<char>, TypeView)> },
    Store { name: Seq<char>, value_type: Box<TypeView> },
    Actor { name: Seq<char>, message_types: Seq<TypeView> },
    TypeVar(u32),
    Result(Box<TypeView>, Box<TypeView>),
    Pipe(Box<TypeView>),
    Unit,
    Unknown,
}

pub open spec fn type_view(t: Type) -> TypeView
    decreases t,
{
    match t {
        Type::I8 => TypeView::I8,
        Type::I16 => TypeView::I16,
        Type::I32 => TypeView::I32,
        Type::I64 => TypeView::I64,
        Type::F32 => TypeView::F32,
        Type::F64 => TypeView::F64,
        Type::Bool => TypeView::Bool,
        Type::String => TypeView::String,
        Type::List(inner) => TypeView::List(Box::new(type_view(*inner))),
        Type::MapOf(k, v) => TypeView::MapOf(Box::new(type_view(*k)), Box::new(type_view(*v))),
        Type::Function { params, return_type } => TypeView::Function {
            params: types_view(params@),
            return_type: Box::new(type_view(*return_type)),
        },
        Type::Object { name, fields } => TypeView::Object { name: name@, fields: fields_view(fields@) },
        Type::Store { name, value_type } => TypeView::Store {
            name: name@,
            value_type: Box::new(type_view(*value_type)),
        },
        Type::Actor { name, message_types } => TypeView::Actor {
            name: name@,
            message_types: types_view(message_types@),
        },
        Type::TypeVar(id) => TypeView::TypeVar(id),
        Type::Result(o, e) => TypeView::Result(Box::new(type_view(*o)), Box::new(type_view(*e))),
        Type::Pipe(inner) => TypeView::Pipe(Box::new(type_view(*inner))),
        Type::Unit => TypeView::Unit,
        Type::Unknown => TypeView::Unknown,
    }
}

pub open spec fn types_view(ts: Seq<Type>) -> Seq<TypeView>
    decreases ts,
{
    if ts.len() == 0 {
        Seq::empty()
    } else {
        types_view(ts.drop_last()).push(type_view(ts.last()))
    }
}

pub open spec fn fields_view(fs: Seq<(String, Type)>) -> Seq<(Seq<char>, TypeView)>
    decreases fs,
{
    if fs.len() == 0 {
        Seq::empty()
    } else {
        fields_view(fs.drop_last()).push((fs.last().0@, type_view(fs.last().1)))
    }
}

impl View for Type {
    type V = TypeView;

    open spec fn view(&self) -> TypeView {
        type_view(*self)
    }
}


/// The view of a sequence of types has the same length, and each element is the view of
/// the corresponding type.
pub proof fn lemma_types_view(ts: Seq<Type>)
    ensures
        types_view(ts).len() == ts.len(),
        forall|i: int| 0 <= i < ts.len() ==> #[trigger] types_view(ts)[i] == type_view(ts[i]),
    decreases ts.len(),
{
    if ts.len() > 0 {
        lemma_types_view(ts.drop_last());
        assert forall|i: int| 0 <= i < ts.len() implies #[trigger] types_view(ts)[i] == type_view(ts[i]) by {
            if i < ts.len() - 1 {
                assert(ts.drop_last()[i] == ts[i]);
            }
        }
    }
}

pub proof fn lemma_types_view_push(ts: Seq<Type>, t: Type)
    ensures
        types_view(ts.push(t)) == types_view(ts).push(type_view(t)),
{
    assert(ts.push(t).drop_last() =~= ts);
}

pub proof fn lemma_fields_view(fs: Seq<(String, Type)>)
    ensures
        fields_view(fs).len() == fs.len(),
        forall|i: int|
            0 <= i < fs.len() ==> #[trigger] fields_view(fs)[i] == (fs[i].0@, type_view(fs[i].1)),
    decreases fs.len(),
{
    if fs.len() > 0 {
        lemma_fields_view(fs.drop_last());
        assert forall|i: int| 0 <= i < fs.len() implies #[trigger] fields_view(fs)[i] == (
            fs[i].0@,
            type_view(fs[i].1),
        ) by {
            if i < fs.len() - 1 {
                assert(fs.drop_last()[i] == fs[i]);
            }
        }
    }
}

pub proof fn lemma_fields_view_push(fs: Seq<(String, Type)>, f: (String, Type))
    ensures
        fields_view(fs.push(f)) == fields_view(fs).push((f.0@, type_view(f.1))),
{
    assert(fs.push(f).drop_last() =~= fs);
}

/// A copy of a type, equal to it in every respect.
pub fn copy_type(t: &Type) -> (r: Type)
    ensures
        r@ == t@,
    decreases t,
{
    match t {
        Type::I8 => Type::I8,
        Type::I16 => Type::I16,
        Type::I32 => Type::I32,
        Type::I64 => Type::I64,
        Type::F32 => Type::F32,
        Type::F64 => Type::F64,
        Type::Bool => Type::Bool,
        Type::String => Type::String,
        Type::List(inner) => Type::List(Box::new(copy_type(inner))),
        Type::MapOf(k, v) => Type::MapOf(Box::new(copy_type(k)), Box::new(copy_type(v))),
        Type::Function { params, return_type } => Type::Function {
            params: copy_types(params),
            return_type: Box::new(copy_type(return_type)),
        },
        Type::Object { name, fields } => Type::Object { name: name.clone(), fields: copy_fields(fields) },
        Type::Store { name, value_type } => Type::Store {
            name: name.clone(),
            value_type: Box::new(copy_type(value_type)),
        },
        Type::Actor { name, message_types } => Type::Actor {
            name: name.clone(),
            message_types: copy_types(message_types),
        },
        Type::TypeVar(id) => Type::TypeVar(*id),
        Type::Result(o, e) => Type::Result(Box::new(copy_type(o)), Box::new(copy_type(e))),
        Type::Pipe(inner) => Type::Pipe(Box::new(copy_type(inner))),
        Type::Unit => Type::Unit,
        Type::Unknown => Type::Unknown,
    }
}

pub fn copy_types(ts: &Vec<Type>) -> (r: Vec<Type>)
    ensures
        types_view(r@) == types_view(ts@),
    decreases ts,
{
    let mut r: Vec<Type> = Vec::new();
    let mut i: usize = 0;
    while i < ts.len()
        invariant
            i <= ts.len(),
            types_view(r@) == types_view(ts@.take(i as int)),
        decreases ts.len() - i,
    {
        let c = copy_type(&ts[i]);
        proof {
            lemma_types_view_push(r@, c);
            lemma_types_view_push(ts@.take(i as int), ts@[i as int]);
            assert(ts@.take(i as int).push(ts@[i as int]) =~= ts@.take(i + 1));
        }
        r.push(c);
        i = i + 1;
    }
    assert(ts@.take(ts.len() as int) =~= ts@);
    r
}

pub fn copy_fields(fs: &Vec<(String, Type)>) -> (r: Vec<(String, Type)>)
    ensures
        fields_view(r@) == fields_view(fs@),
    decreases fs,
{
    let mut r: Vec<(String, Type)> = Vec::new();
    let mut i: usize = 0;
    while i < fs.len()
        invariant
            i <= fs.len(),
            fields_view(r@) == fields_view(fs@.take(i as int)),
        decreases fs.len() - i,
    {
        let f = (fs[i].0.clone(), copy_type(&fs[i].1));
        proof {
            lemma_fields_view_push(r@, f);
            lemma_fields_view_push(fs@.take(i as int), fs@[i as int]);
            assert(fs@.take(i as int).push(fs@[i as int]) =~= fs@.take(i + 1));
        }
        r.push(f);
        i = i + 1;
    }
    assert(fs@.take(fs.len() as int) =~= fs@);
    r
}

impl Clone for Type {
    fn clone(&self) -> (r: Self)
        ensures
            r@ == self@,
    {
        copy_type(self)
    }
}


pub open spec fn is_integer_view(t: TypeView) -> bool {
    t is I8 || t is I16 || t is I32 || t is I64
}

pub open spec fn is_float_view(t: TypeView) -> bool {
    t is F32 || t is F64
}

pub open spec fn is_numeric_view(t: TypeView) -> bool {
    is_integer_view(t) || is_float_view(t)
}

/// The size in bytes of a primitive type; `None` for the others.
pub open spec fn size_bytes_view(t: TypeView) -> Option<usize> {
    match t {
        TypeView::I8 => Some(1),
        TypeView::I16 => Some(2),
        TypeView::I32 => Some(4),
        TypeView::I64 => Some(8),
        TypeView::F32 => Some(4),
        TypeView::F64 => Some(8),
        TypeView::Bool => Some(1),
        TypeView::Unit => Some(0),
        _ => None,
    }
}

/// Type equality: structural, except that objects, stores and actors are equal
/// exactly when their names are.
pub open spec fn type_eq(a: TypeView, b: TypeView) -> bool
    decreases a,
{
    match (a, b) {
        (TypeView::I8, TypeView::I8) => true,
        (TypeView::I16, TypeView::I16) => true,
        (TypeView::I32, TypeView::I32) => true,
        (TypeView::I64, TypeView::I64) => true,
        (TypeView::F32, TypeView::F32) => true,
        (TypeView::F64, TypeView::F64) => true,
        (TypeView::Bool, TypeView::Bool) => true,
        (TypeView::String, TypeView::String) => true,
        (TypeView::Unit, TypeView::Unit) => true,
        (TypeView::List(x), TypeView::List(y)) => type_eq(*x, *y),
        (TypeView::MapOf(k1, v1), TypeView::MapOf(k2, v2)) => type_eq(*k1, *k2) && type_eq(*v1, *v2),
        (
            TypeView::Function { params: p1, return_type: r1 },
            TypeView::Function { params: p2, return_type: r2 },
        ) => types_eq(p1, p2) && type_eq(*r1, *r2),
        (TypeView::Object { name: n1, .. }, TypeView::Object { name: n2, .. }) => n1 == n2,
        (TypeView::Store { name: n1, .. }, TypeView::Store { name: n2, .. }) => n1 == n2,
        (TypeView::Actor { name: n1, .. }, TypeView::Actor { name: n2, .. }) => n1 == n2,
        (TypeView::TypeVar(i1), TypeView::TypeVar(i2)) => i1 == i2,
        (TypeView::Result(o1, e1), TypeView::Result(o2, e2)) => type_eq(*o1, *o2) && type_eq(*e1, *e2),
        (TypeView::Pipe(x), TypeView::Pipe(y)) => type_eq(*x, *y),
        (TypeView::Unknown, TypeView::Unknown) => true,
        _ => false,
    }
}

/// Two sequences of types are equal when they have the same length and are equal
/// element by element.
pub open spec fn types_eq(a: Seq<TypeView>, b: Seq<TypeView>) -> bool
    decreases a,
{
    if a.len() != b.len() {
        false
    } else if a.len() == 0 {
        true
    } else {
        types_eq(a.drop_last(), b.drop_last()) && type_eq(a.last(), b.last())
    }
}

/// The LLVM type string of a type.
pub open spec fn llvm_text(t: TypeView) -> Seq<char>
    decreases t,
{
    match t {
        TypeView::I8 => "i8"@,
        TypeView::I16 => "i16"@,
        TypeView::I32 => "i32"@,
        TypeView::I64 => "i64"@,
        TypeView::F32 => "float"@,
        TypeView::F64 => "double"@,
        TypeView::Bool => "i1"@,
        TypeView::String => "i8*"@,
        TypeView::Unit => "void"@,
        TypeView::List(elem) => llvm_text(*elem) + "*"@,
        TypeView::Function { params, return_type } => llvm_text(*return_type) + "("@ + join(
            llvm_texts(params),
            ", "@,
        ) + ")*"@,
        _ => "i8*"@,
    }
}

pub open spec fn llvm_texts(ts: Seq<TypeView>) -> Seq<Seq<char>>
    decreases ts,
{
    if ts.len() == 0 {
        Seq::empty()
    } else {
        llvm_texts(ts.drop_last()).push(llvm_text(ts.last()))
    }
}

/// The readable rendering of a type.
pub open spec fn type_text(t: TypeView) -> Seq<char>
    decreases t,
{
    match t {
        TypeView::I8 => "i8"@,
        TypeView::I16 => "i16"@,
        TypeView::I32 => "i32"@,
        TypeView::I64 => "i64"@,
        TypeView::F32 => "f32"@,
        TypeView::F64 => "f64"@,
        TypeView::Bool => "bool"@,
        TypeView::String => "string"@,
        TypeView::List(inner) => "list<"@ + type_text(*inner) + ">"@,
        TypeView::MapOf(k, v) => "map<"@ + type_text(*k) + ", "@ + type_text(*v) + ">"@,
        TypeView::Function { params, return_type } => "("@ + join(type_texts(params), ", "@) + ") -> "@
            + type_text(*return_type),
        TypeView::Object { name, .. } => "object "@ + name,
        TypeView::Store { name, value_type } => "store "@ + name + " of "@ + type_text(*value_type),
        TypeView::Actor { name, .. } => "actor "@ + name,
        TypeView::TypeVar(id) => "T"@ + decimal(id as nat),
        TypeView::Result(ok, err) => "Result<"@ + type_text(*ok) + ", "@ + type_text(*err) + ">"@,
        TypeView::Pipe(inner) => "pipe<"@ + type_text(*inner) + ">"@,
        TypeView::Unit => "unit"@,
        TypeView::Unknown => "unknown"@,
    }
}

pub open spec fn type_texts(ts: Seq<TypeView>) -> Seq<Seq<char>>
    decreases ts,
{
    if ts.len() == 0 {
        Seq::empty()
    } else {
        type_texts(ts.drop_last()).push(type_text(ts.last()))
    }
}

pub proof fn lemma_llvm_texts_push(ts: Seq<TypeView>, t: TypeView)
    ensures
        llvm_texts(ts.push(t)) == llvm_texts(ts).push(llvm_text(t)),
{
    assert(ts.push(t).drop_last() =~= ts);
}

pub proof fn lemma_type_texts_push(ts: Seq<TypeView>, t: TypeView)
    ensures
        type_texts(ts.push(t)) == type_texts(ts).push(type_text(t)),
{
    assert(ts.push(t).drop_last() =~= ts);
}

pub proof fn lemma_types_eq_push(a: Seq<TypeView>, b: Seq<TypeView>, x: TypeView, y: TypeView)
    requires
        a.len() == b.len(),
    ensures
        types_eq(a.push(x), b.push(y)) == (types_eq(a, b) && type_eq(x, y)),
{
    assert(a.push(x).drop_last() =~= a);
    assert(b.push(y).drop_last() =~= b);
}

impl Type {
    /// A fresh type variable, numbered from `counter`.
    pub fn new_type_var(counter: &mut IdCounter) -> (t: Self)
        ensures
            t@ == TypeView::TypeVar(old(counter).next),
            final(counter).next == (if old(counter).next == u32::MAX { 0 } else { (old(counter).next + 1) as u32 }),
    {
        Type::TypeVar(counter.take())
    }

    pub fn is_numeric(&self) -> (r: bool)
        ensures
            r == is_numeric_view(self@),
    {
        match self {
            Type::I8 | Type::I16 | Type::I32 | Type::I64 | Type::F32 | Type::F64 => true,
            _ => false,
        }
    }

    pub fn is_integer(&self) -> (r: bool)
        ensures
            r == is_integer_view(self@),
    {
        match self {
            Type::I8 | Type::I16 | Type::I32 | Type::I64 => true,
            _ => false,
        }
    }

    pub fn is_float(&self) -> (r: bool)
        ensures
            r == is_float_view(self@),
    {
        match self {
            Type::F32 | Type::F64 => true,
            _ => false,
        }
    }

    /// The size in bytes for primitive types.
    pub fn size_bytes(&self) -> (r: Option<usize>)
        ensures
            r == size_bytes_view(self@),
    {
        match self {
            Type::I8 => Some(1),
            Type::I16 => Some(2),
            Type::I32 => Some(4),
            Type::I64 => Some(8),
            Type::F32 => Some(4),
            Type::F64 => Some(8),
            Type::Bool => Some(1),
            Type::Unit => Some(0),
            _ => None,
        }
    }

    /// Equality of types as `type_eq` defines it.
    pub fn equals(&self, other: &Type) -> (r: bool)
        ensures
            r == type_eq(self@, other@),
        decreases self,
    {
        match (self, other) {
            (Type::I8, Type::I8) => true,
            (Type::I16, Type::I16) => true,
            (Type::I32, Type::I32) => true,
            (Type::I64, Type::I64) => true,
            (Type::F32, Type::F32) => true,
            (Type::F64, Type::F64) => true,
            (Type::Bool, Type::Bool) => true,
            (Type::String, Type::String) => true,
            (Type::Unit, Type::Unit) => true,
            (Type::List(x), Type::List(y)) => x.equals(y),
            (Type::MapOf(k1, v1), Type::MapOf(k2, v2)) => k1.equals(k2) && v1.equals(v2),
            (
                Type::Function { params: p1, return_type: r1 },
                Type::Function { params: p2, return_type: r2 },
            ) => Self::all_equal(p1, p2) && r1.equals(r2),
            (Type::Object { name: n1, .. }, Type::Object { name: n2, .. }) => *n1 == *n2,
            (Type::Store { name: n1, .. }, Type::Store { name: n2, .. }) => *n1 == *n2,
            (Type::Actor { name: n1, .. }, Type::Actor { name: n2, .. }) => *n1 == *n2,
            (Type::TypeVar(i1), Type::TypeVar(i2)) => *i1 == *i2,
            (Type::Result(o1, e1), Type::Result(o2, e2)) => o1.equals(o2) && e1.equals(e2),
            (Type::Pipe(x), Type::Pipe(y)) => x.equals(y),
            (Type::Unknown, Type::Unknown) => true,
            _ => false,
        }
    }

    /// Element-wise equality of two vectors of types.
    pub fn all_equal(a: &Vec<Type>, b: &Vec<Type>) -> (r: bool)
        ensures
            r == types_eq(types_view(a@), types_view(b@)),
        decreases a,
    {
        proof {
            lemma_types_view(a@);
            lemma_types_view(b@);
        }
        if a.len() != b.len() {
            return false;
        }
        let mut i: usize = 0;
        while i < a.len()
            invariant
                i <= a.len(),
                a.len() == b.len(),
                types_eq(types_view(a@.take(i as int)), types_view(b@.take(i as int))),
            decreases a.len() - i,
        {
            let e = a[i].equals(&b[i]);
            proof {
                lemma_types_view_push(a@.take(i as int), a@[i as int]);
                lemma_types_view_push(b@.take(i as int), b@[i as int]);
                assert(a@.take(i as int).push(a@[i as int]) =~= a@.take(i + 1));
                assert(b@.take(i as int).push(b@[i as int]) =~= b@.take(i + 1));
                lemma_types_view(a@.take(i as int));
                lemma_types_view(b@.take(i as int));
                lemma_types_eq_push(
                    types_view(a@.take(i as int)),
                    types_view(b@.take(i as int)),
                    type_view(a@[i as int]),
                    type_view(b@[i as int]),
                );
            }
            if !e {
                proof {
                    lemma_types_view(a@);
                    lemma_types_view(b@);
                    lemma_types_view_take(a@, i + 1);
                    lemma_types_view_take(b@, i + 1);
                    lemma_types_eq_prefix(types_view(a@), types_view(b@), i + 1);
                    lemma_types_view_take(a@, i + 1);
                    lemma_types_view_take(b@, i + 1);
                }
                return false;
            }
            i = i + 1;
        }
        assert(a@.take(a.len() as int) =~= a@);
        assert(b@.take(b.len() as int) =~= b@);
        true
    }
}

/// The view of a prefix is the prefix of the view.
pub proof fn lemma_types_view_take(ts: Seq<Type>, n: int)
    requires
        0 <= n <= ts.len(),
    ensures
        types_view(ts.take(n)) == types_view(ts).take(n),
{
    lemma_types_view(ts);
    lemma_types_view(ts.take(n));
    assert(types_view(ts.take(n)) =~= types_view(ts).take(n));
}

/// Equal sequences have equal prefixes.
pub proof fn lemma_types_eq_prefix(a: Seq<TypeView>, b: Seq<TypeView>, n: int)
    requires
        0 <= n <= a.len(),
        a.len() == b.len(),
        !types_eq(a.take(n), b.take(n)),
    ensures
        !types_eq(a, b),
    decreases a.len(),
{
    if n < a.len() {
        assert(a.drop_last().take(n) =~= a.take(n));
        assert(b.drop_last().take(n) =~= b.take(n));
        lemma_types_eq_prefix(a.drop_last(), b.drop_last(), n);
    } else {
        assert(a.take(n) =~= a);
        assert(b.take(n) =~= b);
    }
}


impl PartialEq for Type {
    fn eq(&self, other: &Self) -> (r: bool) {
        self.equals(other)
    }
}

impl vstd::std_specs::cmp::PartialEqSpecImpl for Type {
    open spec fn obeys_eq_spec() -> bool {
        true
    }

    open spec fn eq_spec(&self, other: &Self) -> bool {
        type_eq(self@, other@)
    }
}

impl Type {
    /// The LLVM type string: pointers for lists and functions, `i8*` for complex types.
    #[verifier::loop_isolation(false)]
    pub fn to_llvm_type(&self) -> (s: String)
        ensures
            s@ == llvm_text(self@),
        decreases self,
    {
        match self {
            Type::I8 => String::from_str("i8"),
            Type::I16 => String::from_str("i16"),
            Type::I32 => String::from_str("i32"),
            Type::I64 => String::from_str("i64"),
            Type::F32 => String::from_str("float"),
            Type::F64 => String::from_str("double"),
            Type::Bool => String::from_str("i1"),
            Type::String => String::from_str("i8*"),
            Type::Unit => String::from_str("void"),
            Type::List(elem) => {
                let mut s = elem.to_llvm_type();
                s.append("*");
                s
            },
            Type::Function { params, return_type } => {
                let mut s = return_type.to_llvm_type();
                s.append("(");
                let ghost head = s@;
                let ghost pv = types_view(params@);
                proof {
                    lemma_types_view(params@);
                }
                let mut i: usize = 0;
                while i < params.len()
                    invariant
                        i <= params.len(),
                        pv == types_view(params@),
                        pv.len() == params.len(),
                        forall|j: int| 0 <= j < params.len() ==> #[trigger] pv[j] == type_view(params@[j]),
                        s@ == head + join(llvm_texts(pv.take(i as int)), ", "@),
                    decreases params.len() - i,
                {
                    let p = params[i].to_llvm_type();
                    proof {
                        lemma_llvm_texts_push(pv.take(i as int), pv[i as int]);
                        assert(pv.take(i as int).push(pv[i as int]) =~= pv.take(i + 1));
                        lemma_join_push(llvm_texts(pv.take(i as int)), ", "@, p@);
                    }
                    if i > 0 {
                        s.append(", ");
                    }
                    s.append(p.as_str());
                    i = i + 1;
                    assert(s@ =~= head + join(llvm_texts(pv.take(i as int)), ", "@));
                }
                s.append(")*");
                assert(pv.take(params.len() as int) =~= pv);
                s
            },
            _ => String::from_str("i8*"),
        }
    }

    /// The readable rendering of the type.
    #[verifier::loop_isolation(false)]
    pub fn to_string(&self) -> (s: String)
        ensures
            s@ == type_text(self@),
        decreases self,
    {
        match self {
            Type::I8 => String::from_str("i8"),
            Type::I16 => String::from_str("i16"),
            Type::I32 => String::from_str("i32"),
            Type::I64 => String::from_str("i64"),
            Type::F32 => String::from_str("f32"),
            Type::F64 => String::from_str("f64"),
            Type::Bool => String::from_str("bool"),
            Type::String => String::from_str("string"),
            Type::List(inner) => {
                let mut s = String::from_str("list<");
                let t = inner.to_string();
                s.append(t.as_str());
                s.append(">");
                s
            },
            Type::MapOf(k, v) => {
                let mut s = String::from_str("map<");
                let kt = k.to_string();
                s.append(kt.as_str());
                s.append(", ");
                let vt = v.to_string();
                s.append(vt.as_str());
                s.append(">");
                s
            },
            Type::Function { params, return_type } => {
                let mut s = String::from_str("(");
                let ghost head = s@;
                let ghost pv = types_view(params@);
                proof {
                    lemma_types_view(params@);
                }
                let mut i: usize = 0;
                while i < params.len()
                    invariant
                        i <= params.len(),
                        pv == types_view(params@),
                        pv.len() == params.len(),
                        forall|j: int| 0 <= j < params.len() ==> #[trigger] pv[j] == type_view(params@[j]),
                        s@ == head + join(type_texts(pv.take(i as int)), ", "@),
                    decreases params.len() - i,
                {
                    let p = params[i].to_string();
                    proof {
                        lemma_type_texts_push(pv.take(i as int), pv[i as int]);
                        assert(pv.take(i as int).push(pv[i as int]) =~= pv.take(i + 1));
                        lemma_join_push(type_texts(pv.take(i as int)), ", "@, p@);
                    }
                    if i > 0 {
                        s.append(", ");
                    }
                    s.append(p.as_str());
                    i = i + 1;
                    assert(s@ =~= head + join(type_texts(pv.take(i as int)), ", "@));
                }
                s.append(") -> ");
                let r = return_type.to_string();
                s.append(r.as_str());
                assert(pv.take(params.len() as int) =~= pv);
                s
            },
            Type::Object { name, .. } => {
                let mut s = String::from_str("object ");
                s.append(name.as_str());
                s
            },
            Type::Store { name, value_type } => {
                let mut s = String::from_str("store ");
                s.append(name.as_str());
                s.append(" of ");
                let v = value_type.to_string();
                s.append(v.as_str());
                s
            },
            Type::Actor { name, .. } => {
                let mut s = String::from_str("actor ");
                s.append(name.as_str());
                s
            },
            Type::TypeVar(id) => {
                let mut s = String::from_str("T");
                push_decimal(&mut s, *id as u64);
                s
            },
            Type::Result(ok, err) => {
                let mut s = String::from_str("Result<");
                let o = ok.to_string();
                s.append(o.as_str());
                s.append(", ");
                let e = err.to_string();
                s.append(e.as_str());
                s.append(">");
                s
            },
            Type::Pipe(inner) => {
                let mut s = String::from_str("pipe<");
                let t = inner.to_string();
                s.append(t.as_str());
                s.append(">");
                s
            },
            Type::Unit => String::from_str("unit"),
            Type::Unknown => String::from_str("unknown"),
        }
    }
}


/// Binary operators.
#[derive(Debug, Clone, Copy, PartialEq, Eq, Structural)]
pub enum BinaryOp {
    Add,
    Sub,
    Mul,
    Div,
    Mod,
    Eq,
    Ne,
    Lt,
    Le,
    Gt,
    Ge,
    Is,
    And,
    Or,
    Xor,
    BitAnd,
    BitOr,
    BitXor,
    Shl,
    Shr,
}

/// The comparators that can serve as truth-value queries.
pub open spec fn is_query_op(op: BinaryOp) -> bool {
    op is Eq || op is Ne || op is Lt || op is Le || op is Gt || op is Ge || op is Is || op is Xor
}

/// Binary comparators that can be used as truth-value queries.
pub trait QueryComparator {
    /// Whether this operator is a query comparator (eq, ne, lt, le, gt, ge, is, xor).
    fn is_query(&self) -> bool;
}

impl QueryComparator for BinaryOp {
    fn is_query(&self) -> (r: bool)
        ensures
            r == is_query_op(*self),
    {
        match self {
            BinaryOp::Eq | BinaryOp::Ne | BinaryOp::Lt | BinaryOp::Le | BinaryOp::Gt | BinaryOp::Ge
            | BinaryOp::Is | BinaryOp::Xor => true,
            _ => false,
        }
    }
}

/// Unary operators.
#[derive(Debug, Clone, Copy, PartialEq, Eq, Structural)]
pub enum UnaryOp {
    Not,
    Neg,
    BitNot,
}

/// Literal values, including Coral's own; a float literal is held by its IEEE-754 bit pattern.
#[derive(Debug, PartialEq)]
pub enum Literal {
    Integer(i64),
    Float(u64),
    String(String),
    Bool(bool),
    Unit,
    No,
    Yes,
    Empty,
    Null,
    Now,
    Error,
}

/// Truth-value inference for any expression or value.
pub trait Truthy {
    /// Whether the value counts as true in Coral.
    fn is_truthy(&self) -> bool;
}

/// A literal is false exactly when it is `false` or an error.
pub open spec fn literal_truthy(lit: Literal) -> bool {
    !(lit == Literal::Bool(false) || lit is Error)
}

impl Truthy for Literal {
    fn is_truthy(&self) -> (r: bool)
        ensures
            r == literal_truthy(*self),
    {
        match self {
            Literal::Bool(false) => false,
            Literal::Error => false,
            _ => true,
        }
    }
}

/// A name as it is shown in quotes: a quote or backslash gets a backslash before it, and a
/// newline, carriage return or tab is shown as its escape.
pub open spec fn quoted(name: Seq<char>) -> Seq<char> {
    "\""@ + escaped(name) + "\""@
}

pub open spec fn escaped(s: Seq<char>) -> Seq<char>
    decreases s.len(),
{
    if s.len() == 0 {
        Seq::empty()
    } else {
        escaped(s.drop_last()) + escape_char(s.last())
    }
}

pub open spec fn escape_char(c: char) -> Seq<char> {
    if c == '"' {
        seq!['\\', '"']
    } else if c == '\\' {
        seq!['\\', '\\']
    } else if c == '\n' {
        seq!['\\', 'n']
    } else if c == '\r' {
        seq!['\\', 'r']
    } else if c == '\t' {
        seq!['\\', 't']
    } else {
        seq![c]
    }
}

/// The detailed rendering of a type that diagnostics show.
pub open spec fn debug_text(t: TypeView) -> Seq<char>
    decreases t,
{
    match t {
        TypeView::I8 => "I8"@,
        TypeView::I16 => "I16"@,
        TypeView::I32 => "I32"@,
        TypeView::I64 => "I64"@,
        TypeView::F32 => "F32"@,
        TypeView::F64 => "F64"@,
        TypeView::Bool => "Bool"@,
        TypeView::String => "String"@,
        TypeView::List(inner) => "List("@ + debug_text(*inner) + ")"@,
        TypeView::MapOf(k, v) => "Map("@ + debug_text(*k) + ", "@ + debug_text(*v) + ")"@,
        TypeView::Function { params, return_type } => "Function { params: ["@ + join(debug_texts(params), ", "@)
            + "], return_type: "@ + debug_text(*return_type) + " }"@,
        TypeView::Object { name, fields } => "Object { name: "@ + quoted(name) + ", fields: {"@ + join(
            debug_field_texts(fields),
            ", "@,
        ) + "} }"@,
        TypeView::Store { name, value_type } => "Store { name: "@ + quoted(name) + ", value_type: "@ + debug_text(
            *value_type,
        ) + " }"@,
        TypeView::Actor { name, message_types } => "Actor { name: "@ + quoted(name) + ", message_types: ["@ + join(
            debug_texts(message_types),
            ", "@,
        ) + "] }"@,
        TypeView::TypeVar(id) => "TypeVar("@ + decimal(id as nat) + ")"@,
        TypeView::Result(o, e) => "Result("@ + debug_text(*o) + ", "@ + debug_text(*e) + ")"@,
        TypeView::Pipe(inner) => "Pipe("@ + debug_text(*inner) + ")"@,
        TypeView::Unit => "Unit"@,
        TypeView::Unknown => "Unknown"@,
    }
}

pub open spec fn debug_texts(ts: Seq<TypeView>) -> Seq<Seq<char>>
    decreases ts,
{
    if ts.len() == 0 {
        Seq::empty()
    } else {
        debug_texts(ts.drop_last()).push(debug_text(ts.last()))
    }
}

pub open spec fn debug_field_texts(fs: Seq<(Seq<char>, TypeView)>) -> Seq<Seq<char>>
    decreases fs,
{
    if fs.len() == 0 {
        Seq::empty()
    } else {
        debug_field_texts(fs.drop_last()).push(quoted(fs.last().0) + ": "@ + debug_text(fs.last().1))
    }
}

/// Appends `name` in quotes, escaped.
pub fn push_quoted(s: &mut String, name: &String)
    ensures
        final(s)@ == old(s)@ + quoted(name@),
{
    let ghost start = s@;
    let chars = crate::lexer::collect_chars(name.as_str());
    s.append("\"");
    let mut i: usize = 0;
    while i < chars.len()
        invariant
            i <= chars.len(),
            chars@ == name@,
            s@ == start + "\""@ + escaped(name@.take(i as int)),
        decreases chars.len() - i,
    {
        let c = chars[i];
        if c == '"' {
            s.append("\\\"");
        } else if c == '\\' {
            s.append("\\\\");
        } else if c == '\n' {
            s.append("\\n");
        } else if c == '\r' {
            s.append("\\r");
        } else if c == '\t' {
            s.append("\\t");
        } else {
            crate::text::push_char(s, c);
        }
        proof {
            reveal_strlit("\\\"");
            reveal_strlit("\\\\");
            reveal_strlit("\\n");
            reveal_strlit("\\r");
            reveal_strlit("\\t");
            assert(name@.take(i + 1).drop_last() =~= name@.take(i as int));
            assert(name@.take(i + 1).last() == c);
        }
        i = i + 1;
        assert(s@ =~= start + "\""@ + escaped(name@.take(i as int)));
    }
    assert(name@.take(chars.len() as int) =~= name@);
    s.append("\"");
}

impl Type {
    /// The detailed rendering of the type that diagnostics show.
    #[verifier::loop_isolation(false)]
    pub fn debug_string(&self) -> (s: String)
        ensures
            s@ == debug_text(self@),
        decreases self,
    {
        match self {
            Type::I8 => String::from_str("I8"),
            Type::I16 => String::from_str("I16"),
            Type::I32 => String::from_str("I32"),
            Type::I64 => String::from_str("I64"),
            Type::F32 => String::from_str("F32"),
            Type::F64 => String::from_str("F64"),
            Type::Bool => String::from_str("Bool"),
            Type::String => String::from_str("String"),
            Type::List(inner) => {
                let mut s = String::from_str("List(");
                let t = inner.debug_string();
                s.append(t.as_str());
                s.append(")");
                s
            },
            Type::MapOf(k, v) => {
                let mut s = String::from_str("Map(");
                let kt = k.debug_string();
                s.append(kt.as_str());
                s.append(", ");
                let vt = v.debug_string();
                s.append(vt.as_str());
                s.append(")");
                s
            },
            Type::Function { params, return_type } => {
                let mut s = String::from_str("Function { params: [");
                push_debug_list(&mut s, params);
                s.append("], return_type: ");
                let r = return_type.debug_string();
                s.append(r.as_str());
                s.append(" }");
                s
            },
            Type::Object { name, fields } => {
                let mut s = String::from_str("Object { name: ");
                push_quoted(&mut s, name);
                s.append(", fields: {");
                let ghost head = s@;
                let ghost fv = fields_view(fields@);
                proof {
                    lemma_fields_view(fields@);
                }
                let mut i: usize = 0;
                while i < fields.len()
                    invariant
                        i <= fields.len(),
                        fv == fields_view(fields@),
                        fv.len() == fields.len(),
                        forall|j: int| 0 <= j < fields.len() ==> #[trigger] fv[j] == (fields@[j].0@, type_view(fields@[j].1)),
                        s@ == head + join(debug_field_texts(fv.take(i as int)), ", "@),
                    decreases fields.len() - i,
                {
                    let mut p = String::new();
                    push_quoted(&mut p, &fields[i].0);
                    p.append(": ");
                    let t = fields[i].1.debug_string();
                    p.append(t.as_str());
                    proof {
                        assert(fv.take(i + 1).drop_last() =~= fv.take(i as int));
                        assert(fv.take(i + 1).last() == fv[i as int]);
                        lemma_join_push(debug_field_texts(fv.take(i as int)), ", "@, p@);
                    }
                    if i > 0 {
                        s.append(", ");
                    }
                    s.append(p.as_str());
                    i = i + 1;
                    assert(s@ =~= head + join(debug_field_texts(fv.take(i as int)), ", "@));
                }
                assert(fv.take(fields.len() as int) =~= fv);
                s.append("} }");
                s
            },
            Type::Store { name, value_type } => {
                let mut s = String::from_str("Store { name: ");
                push_quoted(&mut s, name);
                s.append(", value_type: ");
                let v = value_type.debug_string();
                s.append(v.as_str());
                s.append(" }");
                s
            },
            Type::Actor { name, message_types } => {
                let mut s = String::from_str("Actor { name: ");
                push_quoted(&mut s, name);
                s.append(", message_types: [");
                push_debug_list(&mut s, message_types);
                s.append("] }");
                s
            },
            Type::TypeVar(id) => {
                let mut s = String::from_str("TypeVar(");
                push_decimal(&mut s, *id as u64);
                s.append(")");
                s
            },
            Type::Result(o, e) => {
                let mut s = String::from_str("Result(");
                let ot = o.debug_string();
                s.append(ot.as_str());
                s.append(", ");
                let et = e.debug_string();
                s.append(et.as_str());
                s.append(")");
                s
            },
            Type::Pipe(inner) => {
                let mut s = String::from_str("Pipe(");
                let t = inner.debug_string();
                s.append(t.as_str());
                s.append(")");
                s
            },
            Type::Unit => String::from_str("Unit"),
            Type::Unknown => String::from_str("Unknown"),
        }
    }
}

/// Appends the detailed renderings of `ts`, separated by commas.
#[verifier::loop_isolation(false)]
fn push_debug_list(s: &mut String, ts: &Vec<Type>)
    ensures
        final(s)@ == old(s)@ + join(debug_texts(types_view(ts@)), ", "@),
    decreases ts,
{
    let ghost head = s@;
    let ghost tv = types_view(ts@);
    proof {
        lemma_types_view(ts@);
    }
    let mut i: usize = 0;
    while i < ts.len()
        invariant
            i <= ts.len(),
            tv == types_view(ts@),
            tv.len() == ts.len(),
            forall|j: int| 0 <= j < ts.len() ==> #[trigger] tv[j] == type_view(ts@[j]),
            s@ == head + join(debug_texts(tv.take(i as int)), ", "@),
        decreases ts.len() - i,
    {
        let p = ts[i].debug_string();
        proof {
            assert(tv.take(i + 1).drop_last() =~= tv.take(i as int));
            assert(tv.take(i + 1).last() == tv[i as int]);
            lemma_join_push(debug_texts(tv.take(i as int)), ", "@, p@);
        }
        if i > 0 {
            s.append(", ");
        }
        s.append(p.as_str());
        i = i + 1;
        assert(s@ =~= head + join(debug_texts(tv.take(i as int)), ", "@));
    }
    assert(tv.take(ts.len() as int) =~= tv);
}

/// A part of an interpolated string: literal text, or an embedded expression.
#[derive(Debug)]
pub enum StringPart {
    Literal(String),
    Expression(Expr),
}

/// An expression with its node information: identity, place and type.
#[derive(Debug)]
pub struct Expr {
    pub id: NodeId,
    pub span: SourceSpan,
    pub type_: Type,
    pub kind: ExprKind,
}

/// The kinds of expressions.
#[derive(Debug)]
#[allow(inconsistent_fields)]
pub enum ExprKind {
    Literal(Literal),
    Identifier(String),
    Binary { op: BinaryOp, left: Box<Expr>, right: Box<Expr> },
    Unary { op: UnaryOp, operand: Box<Expr> },
    Call { callee: Box<Expr>, args: Vec<Argument> },
    Index { object: Box<Expr>, index: Box<Expr> },
    FieldAccess { object: Box<Expr>, field: String },
    ListLiteral(Vec<Expr>),
    MapLiteral(Vec<(Expr, Expr)>),
    ListAppend { list: Box<Expr>, element: Box<Expr> },
    MapInsert { map: Box<Expr>, key: Box<Expr>, value: Box<Expr> },
    Across { callee: Box<Expr>, iterable: Box<Expr>, into: Option<String> },
    StringInterpolation { parts: Vec<StringPart> },
    If { condition: Box<Expr>, then_branch: Box<Expr>, else_branch: Option<Box<Expr>> },
    Block(Vec<Stmt>),
    Lambda { params: Vec<Parameter>, body: Box<Expr> },
    Pipe { name: String, source: String, destination: String, nocopy: bool },
    Io { op: String, args: Vec<Expr>, nocopy: bool },
}

impl Expr {
    /// An expression of unknown type, with a fresh identity from `counter`.
    pub fn new(counter: &mut IdCounter, span: SourceSpan, kind: ExprKind) -> (e: Self)
        ensures
            e.id.0 == old(counter).next,
            final(counter).next == (if old(counter).next == u32::MAX { 0 } else { (old(counter).next + 1) as u32 }),
            e.span == span,
            e.type_ == Type::Unknown,
            e.kind == kind,
    {
        Expr { id: NodeId::new(counter), span, type_: Type::Unknown, kind }
    }

    /// The same expression with the given type.
    pub fn with_type(self, type_: Type) -> (e: Self)
        ensures
            e == (Expr { type_, ..self }),
    {
        let mut e = self;
        e.type_ = type_;
        e
    }
}

/// A statement with its node information.
#[derive(Debug)]
pub struct Stmt {
    pub id: NodeId,
    pub span: SourceSpan,
    pub kind: StmtKind,
}

/// The kinds of statements.
#[derive(Debug)]
#[allow(inconsistent_fields)]
pub enum StmtKind {
    Expression(Expr),
    Assignment { target: Expr, value: Expr },
    If { condition: Expr, then_branch: Vec<Stmt>, else_branch: Option<Vec<Stmt>> },
    Unless { condition: Expr, body: Vec<Stmt> },
    While { condition: Expr, body: Vec<Stmt> },
    Until { condition: Expr, body: Vec<Stmt> },
    Iterate { iterable: Expr, body: Vec<Stmt> },
    Return(Option<Expr>),
    Break,
    Continue,
    Function { name: String, params: Vec<Parameter>, return_type: Option<Type>, body: Vec<Stmt> },
    Object { name: String, fields: Vec<Field>, methods: Vec<ObjectMethod> },
    Store { name: String, fields: Vec<Field>, methods: Vec<ObjectMethod> },
    Actor { name: String, fields: Vec<Field>, handlers: Vec<MessageHandler> },
    Import { module: String, items: Option<Vec<String>> },
    ErrorHandler { handler: ErrorHandler, inner: Box<Stmt> },
    Pipe { name: String, source: String, destination: String, nocopy: bool },
    Io { op: String, args: Vec<Expr>, nocopy: bool },
}

impl Stmt {
    /// A statement with a fresh identity from `counter`.
    pub fn new(counter: &mut IdCounter, span: SourceSpan, kind: StmtKind) -> (s: Self)
        ensures
            s.id.0 == old(counter).next,
            final(counter).next == (if old(counter).next == u32::MAX { 0 } else { (old(counter).next + 1) as u32 }),
            s.span == span,
            s.kind == kind,
    {
        Stmt { id: NodeId::new(counter), span, kind }
    }
}

/// The handlers of a guarded statement, as in `call() err log return`.
#[derive(Debug)]
pub struct ErrorHandler {
    pub actions: Vec<ErrorAction>,
    pub span: SourceSpan,
}

/// One way of handling an error: log it, return, or run an expression.
#[derive(Debug)]
pub enum ErrorAction {
    Log(Option<Expr>),
    Return(Option<Expr>),
    Custom(Expr),
}

/// An argument of a call, possibly named.
#[derive(Debug)]
pub struct Argument {
    pub name: Option<String>,
    pub value: Expr,
    pub span: SourceSpan,
}

/// A function parameter, with an optional default value.
#[derive(Debug)]
pub struct Parameter {
    pub name: String,
    pub type_: Type,
    pub default_value: Option<Expr>,
    pub span: SourceSpan,
}

/// A field of an object.
#[derive(Debug)]
pub struct Field {
    pub name: String,
    pub type_: Type,
    pub default_value: Option<Expr>,
    pub span: SourceSpan,
}

/// A method of an object.
#[derive(Debug)]
pub struct ObjectMethod {
    pub name: String,
    pub params: Vec<Parameter>,
    pub return_type: Option<Type>,
    pub body: Vec<Stmt>,
    pub span: SourceSpan,
}

/// A message handler of an actor.
#[derive(Debug)]
pub struct MessageHandler {
    pub message_type: Type,
    pub body: Vec<Stmt>,
    pub span: SourceSpan,
}

/// A whole program.
#[derive(Debug)]
pub struct Program {
    pub statements: Vec<Stmt>,
    pub span: SourceSpan,
}

/// A read-only traversal of a syntax tree that yields a `T` at each node.
pub trait Visitor<T> {
    fn visit_program(&mut self, program: &Program) -> T;

    fn visit_stmt(&mut self, stmt: &Stmt) -> T;

    fn visit_expr(&mut self, expr: &Expr) -> T;

    fn visit_type(&mut self, type_: &Type) -> T;
}

/// A traversal of a syntax tree that may rewrite its nodes in place.
pub trait VisitorMut {
    fn visit_program_mut(&mut self, program: &mut Program);

    fn visit_stmt_mut(&mut self, stmt: &mut Stmt);

    fn visit_expr_mut(&mut self, expr: &mut Expr);

    fn visit_type_mut(&mut self, type_: &mut Type);
}

impl ExprKind {
    pub fn literal(lit: Literal) -> (k: Self)
        ensures
            k == ExprKind::Literal(lit),
    {
        ExprKind::Literal(lit)
    }

    pub fn identifier(name: String) -> (k: Self)
        ensures
            k == ExprKind::Identifier(name),
    {
        ExprKind::Identifier(name)
    }

    pub fn binary(op: BinaryOp, left: Expr, right: Expr) -> (k: Self)
        ensures
            k == (ExprKind::Binary { op, left: Box::new(left), right: Box::new(right) }),
    {
        ExprKind::Binary { op, left: Box::new(left), right: Box::new(right) }
    }

    pub fn call(callee: Expr, args: Vec<Argument>) -> (k: Self)
        ensures
            k == (ExprKind::Call { callee: Box::new(callee), args }),
    {
        ExprKind::Call { callee: Box::new(callee), args }
    }
}

impl From<Literal> for ExprKind {
    fn from(lit: Literal) -> (k: Self) {
        ExprKind::Literal(lit)
    }
}

impl vstd::std_specs::convert::FromSpecImpl<Literal> for ExprKind {
    open spec fn obeys_from_spec() -> bool {
        true
    }

    open spec fn from_spec(lit: Literal) -> Self {
        ExprKind::Literal(lit)
    }
}

impl StmtKind {
    /// A function with no declared return type.
    pub fn function(name: String, params: Vec<Parameter>, body: Vec<Stmt>) -> (k: Self)
        ensures
            k == (StmtKind::Function { name, params, return_type: None, body }),
    {
        StmtKind::Function { name, params, return_type: None, body }
    }
}

} // verus!
