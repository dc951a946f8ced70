use vstd::prelude::*;
use crate::text::{decimal, join, push_decimal, lemma_join_push};
use crate::resolver::types::{InferType, IType, itypes_view, lemma_itypes_view};

verus! {

/// Types of LLVM IR.
#[derive(Debug, Hash)]
pub enum LLVMType {
    Void,
    Int(u32),
    Float,
    Double,
    Pointer(Box<LLVMType>),
    Struct(Vec<LLVMType>),
    NamedStruct(String),
    Function { ret: Box<LLVMType>, params: Vec<LLVMType> },
}

/// The mathematical model of an `LLVMType`.
pub enum LType {
    Void,
    Int(u32),
    Float,
    Double,
    Pointer(Box<LType>),
    Struct(Seq<LType>),
    NamedStruct(Seq<char>),
    Function { ret: Box<LType>, params: Seq<LType> },
}

pub open spec fn ltype_view(t: LLVMType) -> LType
    decreases t,
{
    match t {
        LLVMType::Void => LType::Void,
        LLVMType::Int(bits) => LType::Int(bits),
        LLVMType::Float => LType::Float,
        LLVMType::Double => LType::Double,
        LLVMType::Pointer(inner) => LType::Pointer(Box::new(ltype_view(*inner))),
        LLVMType::Struct(ts) => LType::Struct(ltypes_view(ts@)),
        LLVMType::NamedStruct(n) => LType::NamedStruct(n@),
        LLVMType::Function { ret, params } => LType::Function {
            ret: Box::new(ltype_view(*ret)),
            params: ltypes_view(params@),
        },
    }
}

pub open spec fn ltypes_view(ts: Seq<LLVMType>) -> Seq<LType>
    decreases ts,
{
    if ts.len() == 0 {
        Seq::empty()
    } else {
        ltypes_view(ts.drop_last()).push(ltype_view(ts.last()))
    }
}

impl View for LLVMType {
    type V = LType;

    open spec fn view(&self) -> LType {
        ltype_view(*self)
    }
}

pub proof fn lemma_ltypes_view(ts: Seq<LLVMType>)
    ensures
        ltypes_view(ts).len() == ts.len(),
        forall|i: int| 0 <= i < ts.len() ==> #[trigger] ltypes_view(ts)[i] == ltype_view(ts[i]),
    decreases ts.len(),
{
    if ts.len() > 0 {
        lemma_ltypes_view(ts.drop_last());
        assert forall|i: int| 0 <= i < ts.len() implies #[trigger] ltypes_view(ts)[i] == ltype_view(ts[i]) by {
            if i < ts.len() - 1 {
                assert(ts.drop_last()[i] == ts[i]);
            }
        }
    }
}

pub proof fn lemma_ltypes_view_push(ts: Seq<LLVMType>, t: LLVMType)
    ensures
        ltypes_view(ts.push(t)) == ltypes_view(ts).push(ltype_view(t)),
{
    assert(ts.push(t).drop_last() =~= ts);
}

/// The IR text of an LLVM type.
pub open spec fn ltype_text(t: LType) -> Seq<char>
    decreases t,
{
    match t {
        LType::Void => "void"@,
        LType::Int(bits) => "i"@ + decimal(bits as nat),
        LType::Float => "float"@,
        LType::Double => "double"@,
        LType::Pointer(inner) => ltype_text(*inner) + "*"@,
        LType::Struct(ts) => "{ "@ + join(ltype_texts(ts), ", "@) + " }"@,
        LType::NamedStruct(name) => "%"@ + name,
        LType::Function { ret, params } => ltype_text(*ret) + " ("@ + join(ltype_texts(params), ", "@) + ")"@,
    }
}

pub open spec fn ltype_texts(ts: Seq<LType>) -> Seq<Seq<char>>
    decreases ts,
{
    if ts.len() == 0 {
        Seq::empty()
    } else {
        ltype_texts(ts.drop_last()).push(ltype_text(ts.last()))
    }
}

proof fn lemma_take_push<A>(s: Seq<A>, i: int)
    requires
        0 <= i < s.len(),
    ensures
        s.take(i + 1).drop_last() == s.take(i),
        s.take(i + 1).last() == s[i],
{
    assert(s.take(i + 1).drop_last() =~= s.take(i));
}

/// Appends the IR texts of `ts`, separated by commas.
#[verifier::loop_isolation(false)]
fn push_ltype_list(s: &mut String, ts: &Vec<LLVMType>)
    ensures
        final(s)@ == old(s)@ + join(ltype_texts(ltypes_view(ts@)), ", "@),
    decreases ts,
{
    let ghost head = s@;
    let ghost tv = ltypes_view(ts@);
    proof {
        lemma_ltypes_view(ts@);
    }
    let mut i: usize = 0;
    while i < ts.len()
        invariant
            i <= ts.len(),
            tv == ltypes_view(ts@),
            tv.len() == ts.len(),
            forall|j: int| 0 <= j < ts.len() ==> #[trigger] tv[j] == ts@[j]@,
            s@ == head + join(ltype_texts(tv.take(i as int)), ", "@),
        decreases ts.len() - i,
    {
        let p = ts[i].to_string();
        proof {
            lemma_take_push(tv, i as int);
            lemma_join_push(ltype_texts(tv.take(i as int)), ", "@, p@);
        }
        if i > 0 {
            s.append(", ");
        }
        s.append(p.as_str());
        i = i + 1;
        assert(s@ =~= head + join(ltype_texts(tv.take(i as int)), ", "@));
    }
    assert(tv.take(ts.len() as int) =~= tv);
}

impl LLVMType {
    /// The IR text of this type.
    pub fn to_string(&self) -> (s: String)
        ensures
            s@ == ltype_text(self@),
        decreases self,
    {
        match self {
            LLVMType::Void => String::from_str("void"),
            LLVMType::Int(bits) => {
                let mut s = String::from_str("i");
                push_decimal(&mut s, *bits as u64);
                s
            },
            LLVMType::Float => String::from_str("float"),
            LLVMType::Double => String::from_str("double"),
            LLVMType::Pointer(inner) => {
                let mut s = inner.to_string();
                s.append("*");
                s
            },
            LLVMType::Struct(ts) => {
                let mut s = String::from_str("{ ");
                push_ltype_list(&mut s, ts);
                s.append(" }");
                s
            },
            LLVMType::NamedStruct(name) => {
                let mut s = String::from_str("%");
                s.append(name.as_str());
                s
            },
            LLVMType::Function { ret, params } => {
                let mut s = ret.to_string();
                s.append(" (");
                push_ltype_list(&mut s, params);
                s.append(")");
                s
            },
        }
    }
}

/// The LLVM type that values of an inference type are compiled to.
pub open spec fn infer_to_ltype(t: IType) -> LType
    decreases t,
{
    match t {
        IType::Unit => LType::Void,
        IType::Bool => LType::Int(1),
        IType::Int => LType::Int(64),
        IType::Float => LType::Double,
        IType::String => LType::NamedStruct("string"@),
        IType::List(it) => LType::Pointer(Box::new(LType::NamedStruct("list."@ + ltype_text(infer_to_ltype(*it))))),
        IType::MapOf(k, v) => LType::Pointer(
            Box::new(
                LType::NamedStruct("map."@ + ltype_text(infer_to_ltype(*k)) + "."@ + ltype_text(infer_to_ltype(*v))),
            ),
        ),
        IType::Function { params, return_type, .. } => LType::Pointer(
            Box::new(LType::Function { ret: Box::new(infer_to_ltype(*return_type)), params: infer_to_ltypes(params) }),
        ),
        IType::Object { name, .. } => LType::NamedStruct(name),
        IType::Store { name, .. } => LType::Pointer(Box::new(LType::NamedStruct(name))),
        IType::Actor { name, .. } => LType::Pointer(Box::new(LType::NamedStruct(name))),
        IType::Result(ok, err) => LType::Struct(seq![LType::Int(1), infer_to_ltype(*ok), infer_to_ltype(*err)]),
        IType::Iterator(it) => LType::Pointer(
            Box::new(LType::NamedStruct("iterator."@ + ltype_text(infer_to_ltype(*it)))),
        ),
        _ => LType::Pointer(Box::new(LType::Int(8))),
    }
}

pub open spec fn infer_to_ltypes(ts: Seq<IType>) -> Seq<LType>
    decreases ts,
{
    if ts.len() == 0 {
        Seq::empty()
    } else {
        infer_to_ltypes(ts.drop_last()).push(infer_to_ltype(ts.last()))
    }
}

fn named_struct(prefix: &str, t: &LLVMType) -> (r: LLVMType)
    ensures
        r@ == LType::NamedStruct(prefix@ + ltype_text(t@)),
{
    let mut name = String::from_str(prefix);
    let text = t.to_string();
    name.append(text.as_str());
    LLVMType::NamedStruct(name)
}

fn int_type(bits: u32) -> (r: LLVMType)
    ensures
        r@ == LType::Int(bits),
{
    LLVMType::Int(bits)
}

/// The LLVM type of an inference type.
#[verifier::loop_isolation(false)]
pub fn infer_to_llvm_type(ty: &InferType) -> (r: LLVMType)
    ensures
        r@ == infer_to_ltype(ty@),
    decreases ty,
{
    proof {
        reveal_with_fuel(ltype_view, 3);
    }
    match ty {
        InferType::Unit => LLVMType::Void,
        InferType::Bool => LLVMType::Int(1),
        InferType::Int => LLVMType::Int(64),
        InferType::Float => LLVMType::Double,
        InferType::String => LLVMType::NamedStruct(String::from_str("string")),
        InferType::List(it) => {
            let inner_type = infer_to_llvm_type(it);
            LLVMType::Pointer(Box::new(named_struct("list.", &inner_type)))
        },
        InferType::MapOf(k, v) => {
            let key_type = infer_to_llvm_type(k);
            let val_type = infer_to_llvm_type(v);
            let mut name = String::from_str("map.");
            let kt = key_type.to_string();
            name.append(kt.as_str());
            name.append(".");
            let vt = val_type.to_string();
            name.append(vt.as_str());
            LLVMType::Pointer(Box::new(LLVMType::NamedStruct(name)))
        },
        InferType::Function { params, return_type, .. } => {
            let ret = Box::new(infer_to_llvm_type(return_type));
            let ghost pv = itypes_view(params@);
            proof {
                lemma_itypes_view(params@);
            }
            let mut ps: Vec<LLVMType> = Vec::new();
            let mut i: usize = 0;
            while i < params.len()
                invariant
                    i <= params.len(),
                    pv == itypes_view(params@),
                    pv.len() == params.len(),
                    forall|j: int| 0 <= j < params.len() ==> #[trigger] pv[j] == params@[j]@,
                    ltypes_view(ps@) == infer_to_ltypes(pv.take(i as int)),
                decreases params.len() - i,
            {
                let p = infer_to_llvm_type(&params[i]);
                proof {
                    lemma_ltypes_view_push(ps@, p);
                    lemma_take_push(pv, i as int);
                }
                ps.push(p);
                i = i + 1;
            }
            assert(pv.take(params.len() as int) =~= pv);
            LLVMType::Pointer(Box::new(LLVMType::Function { ret, params: ps }))
        },
        InferType::Object { name, .. } => LLVMType::NamedStruct(name.clone()),
        InferType::Store { name, .. } => LLVMType::Pointer(Box::new(LLVMType::NamedStruct(name.clone()))),
        InferType::Actor { name, .. } => LLVMType::Pointer(Box::new(LLVMType::NamedStruct(name.clone()))),
        InferType::Result(ok, err) => {
            let ok_type = infer_to_llvm_type(ok);
            let err_type = infer_to_llvm_type(err);
            let mut members: Vec<LLVMType> = Vec::new();
            members.push(int_type(1));
            members.push(ok_type);
            members.push(err_type);
            proof {
                reveal_with_fuel(ltypes_view, 4);
            }
            assert(ltypes_view(members@) =~= seq![LType::Int(1), ok_type@, err_type@]);
            LLVMType::Struct(members)
        },
        InferType::Iterator(it) => {
            let inner_type = infer_to_llvm_type(it);
            LLVMType::Pointer(Box::new(named_struct("iterator.", &inner_type)))
        },
        _ => LLVMType::Pointer(Box::new(LLVMType::Int(8))),
    }
}

/// A copy of an LLVM type.
pub fn copy_ltype(t: &LLVMType) -> (r: LLVMType)
    ensures
        r@ == t@,
    decreases t,
{
    match t {
        LLVMType::Void => LLVMType::Void,
        LLVMType::Int(bits) => LLVMType::Int(*bits),
        LLVMType::Float => LLVMType::Float,
        LLVMType::Double => LLVMType::Double,
        LLVMType::Pointer(inner) => LLVMType::Pointer(Box::new(copy_ltype(inner))),
        LLVMType::Struct(ts) => LLVMType::Struct(copy_ltypes(ts)),
        LLVMType::NamedStruct(n) => LLVMType::NamedStruct(n.clone()),
        LLVMType::Function { ret, params } => LLVMType::Function {
            ret: Box::new(copy_ltype(ret)),
            params: copy_ltypes(params),
        },
    }
}

fn copy_ltypes(ts: &Vec<LLVMType>) -> (r: Vec<LLVMType>)
    ensures
        ltypes_view(r@) == ltypes_view(ts@),
    decreases ts,
{
    let mut r: Vec<LLVMType> = Vec::new();
    let mut i: usize = 0;
    while i < ts.len()
        invariant
            i <= ts.len(),
            ltypes_view(r@) == ltypes_view(ts@.take(i as int)),
        decreases ts.len() - i,
    {
        let c = copy_ltype(&ts[i]);
        proof {
            lemma_ltypes_view_push(r@, c);
            lemma_ltypes_view_push(ts@.take(i as int), ts@[i as int]);
            assert(ts@.take(i as int).push(ts@[i as int]) =~= ts@.take(i + 1));
        }
        r.push(c);
        i = i + 1;
    }
    assert(ts@.take(ts.len() as int) =~= ts@);
    r
}

/// Whether two LLVM types are the same type.
pub fn ltype_equals(a: &LLVMType, b: &LLVMType) -> (r: bool)
    ensures
        r == (a@ == b@),
    decreases a,
{
    match (a, b) {
        (LLVMType::Void, LLVMType::Void) => true,
        (LLVMType::Int(x), LLVMType::Int(y)) => *x == *y,
        (LLVMType::Float, LLVMType::Float) => true,
        (LLVMType::Double, LLVMType::Double) => true,
        (LLVMType::Pointer(x), LLVMType::Pointer(y)) => ltype_equals(x, y),
        (LLVMType::Struct(xs), LLVMType::Struct(ys)) => ltypes_equal(xs, ys),
        (LLVMType::NamedStruct(x), LLVMType::NamedStruct(y)) => *x == *y,
        (LLVMType::Function { ret: r1, params: p1 }, LLVMType::Function { ret: r2, params: p2 }) => {
            ltype_equals(r1, r2) && ltypes_equal(p1, p2)
        },
        _ => false,
    }
}

fn ltypes_equal(a: &Vec<LLVMType>, b: &Vec<LLVMType>) -> (r: bool)
    ensures
        r == (ltypes_view(a@) == ltypes_view(b@)),
    decreases a,
{
    proof {
        lemma_ltypes_view(a@);
        lemma_ltypes_view(b@);
    }
    if a.len() != b.len() {
        return false;
    }
    let mut i: usize = 0;
    while i < a.len()
        invariant
            i <= a.len(),
            a.len() == b.len(),
            ltypes_view(a@).len() == a.len(),
            ltypes_view(b@).len() == b.len(),
            forall|j: int| 0 <= j < a.len() ==> #[trigger] ltypes_view(a@)[j] == a@[j]@,
            forall|j: int| 0 <= j < b.len() ==> #[trigger] ltypes_view(b@)[j] == b@[j]@,
            forall|j: int| 0 <= j < i ==> #[trigger] ltypes_view(a@)[j] == ltypes_view(b@)[j],
        decreases a.len() - i,
    {
        if !ltype_equals(&a[i], &b[i]) {
            assert(ltypes_view(a@)[i as int] != ltypes_view(b@)[i as int]);
            return false;
        }
        i = i + 1;
    }
    assert(ltypes_view(a@) =~= ltypes_view(b@));
    true
}

impl Clone for LLVMType {
    fn clone(&self) -> (r: Self)
        ensures
            r@ == self@,
    {
        copy_ltype(self)
    }
}

impl PartialEq for LLVMType {
    fn eq(&self, other: &Self) -> (r: bool) {
        ltype_equals(self, other)
    }
}

impl vstd::std_specs::cmp::PartialEqSpecImpl for LLVMType {
    open spec fn obeys_eq_spec() -> bool {
        true
    }

    open spec fn eq_spec(&self, other: &Self) -> bool {
        self@ == other@
    }
}

impl Eq for LLVMType {
}

} // verus!
