use vstd::prelude::*;
use crate::assoc::{assoc_get, assoc_pos, assoc_insert};
use crate::ast::{
    Expr, ExprKind, Stmt, StmtKind, Argument, Parameter, Field, Literal, BinaryOp, UnaryOp, Type, TypeView,
    ErrorAction,
};
use crate::text::{decimal, signed_decimal, join};
use crate::resolver::types::{IType, next_counter};
use super::CodegenErrorView;
use super::symbols::{LValue, LFunction};

verus! {

/// What code generation has done so far: the lines of IR, the next temporary and label
/// numbers, and the variables and functions in scope.
#[verifier::ext_equal]
pub struct GenState {
    pub lines: Seq<Seq<char>>,
    pub temp: usize,
    pub label: usize,
    pub vars: spec_fn(Seq<char>) -> Option<LValue>,
    pub funs: spec_fn(Seq<char>) -> Option<LFunction>,
    pub imports: Seq<Seq<char>>,
}

/// The outcome of compiling an expression, and the state afterwards.
pub type Gen = (Result<LValue, CodegenErrorView>, GenState);

/// The outcome of compiling a statement, and the state afterwards.
pub type GenUnit = (Result<(), CodegenErrorView>, GenState);

/// The rendering `{:?}` gives an expression kind.
pub uninterp spec fn expr_kind_debug(k: ExprKind) -> Seq<char>;

/// The rendering `{:?}` gives a statement kind.
pub uninterp spec fn stmt_kind_debug(k: StmtKind) -> Seq<char>;

/// `format!("{:?}", k)`: the derived `Debug` rendering of an expression kind, as this function's
/// result names it; its characters are not stated.
#[verifier::external_body]
pub(crate) fn debug_expr_kind(k: &ExprKind) -> (s: String)
    ensures
        s@ == expr_kind_debug(*k),
{
    format!("{:?}", k)
}

/// `format!("{:?}", k)` on a statement kind, named likewise.
#[verifier::external_body]
pub(crate) fn debug_stmt_kind(k: &StmtKind) -> (s: String)
    ensures
        s@ == stmt_kind_debug(*k),
{
    format!("{:?}", k)
}

pub open spec fn num(n: usize) -> Seq<char> {
    decimal(n as nat)
}

/// The operand `%n`.
pub open spec fn tmp(n: usize) -> Seq<char> {
    "%"@ + num(n)
}

/// A reference to label `n`.
pub open spec fn lbl(n: usize) -> Seq<char> {
    "label %L"@ + num(n)
}

/// The line that starts the block of label `n`.
pub open spec fn block(n: usize) -> Seq<char> {
    "L"@ + num(n) + ":"@
}

pub open spec fn emit(st: GenState, line: Seq<char>) -> GenState {
    GenState { lines: st.lines.push(line), ..st }
}

pub open spec fn new_temp(st: GenState) -> (usize, GenState) {
    (st.temp, GenState { temp: next_counter(st.temp), ..st })
}

pub open spec fn new_label(st: GenState) -> (usize, GenState) {
    (st.label, GenState { label: next_counter(st.label), ..st })
}

pub open spec fn define_var(st: GenState, name: Seq<char>, v: LValue) -> GenState {
    GenState {
        vars: |n: Seq<char>|
            if n == name {
                Some(v)
            } else {
                (st.vars)(n)
            },
        ..st
    }
}

pub open spec fn define_fun(st: GenState, name: Seq<char>, f: LFunction) -> GenState {
    GenState {
        funs: |n: Seq<char>|
            if n == name {
                Some(f)
            } else {
                (st.funs)(n)
            },
        ..st
    }
}

pub open spec fn value(t: IType, llvm_type: Seq<char>, id: Seq<char>) -> LValue {
    LValue { type_info: t, llvm_type, value_id: id }
}

/// The type code generation reads off a written type: sized integers of 32 and 64 bits,
/// floats, strings, booleans and unit; anything else is unknown.
pub open spec fn cg_infer(t: TypeView) -> IType {
    match t {
        TypeView::I32 | TypeView::I64 => IType::Int,
        TypeView::F32 | TypeView::F64 => IType::Float,
        TypeView::String => IType::String,
        TypeView::Bool => IType::Bool,
        TypeView::Unit => IType::Unit,
        _ => IType::Unknown,
    }
}

/// The LLVM type that holds a value of an inference type.
pub open spec fn cg_llvm(t: IType) -> Seq<char>
    decreases t,
{
    match t {
        IType::Int => "i64"@,
        IType::Float => "double"@,
        IType::Bool => "i1"@,
        IType::String => "i8*"@,
        IType::Unit => "void"@,
        IType::List(_) => "%coral.list*"@,
        IType::MapOf(_, _) => "%coral.map*"@,
        IType::Object { name, .. } => "%struct."@ + name + "*"@,
        IType::Function { params, return_type, .. } => cg_llvm(*return_type) + "("@ + join(cg_llvms(params), ", "@)
            + ")"@,
        _ => "i8*"@,
    }
}

pub open spec fn cg_llvms(ts: Seq<IType>) -> Seq<Seq<char>>
    decreases ts,
{
    if ts.len() == 0 {
        Seq::empty()
    } else {
        cg_llvms(ts.drop_last()).push(cg_llvm(ts.last()))
    }
}

/// The size in bytes of a value of an inference type.
pub open spec fn type_size(t: IType) -> usize {
    match t {
        IType::Int => 8,
        IType::Float => 8,
        IType::Bool => 1,
        IType::String => 8,
        IType::List(_) => 24,
        IType::MapOf(_, _) => 24,
        IType::Object { .. } => 8,
        _ => 0,
    }
}

/// A hexadecimal digit.
pub open spec fn hex_digit(d: nat) -> char {
    if d < 10 {
        (48 + d) as char
    } else {
        (55 + d) as char
    }
}

/// The last `n` hexadecimal digits of `v`, most significant first.
pub open spec fn hex_digits(v: nat, n: nat) -> Seq<char>
    decreases n,
{
    if n == 0 {
        Seq::empty()
    } else {
        hex_digits(v / 16, (n - 1) as nat).push(hex_digit(v % 16))
    }
}

/// A double constant written by its bits, as LLVM reads it.
pub open spec fn double_text(bits: u64) -> Seq<char> {
    "0x"@ + hex_digits(bits as nat, 16)
}

/// The number of bytes a character takes in UTF-8.
pub open spec fn utf8_width(c: char) -> nat {
    if (c as u32) < 0x80 {
        1
    } else if (c as u32) < 0x800 {
        2
    } else if (c as u32) < 0x10000 {
        3
    } else {
        4
    }
}

/// The number of bytes a text takes in UTF-8.
pub open spec fn utf8_len(s: Seq<char>) -> nat
    decreases s.len(),
{
    if s.len() == 0 {
        0
    } else {
        utf8_len(s.drop_last()) + utf8_width(s.last())
    }
}

/// The value of a literal; a string literal becomes a global constant.
pub open spec fn gen_literal(lit: Literal, st: GenState) -> Gen {
    match lit {
        Literal::Integer(v) => (Ok(value(IType::Int, "i64"@, signed_decimal(v as int))), st),
        Literal::Float(bits) => (Ok(value(IType::Float, "double"@, double_text(bits))), st),
        Literal::String(v) => {
            let (t, s1) = new_temp(st);
            let size = decimal(utf8_len(v@) + 1);
            let line = "@.str"@ + num(t) + " = private constant ["@ + size + " x i8] c\""@ + v@ + "\\00\""@;
            (
                Ok(
                    value(
                        IType::String,
                        "i8*"@,
                        "getelementptr (["@ + size + " x i8], ["@ + size + "*] @.str"@ + num(t) + ", i64 0, i64 0)"@,
                    ),
                ),
                emit(s1, line),
            )
        },
        Literal::Bool(b) => (Ok(value(IType::Bool, "i1"@, if b { "true"@ } else { "false"@ })), st),
        Literal::Unit => (Ok(value(IType::Unit, "void"@, Seq::empty())), st),
        Literal::No | Literal::Null | Literal::Empty => (Ok(value(IType::Unknown, "i8*"@, "null"@)), st),
        Literal::Yes => (Ok(value(IType::Bool, "i1"@, "true"@)), st),
        Literal::Now => (Ok(value(IType::Int, "i64"@, "0"@)), st),
        Literal::Error => (Ok(value(IType::Unknown, "i8*"@, "null"@)), st),
    }
}

/// `s` without the copies of `c` it starts with.
pub open spec fn trim_start(s: Seq<char>, c: char) -> Seq<char>
    decreases s.len(),
{
    if s.len() > 0 && s[0] == c {
        trim_start(s.drop_first(), c)
    } else {
        s
    }
}

/// `s` without the copies of `c` it ends with.
pub open spec fn trim_end(s: Seq<char>, c: char) -> Seq<char>
    decreases s.len(),
{
    if s.len() > 0 && s.last() == c {
        trim_end(s.drop_last(), c)
    } else {
        s
    }
}

/// `s` without the copies of the nonempty text `p` it starts with.
pub open spec fn trim_prefix(s: Seq<char>, p: Seq<char>) -> Seq<char>
    decreases s.len(),
{
    if p.len() > 0 && p.len() <= s.len() && s.take(p.len() as int) == p {
        trim_prefix(s.skip(p.len() as int), p)
    } else {
        s
    }
}

/// The object type a name stands for, as an instance with no methods.
pub open spec fn lookup_object(st: GenState, name: Seq<char>) -> Option<IType> {
    match (st.vars)(name) {
        Some(v) => match v.type_info {
            IType::Object { name: on, fields, .. } => if on == name {
                Some(IType::Object { name: on, fields, methods: Seq::empty(), is_actor: false, is_store: false })
            } else {
                None
            },
            _ => None,
        },
        None => None,
    }
}

/// The operand of a value typed for a call: its LLVM type, a space, its operand.
pub open spec fn typed_operand(v: LValue) -> Seq<char> {
    v.llvm_type + " "@ + v.value_id
}

pub open spec fn typed_operands(vs: Seq<LValue>) -> Seq<Seq<char>> {
    vs.map_values(|v: LValue| typed_operand(v))
}

/// The zero a field takes when no argument gives it a value.
pub open spec fn default_id(t: IType) -> Seq<char> {
    match t {
        IType::Int => "0"@,
        IType::Float => "0.0"@,
        IType::Bool => "false"@,
        _ => "null"@,
    }
}

/// The instruction and result type of a binary operation on operands of the given types.
pub open spec fn binary_instruction(op: BinaryOp, l: IType, r: IType) -> Result<(Seq<char>, IType), CodegenErrorView> {
    let ints = l is Int && r is Int;
    let floats = l is Float && r is Float;
    match op {
        BinaryOp::Add => if ints {
            Ok(("add"@, IType::Int))
        } else if floats {
            Ok(("fadd"@, IType::Float))
        } else {
            Err(CodegenErrorView::InvalidOperation("Type mismatch in addition"@))
        },
        BinaryOp::Sub => if ints {
            Ok(("sub"@, IType::Int))
        } else if floats {
            Ok(("fsub"@, IType::Float))
        } else {
            Err(CodegenErrorView::InvalidOperation("Type mismatch in subtraction"@))
        },
        BinaryOp::Mul => if ints {
            Ok(("mul"@, IType::Int))
        } else if floats {
            Ok(("fmul"@, IType::Float))
        } else {
            Err(CodegenErrorView::InvalidOperation("Type mismatch in multiplication"@))
        },
        BinaryOp::Eq => Ok(("icmp eq"@, IType::Bool)),
        BinaryOp::Ne => Ok(("icmp ne"@, IType::Bool)),
        BinaryOp::Lt => if ints {
            Ok(("icmp slt"@, IType::Bool))
        } else if floats {
            Ok(("fcmp olt"@, IType::Bool))
        } else {
            Err(CodegenErrorView::InvalidOperation("Type mismatch in less than comparison"@))
        },
        BinaryOp::Le => if ints {
            Ok(("icmp sle"@, IType::Bool))
        } else if floats {
            Ok(("fcmp ole"@, IType::Bool))
        } else {
            Err(CodegenErrorView::InvalidOperation("Type mismatch in less than or equal comparison"@))
        },
        BinaryOp::Gt => if ints {
            Ok(("icmp sgt"@, IType::Bool))
        } else if floats {
            Ok(("fcmp ogt"@, IType::Bool))
        } else {
            Err(CodegenErrorView::InvalidOperation("Type mismatch in greater than comparison"@))
        },
        BinaryOp::Ge => if ints {
            Ok(("icmp sge"@, IType::Bool))
        } else if floats {
            Ok(("fcmp oge"@, IType::Bool))
        } else {
            Err(CodegenErrorView::InvalidOperation("Type mismatch in greater than or equal comparison"@))
        },
        BinaryOp::And => Ok(("and"@, IType::Bool)),
        BinaryOp::Or => Ok(("or"@, IType::Bool)),
        BinaryOp::Xor => Ok(("xor"@, IType::Bool)),
        BinaryOp::BitAnd => Ok(("and"@, IType::Int)),
        BinaryOp::BitOr => Ok(("or"@, IType::Int)),
        BinaryOp::BitXor => Ok(("xor"@, IType::Int)),
        BinaryOp::Shl => Ok(("shl"@, IType::Int)),
        BinaryOp::Shr => Ok(("lshr"@, IType::Int)),
        BinaryOp::Div => Err(CodegenErrorView::UnsupportedFeature("Binary operation not implemented: Div"@)),
        BinaryOp::Mod => Err(CodegenErrorView::UnsupportedFeature("Binary operation not implemented: Mod"@)),
        BinaryOp::Is => Err(CodegenErrorView::UnsupportedFeature("Binary operation not implemented: Is"@)),
    }
}

/// The line that computes a list or map field's address.
pub open spec fn field_gep(t: usize, kind: Seq<char>, base: Seq<char>, index: Seq<char>) -> Seq<char> {
    "  "@ + tmp(t) + " = getelementptr inbounds "@ + kind + ", "@ + kind + "* %"@ + base + ", i32 0, i32 "@ + index
}


/// Compiles argument values from `i` on, collecting them after `acc`.
pub open spec fn gen_values(args: Seq<Argument>, i: int, acc: Seq<LValue>, st: GenState) -> (
    Result<Seq<LValue>, CodegenErrorView>,
    GenState,
)
    decreases args, args.len() - i,
{
    if i < 0 || i >= args.len() {
        (Ok(acc), st)
    } else {
        let r = gen_expr(args[i].value, st);
        match r.0 {
            Ok(v) => gen_values(args, i + 1, acc.push(v), r.1),
            Err(e) => (Err(e), r.1),
        }
    }
}

/// Stores the fields of a new object from `i` on: the argument at the field's place, else the
/// field's zero.
pub open spec fn inst_fields(
    args: Seq<Argument>,
    fields: Seq<(Seq<char>, IType)>,
    i: int,
    t: usize,
    lt: Seq<char>,
    st: GenState,
) -> GenUnit
    decreases args, fields.len() - i,
{
    if i < 0 || i >= fields.len() {
        (Ok(()), st)
    } else {
        let ft = fields[i].1;
        let r: Gen = if i < args.len() {
            gen_expr(args[i].value, st)
        } else {
            (Ok(value(ft, cg_llvm(ft), default_id(ft))), st)
        };
        match r.0 {
            Err(e) => (Err(e), r.1),
            Ok(v) => {
                let s1 = emit(
                    r.1,
                    "  %fieldptr"@ + num(t) + " = getelementptr inbounds "@ + lt + ", "@ + lt + "* %"@ + num(t)
                        + ", i32 0, i32 "@ + decimal(i as nat),
                );
                let s2 = emit(
                    s1,
                    "  store "@ + v.llvm_type + " "@ + v.value_id + ", "@ + cg_llvm(ft) + "* %fieldptr"@ + num(t),
                );
                inst_fields(args, fields, i + 1, t, lt, s2)
            },
        }
    }
}

/// Compiles the elements of a list literal from `i` on into the buffer `%data`.
pub open spec fn list_elements(elements: Seq<Expr>, i: int, data: usize, size: usize, elt: Seq<char>, st: GenState) -> GenUnit
    decreases elements, elements.len() - i,
{
    if i < 0 || i >= elements.len() {
        (Ok(()), st)
    } else {
        let r = gen_expr(elements[i], st);
        match r.0 {
            Err(e) => (Err(e), r.1),
            Ok(v) => {
                let offset = vstd::wrapping::usize_specs::wrapping_mul(i as usize, size);
                let (p, s1) = new_temp(r.1);
                let s2 = emit(s1, "  "@ + tmp(p) + " = getelementptr inbounds i8, i8* "@ + tmp(data) + ", i64 "@ + num(offset));
                let (c, s3) = new_temp(s2);
                let s4 = emit(s3, "  "@ + tmp(c) + " = bitcast i8* "@ + tmp(p) + " to "@ + elt + "*"@);
                let s5 = emit(s4, "  store "@ + v.llvm_type + " "@ + v.value_id + ", "@ + elt + "* "@ + tmp(c));
                list_elements(elements, i + 1, data, size, elt, s5)
            },
        }
    }
}

/// Compiles the entries of a map literal from `i` on, inserting them into the map `%map`.
pub open spec fn map_entries(pairs: Seq<(Expr, Expr)>, i: int, map: usize, st: GenState) -> GenUnit
    decreases pairs, pairs.len() - i,
{
    if i < 0 || i >= pairs.len() {
        (Ok(()), st)
    } else {
        let k = gen_expr(pairs[i].0, st);
        match k.0 {
            Err(e) => (Err(e), k.1),
            Ok(kv) => {
                let v = gen_expr(pairs[i].1, k.1);
                match v.0 {
                    Err(e) => (Err(e), v.1),
                    Ok(vv) => map_entries(
                        pairs,
                        i + 1,
                        map,
                        emit(
                            v.1,
                            "  call void @map_insert(i8* "@ + tmp(map) + ", "@ + typed_operand(kv) + ", "@ + typed_operand(vv)
                                + ")"@,
                        ),
                    ),
                }
            },
        }
    }
}

/// The IR of an expression and its value.
pub open spec fn gen_expr(e: Expr, st: GenState) -> Gen
    decreases e, 1nat,
{
    match e.kind {
        ExprKind::Literal(lit) => gen_literal(lit, st),
        ExprKind::Identifier(name) => match (st.vars)(name@) {
            Some(v) => (Ok(v), st),
            None => (Err(CodegenErrorView::UndefinedVariable(name@)), st),
        },
        ExprKind::Binary { .. } => gen_binary(e, st),
        ExprKind::Call { .. } => gen_call(e, st),
        ExprKind::FieldAccess { .. } => gen_property(e, st),
        ExprKind::If { .. } => gen_if_expr(e, st),
        ExprKind::ListLiteral(_) => gen_list_literal(e, st),
        ExprKind::ListAppend { .. } => gen_list_append(e, st),
        ExprKind::MapLiteral(_) => gen_map_literal(e, st),
        ExprKind::MapInsert { .. } => gen_map_insert(e, st),
        _ => (Err(CodegenErrorView::UnsupportedFeature("Expression type not implemented: "@ + expr_kind_debug(e.kind))), st),
    }
}

pub open spec fn gen_binary(e: Expr, st: GenState) -> Gen
    decreases e, 0nat,
{
    match e.kind {
        ExprKind::Binary { op, left, right } => {
            let l = gen_expr(*left, st);
            match l.0 {
                Err(er) => (Err(er), l.1),
                Ok(lv) => {
                    let r = gen_expr(*right, l.1);
                    match r.0 {
                        Err(er) => (Err(er), r.1),
                        Ok(rv) => {
                            let (t, s1) = new_temp(r.1);
                            match binary_instruction(op, lv.type_info, rv.type_info) {
                                Err(er) => (Err(er), s1),
                                Ok((instr, rt)) => (
                                    Ok(value(rt, lv.llvm_type, tmp(t))),
                                    emit(s1, "  "@ + tmp(t) + " = "@ + instr + " "@ + lv.llvm_type + " "@ + lv.value_id + ", "@ + rv.value_id),
                                ),
                            }
                        },
                    }
                },
            }
        },
        _ => (Err(CodegenErrorView::MemoryAllocationFailed), st),
    }
}

/// A call: of an object's name builds an object; of a field is a method call; of a function
/// name calls the function.
pub open spec fn gen_call(e: Expr, st: GenState) -> Gen
    decreases e, 0nat,
{
    match e.kind {
        ExprKind::Call { callee, args } => match callee.kind {
            ExprKind::Identifier(name) => match lookup_object(st, name@) {
                Some(ot) => {
                    let (t, s1) = new_temp(st);
                    let lt = cg_llvm(ot);
                    let s2 = emit(s1, "  "@ + tmp(t) + " = alloca "@ + lt);
                    let fields = match ot {
                        IType::Object { fields, .. } => fields,
                        _ => Seq::empty(),
                    };
                    let r = inst_fields(args@, fields, 0, t, lt, s2);
                    match r.0 {
                        Err(er) => (Err(er), r.1),
                        Ok(_) => (Ok(value(ot, lt, tmp(t))), r.1),
                    }
                },
                None => gen_function_call(name@, args@, st),
            },
            ExprKind::FieldAccess { object, field } => match class_name(*object, st) {
                Some(c) => gen_external_call(c + "_"@ + field@, args@, st),
                None => {
                let o = gen_expr(*object, st);
                match o.0 {
                    Err(er) => (Err(er), o.1),
                    Ok(ov) => {
                        let a = gen_values(args@, 0, seq![ov], o.1);
                        match a.0 {
                            Err(er) => (Err(er), a.1),
                            Ok(vs) => {
                                let (t, s1) = new_temp(a.1);
                                let fname = trim_end(trim_prefix(ov.llvm_type, "%struct."@), '*') + "_"@ + field@;
                                (
                                    Ok(value(IType::Unknown, "i64"@, tmp(t))),
                                    emit(s1, "  "@ + tmp(t) + " = call i64 @"@ + fname + "("@ + join(typed_operands(vs), ", "@) + ")"@),
                                )
                            },
                        }
                    },
                }
                },
            },
            _ => (Err(CodegenErrorView::UnsupportedFeature("Indirect function calls not yet supported"@)), st),
        },
        _ => (Err(CodegenErrorView::MemoryAllocationFailed), st),
    }
}

/// A call of a function that is defined elsewhere, as a function of `i64`.
pub open spec fn gen_external_call(name: Seq<char>, args: Seq<Argument>, st: GenState) -> Gen
    decreases args, args.len() + 1,
{
    let a = gen_values(args, 0, Seq::empty(), st);
    match a.0 {
        Err(er) => (Err(er), a.1),
        Ok(vs) => {
            let (t, s1) = new_temp(a.1);
            (
                Ok(value(IType::Unknown, "i64"@, tmp(t))),
                emit(s1, "  "@ + tmp(t) + " = call i64 @"@ + name + "("@ + join(typed_operands(vs), ", "@) + ")"@),
            )
        },
    }
}

/// The receiver of a call that names no variable: a built-in class, whose methods are functions
/// named by the class and the method.
pub open spec fn class_name(e: Expr, st: GenState) -> Option<Seq<char>> {
    match e.kind {
        ExprKind::Identifier(n) => if (st.vars)(n@) is None { Some(n@) } else { None },
        _ => None,
    }
}

/// A call of a named function with the given arguments; once a module has been imported, a name
/// that is not defined here is taken to be defined by a module.
pub open spec fn gen_function_call(name: Seq<char>, args: Seq<Argument>, st: GenState) -> Gen
    decreases args, args.len() + 2,
{
    match (st.funs)(name) {
        None => if st.imports.len() == 0 {
            (Err(CodegenErrorView::UndefinedFunction(name)), st)
        } else {
            gen_external_call(name, args, st)
        },
        Some(f) => {
            let a = gen_values(args, 0, Seq::empty(), st);
            match a.0 {
                Err(er) => (Err(er), a.1),
                Ok(vs) => {
                    let (t, s1) = new_temp(a.1);
                    let rl = cg_llvm(f.return_type);
                    (
                        Ok(value(f.return_type, rl, tmp(t))),
                        emit(s1, "  "@ + tmp(t) + " = call "@ + rl + " @"@ + name + "("@ + join(typed_operands(vs), ", "@) + ")"@),
                    )
                },
            }
        },
    }
}

/// Reading a field of an object.
pub open spec fn gen_property(e: Expr, st: GenState) -> Gen
    decreases e, 0nat,
{
    match e.kind {
        ExprKind::FieldAccess { object, field } => {
            let o = gen_expr(*object, st);
            match o.0 {
                Err(er) => (Err(er), o.1),
                Ok(ov) => {
                    let fields = match ov.type_info {
                        IType::Object { fields, .. } => Some(fields),
                        _ => None,
                    };
                    let idx = match fields {
                        Some(fs) => assoc_pos(fs, field@),
                        None => None,
                    };
                    match idx {
                        None => (Err(CodegenErrorView::InvalidOperation("Field '"@ + field@ + "' not found"@)), o.1),
                        Some(ix) => {
                            let ft = match assoc_get(fields->0, field@) {
                                Some(t) => t,
                                None => IType::Unknown,
                            };
                            let flt = cg_llvm(ft);
                            let (t, s1) = new_temp(o.1);
                            let base = trim_end(ov.llvm_type, '*');
                            let s2 = emit(
                                s1,
                                "  %fieldptr"@ + num(t) + " = getelementptr inbounds "@ + base + ", "@ + base + "* %"@
                                    + trim_start(ov.value_id, '%') + ", i32 0, i32 "@ + decimal(ix as nat),
                            );
                            let (r, s3) = new_temp(s2);
                            (
                                Ok(value(ft, flt, tmp(r))),
                                emit(s3, "  "@ + tmp(r) + " = load "@ + flt + ", "@ + flt + "* %fieldptr"@ + num(t)),
                            )
                        },
                    }
                },
            }
        },
        _ => (Err(CodegenErrorView::MemoryAllocationFailed), st),
    }
}

/// A conditional expression: both branches meet in a `phi`.
pub open spec fn gen_if_expr(e: Expr, st: GenState) -> Gen
    decreases e, 0nat,
{
    match e.kind {
        ExprKind::If { condition, then_branch, else_branch } => {
            let c = gen_expr(*condition, st);
            match c.0 {
                Err(er) => (Err(er), c.1),
                Ok(cv) => {
                    let (tl, s1) = new_label(c.1);
                    let (el, s2) = new_label(s1);
                    let (ml, s3) = new_label(s2);
                    let s4 = emit(s3, "  br i1 "@ + cv.value_id + ", "@ + lbl(tl) + ", "@ + lbl(el));
                    let s5 = emit(s4, block(tl));
                    let t = gen_expr(*then_branch, s5);
                    match t.0 {
                        Err(er) => (Err(er), t.1),
                        Ok(tv) => {
                            let s6 = emit(emit(t.1, "  br "@ + lbl(ml)), block(el));
                            let ev: Gen = match else_branch {
                                Some(eb) => gen_expr(*eb, s6),
                                None => (Ok(value(tv.type_info, cg_llvm(tv.type_info), "null"@)), s6),
                            };
                            match ev.0 {
                                Err(er) => (Err(er), ev.1),
                                Ok(evv) => {
                                    let s7 = emit(emit(ev.1, "  br "@ + lbl(ml)), block(ml));
                                    let (r, s8) = new_temp(s7);
                                    (
                                        Ok(value(tv.type_info, cg_llvm(tv.type_info), tmp(r))),
                                        emit(
                                            s8,
                                            "  "@ + tmp(r) + " = phi "@ + tv.llvm_type + " [ "@ + tv.value_id + ", %L"@ + num(tl)
                                                + " ], [ "@ + evv.value_id + ", %L"@ + num(el) + " ]"@,
                                        ),
                                    )
                                },
                            }
                        },
                    }
                },
            }
        },
        _ => (Err(CodegenErrorView::MemoryAllocationFailed), st),
    }
}

/// A list literal: a buffer sized for its elements, a list header, then each element stored.
pub open spec fn gen_list_literal(e: Expr, st: GenState) -> Gen
    decreases e, 0nat,
{
    match e.kind {
        ExprKind::ListLiteral(elements) => {
            let et = if elements@.len() > 0 {
                cg_infer(elements@[0].type_@)
            } else {
                IType::Unknown
            };
            let elt = cg_llvm(et);
            let size = type_size(et);
            let n = elements@.len() as usize;
            let (d, s1) = new_temp(st);
            let s2 = emit(s1, "  "@ + tmp(d) + " = call i8* @malloc(i64 "@ + num(vstd::wrapping::usize_specs::wrapping_mul(n, size)) + ")"@);
            let (l, s3) = new_temp(s2);
            let s4 = emit(s3, "  "@ + tmp(l) + " = alloca %coral.list"@);
            let (g0, s5) = new_temp(s4);
            let s6 = emit(emit(s5, field_gep(g0, "%coral.list"@, num(l), "0"@)), "  store i8* "@ + tmp(d) + ", i8** "@ + tmp(g0));
            let (g1, s7) = new_temp(s6);
            let s8 = emit(emit(s7, field_gep(g1, "%coral.list"@, num(l), "1"@)), "  store i64 "@ + num(n) + ", i64* "@ + tmp(g1));
            let (g2, s9) = new_temp(s8);
            let s10 = emit(emit(s9, field_gep(g2, "%coral.list"@, num(l), "2"@)), "  store i64 "@ + num(n) + ", i64* "@ + tmp(g2));
            let r = list_elements(elements@, 0, d, size, elt, s10);
            match r.0 {
                Err(er) => (Err(er), r.1),
                Ok(_) => (Ok(value(IType::List(Box::new(et)), "%coral.list*"@, tmp(l))), r.1),
            }
        },
        _ => (Err(CodegenErrorView::MemoryAllocationFailed), st),
    }
}

/// Appending to a list: the buffer doubles when it is full, then the element is stored and the
/// header updated.
pub open spec fn gen_list_append(e: Expr, st: GenState) -> Gen
    decreases e, 0nat,
{
    match e.kind {
        ExprKind::ListAppend { list, element } => {
            let l = gen_expr(*list, st);
            match l.0 {
                Err(er) => (Err(er), l.1),
                Ok(lv) => {
                    let el = gen_expr(*element, l.1);
                    match el.0 {
                        Err(er) => (Err(er), el.1),
                        Ok(ev) => (Ok(value(IType::Unit, "void"@, Seq::empty())), append_lines(trim_start(lv.value_id, '%'), ev, el.1)),
                    }
                },
            }
        },
        _ => (Err(CodegenErrorView::MemoryAllocationFailed), st),
    }
}

/// The lines that append the value `ev` to the list at `%lp`.
pub open spec fn append_lines(lp: Seq<char>, ev: LValue, st: GenState) -> GenState {
    let (dg, s1) = new_temp(st);
    let s2 = emit(s1, field_gep(dg, "%coral.list"@, lp, "0"@));
    let (cd, s3) = new_temp(s2);
    let s4 = emit(s3, "  "@ + tmp(cd) + " = load i8*, i8** "@ + tmp(dg));
    let (lg, s5) = new_temp(s4);
    let s6 = emit(s5, field_gep(lg, "%coral.list"@, lp, "1"@));
    let (cl, s7) = new_temp(s6);
    let s8 = emit(s7, "  "@ + tmp(cl) + " = load i64, i64* "@ + tmp(lg));
    let (cg, s9) = new_temp(s8);
    let s10 = emit(s9, field_gep(cg, "%coral.list"@, lp, "2"@));
    let (cc, s11) = new_temp(s10);
    let s12 = emit(s11, "  "@ + tmp(cc) + " = load i64, i64* "@ + tmp(cg));
    let (nr, s13) = new_label(s12);
    let (no, s14) = new_label(s13);
    let (mg, s15) = new_label(s14);
    let (cmp, s16) = new_temp(s15);
    let s17 = emit(s16, "  "@ + tmp(cmp) + " = icmp eq i64 "@ + tmp(cl) + ", "@ + tmp(cc));
    let s18 = emit(emit(s17, "  br i1 "@ + tmp(cmp) + ", "@ + lbl(nr) + ", "@ + lbl(no)), block(nr));
    let (nc, s19) = new_temp(s18);
    let s20 = emit(s19, "  "@ + tmp(nc) + " = mul i64 "@ + tmp(cc) + ", 2"@);
    let (ns, s21) = new_temp(s20);
    let size = type_size(ev.type_info);
    let s22 = emit(s21, "  "@ + tmp(ns) + " = mul i64 "@ + tmp(nc) + ", "@ + num(size));
    let (rp, s23) = new_temp(s22);
    let s24 = emit(s23, "  "@ + tmp(rp) + " = call i8* @realloc(i8* "@ + tmp(cd) + ", i64 "@ + tmp(ns) + ")"@);
    let s25 = emit(emit(emit(emit(s24, "  br "@ + lbl(mg)), block(no)), "  br "@ + lbl(mg)), block(mg));
    let (fd, s26) = new_temp(s25);
    let s27 = emit(s26, "  "@ + tmp(fd) + " = phi i8* [ "@ + tmp(rp) + ", %L"@ + num(nr) + " ], [ "@ + tmp(cd) + ", %L"@ + num(no) + " ]"@);
    let (fc, s28) = new_temp(s27);
    let s29 = emit(s28, "  "@ + tmp(fc) + " = phi i64 [ "@ + tmp(nc) + ", %L"@ + num(nr) + " ], [ "@ + tmp(cc) + ", %L"@ + num(no) + " ]"@);
    let (off, s30) = new_temp(s29);
    let s31 = emit(s30, "  "@ + tmp(off) + " = mul i64 "@ + tmp(cl) + ", "@ + num(size));
    let (ep, s32) = new_temp(s31);
    let s33 = emit(s32, "  "@ + tmp(ep) + " = getelementptr inbounds i8, i8* "@ + tmp(fd) + ", i64 "@ + tmp(off));
    let (cp, s34) = new_temp(s33);
    let s35 = emit(s34, "  "@ + tmp(cp) + " = bitcast i8* "@ + tmp(ep) + " to "@ + ev.llvm_type + "*"@);
    let s36 = emit(s35, "  store "@ + ev.llvm_type + " "@ + ev.value_id + ", "@ + ev.llvm_type + "* "@ + tmp(cp));
    let (nl, s37) = new_temp(s36);
    let s38 = emit(s37, "  "@ + tmp(nl) + " = add i64 "@ + tmp(cl) + ", 1"@);
    let s39 = emit(s38, "  store i8* "@ + tmp(fd) + ", i8** "@ + tmp(dg));
    let s40 = emit(s39, "  store i64 "@ + tmp(nl) + ", i64* "@ + tmp(lg));
    emit(s40, "  store i64 "@ + tmp(fc) + ", i64* "@ + tmp(cg))
}

/// A map literal: a map header over a map the runtime creates, then each entry inserted.
pub open spec fn gen_map_literal(e: Expr, st: GenState) -> Gen
    decreases e, 0nat,
{
    match e.kind {
        ExprKind::MapLiteral(pairs) => {
            let kt = if pairs@.len() > 0 {
                cg_infer(pairs@[0].0.type_@)
            } else {
                IType::Unknown
            };
            let vt = if pairs@.len() > 0 {
                cg_infer(pairs@[0].1.type_@)
            } else {
                IType::Unknown
            };
            let n = pairs@.len() as usize;
            let (mp, s1) = new_temp(st);
            let s2 = emit(s1, "  "@ + tmp(mp) + " = alloca %coral.map"@);
            let (cm, s3) = new_temp(s2);
            let s4 = emit(
                s3,
                "  "@ + tmp(cm) + " = call i8* @map_create(i64 "@ + num(type_size(kt)) + ", i64 "@ + num(type_size(vt))
                    + ") ; key_size, value_size"@,
            );
            let (g0, s5) = new_temp(s4);
            let s6 = emit(emit(s5, field_gep(g0, "%coral.map"@, num(mp), "0"@)), "  store i8* "@ + tmp(cm) + ", i8** "@ + tmp(g0));
            let (g1, s7) = new_temp(s6);
            let s8 = emit(emit(s7, field_gep(g1, "%coral.map"@, num(mp), "1"@)), "  store i64 "@ + num(n) + ", i64* "@ + tmp(g1));
            let (g2, s9) = new_temp(s8);
            let s10 = emit(emit(s9, field_gep(g2, "%coral.map"@, num(mp), "2"@)), "  store i64 "@ + num(n) + ", i64* "@ + tmp(g2));
            let r = map_entries(pairs@, 0, cm, s10);
            match r.0 {
                Err(er) => (Err(er), r.1),
                Ok(_) => (Ok(value(IType::MapOf(Box::new(kt), Box::new(vt)), "%coral.map*"@, tmp(mp))), r.1),
            }
        },
        _ => (Err(CodegenErrorView::MemoryAllocationFailed), st),
    }
}

/// Inserting into a map through the runtime.
pub open spec fn gen_map_insert(e: Expr, st: GenState) -> Gen
    decreases e, 0nat,
{
    match e.kind {
        ExprKind::MapInsert { map, key, value: val } => {
            let m = gen_expr(*map, st);
            match m.0 {
                Err(er) => (Err(er), m.1),
                Ok(mv) => {
                    let k = gen_expr(*key, m.1);
                    match k.0 {
                        Err(er) => (Err(er), k.1),
                        Ok(kv) => {
                            let v = gen_expr(*val, k.1);
                            match v.0 {
                                Err(er) => (Err(er), v.1),
                                Ok(vv) => {
                                    let (mp, s1) = new_temp(v.1);
                                    let s2 = emit(
                                        s1,
                                        "  "@ + tmp(mp) + " = load i8*, i8** getelementptr inbounds (%coral.map, %coral.map* "@
                                            + trim_start(mv.value_id, '%') + ", i32 0, i32 0)"@,
                                    );
                                    (
                                        Ok(value(IType::Unit, "void"@, Seq::empty())),
                                        emit(
                                            s2,
                                            "  call void @map_insert(i8* "@ + tmp(mp) + ", "@ + typed_operand(kv) + ", "@
                                                + typed_operand(vv) + ")"@,
                                        ),
                                    )
                                },
                            }
                        },
                    }
                },
            }
        },
        _ => (Err(CodegenErrorView::MemoryAllocationFailed), st),
    }
}


/// Compiles the statements from `i` on in turn.
pub open spec fn gen_stmts(stmts: Seq<Stmt>, i: int, st: GenState) -> GenUnit
    decreases stmts, stmts.len() - i,
{
    if i < 0 || i >= stmts.len() {
        (Ok(()), st)
    } else {
        let r = gen_stmt(stmts[i], st);
        match r.0 {
            Ok(_) => gen_stmts(stmts, i + 1, r.1),
            Err(e) => (Err(e), r.1),
        }
    }
}

/// One action of an error handler: a log passes its value to `log`, a return returns it, a custom
/// action evaluates its expression.
pub open spec fn gen_action(a: ErrorAction, st: GenState) -> GenUnit {
    match a {
        ErrorAction::Log(Some(e)) => {
            let r = gen_expr(e, st);
            match r.0 {
                Err(er) => (Err(er), r.1),
                Ok(v) => (Ok(()), emit(r.1, "  call @log("@ + typed_operand(v) + ")"@)),
            }
        },
        ErrorAction::Log(None) => (Ok(()), emit(st, "  call @log()"@)),
        ErrorAction::Return(Some(e)) => {
            let r = gen_expr(e, st);
            match r.0 {
                Err(er) => (Err(er), r.1),
                Ok(v) => (Ok(()), emit(r.1, "  ret "@ + v.llvm_type + " "@ + v.value_id)),
            }
        },
        ErrorAction::Return(None) => (Ok(()), emit(st, "  ret void"@)),
        ErrorAction::Custom(e) => {
            let r = gen_expr(e, st);
            match r.0 {
                Err(er) => (Err(er), r.1),
                Ok(_) => (Ok(()), r.1),
            }
        },
    }
}

/// The actions of an error handler from `i` on, in turn.
pub open spec fn gen_handler(actions: Seq<ErrorAction>, i: int, st: GenState) -> GenUnit
    decreases actions.len() - i,
{
    if i < 0 || i >= actions.len() {
        (Ok(()), st)
    } else {
        let r = gen_action(actions[i], st);
        match r.0 {
            Ok(_) => gen_handler(actions, i + 1, r.1),
            Err(e) => (Err(e), r.1),
        }
    }
}

/// The name and type of each parameter.
pub open spec fn param_info(params: Seq<Parameter>) -> Seq<(Seq<char>, IType)> {
    params.map_values(|p: Parameter| (p.name@, cg_infer(p.type_@)))
}

/// A parameter in a function's header: its LLVM type and name.
pub open spec fn param_decl(p: (Seq<char>, IType)) -> Seq<char> {
    cg_llvm(p.1) + " %"@ + p.0
}

/// The parameters bound as variables, each named by its own operand.
pub open spec fn bind_param_vars(st: GenState, info: Seq<(Seq<char>, IType)>) -> GenState
    decreases info.len(),
{
    if info.len() == 0 {
        st
    } else {
        let p = info.last();
        define_var(bind_param_vars(st, info.drop_last()), p.0, value(p.1, cg_llvm(p.1), "%"@ + p.0))
    }
}

/// The field types an object definition records, bound in order.
pub open spec fn object_field_types(fields: Seq<Field>) -> Seq<(Seq<char>, IType)>
    decreases fields.len(),
{
    if fields.len() == 0 {
        Seq::empty()
    } else {
        let f = fields.last();
        assoc_insert(object_field_types(fields.drop_last()), f.name@, cg_infer(f.type_@))
    }
}

/// An object definition: its struct type is emitted and its name bound to it.
pub open spec fn gen_object(name: Seq<char>, fields: Seq<Field>, st: GenState) -> GenState {
    let line = "%struct."@ + name + " = type { "@ + join(fields.map_values(|f: Field| cg_llvm(cg_infer(f.type_@))), ", "@)
        + " }"@;
    let obj = IType::Object {
        name,
        fields: object_field_types(fields),
        methods: Seq::empty(),
        is_actor: false,
        is_store: false,
    };
    define_var(emit(st, line), name, value(obj, cg_llvm(obj), "%struct."@ + name))
}

/// The IR of a statement.
pub open spec fn gen_stmt(s: Stmt, st: GenState) -> GenUnit
    decreases s, 1nat,
{
    match s.kind {
        StmtKind::Function { .. } => gen_function(s, st),
        StmtKind::Assignment { target, value: v } => {
            let r = gen_expr(v, st);
            match r.0 {
                Err(e) => (Err(e), r.1),
                Ok(vv) => match target.kind {
                    ExprKind::Identifier(n) => {
                        let (t, s1) = new_temp(r.1);
                        let s2 = emit(s1, "  "@ + tmp(t) + " = alloca "@ + vv.llvm_type);
                        let s3 = emit(s2, "  store "@ + vv.llvm_type + " "@ + vv.value_id + ", "@ + vv.llvm_type + "* "@ + tmp(t));
                        (Ok(()), define_var(s3, n@, value(vv.type_info, vv.llvm_type + "*"@, tmp(t))))
                    },
                    _ => (Err(CodegenErrorView::UnsupportedFeature("Complex assignment targets not yet supported"@)), r.1),
                },
            }
        },
        StmtKind::Expression(e) => {
            let r = gen_expr(e, st);
            match r.0 {
                Err(er) => (Err(er), r.1),
                Ok(_) => (Ok(()), r.1),
            }
        },
        StmtKind::Return(v) => match v {
            Some(e) => {
                let r = gen_expr(e, st);
                match r.0 {
                    Err(er) => (Err(er), r.1),
                    Ok(rv) => (Ok(()), emit(r.1, "  ret "@ + rv.llvm_type + " "@ + rv.value_id)),
                }
            },
            None => (Ok(()), emit(st, "  ret void"@)),
        },
        StmtKind::Object { name, fields, .. } => (Ok(()), gen_object(name@, fields@, st)),
        StmtKind::Store { .. } => (Err(CodegenErrorView::UnsupportedFeature("Store definitions not yet implemented"@)), st),
        StmtKind::Actor { .. } => (Err(CodegenErrorView::UnsupportedFeature("Actor definitions not yet implemented"@)), st),
        StmtKind::ErrorHandler { handler, inner } => {
            let r = gen_stmt(*inner, st);
            match r.0 {
                Err(er) => (Err(er), r.1),
                Ok(_) => gen_handler(handler.actions@, 0, r.1),
            }
        },
        StmtKind::If { .. } => gen_if_stmt(s, st),
        StmtKind::While { .. } | StmtKind::Until { .. } => gen_loop(s, st),
        StmtKind::Unless { .. } => gen_unless(s, st),
        StmtKind::Iterate { .. } => gen_iterate(s, st),
        StmtKind::Import { module, .. } => (Ok(()), GenState { imports: st.imports.push(module@), ..st }),
        StmtKind::Break => (Ok(()), emit(st, "  br label %L_break"@)),
        StmtKind::Continue => (Ok(()), emit(st, "  br label %L_continue"@)),
        _ => (Err(CodegenErrorView::UnsupportedFeature("Statement type not implemented: "@ + stmt_kind_debug(s.kind))), st),
    }
}

/// A function definition: its header, its parameters bound in a new scope for its body, an
/// implicit `ret void` for a unit function; afterwards the function is bound to its name.
pub open spec fn gen_function(s: Stmt, st: GenState) -> GenUnit
    decreases s, 0nat,
{
    match s.kind {
        StmtKind::Function { name, params, return_type, body } => {
            let info = param_info(params@);
            let ret = match return_type {
                Some(t) => cg_infer(t@),
                None => IType::Unit,
            };
            let rl = cg_llvm(ret);
            let s1 = emit(st, "define "@ + rl + " @"@ + name@ + "("@ + join(info.map_values(|p: (Seq<char>, IType)| param_decl(p)), ", "@) + ") {"@);
            let b = gen_stmts(body@, 0, bind_param_vars(s1, info));
            match b.0 {
                Err(er) => (Err(er), b.1),
                Ok(_) => {
                    let s2 = if ret is Unit {
                        emit(b.1, "  ret void"@)
                    } else {
                        b.1
                    };
                    let s3 = emit(s2, "}"@);
                    (
                        Ok(()),
                        define_fun(
                            GenState { vars: st.vars, funs: st.funs, ..s3 },
                            name@,
                            LFunction { name: name@, parameters: info, return_type: ret, body: Seq::empty() },
                        ),
                    )
                },
            }
        },
        _ => (Err(CodegenErrorView::MemoryAllocationFailed), st),
    }
}

pub open spec fn gen_if_stmt(s: Stmt, st: GenState) -> GenUnit
    decreases s, 0nat,
{
    match s.kind {
        StmtKind::If { condition, then_branch, else_branch } => {
            let c = gen_expr(condition, st);
            match c.0 {
                Err(er) => (Err(er), c.1),
                Ok(cv) => {
                    let (tl, s1) = new_label(c.1);
                    let (el, s2) = new_label(s1);
                    let (ml, s3) = new_label(s2);
                    let s4 = emit(emit(s3, "  br i1 "@ + cv.value_id + ", "@ + lbl(tl) + ", "@ + lbl(el)), block(tl));
                    let t = gen_stmts(then_branch@, 0, s4);
                    match t.0 {
                        Err(er) => (Err(er), t.1),
                        Ok(_) => {
                            let s5 = emit(emit(t.1, "  br "@ + lbl(ml)), block(el));
                            let e: GenUnit = match else_branch {
                                Some(eb) => gen_stmts(eb@, 0, s5),
                                None => (Ok(()), s5),
                            };
                            match e.0 {
                                Err(er) => (Err(er), e.1),
                                Ok(_) => (Ok(()), emit(emit(e.1, "  br "@ + lbl(ml)), block(ml))),
                            }
                        },
                    }
                },
            }
        },
        _ => (Err(CodegenErrorView::MemoryAllocationFailed), st),
    }
}

/// `while` and `until` loops: a header that tests the condition, the body, and the exit.
pub open spec fn gen_loop(s: Stmt, st: GenState) -> GenUnit
    decreases s, 0nat,
{
    let (condition, body, until) = match s.kind {
        StmtKind::While { condition, body } => (condition, body, false),
        StmtKind::Until { condition, body } => (condition, body, true),
        _ => (arbitrary(), arbitrary(), false),
    };
    if !(s.kind is While || s.kind is Until) {
        (Err(CodegenErrorView::MemoryAllocationFailed), st)
    } else {
        let (hl, s1) = new_label(st);
        let (bl, s2) = new_label(s1);
        let (el, s3) = new_label(s2);
        let s4 = emit(emit(s3, "  br "@ + lbl(hl)), block(hl));
        let c = gen_expr(condition, s4);
        match c.0 {
            Err(er) => (Err(er), c.1),
            Ok(cv) => {
                let branch = if until {
                    "  br i1 "@ + cv.value_id + ", "@ + lbl(el) + ", "@ + lbl(bl)
                } else {
                    "  br i1 "@ + cv.value_id + ", "@ + lbl(bl) + ", "@ + lbl(el)
                };
                let b = gen_stmts(body@, 0, emit(emit(c.1, branch), block(bl)));
                match b.0 {
                    Err(er) => (Err(er), b.1),
                    Ok(_) => (Ok(()), emit(emit(b.1, "  br "@ + lbl(hl)), block(el))),
                }
            },
        }
    }
}

/// `unless`: the body runs when the condition is false.
pub open spec fn gen_unless(s: Stmt, st: GenState) -> GenUnit
    decreases s, 0nat,
{
    match s.kind {
        StmtKind::Unless { condition, body } => {
            let c = gen_expr(condition, st);
            match c.0 {
                Err(er) => (Err(er), c.1),
                Ok(cv) => {
                    let (tl, s1) = new_label(c.1);
                    let (ml, s2) = new_label(s1);
                    let s3 = emit(emit(s2, "  br i1 "@ + cv.value_id + ", "@ + lbl(ml) + ", "@ + lbl(tl)), block(tl));
                    let b = gen_stmts(body@, 0, s3);
                    match b.0 {
                        Err(er) => (Err(er), b.1),
                        Ok(_) => (Ok(()), emit(emit(b.1, "  br "@ + lbl(ml)), block(ml))),
                    }
                },
            }
        },
        _ => (Err(CodegenErrorView::MemoryAllocationFailed), st),
    }
}

/// The loop over a list that `iterate` sets up, up to loading the current element.
pub open spec fn iterate_lines(v: LValue, et: IType, hl: usize, bl: usize, el: usize, st: GenState) -> GenState {
    let elt = cg_llvm(et);
    let size = type_size(et);
    let lp = trim_start(v.value_id, '%');
    let (dg, s1) = new_temp(st);
    let s2 = emit(s1, field_gep(dg, "%coral.list"@, lp, "0"@));
    let (cd, s3) = new_temp(s2);
    let s4 = emit(s3, "  "@ + tmp(cd) + " = load i8*, i8** "@ + tmp(dg));
    let (lg, s5) = new_temp(s4);
    let s6 = emit(s5, field_gep(lg, "%coral.list"@, lp, "1"@));
    let (ll, s7) = new_temp(s6);
    let s8 = emit(s7, "  "@ + tmp(ll) + " = load i64, i64* "@ + tmp(lg));
    let (ca, s9) = new_temp(s8);
    let s10 = emit(emit(s9, "  "@ + tmp(ca) + " = alloca i64"@), "  store i64 0, i64* "@ + tmp(ca));
    let s11 = emit(emit(s10, "  br "@ + lbl(hl)), block(hl));
    let (cc, s12) = new_temp(s11);
    let s13 = emit(s12, "  "@ + tmp(cc) + " = load i64, i64* "@ + tmp(ca));
    let (lc, s14) = new_temp(s13);
    let s15 = emit(s14, "  "@ + tmp(lc) + " = icmp slt i64 "@ + tmp(cc) + ", "@ + tmp(ll));
    let s16 = emit(emit(s15, "  br i1 "@ + tmp(lc) + ", "@ + lbl(bl) + ", "@ + lbl(el)), block(bl));
    let (off, s17) = new_temp(s16);
    let s18 = emit(s17, "  "@ + tmp(off) + " = mul i64 "@ + tmp(cc) + ", "@ + num(size));
    let (ep, s19) = new_temp(s18);
    let s20 = emit(s19, "  "@ + tmp(ep) + " = getelementptr inbounds i8, i8* "@ + tmp(cd) + ", i64 "@ + tmp(off));
    let (ce, s21) = new_temp(s20);
    let s22 = emit(s21, "  "@ + tmp(ce) + " = bitcast i8* "@ + tmp(ep) + " to "@ + elt + "*"@);
    let (le, s23) = new_temp(s22);
    emit(s23, "  "@ + tmp(le) + " = load "@ + elt + ", "@ + elt + "* "@ + tmp(ce))
}

/// `iterate`: over a list it sets up the loop; either way it ends with the exit label.
pub open spec fn gen_iterate(s: Stmt, st: GenState) -> GenUnit
    decreases s, 0nat,
{
    match s.kind {
        StmtKind::Iterate { iterable, .. } => {
            let v = gen_expr(iterable, st);
            match v.0 {
                Err(er) => (Err(er), v.1),
                Ok(vv) => {
                    let (hl, s1) = new_label(v.1);
                    let (bl, s2) = new_label(s1);
                    let (el, s3) = new_label(s2);
                    let s4 = match vv.type_info {
                        IType::List(et) => iterate_lines(vv, *et, hl, bl, el, s3),
                        _ => s3,
                    };
                    (Ok(()), emit(s4, block(el)))
                },
            }
        },
        _ => (Err(CodegenErrorView::MemoryAllocationFailed), st),
    }
}

/// The lines a module starts with: target, the list and map types, the runtime's functions.
pub open spec fn prelude_lines() -> Seq<Seq<char>> {
    seq![
        "target triple = \"x86_64-unknown-linux-gnu\""@,
        "%coral.list = type { i8*, i64, i64 }"@,
        "%coral.map = type { i8*, i64, i64 }"@,
        ""@,
        "declare i32 @printf(i8*, ...)"@,
        "declare i32 @puts(i8*)"@,
        "declare i8* @malloc(i64)"@,
        "declare i8* @realloc(i8*, i64)"@,
        "declare i8* @map_create(i64, i64)"@,
        "declare void @map_insert(i8*, i8*, i8*)"@,
        ""@,
    ]
}

/// The lines a module ends with: a `main` that returns 0.
pub open spec fn main_lines() -> Seq<Seq<char>> {
    seq!["define i32 @main() {"@, "  ret i32 0"@, "}"@]
}

/// A whole program: the prelude, its statements, and `main`; the IR is its lines joined.
pub open spec fn gen_program(stmts: Seq<Stmt>, st: GenState) -> (Result<Seq<char>, CodegenErrorView>, GenState) {
    let s1 = GenState { lines: st.lines + prelude_lines(), ..st };
    let r = gen_stmts(stmts, 0, s1);
    match r.0 {
        Err(er) => (Err(er), r.1),
        Ok(_) => {
            let s2 = GenState { lines: r.1.lines + main_lines(), ..r.1 };
            (Ok(join(s2.lines, "\n"@)), s2)
        },
    }
}


/// The instruction and result type of a unary operation on an operand of the given type.
pub open spec fn unary_instruction(op: UnaryOp, t: IType) -> Result<(Seq<char>, IType), CodegenErrorView> {
    match op {
        UnaryOp::Neg => match t {
            IType::Int => Ok(("sub"@, IType::Int)),
            IType::Float => Ok(("fsub"@, IType::Float)),
            _ => Err(CodegenErrorView::InvalidOperation("Numeric negation requires numeric type"@)),
        },
        UnaryOp::Not => if t is Bool {
            Ok(("xor"@, IType::Bool))
        } else {
            Err(CodegenErrorView::InvalidOperation("Logical NOT requires boolean type"@))
        },
        UnaryOp::BitNot => if t is Int {
            Ok(("xor"@, IType::Int))
        } else {
            Err(CodegenErrorView::InvalidOperation("Bitwise NOT requires integer type"@))
        },
    }
}

/// The constant a unary operation combines its operand with.
pub open spec fn unary_constant(t: IType) -> Option<Seq<char>> {
    match t {
        IType::Int => Some("0"@),
        IType::Float => Some("0.0"@),
        IType::Bool => Some("true"@),
        _ => None,
    }
}

/// A unary operation: negation subtracts from zero, the two nots are exclusive ors.
pub open spec fn gen_unary(op: UnaryOp, operand: Expr, st: GenState) -> Gen {
    let o = gen_expr(operand, st);
    match o.0 {
        Err(er) => (Err(er), o.1),
        Ok(ov) => {
            let (t, s1) = new_temp(o.1);
            match unary_instruction(op, ov.type_info) {
                Err(er) => (Err(er), s1),
                Ok((instr, rt)) => match unary_constant(ov.type_info) {
                    None => (Err(CodegenErrorView::InvalidOperation("Unsupported type for unary operation"@)), s1),
                    Some(zero) => {
                        let lt = cg_llvm(ov.type_info);
                        (
                            Ok(value(rt, lt, tmp(t))),
                            emit(s1, "  "@ + tmp(t) + " = "@ + instr + " "@ + lt + " "@ + zero + ", "@ + ov.value_id),
                        )
                    },
                },
            }
        },
    }
}

/// The state a new generator starts in: nothing emitted, and `log` known as a function.
pub open spec fn initial_state() -> GenState {
    GenState {
        lines: Seq::empty(),
        temp: 0,
        label: 0,
        vars: |n: Seq<char>| None,
        funs: |n: Seq<char>|
            if n == "log"@ {
                Some(LFunction { name: "log"@, parameters: seq![("message"@, IType::String)], return_type: IType::Unit, body: Seq::empty() })
            } else {
                None
            },
        imports: Seq::empty(),
    }
}

} // verus!
