use vstd::prelude::*;
use crate::ast::{Literal, Type, Expr, ExprKind, Argument, BinaryOp, UnaryOp, Stmt, StmtKind, Field, ErrorAction, Program};
use crate::resolver::types::{copy_itype, copy_members, members_view, lemma_members_view, insert_member};
use super::CodegenError;
use super::CodegenErrorView;
use crate::text::{push_char, push_decimal, push_decimal_wide, push_signed_decimal, decimal};
use crate::lexer::collect_chars;
use crate::resolver::types::{InferType, IType, itypes_view};
use super::symbols::{SymbolTable, LLVMValue, LLVMFunction, LValue, LFunction};
use super::gen_spec::{GenState, num, tmp, lbl, block, emit, new_temp, new_label, value, cg_infer, cg_llvm, cg_llvms, type_size, hex_digit, hex_digits, double_text, utf8_len, gen_literal, trim_start, trim_end, trim_prefix, field_gep, gen_expr, gen_values, gen_function_call, gen_external_call, class_name, gen_action, gen_handler, inst_fields, list_elements, append_lines, map_entries, lookup_object, typed_operand, typed_operands, binary_instruction, debug_expr_kind, gen_stmt, gen_stmts, param_info, param_decl, bind_param_vars, object_field_types, gen_object, gen_function, gen_if_stmt, gen_loop, gen_unless, gen_iterate, iterate_lines, define_var, define_fun, debug_stmt_kind, gen_unary, initial_state, gen_program, prelude_lines, main_lines};

verus! {

/// Generates LLVM IR text for a program, one line at a time.
pub struct LLVMCodegen {
    module_name: String,
    symbols: SymbolTable,
    ir_output: Vec<String>,
    next_label_id: usize,
    next_temp_id: usize,
    imported_modules: Vec<String>,
}

/// Appends `n` to `s` in decimal.
pub(crate) fn push_num(s: &mut String, n: usize)
    ensures
        final(s)@ == old(s)@ + num(n),
{
    push_decimal(s, n as u64);
}

/// Appends the operand `%n` to `s`.
pub(crate) fn push_tmp(s: &mut String, n: usize)
    ensures
        final(s)@ == old(s)@ + tmp(n),
{
    let ghost before = s@;
    s.append("%");
    push_num(s, n);
    assert(s@ =~= before + tmp(n));
}

/// The line that starts the block of label `n`.
pub(crate) fn block_line(n: usize) -> (r: String)
    ensures
        r@ == block(n),
{
    let mut s = String::from_str("L");
    push_num(&mut s, n);
    s.append(":");
    assert(s@ =~= block(n));
    s
}

/// The line that jumps to label `n`.
pub(crate) fn br_line(n: usize) -> (r: String)
    ensures
        r@ == "  br "@ + lbl(n),
{
    let mut s = String::from_str("  br ");
    s.append("label %L");
    push_num(&mut s, n);
    assert(s@ =~= "  br "@ + lbl(n));
    s
}

/// The line that computes the address of a field of a list or map header.
pub(crate) fn gep_line(t: usize, kind: &str, base: &str, index: &str) -> (r: String)
    ensures
        r@ == field_gep(t, kind@, base@, index@),
{
    let mut s = String::from_str("  ");
    push_tmp(&mut s, t);
    s.append(" = getelementptr inbounds ");
    s.append(kind);
    s.append(", ");
    s.append(kind);
    s.append("* %");
    s.append(base);
    s.append(", i32 0, i32 ");
    s.append(index);
    assert(s@ =~= field_gep(t, kind@, base@, index@));
    s
}

/// The characters of `cs` from `from` on, as a string.
fn string_from(cs: &Vec<char>, from: usize, to: usize) -> (r: String)
    requires
        from <= to <= cs.len(),
    ensures
        r@ == cs@.subrange(from as int, to as int),
{
    let mut s = String::new();
    let mut i = from;
    while i < to
        invariant
            from <= i <= to <= cs.len(),
            s@ == cs@.subrange(from as int, i as int),
        decreases to - i,
    {
        push_char(&mut s, cs[i]);
        i = i + 1;
        assert(s@ =~= cs@.subrange(from as int, i as int));
    }
    s
}

/// `s` without the copies of `c` it starts with (`trim_start_matches`).
pub fn trim_start_char(s: &str, c: char) -> (r: String)
    ensures
        r@ == trim_start(s@, c),
{
    let cs = collect_chars(s);
    let mut i: usize = 0;
    assert(s@.skip(0) =~= s@);
    while i < cs.len() && cs[i] == c
        invariant
            i <= cs.len(),
            cs@ == s@,
            trim_start(s@, c) == trim_start(s@.skip(i as int), c),
        decreases cs.len() - i,
    {
        assert(s@.skip(i as int).drop_first() =~= s@.skip(i + 1));
        i = i + 1;
    }
    assert(s@.skip(i as int) =~= s@.subrange(i as int, s@.len() as int));
    string_from(&cs, i, cs.len())
}

/// `s` without the copies of `c` it ends with (`trim_end_matches`).
pub fn trim_end_char(s: &str, c: char) -> (r: String)
    ensures
        r@ == trim_end(s@, c),
{
    let cs = collect_chars(s);
    let mut j: usize = cs.len();
    assert(s@.take(cs.len() as int) =~= s@);
    while j > 0 && cs[j - 1] == c
        invariant
            j <= cs.len(),
            cs@ == s@,
            trim_end(s@, c) == trim_end(s@.take(j as int), c),
        decreases j,
    {
        assert(s@.take(j as int).drop_last() =~= s@.take(j - 1));
        j = j - 1;
    }
    assert(s@.take(j as int) =~= s@.subrange(0, j as int));
    string_from(&cs, 0, j)
}

/// `s` without the copies of the text `p` it starts with (`trim_start_matches` with a text).
pub fn trim_prefix_text(s: &str, p: &str) -> (r: String)
    ensures
        r@ == trim_prefix(s@, p@),
{
    let cs = collect_chars(s);
    let ps = collect_chars(p);
    let mut i: usize = 0;
    assert(s@.skip(0) =~= s@);
    loop
        invariant
            i <= cs.len(),
            cs@ == s@,
            ps@ == p@,
            trim_prefix(s@, p@) == trim_prefix(s@.skip(i as int), p@),
        ensures
            i <= cs.len(),
            cs@ == s@,
            trim_prefix(s@, p@) == s@.skip(i as int),
        decreases cs.len() - i,
    {
        if ps.len() == 0 || ps.len() > cs.len() - i {
            break;
        }
        let mut k: usize = 0;
        let mut same = true;
        while k < ps.len()
            invariant
                k <= ps.len(),
                ps.len() <= cs.len() - i,
                cs@ == s@,
                ps@ == p@,
                same == (forall|m: int| 0 <= m < k ==> #[trigger] cs@[i + m] == ps@[m]),
            decreases ps.len() - k,
        {
            if cs[i + k] != ps[k] {
                same = false;
            }
            k = k + 1;
        }
        let ghost rest = s@.skip(i as int);
        if same {
            assert forall|m: int| 0 <= m < p@.len() implies #[trigger] rest.take(p@.len() as int)[m] == p@[m] by {
                assert(cs@[i + m] == ps@[m]);
            }
            assert(rest.take(p@.len() as int) =~= p@);
            assert(rest.skip(p@.len() as int) =~= s@.skip(i + ps.len()));
            i = i + ps.len();
        } else {
            proof {
                let m = choose|m: int| 0 <= m < ps.len() && cs@[i + m] != ps@[m];
                assert(rest.take(p@.len() as int)[m] != p@[m]);
            }
            break;
        }
    }
    assert(s@.skip(i as int) =~= s@.subrange(i as int, s@.len() as int));
    string_from(&cs, i, cs.len())
}

/// The number of bytes `s` takes in UTF-8.
pub fn utf8_length(s: &str) -> (n: u128)
    ensures
        n == utf8_len(s@),
        n <= 4 * (usize::MAX as u128),
{
    let cs = collect_chars(s);
    let mut n: u128 = 0;
    let mut i: usize = 0;
    while i < cs.len()
        invariant
            i <= cs.len(),
            cs@ == s@,
            n == utf8_len(s@.take(i as int)),
            n <= 4 * i,
        decreases cs.len() - i,
    {
        let c = cs[i];
        let w: u128 = if (c as u32) < 0x80 {
            1
        } else if (c as u32) < 0x800 {
            2
        } else if (c as u32) < 0x10000 {
            3
        } else {
            4
        };
        assert(s@.take(i + 1).drop_last() =~= s@.take(i as int));
        n = n + w;
        i = i + 1;
    }
    assert(s@.take(i as int) =~= s@);
    n
}

/// Appends the last `n` hexadecimal digits of `v` to `s`.
fn push_hex(s: &mut String, v: u64, n: u64)
    ensures
        final(s)@ == old(s)@ + hex_digits(v as nat, n as nat),
    decreases n,
{
    if n > 0 {
        push_hex(s, v / 16, n - 1);
        let d: u64 = v % 16;
        let c: char = if d < 10 {
            ((48u8 + (d as u8)) as char)
        } else {
            ((55u8 + (d as u8)) as char)
        };
        assert(c == hex_digit(d as nat));
        push_char(s, c);
        assert(final(s)@ =~= old(s)@ + hex_digits(v as nat, n as nat));
    } else {
        assert(hex_digits(v as nat, 0) =~= Seq::<char>::empty());
        assert(final(s)@ =~= old(s)@ + hex_digits(v as nat, n as nat));
    }
}

impl LLVMCodegen {
    /// What generation has done: the lines, the counters and the names in scope.
    pub closed spec fn state(self) -> GenState {
        GenState {
            lines: self.ir_output@.map_values(|l: String| l@),
            temp: self.next_temp_id,
            label: self.next_label_id,
            vars: |n: Seq<char>| self.symbols.variable_spec(n),
            funs: |n: Seq<char>| self.symbols.function_spec(n),
            imports: self.imported_modules@.map_values(|m: String| m@),
        }
    }

    /// The name of the module being generated.
    pub closed spec fn module(self) -> Seq<char> {
        self.module_name@
    }

    /// Adds a line of IR.
    pub fn emit(&mut self, line: &str)
        ensures
            final(self).state() == emit(old(self).state(), line@),
            final(self).module() == old(self).module(),
    {
        let ghost before = self.ir_output@.map_values(|l: String| l@);
        self.ir_output.push(line.to_owned());
        assert(self.ir_output@.map_values(|l: String| l@) =~= before.push(line@));
        assert(self.state() =~= emit(old(self).state(), line@));
    }

    /// A fresh temporary number.
    pub fn next_temp(&mut self) -> (id: usize)
        ensures
            (id, final(self).state()) == new_temp(old(self).state()),
            final(self).module() == old(self).module(),
    {
        let id = self.next_temp_id;
        self.next_temp_id = if self.next_temp_id == usize::MAX { 0 } else { self.next_temp_id + 1 };
        assert(self.state() =~= new_temp(old(self).state()).1);
        id
    }

    /// A fresh label number.
    pub fn next_label(&mut self) -> (id: usize)
        ensures
            (id, final(self).state()) == new_label(old(self).state()),
            final(self).module() == old(self).module(),
    {
        let id = self.next_label_id;
        self.next_label_id = if self.next_label_id == usize::MAX { 0 } else { self.next_label_id + 1 };
        assert(self.state() =~= new_label(old(self).state()).1);
        id
    }

    /// The size in bytes of a value of a type.
    pub fn get_type_size(&self, infer_type: &InferType) -> (n: usize)
        ensures
            n == type_size(infer_type@),
    {
        match infer_type {
            InferType::Int => 8,
            InferType::Float => 8,
            InferType::Bool => 1,
            InferType::String => 8,
            InferType::List(_) => 24,
            InferType::MapOf(_, _) => 24,
            InferType::Object { .. } => 8,
            _ => 0,
        }
    }

    /// The type code generation reads off a written type.
    pub fn ast_type_to_infer_type(&self, ast_type: &Type) -> (t: InferType)
        ensures
            t@ == cg_infer(ast_type@),
    {
        match ast_type {
            Type::I32 | Type::I64 => InferType::Int,
            Type::F32 | Type::F64 => InferType::Float,
            Type::String => InferType::String,
            Type::Bool => InferType::Bool,
            Type::Unit => InferType::Unit,
            _ => InferType::Unknown,
        }
    }

    /// The LLVM type that holds a value of a type.
    #[verifier::loop_isolation(false)]
    pub fn infer_type_to_llvm_type(&self, infer_type: &InferType) -> (s: String)
        ensures
            s@ == cg_llvm(infer_type@),
        decreases infer_type,
    {
        match infer_type {
            InferType::Int => String::from_str("i64"),
            InferType::Float => String::from_str("double"),
            InferType::Bool => String::from_str("i1"),
            InferType::String => String::from_str("i8*"),
            InferType::Unit => String::from_str("void"),
            InferType::List(_) => String::from_str("%coral.list*"),
            InferType::MapOf(_, _) => String::from_str("%coral.map*"),
            InferType::Object { name, .. } => {
                let mut s = String::from_str("%struct.");
                s.append(name.as_str());
                s.append("*");
                s
            },
            InferType::Function { params, return_type, .. } => {
                let ghost pv = itypes_view(params@);
                proof {
                    crate::resolver::types::lemma_itypes_view(params@);
                }
                let mut s = self.infer_type_to_llvm_type(return_type);
                let ghost head = s@;
                s.append("(");
                let mut i: usize = 0;
                while i < params.len()
                    invariant
                        i <= params.len(),
                        pv == itypes_view(params@),
                        pv.len() == params.len(),
                        forall|j: int| 0 <= j < params.len() ==> #[trigger] pv[j] == params@[j]@,
                        s@ == head + "("@ + crate::text::join(cg_llvms(pv.take(i as int)), ", "@),
                    decreases params.len() - i,
                {
                    proof {
                        assert(decreases_to!(params@ => params@[i as int]));
                    }
                    let p = self.infer_type_to_llvm_type(&params[i]);
                    let ghost before = s@;
                    proof {
                        assert(pv.take(i + 1).drop_last() =~= pv.take(i as int));
                        crate::text::lemma_join_push(cg_llvms(pv.take(i as int)), ", "@, p@);
                    }
                    if i > 0 {
                        s.append(", ");
                    }
                    s.append(p.as_str());
                    i = i + 1;
                    assert(s@ =~= head + "("@ + crate::text::join(cg_llvms(pv.take(i as int)), ", "@));
                }
                assert(pv.take(params.len() as int) =~= pv);
                s.append(")");
                s
            },
            _ => String::from_str("i8*"),
        }
    }

    /// The value of a literal; a string literal becomes a global constant. A float is written by
    /// its bits in hexadecimal, a form LLVM reads exactly.
    pub fn compile_literal(&mut self, lit: &Literal) -> (r: Result<LLVMValue, super::CodegenError>)
        ensures
            r is Ok,
            (Ok::<LValue, super::CodegenErrorView>(r->Ok_0@), final(self).state()) == gen_literal(*lit, old(self).state()),
            final(self).module() == old(self).module(),
    {
        match lit {
            Literal::Integer(v) => {
                let mut id = String::new();
                push_signed_decimal(&mut id, *v);
                assert(id@ =~= crate::text::signed_decimal(*v as int));
                Ok(LLVMValue { type_info: InferType::Int, llvm_type: String::from_str("i64"), value_id: id })
            },
            Literal::Float(bits) => {
                let mut id = String::from_str("0x");
                push_hex(&mut id, *bits, 16);
                assert(id@ =~= double_text(*bits));
                Ok(LLVMValue { type_info: InferType::Float, llvm_type: String::from_str("double"), value_id: id })
            },
            Literal::String(v) => {
                let temp_id = self.next_temp();
                let size = utf8_length(v.as_str()) + 1;
                let mut line = String::from_str("@.str");
                push_num(&mut line, temp_id);
                line.append(" = private constant [");
                push_decimal_wide(&mut line, size);
                line.append(" x i8] c\"");
                line.append(v.as_str());
                line.append("\\00\"");
                self.emit(line.as_str());
                let mut id = String::from_str("getelementptr ([");
                push_decimal_wide(&mut id, size);
                id.append(" x i8], [");
                push_decimal_wide(&mut id, size);
                id.append("*] @.str");
                push_num(&mut id, temp_id);
                id.append(", i64 0, i64 0)");
                proof {
                    let sz = decimal(utf8_len(v@) + 1);
                    assert(line@ =~= "@.str"@ + num(temp_id) + " = private constant ["@ + sz + " x i8] c\""@ + v@ + "\\00\""@);
                    assert(id@ =~= "getelementptr (["@ + sz + " x i8], ["@ + sz + "*] @.str"@ + num(temp_id) + ", i64 0, i64 0)"@);
                }
                Ok(LLVMValue { type_info: InferType::String, llvm_type: String::from_str("i8*"), value_id: id })
            },
            Literal::Bool(b) => Ok(
                LLVMValue {
                    type_info: InferType::Bool,
                    llvm_type: String::from_str("i1"),
                    value_id: if *b { String::from_str("true") } else { String::from_str("false") },
                },
            ),
            Literal::Unit => Ok(LLVMValue { type_info: InferType::Unit, llvm_type: String::from_str("void"), value_id: String::new() }),
            Literal::No | Literal::Null | Literal::Empty => Ok(
                LLVMValue { type_info: InferType::Unknown, llvm_type: String::from_str("i8*"), value_id: String::from_str("null") },
            ),
            Literal::Yes => Ok(LLVMValue { type_info: InferType::Bool, llvm_type: String::from_str("i1"), value_id: String::from_str("true") }),
            Literal::Now => Ok(LLVMValue { type_info: InferType::Int, llvm_type: String::from_str("i64"), value_id: String::from_str("0") }),
            Literal::Error => Ok(
                LLVMValue { type_info: InferType::Unknown, llvm_type: String::from_str("i8*"), value_id: String::from_str("null") },
            ),
        }
    }
}


pub open spec fn gen_result(r: Result<LLVMValue, CodegenError>) -> Result<LValue, CodegenErrorView> {
    match r {
        Ok(v) => Ok(v@),
        Err(e) => Err(e@),
    }
}

pub open spec fn lvalues(vs: Seq<LLVMValue>) -> Seq<LValue> {
    vs.map_values(|v: LLVMValue| v@)
}

pub open spec fn values_result(r: Result<Vec<LLVMValue>, CodegenError>) -> Result<Seq<LValue>, CodegenErrorView> {
    match r {
        Ok(vs) => Ok(lvalues(vs@)),
        Err(e) => Err(e@),
    }
}

/// A value typed for a call: `type operand`.
fn typed_operand_text(v: &LLVMValue) -> (s: String)
    ensures
        s@ == typed_operand(v@),
{
    let mut s = v.llvm_type.clone();
    s.append(" ");
    s.append(v.value_id.as_str());
    s
}

/// The values typed for a call, separated by commas.
fn operand_list(vs: &Vec<LLVMValue>) -> (s: String)
    ensures
        s@ == crate::text::join(typed_operands(lvalues(vs@)), ", "@),
{
    let ghost all = typed_operands(lvalues(vs@));
    let mut s = String::new();
    let mut i: usize = 0;
    while i < vs.len()
        invariant
            i <= vs.len(),
            all == typed_operands(lvalues(vs@)),
            s@ == crate::text::join(all.take(i as int), ", "@),
        decreases vs.len() - i,
    {
        let t = typed_operand_text(&vs[i]);
        proof {
            assert(all.take(i + 1).drop_last() =~= all.take(i as int));
            assert(all[i as int] == t@);
            crate::text::lemma_join_push(all.take(i as int), ", "@, t@);
            assert(all.take(i as int).push(t@) =~= all.take(i + 1));
        }
        if i > 0 {
            s.append(", ");
        }
        s.append(t.as_str());
        i = i + 1;
    }
    assert(all.take(vs.len() as int) =~= all);
    s
}

fn val(type_info: InferType, llvm_type: &str, id: String) -> (v: LLVMValue)
    ensures
        v@ == value(type_info@, llvm_type@, id@),
{
    LLVMValue { type_info, llvm_type: String::from_str(llvm_type), value_id: id }
}

fn tmp_text(n: usize) -> (s: String)
    ensures
        s@ == tmp(n),
{
    let mut s = String::new();
    push_tmp(&mut s, n);
    assert(s@ =~= tmp(n));
    s
}

impl LLVMCodegen {
    /// The IR of an expression, and its value.
    pub fn compile_expression(&mut self, expr: &Expr) -> (r: Result<LLVMValue, CodegenError>)
        ensures
            (gen_result(r), final(self).state()) == gen_expr(*expr, old(self).state()),
            final(self).module() == old(self).module(),
        decreases expr, 2nat,
    {
        match &expr.kind {
            ExprKind::Literal(lit) => self.compile_literal(lit),
            ExprKind::Identifier(name) => match self.symbols.lookup_variable(name.as_str()) {
                Some(v) => Ok(v.clone()),
                None => Err(CodegenError::UndefinedVariable(name.clone())),
            },
            ExprKind::Binary { .. } => self.compile_binary_operation(expr),
            ExprKind::Call { .. } => self.compile_call(expr),
            ExprKind::FieldAccess { .. } => self.compile_property_access(expr),
            ExprKind::If { .. } => self.compile_if_expression(expr),
            ExprKind::ListLiteral(_) => self.compile_list_literal(expr),
            ExprKind::ListAppend { .. } => self.compile_list_append(expr),
            ExprKind::MapLiteral(_) => self.compile_map_literal(expr),
            ExprKind::MapInsert { .. } => self.compile_map_insert(expr),
            _ => {
                let mut m = String::from_str("Expression type not implemented: ");
                let d = debug_expr_kind(&expr.kind);
                m.append(d.as_str());
                Err(CodegenError::UnsupportedFeature(m))
            },
        }
    }

    /// The argument values, after those in `acc`.
    #[verifier::loop_isolation(false)]
    fn compile_values(&mut self, args: &Vec<Argument>, acc: Vec<LLVMValue>) -> (r: Result<Vec<LLVMValue>, CodegenError>)
        ensures
            (values_result(r), final(self).state()) == gen_values(args@, 0, lvalues(acc@), old(self).state()),
            final(self).module() == old(self).module(),
        decreases args@, 0nat,
    {
        let ghost goal = gen_values(args@, 0, lvalues(acc@), old(self).state());
        let mut values = acc;
        let mut i: usize = 0;
        while i < args.len()
            invariant
                i <= args.len(),
                goal == gen_values(args@, i as int, lvalues(values@), self.state()),
                self.module() == old(self).module(),
            decreases args.len() - i,
        {
            let v = match self.compile_expression(&args[i].value) {
                Ok(v) => v,
                Err(e) => return Err(e),
            };
            let ghost before = values@;
            values.push(v);
            assert(lvalues(values@) =~= lvalues(before).push(v@));
            i = i + 1;
        }
        Ok(values)
    }

    pub fn compile_binary_operation(&mut self, expr: &Expr) -> (r: Result<LLVMValue, CodegenError>)
        requires
            expr.kind is Binary,
        ensures
            (gen_result(r), final(self).state()) == gen_expr(*expr, old(self).state()),
            final(self).module() == old(self).module(),
        decreases expr, 1nat,
    {
        match &expr.kind {
            ExprKind::Binary { op, left, right } => {
                let left_val = match self.compile_expression(left) {
                    Ok(v) => v,
                    Err(e) => return Err(e),
                };
                let right_val = match self.compile_expression(right) {
                    Ok(v) => v,
                    Err(e) => return Err(e),
                };
                let result_temp = self.next_temp();
                let (instruction, result_type) = match binary_instruction_exec(op, &left_val.type_info, &right_val.type_info) {
                    Ok(p) => p,
                    Err(e) => return Err(e),
                };
                let mut line = String::from_str("  ");
                push_tmp(&mut line, result_temp);
                line.append(" = ");
                line.append(instruction.as_str());
                line.append(" ");
                line.append(left_val.llvm_type.as_str());
                line.append(" ");
                line.append(left_val.value_id.as_str());
                line.append(", ");
                line.append(right_val.value_id.as_str());
                assert(line@ =~= "  "@ + tmp(result_temp) + " = "@ + instruction@ + " "@ + left_val.llvm_type@ + " "@
                    + left_val.value_id@ + ", "@ + right_val.value_id@);
                self.emit(line.as_str());
                Ok(LLVMValue { type_info: result_type, llvm_type: left_val.llvm_type, value_id: tmp_text(result_temp) })
            },
            _ => Err(CodegenError::MemoryAllocationFailed),
        }
    }
}

/// The instruction and result type of a binary operation on operands of the given types.
fn binary_instruction_exec(op: &BinaryOp, l: &InferType, r: &InferType) -> (res: Result<(String, InferType), CodegenError>)
    ensures
        match res {
            Ok((i, t)) => binary_instruction(*op, l@, r@) == Ok::<(Seq<char>, IType), CodegenErrorView>((i@, t@)),
            Err(e) => binary_instruction(*op, l@, r@) == Err::<(Seq<char>, IType), CodegenErrorView>(e@),
        },
{
    let ints = matches!(l, InferType::Int) && matches!(r, InferType::Int);
    let floats = matches!(l, InferType::Float) && matches!(r, InferType::Float);
    match op {
        BinaryOp::Add => if ints {
            Ok((String::from_str("add"), InferType::Int))
        } else if floats {
            Ok((String::from_str("fadd"), InferType::Float))
        } else {
            Err(CodegenError::InvalidOperation(String::from_str("Type mismatch in addition")))
        },
        BinaryOp::Sub => if ints {
            Ok((String::from_str("sub"), InferType::Int))
        } else if floats {
            Ok((String::from_str("fsub"), InferType::Float))
        } else {
            Err(CodegenError::InvalidOperation(String::from_str("Type mismatch in subtraction")))
        },
        BinaryOp::Mul => if ints {
            Ok((String::from_str("mul"), InferType::Int))
        } else if floats {
            Ok((String::from_str("fmul"), InferType::Float))
        } else {
            Err(CodegenError::InvalidOperation(String::from_str("Type mismatch in multiplication")))
        },
        BinaryOp::Eq => Ok((String::from_str("icmp eq"), InferType::Bool)),
        BinaryOp::Ne => Ok((String::from_str("icmp ne"), InferType::Bool)),
        BinaryOp::Lt => if ints {
            Ok((String::from_str("icmp slt"), InferType::Bool))
        } else if floats {
            Ok((String::from_str("fcmp olt"), InferType::Bool))
        } else {
            Err(CodegenError::InvalidOperation(String::from_str("Type mismatch in less than comparison")))
        },
        BinaryOp::Le => if ints {
            Ok((String::from_str("icmp sle"), InferType::Bool))
        } else if floats {
            Ok((String::from_str("fcmp ole"), InferType::Bool))
        } else {
            Err(CodegenError::InvalidOperation(String::from_str("Type mismatch in less than or equal comparison")))
        },
        BinaryOp::Gt => if ints {
            Ok((String::from_str("icmp sgt"), InferType::Bool))
        } else if floats {
            Ok((String::from_str("fcmp ogt"), InferType::Bool))
        } else {
            Err(CodegenError::InvalidOperation(String::from_str("Type mismatch in greater than comparison")))
        },
        BinaryOp::Ge => if ints {
            Ok((String::from_str("icmp sge"), InferType::Bool))
        } else if floats {
            Ok((String::from_str("fcmp oge"), InferType::Bool))
        } else {
            Err(CodegenError::InvalidOperation(String::from_str("Type mismatch in greater than or equal comparison")))
        },
        BinaryOp::And => Ok((String::from_str("and"), InferType::Bool)),
        BinaryOp::Or => Ok((String::from_str("or"), InferType::Bool)),
        BinaryOp::Xor => Ok((String::from_str("xor"), InferType::Bool)),
        BinaryOp::BitAnd => Ok((String::from_str("and"), InferType::Int)),
        BinaryOp::BitOr => Ok((String::from_str("or"), InferType::Int)),
        BinaryOp::BitXor => Ok((String::from_str("xor"), InferType::Int)),
        BinaryOp::Shl => Ok((String::from_str("shl"), InferType::Int)),
        BinaryOp::Shr => Ok((String::from_str("lshr"), InferType::Int)),
        BinaryOp::Div => Err(CodegenError::UnsupportedFeature(String::from_str("Binary operation not implemented: Div"))),
        BinaryOp::Mod => Err(CodegenError::UnsupportedFeature(String::from_str("Binary operation not implemented: Mod"))),
        BinaryOp::Is => Err(CodegenError::UnsupportedFeature(String::from_str("Binary operation not implemented: Is"))),
    }
}


impl LLVMCodegen {
    /// The object type a name stands for, as an instance with no methods.
    pub fn lookup_object_type(&self, name: &str) -> (r: Option<InferType>)
        ensures
            match r {
                Some(t) => lookup_object(self.state(), name@) == Some(t@),
                None => lookup_object(self.state(), name@) is None,
            },
    {
        if let Some(val) = self.symbols.lookup_variable(name) {
            if let InferType::Object { name: obj_name, fields, .. } = &val.type_info {
                if *obj_name == name.to_owned() {
                    let no_methods: Vec<(String, InferType)> = Vec::new();
                    assert(members_view(no_methods@) =~= Seq::<(Seq<char>, IType)>::empty());
                    return Some(
                        InferType::Object {
                            name: obj_name.clone(),
                            fields: copy_members(fields),
                            methods: no_methods,
                            is_actor: false,
                            is_store: false,
                        },
                    );
                }
            }
        }
        None
    }

    /// A call: of an object's name builds an object; of a field is a method call; of a function
    /// name calls the function.
    pub fn compile_call(&mut self, expr: &Expr) -> (r: Result<LLVMValue, CodegenError>)
        requires
            expr.kind is Call,
        ensures
            (gen_result(r), final(self).state()) == gen_expr(*expr, old(self).state()),
            final(self).module() == old(self).module(),
        decreases expr, 1nat,
    {
        match &expr.kind {
            ExprKind::Call { callee, args } => match &callee.kind {
                ExprKind::Identifier(type_or_func) => {
                    if let Some(obj_type) = self.lookup_object_type(type_or_func.as_str()) {
                        self.compile_object_instantiation(args, obj_type)
                    } else {
                        self.compile_function_call(type_or_func, args)
                    }
                },
                ExprKind::FieldAccess { object, field } => {
                    if let ExprKind::Identifier(class) = &object.kind {
                        if self.symbols.lookup_variable(class.as_str()).is_none() {
                            let mut class_func_name = class.clone();
                            class_func_name.append("_");
                            class_func_name.append(field.as_str());
                            assert(class_func_name@ == class_name(**object, old(self).state())->0 + "_"@ + field@);
                            return self.compile_external_call(&class_func_name, args);
                        }
                    }
                    let obj_val = match self.compile_expression(object) {
                        Ok(v) => v,
                        Err(e) => return Err(e),
                    };
                    let trimmed = trim_prefix_text(obj_val.llvm_type.as_str(), "%struct.");
                    let mut method_func_name = trim_end_char(trimmed.as_str(), '*');
                    method_func_name.append("_");
                    method_func_name.append(field.as_str());
                    let ghost ov = obj_val@;
                    let mut first: Vec<LLVMValue> = Vec::new();
                    first.push(obj_val);
                    assert(lvalues(first@) =~= seq![ov]);
                    let arg_values = match self.compile_values(args, first) {
                        Ok(vs) => vs,
                        Err(e) => return Err(e),
                    };
                    let result_temp = self.next_temp();
                    let arg_list = operand_list(&arg_values);
                    let mut line = String::from_str("  ");
                    push_tmp(&mut line, result_temp);
                    line.append(" = call i64 @");
                    line.append(method_func_name.as_str());
                    line.append("(");
                    line.append(arg_list.as_str());
                    line.append(")");
                    assert(line@ =~= "  "@ + tmp(result_temp) + " = call i64 @"@ + method_func_name@ + "("@ + arg_list@ + ")"@);
                    self.emit(line.as_str());
                    Ok(val(InferType::Unknown, "i64", tmp_text(result_temp)))
                },
                _ => Err(CodegenError::UnsupportedFeature(String::from_str("Indirect function calls not yet supported"))),
            },
            _ => Err(CodegenError::MemoryAllocationFailed),
        }
    }

    /// A new object: its struct allocated and each field stored, from the argument at its place
    /// or else its zero.
    #[verifier::loop_isolation(false)]
    pub fn compile_object_instantiation(&mut self, args: &Vec<Argument>, obj_type: InferType) -> (r: Result<
        LLVMValue,
        CodegenError,
    >)
        ensures
            ({
                let (t, s1) = new_temp(old(self).state());
                let lt = cg_llvm(obj_type@);
                let s2 = emit(s1, "  "@ + tmp(t) + " = alloca "@ + lt);
                let fields = match obj_type@ {
                    IType::Object { fields, .. } => fields,
                    _ => Seq::empty(),
                };
                let f = inst_fields(args@, fields, 0, t, lt, s2);
                (gen_result(r), final(self).state()) == match f.0 {
                    Err(er) => (Err(er), f.1),
                    Ok(_) => (Ok(value(obj_type@, lt, tmp(t))), f.1),
                }
            }),
            final(self).module() == old(self).module(),
        decreases args@, 1nat,
    {
        let temp_id = self.next_temp();
        let llvm_type = self.infer_type_to_llvm_type(&obj_type);
        let mut line = String::from_str("  ");
        push_tmp(&mut line, temp_id);
        line.append(" = alloca ");
        line.append(llvm_type.as_str());
        assert(line@ =~= "  "@ + tmp(temp_id) + " = alloca "@ + llvm_type@);
        self.emit(line.as_str());
        if let InferType::Object { fields, .. } = &obj_type {
            let ghost fv = members_view(fields@);
            proof {
                lemma_members_view(fields@);
            }
            let ghost goal = inst_fields(args@, fv, 0, temp_id, llvm_type@, self.state());
            let mut i: usize = 0;
            while i < fields.len()
                invariant
                    i <= fields.len(),
                    fv == members_view(fields@),
                    goal == inst_fields(args@, fv, i as int, temp_id, llvm_type@, self.state()),
                    self.module() == old(self).module(),
                decreases fields.len() - i,
            {
                let field_infer_type = &fields[i].1;
                let v = if i < args.len() {
                    match self.compile_expression(&args[i].value) {
                        Ok(v) => v,
                        Err(e) => return Err(e),
                    }
                } else {
                    let id = match field_infer_type {
                        InferType::Int => String::from_str("0"),
                        InferType::Float => String::from_str("0.0"),
                        InferType::Bool => String::from_str("false"),
                        InferType::String => String::from_str("null"),
                        _ => String::from_str("null"),
                    };
                    LLVMValue {
                        type_info: copy_itype(field_infer_type),
                        llvm_type: self.infer_type_to_llvm_type(field_infer_type),
                        value_id: id,
                    }
                };
                let field_llvm_type = self.infer_type_to_llvm_type(field_infer_type);
                let mut l1 = String::from_str("  %fieldptr");
                push_num(&mut l1, temp_id);
                l1.append(" = getelementptr inbounds ");
                l1.append(llvm_type.as_str());
                l1.append(", ");
                l1.append(llvm_type.as_str());
                l1.append("* %");
                push_num(&mut l1, temp_id);
                l1.append(", i32 0, i32 ");
                push_num(&mut l1, i);
                assert(l1@ =~= "  %fieldptr"@ + num(temp_id) + " = getelementptr inbounds "@ + llvm_type@ + ", "@ + llvm_type@
                    + "* %"@ + num(temp_id) + ", i32 0, i32 "@ + decimal(i as nat));
                self.emit(l1.as_str());
                let mut l2 = String::from_str("  store ");
                l2.append(v.llvm_type.as_str());
                l2.append(" ");
                l2.append(v.value_id.as_str());
                l2.append(", ");
                l2.append(field_llvm_type.as_str());
                l2.append("* %fieldptr");
                push_num(&mut l2, temp_id);
                assert(l2@ =~= "  store "@ + v.llvm_type@ + " "@ + v.value_id@ + ", "@ + field_llvm_type@ + "* %fieldptr"@
                    + num(temp_id));
                self.emit(l2.as_str());
                i = i + 1;
            }
        }
        Ok(LLVMValue { type_info: obj_type, llvm_type, value_id: tmp_text(temp_id) })
    }

    /// A call of a function defined elsewhere, taken to return an `i64`.
    pub fn compile_external_call(&mut self, func_name: &String, args: &Vec<Argument>) -> (r: Result<LLVMValue, CodegenError>)
        ensures
            (gen_result(r), final(self).state()) == gen_external_call(func_name@, args@, old(self).state()),
            final(self).module() == old(self).module(),
        decreases args@, 1nat,
    {
        let no_values: Vec<LLVMValue> = Vec::new();
        assert(lvalues(no_values@) =~= Seq::<LValue>::empty());
        let arg_values = match self.compile_values(args, no_values) {
            Ok(vs) => vs,
            Err(e) => return Err(e),
        };
        let result_temp = self.next_temp();
        let arg_list = operand_list(&arg_values);
        let mut line = String::from_str("  ");
        push_tmp(&mut line, result_temp);
        line.append(" = call i64 @");
        line.append(func_name.as_str());
        line.append("(");
        line.append(arg_list.as_str());
        line.append(")");
        assert(line@ =~= "  "@ + tmp(result_temp) + " = call i64 @"@ + func_name@ + "("@ + arg_list@ + ")"@);
        self.emit(line.as_str());
        Ok(val(InferType::Unknown, "i64", tmp_text(result_temp)))
    }

    /// A call of a named function; once a module has been imported, a name not defined here is
    /// called as a function of that module.
    pub fn compile_function_call(&mut self, func_name: &String, args: &Vec<Argument>) -> (r: Result<LLVMValue, CodegenError>)
        ensures
            (gen_result(r), final(self).state()) == gen_function_call(func_name@, args@, old(self).state()),
            final(self).module() == old(self).module(),
        decreases args@, 2nat,
    {
        let function = match self.symbols.lookup_function(func_name.as_str()) {
            Some(f) => f.clone(),
            None => {
                if self.imported_modules.len() == 0 {
                    return Err(CodegenError::UndefinedFunction(func_name.clone()));
                }
                return self.compile_external_call(func_name, args);
            },
        };
        let no_values: Vec<LLVMValue> = Vec::new();
        assert(lvalues(no_values@) =~= Seq::<LValue>::empty());
        let arg_values = match self.compile_values(args, no_values) {
            Ok(vs) => vs,
            Err(e) => return Err(e),
        };
        let result_temp = self.next_temp();
        let arg_list = operand_list(&arg_values);
        let return_llvm_type = self.infer_type_to_llvm_type(&function.return_type);
        let mut line = String::from_str("  ");
        push_tmp(&mut line, result_temp);
        line.append(" = call ");
        line.append(return_llvm_type.as_str());
        line.append(" @");
        line.append(func_name.as_str());
        line.append("(");
        line.append(arg_list.as_str());
        line.append(")");
        assert(line@ =~= "  "@ + tmp(result_temp) + " = call "@ + return_llvm_type@ + " @"@ + func_name@ + "("@ + arg_list@ + ")"@);
        self.emit(line.as_str());
        Ok(LLVMValue { type_info: copy_itype(&function.return_type), llvm_type: return_llvm_type, value_id: tmp_text(result_temp) })
    }
}


impl LLVMCodegen {
    /// Reading a field of an object.
    pub fn compile_property_access(&mut self, expr: &Expr) -> (r: Result<LLVMValue, CodegenError>)
        requires
            expr.kind is FieldAccess,
        ensures
            (gen_result(r), final(self).state()) == gen_expr(*expr, old(self).state()),
            final(self).module() == old(self).module(),
        decreases expr, 1nat,
    {
        match &expr.kind {
            ExprKind::FieldAccess { object, field } => {
                let obj_val = match self.compile_expression(object) {
                    Ok(v) => v,
                    Err(e) => return Err(e),
                };
                let (idx, field_infer_type) = match &obj_val.type_info {
                    InferType::Object { fields, .. } => {
                        proof {
                            lemma_members_view(fields@);
                        }
                        match crate::assoc::find_name(fields, field.as_str()) {
                            Some(i) => {
                                proof {
                                    crate::resolver::types::lemma_members_pos(fields@, field@, i as int);
                                    crate::assoc::lemma_assoc_pos(members_view(fields@), field@);
                                }
                                (i, copy_itype(&fields[i].1))
                            },
                            None => {
                                proof {
                                    crate::resolver::types::lemma_members_none(fields@, field@);
                                }
                                let mut m = String::from_str("Field '");
                                m.append(field.as_str());
                                m.append("' not found");
                                return Err(CodegenError::InvalidOperation(m));
                            },
                        }
                    },
                    _ => {
                        let mut m = String::from_str("Field '");
                        m.append(field.as_str());
                        m.append("' not found");
                        return Err(CodegenError::InvalidOperation(m));
                    },
                };
                let temp_id = self.next_temp();
                let field_llvm_type = self.infer_type_to_llvm_type(&field_infer_type);
                let base = trim_end_char(obj_val.llvm_type.as_str(), '*');
                let id = trim_start_char(obj_val.value_id.as_str(), '%');
                let mut l1 = String::from_str("  %fieldptr");
                push_num(&mut l1, temp_id);
                l1.append(" = getelementptr inbounds ");
                l1.append(base.as_str());
                l1.append(", ");
                l1.append(base.as_str());
                l1.append("* %");
                l1.append(id.as_str());
                l1.append(", i32 0, i32 ");
                push_num(&mut l1, idx);
                assert(l1@ =~= "  %fieldptr"@ + num(temp_id) + " = getelementptr inbounds "@ + base@ + ", "@ + base@ + "* %"@
                    + id@ + ", i32 0, i32 "@ + decimal(idx as nat));
                self.emit(l1.as_str());
                let result_temp = self.next_temp();
                let mut l2 = String::from_str("  ");
                push_tmp(&mut l2, result_temp);
                l2.append(" = load ");
                l2.append(field_llvm_type.as_str());
                l2.append(", ");
                l2.append(field_llvm_type.as_str());
                l2.append("* %fieldptr");
                push_num(&mut l2, temp_id);
                assert(l2@ =~= "  "@ + tmp(result_temp) + " = load "@ + field_llvm_type@ + ", "@ + field_llvm_type@
                    + "* %fieldptr"@ + num(temp_id));
                self.emit(l2.as_str());
                Ok(LLVMValue { type_info: field_infer_type, llvm_type: field_llvm_type, value_id: tmp_text(result_temp) })
            },
            _ => Err(CodegenError::MemoryAllocationFailed),
        }
    }

    /// A conditional expression: both branches meet in a `phi`.
    pub fn compile_if_expression(&mut self, expr: &Expr) -> (r: Result<LLVMValue, CodegenError>)
        requires
            expr.kind is If,
        ensures
            (gen_result(r), final(self).state()) == gen_expr(*expr, old(self).state()),
            final(self).module() == old(self).module(),
        decreases expr, 1nat,
    {
        match &expr.kind {
            ExprKind::If { condition, then_branch, else_branch } => {
                let cond_val = match self.compile_expression(condition) {
                    Ok(v) => v,
                    Err(e) => return Err(e),
                };
                let then_label = self.next_label();
                let else_label = self.next_label();
                let merge_label = self.next_label();
                let mut l1 = String::from_str("  br i1 ");
                l1.append(cond_val.value_id.as_str());
                l1.append(", ");
                l1.append("label %L");
                push_num(&mut l1, then_label);
                l1.append(", ");
                l1.append("label %L");
                push_num(&mut l1, else_label);
                assert(l1@ =~= "  br i1 "@ + cond_val.value_id@ + ", "@ + lbl(then_label) + ", "@ + lbl(else_label));
                self.emit(l1.as_str());
                self.emit(block_line(then_label).as_str());
                let then_val = match self.compile_expression(then_branch) {
                    Ok(v) => v,
                    Err(e) => return Err(e),
                };
                self.emit(br_line(merge_label).as_str());
                self.emit(block_line(else_label).as_str());
                let else_val = match else_branch {
                    Some(else_expr) => match self.compile_expression(else_expr) {
                        Ok(v) => v,
                        Err(e) => return Err(e),
                    },
                    None => LLVMValue {
                        type_info: copy_itype(&then_val.type_info),
                        llvm_type: self.infer_type_to_llvm_type(&then_val.type_info),
                        value_id: String::from_str("null"),
                    },
                };
                self.emit(br_line(merge_label).as_str());
                self.emit(block_line(merge_label).as_str());
                let result_temp = self.next_temp();
                let mut l2 = String::from_str("  ");
                push_tmp(&mut l2, result_temp);
                l2.append(" = phi ");
                l2.append(then_val.llvm_type.as_str());
                l2.append(" [ ");
                l2.append(then_val.value_id.as_str());
                l2.append(", %L");
                push_num(&mut l2, then_label);
                l2.append(" ], [ ");
                l2.append(else_val.value_id.as_str());
                l2.append(", %L");
                push_num(&mut l2, else_label);
                l2.append(" ]");
                assert(l2@ =~= "  "@ + tmp(result_temp) + " = phi "@ + then_val.llvm_type@ + " [ "@ + then_val.value_id@ + ", %L"@
                    + num(then_label) + " ], [ "@ + else_val.value_id@ + ", %L"@ + num(else_label) + " ]"@);
                self.emit(l2.as_str());
                let llvm_type = self.infer_type_to_llvm_type(&then_val.type_info);
                Ok(LLVMValue { type_info: then_val.type_info, llvm_type, value_id: tmp_text(result_temp) })
            },
            _ => Err(CodegenError::MemoryAllocationFailed),
        }
    }
}


/// A line `  %t = load T, T* %p` or similar: `prefix` and `%a` around a middle text.
fn temp_line(t: usize, middle: &str, a: usize) -> (s: String)
    ensures
        s@ == "  "@ + tmp(t) + middle@ + tmp(a),
{
    let mut s = String::from_str("  ");
    push_tmp(&mut s, t);
    s.append(middle);
    push_tmp(&mut s, a);
    assert(s@ =~= "  "@ + tmp(t) + middle@ + tmp(a));
    s
}

/// A line `  store T %a, T* %b`-like: a text, `%a`, a text, `%b`.
fn store_line(first: &str, a: &str, middle: &str, b: usize) -> (s: String)
    ensures
        s@ == first@ + a@ + middle@ + tmp(b),
{
    let mut s = String::from_str(first);
    s.append(a);
    s.append(middle);
    push_tmp(&mut s, b);
    assert(s@ =~= first@ + a@ + middle@ + tmp(b));
    s
}

impl LLVMCodegen {
    /// A list literal: a buffer sized for its elements, a list header, then each element stored.
    #[verifier::loop_isolation(false)]
    pub fn compile_list_literal(&mut self, expr: &Expr) -> (r: Result<LLVMValue, CodegenError>)
        requires
            expr.kind is ListLiteral,
        ensures
            (gen_result(r), final(self).state()) == gen_expr(*expr, old(self).state()),
            final(self).module() == old(self).module(),
        decreases expr, 1nat,
    {
        match &expr.kind {
            ExprKind::ListLiteral(elements) => {
                let element_type = if elements.len() > 0 {
                    self.ast_type_to_infer_type(&elements[0].type_)
                } else {
                    InferType::Unknown
                };
                let llvm_element_type = self.infer_type_to_llvm_type(&element_type);
                let element_size = self.get_type_size(&element_type);
                let capacity = elements.len();
                let total_size = capacity.wrapping_mul(element_size);
                let data_ptr_temp = self.next_temp();
                let mut l = String::from_str("  ");
                push_tmp(&mut l, data_ptr_temp);
                l.append(" = call i8* @malloc(i64 ");
                push_num(&mut l, total_size);
                l.append(")");
                assert(l@ =~= "  "@ + tmp(data_ptr_temp) + " = call i8* @malloc(i64 "@ + num(total_size) + ")"@);
                self.emit(l.as_str());
                let list_ptr_temp = self.next_temp();
                let mut l = String::from_str("  ");
                push_tmp(&mut l, list_ptr_temp);
                l.append(" = alloca %coral.list");
                assert(l@ =~= "  "@ + tmp(list_ptr_temp) + " = alloca %coral.list"@);
                self.emit(l.as_str());
                let list_num = {
                    let mut n = String::new();
                    push_num(&mut n, list_ptr_temp);
                    assert(n@ =~= num(list_ptr_temp));
                    n
                };
                let g0 = self.next_temp();
                self.emit(gep_line(g0, "%coral.list", list_num.as_str(), "0").as_str());
                self.emit(temp_line_store_ptr(data_ptr_temp, g0).as_str());
                let g1 = self.next_temp();
                self.emit(gep_line(g1, "%coral.list", list_num.as_str(), "1").as_str());
                self.emit(store_count(capacity, g1).as_str());
                let g2 = self.next_temp();
                self.emit(gep_line(g2, "%coral.list", list_num.as_str(), "2").as_str());
                self.emit(store_count(capacity, g2).as_str());
                let ghost goal = list_elements(elements@, 0, data_ptr_temp, element_size, llvm_element_type@, self.state());
                let mut i: usize = 0;
                while i < elements.len()
                    invariant
                        i <= elements.len(),
                        goal == list_elements(elements@, i as int, data_ptr_temp, element_size, llvm_element_type@, self.state()),
                        self.module() == old(self).module(),
                    decreases elements.len() - i,
                {
                    let element_val = match self.compile_expression(&elements[i]) {
                        Ok(v) => v,
                        Err(e) => return Err(e),
                    };
                    let offset = i.wrapping_mul(element_size);
                    let element_ptr_temp = self.next_temp();
                    let mut l = String::from_str("  ");
                    push_tmp(&mut l, element_ptr_temp);
                    l.append(" = getelementptr inbounds i8, i8* ");
                    push_tmp(&mut l, data_ptr_temp);
                    l.append(", i64 ");
                    push_num(&mut l, offset);
                    assert(l@ =~= "  "@ + tmp(element_ptr_temp) + " = getelementptr inbounds i8, i8* "@ + tmp(data_ptr_temp)
                        + ", i64 "@ + num(offset));
                    self.emit(l.as_str());
                    let cast_ptr_temp = self.next_temp();
                    let mut l = String::from_str("  ");
                    push_tmp(&mut l, cast_ptr_temp);
                    l.append(" = bitcast i8* ");
                    push_tmp(&mut l, element_ptr_temp);
                    l.append(" to ");
                    l.append(llvm_element_type.as_str());
                    l.append("*");
                    assert(l@ =~= "  "@ + tmp(cast_ptr_temp) + " = bitcast i8* "@ + tmp(element_ptr_temp) + " to "@
                        + llvm_element_type@ + "*"@);
                    self.emit(l.as_str());
                    let mut l = String::from_str("  store ");
                    l.append(element_val.llvm_type.as_str());
                    l.append(" ");
                    l.append(element_val.value_id.as_str());
                    l.append(", ");
                    l.append(llvm_element_type.as_str());
                    l.append("* ");
                    push_tmp(&mut l, cast_ptr_temp);
                    assert(l@ =~= "  store "@ + element_val.llvm_type@ + " "@ + element_val.value_id@ + ", "@
                        + llvm_element_type@ + "* "@ + tmp(cast_ptr_temp));
                    self.emit(l.as_str());
                    i = i + 1;
                }
                Ok(
                    LLVMValue {
                        type_info: InferType::List(Box::new(element_type)),
                        llvm_type: String::from_str("%coral.list*"),
                        value_id: tmp_text(list_ptr_temp),
                    },
                )
            },
            _ => Err(CodegenError::MemoryAllocationFailed),
        }
    }

    /// Appending to a list.
    pub fn compile_list_append(&mut self, expr: &Expr) -> (r: Result<LLVMValue, CodegenError>)
        requires
            expr.kind is ListAppend,
        ensures
            (gen_result(r), final(self).state()) == gen_expr(*expr, old(self).state()),
            final(self).module() == old(self).module(),
        decreases expr, 1nat,
    {
        match &expr.kind {
            ExprKind::ListAppend { list, element } => {
                let list_val = match self.compile_expression(list) {
                    Ok(v) => v,
                    Err(e) => return Err(e),
                };
                let element_val = match self.compile_expression(element) {
                    Ok(v) => v,
                    Err(e) => return Err(e),
                };
                let list_ptr = trim_start_char(list_val.value_id.as_str(), '%');
                self.emit_append(list_ptr.as_str(), &element_val);
                Ok(val(InferType::Unit, "void", String::new()))
            },
            _ => Err(CodegenError::MemoryAllocationFailed),
        }
    }
}


/// `  store i8* %d, i8** %g`.
fn temp_line_store_ptr(d: usize, g: usize) -> (s: String)
    ensures
        s@ == "  store i8* "@ + tmp(d) + ", i8** "@ + tmp(g),
{
    let mut s = String::from_str("  store i8* ");
    push_tmp(&mut s, d);
    s.append(", i8** ");
    push_tmp(&mut s, g);
    assert(s@ =~= "  store i8* "@ + tmp(d) + ", i8** "@ + tmp(g));
    s
}

/// `  store i64 n, i64* %g`.
fn store_count(n: usize, g: usize) -> (s: String)
    ensures
        s@ == "  store i64 "@ + num(n) + ", i64* "@ + tmp(g),
{
    let mut s = String::from_str("  store i64 ");
    push_num(&mut s, n);
    s.append(", i64* ");
    push_tmp(&mut s, g);
    assert(s@ =~= "  store i64 "@ + num(n) + ", i64* "@ + tmp(g));
    s
}

/// `  %t = <m1> %a <m2> %b`.
fn line3(t: usize, m1: &str, a: usize, m2: &str, b: usize) -> (s: String)
    ensures
        s@ == "  "@ + tmp(t) + m1@ + tmp(a) + m2@ + tmp(b),
{
    let mut s = String::from_str("  ");
    push_tmp(&mut s, t);
    s.append(m1);
    push_tmp(&mut s, a);
    s.append(m2);
    push_tmp(&mut s, b);
    assert(s@ =~= "  "@ + tmp(t) + m1@ + tmp(a) + m2@ + tmp(b));
    s
}

/// `  %t = <m1> %a, %L<x> ], [ %b, %L<y> ]` for a `phi`.
fn phi_line(t: usize, m1: &str, a: usize, x: usize, b: usize, y: usize) -> (s: String)
    ensures
        s@ == "  "@ + tmp(t) + m1@ + tmp(a) + ", %L"@ + num(x) + " ], [ "@ + tmp(b) + ", %L"@ + num(y) + " ]"@,
{
    let mut s = String::from_str("  ");
    push_tmp(&mut s, t);
    s.append(m1);
    push_tmp(&mut s, a);
    s.append(", %L");
    push_num(&mut s, x);
    s.append(" ], [ ");
    push_tmp(&mut s, b);
    s.append(", %L");
    push_num(&mut s, y);
    s.append(" ]");
    assert(s@ =~= "  "@ + tmp(t) + m1@ + tmp(a) + ", %L"@ + num(x) + " ], [ "@ + tmp(b) + ", %L"@ + num(y) + " ]"@);
    s
}

/// `  %t = <m1> %a<m2>` with a text after the operand.
fn line2(t: usize, m1: &str, a: usize, m2: &str) -> (s: String)
    ensures
        s@ == "  "@ + tmp(t) + m1@ + tmp(a) + m2@,
{
    let mut s = String::from_str("  ");
    push_tmp(&mut s, t);
    s.append(m1);
    push_tmp(&mut s, a);
    s.append(m2);
    assert(s@ =~= "  "@ + tmp(t) + m1@ + tmp(a) + m2@);
    s
}

impl LLVMCodegen {
    /// The lines that append `ev` to the list at `%lp`.
    #[verifier::rlimit(60)]
    fn emit_append(&mut self, lp: &str, ev: &LLVMValue)
        ensures
            final(self).state() == append_lines(lp@, ev@, old(self).state()),
            final(self).module() == old(self).module(),
    {
        let dg = self.next_temp();
        self.emit(gep_line(dg, "%coral.list", lp, "0").as_str());
        let cd = self.next_temp();
        self.emit(temp_line(cd, " = load i8*, i8** ", dg).as_str());
        let lg = self.next_temp();
        self.emit(gep_line(lg, "%coral.list", lp, "1").as_str());
        let cl = self.next_temp();
        self.emit(temp_line(cl, " = load i64, i64* ", lg).as_str());
        let cg = self.next_temp();
        self.emit(gep_line(cg, "%coral.list", lp, "2").as_str());
        let cc = self.next_temp();
        self.emit(temp_line(cc, " = load i64, i64* ", cg).as_str());
        let nr = self.next_label();
        let no = self.next_label();
        let mg = self.next_label();
        let cmp = self.next_temp();
        self.emit(line3(cmp, " = icmp eq i64 ", cl, ", ", cc).as_str());
        let mut br = String::from_str("  br i1 ");
        push_tmp(&mut br, cmp);
        br.append(", ");
        br.append("label %L");
        push_num(&mut br, nr);
        br.append(", ");
        br.append("label %L");
        push_num(&mut br, no);
        assert(br@ =~= "  br i1 "@ + tmp(cmp) + ", "@ + lbl(nr) + ", "@ + lbl(no));
        self.emit(br.as_str());
        self.emit(block_line(nr).as_str());
        let nc = self.next_temp();
        self.emit(line2(nc, " = mul i64 ", cc, ", 2").as_str());
        let ns = self.next_temp();
        let element_size = self.get_type_size(&ev.type_info);
        let mut l = String::from_str("  ");
        push_tmp(&mut l, ns);
        l.append(" = mul i64 ");
        push_tmp(&mut l, nc);
        l.append(", ");
        push_num(&mut l, element_size);
        assert(l@ =~= "  "@ + tmp(ns) + " = mul i64 "@ + tmp(nc) + ", "@ + num(element_size));
        self.emit(l.as_str());
        let rp = self.next_temp();
        let mut l = line3(rp, " = call i8* @realloc(i8* ", cd, ", i64 ", ns);
        l.append(")");
        self.emit(l.as_str());
        self.emit(br_line(mg).as_str());
        self.emit(block_line(no).as_str());
        self.emit(br_line(mg).as_str());
        self.emit(block_line(mg).as_str());
        let fd = self.next_temp();
        self.emit(phi_line(fd, " = phi i8* [ ", rp, nr, cd, no).as_str());
        let fc = self.next_temp();
        self.emit(phi_line(fc, " = phi i64 [ ", nc, nr, cc, no).as_str());
        let off = self.next_temp();
        let mut l = String::from_str("  ");
        push_tmp(&mut l, off);
        l.append(" = mul i64 ");
        push_tmp(&mut l, cl);
        l.append(", ");
        push_num(&mut l, element_size);
        assert(l@ =~= "  "@ + tmp(off) + " = mul i64 "@ + tmp(cl) + ", "@ + num(element_size));
        self.emit(l.as_str());
        let ep = self.next_temp();
        self.emit(line3(ep, " = getelementptr inbounds i8, i8* ", fd, ", i64 ", off).as_str());
        let cp = self.next_temp();
        let mut l = temp_line(cp, " = bitcast i8* ", ep);
        l.append(" to ");
        l.append(ev.llvm_type.as_str());
        l.append("*");
        self.emit(l.as_str());
        let mut l = String::from_str("  store ");
        l.append(ev.llvm_type.as_str());
        l.append(" ");
        l.append(ev.value_id.as_str());
        l.append(", ");
        l.append(ev.llvm_type.as_str());
        l.append("* ");
        push_tmp(&mut l, cp);
        assert(l@ =~= "  store "@ + ev.llvm_type@ + " "@ + ev.value_id@ + ", "@ + ev.llvm_type@ + "* "@ + tmp(cp));
        self.emit(l.as_str());
        let nl = self.next_temp();
        self.emit(line2(nl, " = add i64 ", cl, ", 1").as_str());
        self.emit(temp_line_store_ptr(fd, dg).as_str());
        self.emit(store_line("  store i64 ", tmp_text(nl).as_str(), ", i64* ", lg).as_str());
        self.emit(store_line("  store i64 ", tmp_text(fc).as_str(), ", i64* ", cg).as_str());
    }
}


/// `  call void @map_insert(i8* %m, K k, V v)`.
fn map_insert_line(m: usize, k: &LLVMValue, v: &LLVMValue) -> (s: String)
    ensures
        s@ == "  call void @map_insert(i8* "@ + tmp(m) + ", "@ + typed_operand(k@) + ", "@ + typed_operand(v@) + ")"@,
{
    let mut s = String::from_str("  call void @map_insert(i8* ");
    push_tmp(&mut s, m);
    s.append(", ");
    s.append(typed_operand_text(k).as_str());
    s.append(", ");
    s.append(typed_operand_text(v).as_str());
    s.append(")");
    s
}

impl LLVMCodegen {
    /// A map literal: a map header over a map the runtime creates, then each entry inserted.
    #[verifier::loop_isolation(false)]
    pub fn compile_map_literal(&mut self, expr: &Expr) -> (r: Result<LLVMValue, CodegenError>)
        requires
            expr.kind is MapLiteral,
        ensures
            (gen_result(r), final(self).state()) == gen_expr(*expr, old(self).state()),
            final(self).module() == old(self).module(),
        decreases expr, 1nat,
    {
        match &expr.kind {
            ExprKind::MapLiteral(pairs) => {
                let key_type = if pairs.len() > 0 {
                    self.ast_type_to_infer_type(&pairs[0].0.type_)
                } else {
                    InferType::Unknown
                };
                let value_type = if pairs.len() > 0 {
                    self.ast_type_to_infer_type(&pairs[0].1.type_)
                } else {
                    InferType::Unknown
                };
                let map_ptr_temp = self.next_temp();
                let mut l = String::from_str("  ");
                push_tmp(&mut l, map_ptr_temp);
                l.append(" = alloca %coral.map");
                assert(l@ =~= "  "@ + tmp(map_ptr_temp) + " = alloca %coral.map"@);
                self.emit(l.as_str());
                let created_map_ptr = self.next_temp();
                let mut l = String::from_str("  ");
                push_tmp(&mut l, created_map_ptr);
                l.append(" = call i8* @map_create(i64 ");
                push_num(&mut l, self.get_type_size(&key_type));
                l.append(", i64 ");
                push_num(&mut l, self.get_type_size(&value_type));
                l.append(") ; key_size, value_size");
                assert(l@ =~= "  "@ + tmp(created_map_ptr) + " = call i8* @map_create(i64 "@ + num(type_size(key_type@))
                    + ", i64 "@ + num(type_size(value_type@)) + ") ; key_size, value_size"@);
                self.emit(l.as_str());
                let map_num = {
                    let mut n = String::new();
                    push_num(&mut n, map_ptr_temp);
                    assert(n@ =~= num(map_ptr_temp));
                    n
                };
                let g0 = self.next_temp();
                self.emit(gep_line(g0, "%coral.map", map_num.as_str(), "0").as_str());
                self.emit(temp_line_store_ptr(created_map_ptr, g0).as_str());
                let g1 = self.next_temp();
                self.emit(gep_line(g1, "%coral.map", map_num.as_str(), "1").as_str());
                self.emit(store_count(pairs.len(), g1).as_str());
                let g2 = self.next_temp();
                self.emit(gep_line(g2, "%coral.map", map_num.as_str(), "2").as_str());
                self.emit(store_count(pairs.len(), g2).as_str());
                let ghost goal = map_entries(pairs@, 0, created_map_ptr, self.state());
                let mut i: usize = 0;
                while i < pairs.len()
                    invariant
                        i <= pairs.len(),
                        goal == map_entries(pairs@, i as int, created_map_ptr, self.state()),
                        self.module() == old(self).module(),
                    decreases pairs.len() - i,
                {
                    proof {
                        assert(decreases_to!(pairs@ => pairs@[i as int]));
                        assert(decreases_to!(pairs@[i as int] => pairs@[i as int].0));
                        assert(decreases_to!(pairs@[i as int] => pairs@[i as int].1));
                    }
                    let compiled_key = match self.compile_expression(&pairs[i].0) {
                        Ok(v) => v,
                        Err(e) => return Err(e),
                    };
                    let compiled_value = match self.compile_expression(&pairs[i].1) {
                        Ok(v) => v,
                        Err(e) => return Err(e),
                    };
                    self.emit(map_insert_line(created_map_ptr, &compiled_key, &compiled_value).as_str());
                    i = i + 1;
                }
                Ok(
                    LLVMValue {
                        type_info: InferType::MapOf(Box::new(key_type), Box::new(value_type)),
                        llvm_type: String::from_str("%coral.map*"),
                        value_id: tmp_text(map_ptr_temp),
                    },
                )
            },
            _ => Err(CodegenError::MemoryAllocationFailed),
        }
    }

    /// Inserting into a map through the runtime.
    pub fn compile_map_insert(&mut self, expr: &Expr) -> (r: Result<LLVMValue, CodegenError>)
        requires
            expr.kind is MapInsert,
        ensures
            (gen_result(r), final(self).state()) == gen_expr(*expr, old(self).state()),
            final(self).module() == old(self).module(),
        decreases expr, 1nat,
    {
        match &expr.kind {
            ExprKind::MapInsert { map, key, value: v } => {
                let compiled_map = match self.compile_expression(map) {
                    Ok(v) => v,
                    Err(e) => return Err(e),
                };
                let compiled_key = match self.compile_expression(key) {
                    Ok(v) => v,
                    Err(e) => return Err(e),
                };
                let compiled_value = match self.compile_expression(v) {
                    Ok(v) => v,
                    Err(e) => return Err(e),
                };
                let map_ptr_temp = self.next_temp();
                let mut l = String::from_str("  ");
                push_tmp(&mut l, map_ptr_temp);
                l.append(" = load i8*, i8** getelementptr inbounds (%coral.map, %coral.map* ");
                l.append(trim_start_char(compiled_map.value_id.as_str(), '%').as_str());
                l.append(", i32 0, i32 0)");
                self.emit(l.as_str());
                self.emit(map_insert_line(map_ptr_temp, &compiled_key, &compiled_value).as_str());
                Ok(val(InferType::Unit, "void", String::new()))
            },
            _ => Err(CodegenError::MemoryAllocationFailed),
        }
    }
}


pub open spec fn unit_result(r: Result<(), CodegenError>) -> Result<(), CodegenErrorView> {
    match r {
        Ok(_) => Ok(()),
        Err(e) => Err(e@),
    }
}

impl LLVMCodegen {
    /// The IR of a statement.
    #[verifier::rlimit(80)]
    #[verifier::spinoff_prover]
    pub fn compile_statement(&mut self, stmt: &Stmt) -> (r: Result<(), CodegenError>)
        ensures
            (unit_result(r), final(self).state()) == gen_stmt(*stmt, old(self).state()),
            final(self).module() == old(self).module(),
        decreases stmt, 2nat,
    {
        match &stmt.kind {
            StmtKind::Function { .. } => self.compile_function_definition(stmt),
            StmtKind::Assignment { target, value: v } => {
                let value_result = match self.compile_expression(v) {
                    Ok(v) => v,
                    Err(e) => return Err(e),
                };
                if let ExprKind::Identifier(var_name) = &target.kind {
                    let alloca_temp = self.next_temp();
                    let mut l = String::from_str("  ");
                    push_tmp(&mut l, alloca_temp);
                    l.append(" = alloca ");
                    l.append(value_result.llvm_type.as_str());
                    assert(l@ =~= "  "@ + tmp(alloca_temp) + " = alloca "@ + value_result.llvm_type@);
                    self.emit(l.as_str());
                    let mut l = String::from_str("  store ");
                    l.append(value_result.llvm_type.as_str());
                    l.append(" ");
                    l.append(value_result.value_id.as_str());
                    l.append(", ");
                    l.append(value_result.llvm_type.as_str());
                    l.append("* ");
                    push_tmp(&mut l, alloca_temp);
                    assert(l@ =~= "  store "@ + value_result.llvm_type@ + " "@ + value_result.value_id@ + ", "@
                        + value_result.llvm_type@ + "* "@ + tmp(alloca_temp));
                    self.emit(l.as_str());
                    let mut pointer_type = value_result.llvm_type.clone();
                    pointer_type.append("*");
                    let ghost before = self.state();
                    let v = LLVMValue { type_info: value_result.type_info, llvm_type: pointer_type, value_id: tmp_text(alloca_temp) };
                    let ghost vv = v@;
                    self.symbols.define_variable(var_name.clone(), v);
                    assert(self.state() =~= define_var(before, var_name@, vv));
                    Ok(())
                } else {
                    Err(CodegenError::UnsupportedFeature(String::from_str("Complex assignment targets not yet supported")))
                }
            },
            StmtKind::Expression(e) => match self.compile_expression(e) {
                Ok(_) => Ok(()),
                Err(er) => Err(er),
            },
            StmtKind::Return(expr_opt) => {
                if let Some(e) = expr_opt {
                    let return_value = match self.compile_expression(e) {
                        Ok(v) => v,
                        Err(er) => return Err(er),
                    };
                    let mut l = String::from_str("  ret ");
                    l.append(return_value.llvm_type.as_str());
                    l.append(" ");
                    l.append(return_value.value_id.as_str());
                    assert(l@ =~= "  ret "@ + return_value.llvm_type@ + " "@ + return_value.value_id@);
                    self.emit(l.as_str());
                } else {
                    self.emit("  ret void");
                }
                Ok(())
            },
            StmtKind::Object { name, fields, .. } => {
                self.compile_object_definition(name, fields);
                Ok(())
            },
            StmtKind::Store { .. } => Err(CodegenError::UnsupportedFeature(String::from_str("Store definitions not yet implemented"))),
            StmtKind::Actor { .. } => Err(CodegenError::UnsupportedFeature(String::from_str("Actor definitions not yet implemented"))),
            StmtKind::ErrorHandler { handler, inner } => {
                match self.compile_statement(inner) {
                    Ok(()) => {},
                    Err(e) => return Err(e),
                }
                self.compile_handler(&handler.actions)
            },
            StmtKind::Import { module, .. } => {
                let ghost before = self.state();
                let m = module.clone();
                self.imported_modules.push(m);
                assert(self.state() =~= (GenState { imports: before.imports.push(module@), ..before }));
                Ok(())
            },
            StmtKind::If { .. } => self.compile_if_statement(stmt),
            StmtKind::While { .. } | StmtKind::Until { .. } => self.compile_loop(stmt),
            StmtKind::Unless { .. } => self.compile_unless_statement(stmt),
            StmtKind::Iterate { .. } => self.compile_iterate_statement(stmt),
            StmtKind::Break => {
                self.emit("  br label %L_break");
                Ok(())
            },
            StmtKind::Continue => {
                self.emit("  br label %L_continue");
                Ok(())
            },
            _ => {
                let mut m = String::from_str("Statement type not implemented: ");
                m.append(debug_stmt_kind(&stmt.kind).as_str());
                Err(CodegenError::UnsupportedFeature(m))
            },
        }
    }

    /// One action of an error handler.
    #[verifier::rlimit(40)]
    #[verifier::spinoff_prover]
    fn compile_action(&mut self, action: &ErrorAction) -> (r: Result<(), CodegenError>)
        ensures
            (unit_result(r), final(self).state()) == gen_action(*action, old(self).state()),
            final(self).module() == old(self).module(),
    {
        match action {
            ErrorAction::Log(Some(e)) => {
                let v = match self.compile_expression(e) {
                    Ok(v) => v,
                    Err(er) => return Err(er),
                };
                let mut l = String::from_str("  call @log(");
                l.append(v.llvm_type.as_str());
                l.append(" ");
                l.append(v.value_id.as_str());
                l.append(")");
                assert(l@ =~= "  call @log("@ + typed_operand(v@) + ")"@);
                self.emit(l.as_str());
                Ok(())
            },
            ErrorAction::Log(None) => {
                self.emit("  call @log()");
                Ok(())
            },
            ErrorAction::Return(Some(e)) => {
                let v = match self.compile_expression(e) {
                    Ok(v) => v,
                    Err(er) => return Err(er),
                };
                let mut l = String::from_str("  ret ");
                l.append(v.llvm_type.as_str());
                l.append(" ");
                l.append(v.value_id.as_str());
                assert(l@ =~= "  ret "@ + v.llvm_type@ + " "@ + v.value_id@);
                self.emit(l.as_str());
                Ok(())
            },
            ErrorAction::Return(None) => {
                self.emit("  ret void");
                Ok(())
            },
            ErrorAction::Custom(e) => match self.compile_expression(e) {
                Ok(_) => Ok(()),
                Err(er) => Err(er),
            },
        }
    }

    /// The actions of an error handler in turn, after the statement it guards.
    #[verifier::loop_isolation(false)]
    fn compile_handler(&mut self, actions: &Vec<ErrorAction>) -> (r: Result<(), CodegenError>)
        ensures
            (unit_result(r), final(self).state()) == gen_handler(actions@, 0, old(self).state()),
            final(self).module() == old(self).module(),
    {
        let ghost goal = gen_handler(actions@, 0, old(self).state());
        let mut i: usize = 0;
        while i < actions.len()
            invariant
                i <= actions.len(),
                goal == gen_handler(actions@, i as int, self.state()),
                self.module() == old(self).module(),
            decreases actions.len() - i,
        {
            match self.compile_action(&actions[i]) {
                Ok(()) => {},
                Err(e) => return Err(e),
            }
            i = i + 1;
        }
        Ok(())
    }

    /// The statements in turn.
    #[verifier::loop_isolation(false)]
    pub fn compile_block(&mut self, stmts: &Vec<Stmt>) -> (r: Result<(), CodegenError>)
        ensures
            (unit_result(r), final(self).state()) == gen_stmts(stmts@, 0, old(self).state()),
            final(self).module() == old(self).module(),
        decreases stmts@, 0nat,
    {
        let ghost goal = gen_stmts(stmts@, 0, old(self).state());
        let mut i: usize = 0;
        while i < stmts.len()
            invariant
                i <= stmts.len(),
                goal == gen_stmts(stmts@, i as int, self.state()),
                self.module() == old(self).module(),
            decreases stmts.len() - i,
        {
            match self.compile_statement(&stmts[i]) {
                Ok(()) => {},
                Err(e) => return Err(e),
            }
            i = i + 1;
        }
        Ok(())
    }
}


impl LLVMCodegen {
    /// An object definition: its struct type is emitted and its name bound to it.
    pub fn compile_object_definition(&mut self, name: &String, fields: &Vec<Field>)
        ensures
            final(self).state() == gen_object(name@, fields@, old(self).state()),
            final(self).module() == old(self).module(),
    {
        let ghost tys = fields@.map_values(|f: Field| cg_llvm(cg_infer(f.type_@)));
        let mut line = String::from_str("%struct.");
        line.append(name.as_str());
        line.append(" = type { ");
        let ghost head = line@;
        let mut field_types: Vec<(String, InferType)> = Vec::new();
        assert(members_view(field_types@) =~= object_field_types(fields@.take(0)));
        let mut i: usize = 0;
        while i < fields.len()
            invariant
                i <= fields.len(),
                tys == fields@.map_values(|f: Field| cg_llvm(cg_infer(f.type_@))),
                line@ == head + crate::text::join(tys.take(i as int), ", "@),
                members_view(field_types@) == object_field_types(fields@.take(i as int)),
            decreases fields.len() - i,
        {
            let pt = self.ast_type_to_infer_type(&fields[i].type_);
            let lt = self.infer_type_to_llvm_type(&pt);
            proof {
                assert(tys.take(i + 1).drop_last() =~= tys.take(i as int));
                assert(tys[i as int] == lt@);
                crate::text::lemma_join_push(tys.take(i as int), ", "@, lt@);
                assert(tys.take(i as int).push(lt@) =~= tys.take(i + 1));
                assert(fields@.take(i + 1).drop_last() =~= fields@.take(i as int));
            }
            if i > 0 {
                line.append(", ");
            }
            line.append(lt.as_str());
            insert_member(&mut field_types, fields[i].name.clone(), pt);
            i = i + 1;
        }
        assert(tys.take(fields.len() as int) =~= tys);
        assert(fields@.take(fields.len() as int) =~= fields@);
        line.append(" }");
        self.emit(line.as_str());
        let no_methods: Vec<(String, InferType)> = Vec::new();
        assert(members_view(no_methods@) =~= Seq::<(Seq<char>, IType)>::empty());
        let obj = InferType::Object { name: name.clone(), fields: field_types, methods: no_methods, is_actor: false, is_store: false };
        let llvm_type = self.infer_type_to_llvm_type(&obj);
        let mut id = String::from_str("%struct.");
        id.append(name.as_str());
        let ghost before = self.state();
        let v = LLVMValue { type_info: obj, llvm_type, value_id: id };
        let ghost vv = v@;
        self.symbols.define_variable(name.clone(), v);
        assert(self.state() =~= define_var(before, name@, vv));
    }

    /// A function definition: its header, its parameters bound in a new scope for its body, an
    /// implicit `ret void` for a unit function; afterwards the function is bound to its name.
    #[verifier::loop_isolation(false)]
    pub fn compile_function_definition(&mut self, stmt: &Stmt) -> (r: Result<(), CodegenError>)
        requires
            stmt.kind is Function,
        ensures
            (unit_result(r), final(self).state()) == gen_function(*stmt, old(self).state()),
            final(self).module() == old(self).module(),
        decreases stmt, 1nat,
    {
        match &stmt.kind {
            StmtKind::Function { name, params, return_type, body } => {
                let ghost info = param_info(params@);
                let ghost decls = info.map_values(|p: (Seq<char>, IType)| param_decl(p));
                let mut header = String::from_str("define ");
                let mut param_info_vec: Vec<(String, InferType)> = Vec::new();
                let mut param_list = String::new();
                let mut i: usize = 0;
                assert(members_view(param_info_vec@) =~= info.take(0));
                while i < params.len()
                    invariant
                        i <= params.len(),
                        info == param_info(params@),
                        decls == info.map_values(|p: (Seq<char>, IType)| param_decl(p)),
                        members_view(param_info_vec@) == info.take(i as int),
                        param_list@ == crate::text::join(decls.take(i as int), ", "@),
                    decreases params.len() - i,
                {
                    let param_type = self.ast_type_to_infer_type(&params[i].type_);
                    let llvm_type = self.infer_type_to_llvm_type(&param_type);
                    let mut decl = llvm_type;
                    decl.append(" %");
                    decl.append(params[i].name.as_str());
                    proof {
                        assert(decls[i as int] == decl@);
                        assert(decls.take(i + 1).drop_last() =~= decls.take(i as int));
                        crate::text::lemma_join_push(decls.take(i as int), ", "@, decl@);
                        assert(decls.take(i as int).push(decl@) =~= decls.take(i + 1));
                        crate::resolver::types::lemma_members_view_push(param_info_vec@, (params[i as int].name, param_type));
                    }
                    if i > 0 {
                        param_list.append(", ");
                    }
                    param_list.append(decl.as_str());
                    let ghost before = param_info_vec@;
                    param_info_vec.push((params[i].name.clone(), param_type));
                    assert(members_view(param_info_vec@) =~= info.take(i + 1));
                    i = i + 1;
                }
                assert(decls.take(params.len() as int) =~= decls);
                assert(info.take(params.len() as int) =~= info);
                let return_infer_type = match return_type {
                    Some(t) => self.ast_type_to_infer_type(t),
                    None => InferType::Unit,
                };
                let return_llvm_type = self.infer_type_to_llvm_type(&return_infer_type);
                header.append(return_llvm_type.as_str());
                header.append(" @");
                header.append(name.as_str());
                header.append("(");
                header.append(param_list.as_str());
                header.append(") {");
                assert(header@ =~= "define "@ + return_llvm_type@ + " @"@ + name@ + "("@ + crate::text::join(decls, ", "@) + ") {"@);
                self.emit(header.as_str());
                let ghost s1 = self.state();
                let mut parent = SymbolTable::new();
                std::mem::swap(&mut parent, &mut self.symbols);
                self.symbols = SymbolTable::with_parent(parent.copy());
                assert(self.state() =~= s1);
                let mut j: usize = 0;
                while j < param_info_vec.len()
                    invariant
                        j <= param_info_vec.len(),
                        members_view(param_info_vec@) == info,
                        self.state() == bind_param_vars(s1, info.take(j as int)),
                        self.module() == old(self).module(),
                    decreases param_info_vec.len() - j,
                {
                    proof {
                        lemma_members_view(param_info_vec@);
                        assert(info.take(j + 1).drop_last() =~= info.take(j as int));
                    }
                    let pt = copy_itype(&param_info_vec[j].1);
                    let lt = self.infer_type_to_llvm_type(&pt);
                    let mut id = String::from_str("%");
                    id.append(param_info_vec[j].0.as_str());
                    let ghost before = self.state();
                    let v = LLVMValue { type_info: pt, llvm_type: lt, value_id: id };
                    let ghost vv = v@;
                    self.symbols.define_variable(param_info_vec[j].0.clone(), v);
                    assert(self.state() =~= define_var(before, param_info_vec@[j as int].0@, vv));
                    j = j + 1;
                }
                proof {
                    lemma_members_view(param_info_vec@);
                }
                assert(info.take(param_info_vec.len() as int) =~= info);
                match self.compile_block(body) {
                    Ok(()) => {},
                    Err(e) => return Err(e),
                }
                if matches!(return_infer_type, InferType::Unit) {
                    self.emit("  ret void");
                }
                self.emit("}");
                self.symbols = parent;
                let ghost before = self.state();
                let function = LLVMFunction {
                    name: name.clone(),
                    parameters: param_info_vec,
                    return_type: return_infer_type,
                    body: String::new(),
                };
                let ghost fv = function@;
                self.symbols.define_function(name.clone(), function);
                assert(self.state() =~= define_fun(before, name@, fv));
                Ok(())
            },
            _ => Err(CodegenError::MemoryAllocationFailed),
        }
    }
}


/// `  br i1 <c>, label %L<a>, label %L<b>`.
fn branch_line(c: &str, a: usize, b: usize) -> (s: String)
    ensures
        s@ == "  br i1 "@ + c@ + ", "@ + lbl(a) + ", "@ + lbl(b),
{
    let mut s = String::from_str("  br i1 ");
    s.append(c);
    s.append(", ");
    s.append("label %L");
    push_num(&mut s, a);
    s.append(", ");
    s.append("label %L");
    push_num(&mut s, b);
    assert(s@ =~= "  br i1 "@ + c@ + ", "@ + lbl(a) + ", "@ + lbl(b));
    s
}

impl LLVMCodegen {
    #[verifier::rlimit(30)]
    pub fn compile_if_statement(&mut self, stmt: &Stmt) -> (r: Result<(), CodegenError>)
        requires
            stmt.kind is If,
        ensures
            (unit_result(r), final(self).state()) == gen_if_stmt(*stmt, old(self).state()),
            final(self).module() == old(self).module(),
        decreases stmt, 1nat,
    {
        match &stmt.kind {
            StmtKind::If { condition, then_branch, else_branch } => {
                let cond_val = match self.compile_expression(condition) {
                    Ok(v) => v,
                    Err(e) => return Err(e),
                };
                let then_label = self.next_label();
                let else_label = self.next_label();
                let merge_label = self.next_label();
                self.emit(branch_line(cond_val.value_id.as_str(), then_label, else_label).as_str());
                self.emit(block_line(then_label).as_str());
                match self.compile_block(then_branch) {
                    Ok(()) => {},
                    Err(e) => return Err(e),
                }
                self.emit(br_line(merge_label).as_str());
                self.emit(block_line(else_label).as_str());
                if let Some(else_stmts) = else_branch {
                    match self.compile_block(else_stmts) {
                        Ok(()) => {},
                        Err(e) => return Err(e),
                    }
                }
                self.emit(br_line(merge_label).as_str());
                self.emit(block_line(merge_label).as_str());
                Ok(())
            },
            _ => Err(CodegenError::MemoryAllocationFailed),
        }
    }

    /// `while` and `until`: a header that tests the condition, the body, and the exit.
    #[verifier::rlimit(30)]
    pub fn compile_loop(&mut self, stmt: &Stmt) -> (r: Result<(), CodegenError>)
        requires
            stmt.kind is While || stmt.kind is Until,
        ensures
            (unit_result(r), final(self).state()) == gen_loop(*stmt, old(self).state()),
            final(self).module() == old(self).module(),
        decreases stmt, 1nat,
    {
        let (condition, body, until) = match &stmt.kind {
            StmtKind::While { condition, body } => (condition, body, false),
            StmtKind::Until { condition, body } => (condition, body, true),
            _ => return Err(CodegenError::MemoryAllocationFailed),
        };
        let loop_header_label = self.next_label();
        let loop_body_label = self.next_label();
        let loop_end_label = self.next_label();
        self.emit(br_line(loop_header_label).as_str());
        self.emit(block_line(loop_header_label).as_str());
        let cond_val = match self.compile_expression(condition) {
            Ok(v) => v,
            Err(e) => return Err(e),
        };
        if until {
            self.emit(branch_line(cond_val.value_id.as_str(), loop_end_label, loop_body_label).as_str());
        } else {
            self.emit(branch_line(cond_val.value_id.as_str(), loop_body_label, loop_end_label).as_str());
        }
        self.emit(block_line(loop_body_label).as_str());
        match self.compile_block(body) {
            Ok(()) => {},
            Err(e) => return Err(e),
        }
        self.emit(br_line(loop_header_label).as_str());
        self.emit(block_line(loop_end_label).as_str());
        Ok(())
    }

    /// `unless`: the body runs when the condition is false.
    #[verifier::rlimit(30)]
    pub fn compile_unless_statement(&mut self, stmt: &Stmt) -> (r: Result<(), CodegenError>)
        requires
            stmt.kind is Unless,
        ensures
            (unit_result(r), final(self).state()) == gen_unless(*stmt, old(self).state()),
            final(self).module() == old(self).module(),
        decreases stmt, 1nat,
    {
        match &stmt.kind {
            StmtKind::Unless { condition, body } => {
                let cond_val = match self.compile_expression(condition) {
                    Ok(v) => v,
                    Err(e) => return Err(e),
                };
                let then_label = self.next_label();
                let merge_label = self.next_label();
                self.emit(branch_line(cond_val.value_id.as_str(), merge_label, then_label).as_str());
                self.emit(block_line(then_label).as_str());
                match self.compile_block(body) {
                    Ok(()) => {},
                    Err(e) => return Err(e),
                }
                self.emit(br_line(merge_label).as_str());
                self.emit(block_line(merge_label).as_str());
                Ok(())
            },
            _ => Err(CodegenError::MemoryAllocationFailed),
        }
    }

    /// `iterate`: over a list it sets up the loop up to loading the current element; either way
    /// it ends with the exit label.
    #[verifier::rlimit(30)]
    pub fn compile_iterate_statement(&mut self, stmt: &Stmt) -> (r: Result<(), CodegenError>)
        requires
            stmt.kind is Iterate,
        ensures
            (unit_result(r), final(self).state()) == gen_iterate(*stmt, old(self).state()),
            final(self).module() == old(self).module(),
        decreases stmt, 1nat,
    {
        match &stmt.kind {
            StmtKind::Iterate { iterable, .. } => {
                let iterable_val = match self.compile_expression(iterable) {
                    Ok(v) => v,
                    Err(e) => return Err(e),
                };
                let loop_header_label = self.next_label();
                let loop_body_label = self.next_label();
                let loop_end_label = self.next_label();
                if let InferType::List(element_type) = &iterable_val.type_info {
                    self.emit_iteration(&iterable_val, element_type, loop_header_label, loop_body_label, loop_end_label);
                }
                self.emit(block_line(loop_end_label).as_str());
                Ok(())
            },
            _ => Err(CodegenError::MemoryAllocationFailed),
        }
    }

    /// The loop over a list that `iterate` sets up, up to loading the current element.
    #[verifier::rlimit(40)]
    fn emit_iteration(&mut self, v: &LLVMValue, element_type: &InferType, hl: usize, bl: usize, el: usize)
        ensures
            final(self).state() == iterate_lines(v@, element_type@, hl, bl, el, old(self).state()),
            final(self).module() == old(self).module(),
    {
        let element_llvm_type = self.infer_type_to_llvm_type(element_type);
        let element_size = self.get_type_size(element_type);
        let lp = trim_start_char(v.value_id.as_str(), '%');
        let dg = self.next_temp();
        self.emit(gep_line(dg, "%coral.list", lp.as_str(), "0").as_str());
        let cd = self.next_temp();
        self.emit(temp_line(cd, " = load i8*, i8** ", dg).as_str());
        let lg = self.next_temp();
        self.emit(gep_line(lg, "%coral.list", lp.as_str(), "1").as_str());
        let ll = self.next_temp();
        self.emit(temp_line(ll, " = load i64, i64* ", lg).as_str());
        let ca = self.next_temp();
        let mut l = String::from_str("  ");
        push_tmp(&mut l, ca);
        l.append(" = alloca i64");
        assert(l@ =~= "  "@ + tmp(ca) + " = alloca i64"@);
        self.emit(l.as_str());
        let mut l = String::from_str("  store i64 0, i64* ");
        push_tmp(&mut l, ca);
        self.emit(l.as_str());
        self.emit(br_line(hl).as_str());
        self.emit(block_line(hl).as_str());
        let cc = self.next_temp();
        self.emit(temp_line(cc, " = load i64, i64* ", ca).as_str());
        let lc = self.next_temp();
        self.emit(line3(lc, " = icmp slt i64 ", cc, ", ", ll).as_str());
        self.emit(branch_line(tmp_text(lc).as_str(), bl, el).as_str());
        self.emit(block_line(bl).as_str());
        let off = self.next_temp();
        let mut l = String::from_str("  ");
        push_tmp(&mut l, off);
        l.append(" = mul i64 ");
        push_tmp(&mut l, cc);
        l.append(", ");
        push_num(&mut l, element_size);
        assert(l@ =~= "  "@ + tmp(off) + " = mul i64 "@ + tmp(cc) + ", "@ + num(element_size));
        self.emit(l.as_str());
        let ep = self.next_temp();
        self.emit(line3(ep, " = getelementptr inbounds i8, i8* ", cd, ", i64 ", off).as_str());
        let ce = self.next_temp();
        let mut l = temp_line(ce, " = bitcast i8* ", ep);
        l.append(" to ");
        l.append(element_llvm_type.as_str());
        l.append("*");
        self.emit(l.as_str());
        let le = self.next_temp();
        let mut l = String::from_str("  ");
        push_tmp(&mut l, le);
        l.append(" = load ");
        l.append(element_llvm_type.as_str());
        l.append(", ");
        l.append(element_llvm_type.as_str());
        l.append("* ");
        push_tmp(&mut l, ce);
        assert(l@ =~= "  "@ + tmp(le) + " = load "@ + element_llvm_type@ + ", "@ + element_llvm_type@ + "* "@ + tmp(ce));
        self.emit(l.as_str());
    }
}


pub open spec fn text_result(r: Result<String, CodegenError>) -> Result<Seq<char>, CodegenErrorView> {
    match r {
        Ok(s) => Ok(s@),
        Err(e) => Err(e@),
    }
}

impl LLVMCodegen {
    /// A generator for a module, knowing the built-in functions.
    pub fn new(module_name: String) -> (c: Self)
        ensures
            c.state() == initial_state(),
            c.module() == module_name@,
    {
        let mut codegen = LLVMCodegen {
            module_name,
            symbols: SymbolTable::new(),
            ir_output: Vec::new(),
            next_label_id: 0,
            next_temp_id: 0,
            imported_modules: Vec::new(),
        };
        let ghost empty = GenState {
            lines: Seq::empty(),
            temp: 0,
            label: 0,
            vars: |n: Seq<char>| None,
            funs: |n: Seq<char>| None,
            imports: Seq::empty(),
        };
        assert(codegen.state() =~= empty);
        codegen.add_builtin_functions();
        assert(codegen.state() =~= initial_state());
        codegen
    }

    /// Binds the built-in `log` function.
    fn add_builtin_functions(&mut self)
        ensures
            final(self).state() == define_fun(
                old(self).state(),
                "log"@,
                LFunction { name: "log"@, parameters: seq![("message"@, IType::String)], return_type: IType::Unit, body: Seq::empty() },
            ),
            final(self).module() == old(self).module(),
    {
        let mut parameters: Vec<(String, InferType)> = Vec::new();
        parameters.push((String::from_str("message"), InferType::String));
        assert(members_view(parameters@) =~= seq![("message"@, IType::String)]) by {
            lemma_members_view(parameters@);
        }
        let f = LLVMFunction {
            name: String::from_str("log"),
            parameters,
            return_type: InferType::Unit,
            body: String::new(),
        };
        let ghost before = self.state();
        let ghost fv = f@;
        self.symbols.define_function(String::from_str("log"), f);
        assert(self.state() =~= define_fun(before, "log"@, fv));
    }

    /// Emits the module's opening lines: target and the list and map types.
    pub fn emit_module_header(&mut self)
        ensures
            final(self).state() == (GenState { lines: old(self).state().lines + prelude_lines().take(4), ..old(self).state() }),
            final(self).module() == old(self).module(),
    {
        self.emit("target triple = \"x86_64-unknown-linux-gnu\"");
        self.emit("%coral.list = type { i8*, i64, i64 }");
        self.emit("%coral.map = type { i8*, i64, i64 }");
        self.emit("");
        assert(self.state() =~= (GenState { lines: old(self).state().lines + prelude_lines().take(4), ..old(self).state() }));
    }

    /// Emits the declarations of the runtime's functions.
    pub fn emit_builtin_declarations(&mut self)
        ensures
            final(self).state() == (GenState { lines: old(self).state().lines + prelude_lines().skip(4), ..old(self).state() }),
            final(self).module() == old(self).module(),
    {
        self.emit("declare i32 @printf(i8*, ...)");
        self.emit("declare i32 @puts(i8*)");
        self.emit("declare i8* @malloc(i64)");
        self.emit("declare i8* @realloc(i8*, i64)");
        self.emit("declare i8* @map_create(i64, i64)");
        self.emit("declare void @map_insert(i8*, i8*, i8*)");
        self.emit("");
        assert(self.state() =~= (GenState { lines: old(self).state().lines + prelude_lines().skip(4), ..old(self).state() }));
    }

    /// Emits a `main` that returns 0.
    pub fn emit_main_function(&mut self) -> (r: Result<(), CodegenError>)
        ensures
            r is Ok,
            final(self).state() == (GenState { lines: old(self).state().lines + main_lines(), ..old(self).state() }),
            final(self).module() == old(self).module(),
    {
        self.emit("define i32 @main() {");
        self.emit("  ret i32 0");
        self.emit("}");
        assert(self.state() =~= (GenState { lines: old(self).state().lines + main_lines(), ..old(self).state() }));
        Ok(())
    }

    /// The IR of a whole program: the prelude, its statements and `main`, one line each.
    pub fn compile_program(&mut self, program: &Program) -> (r: Result<String, CodegenError>)
        ensures
            (text_result(r), final(self).state()) == gen_program(program.statements@, old(self).state()),
            final(self).module() == old(self).module(),
    {
        self.emit_module_header();
        self.emit_builtin_declarations();
        assert(old(self).state().lines + prelude_lines().take(4) + prelude_lines().skip(4) =~= old(self).state().lines
            + prelude_lines());
        assert(self.state() =~= (GenState { lines: old(self).state().lines + prelude_lines(), ..old(self).state() }));
        match self.compile_block(&program.statements) {
            Ok(()) => {},
            Err(e) => return Err(e),
        }
        match self.emit_main_function() {
            Ok(()) => {},
            Err(e) => return Err(e),
        }
        Ok(self.output())
    }

    /// A unary operation: negation subtracts from zero, the two nots are exclusive ors.
    pub fn compile_unary_operation(&mut self, op: &UnaryOp, operand: &Expr) -> (r: Result<LLVMValue, CodegenError>)
        ensures
            (gen_result(r), final(self).state()) == gen_unary(*op, *operand, old(self).state()),
            final(self).module() == old(self).module(),
    {
        let operand_val = match self.compile_expression(operand) {
            Ok(v) => v,
            Err(e) => return Err(e),
        };
        let result_temp = self.next_temp();
        let (instruction, result_type) = match op {
            UnaryOp::Neg => match &operand_val.type_info {
                InferType::Int => (String::from_str("sub"), InferType::Int),
                InferType::Float => (String::from_str("fsub"), InferType::Float),
                _ => return Err(CodegenError::InvalidOperation(String::from_str("Numeric negation requires numeric type"))),
            },
            UnaryOp::Not => if matches!(operand_val.type_info, InferType::Bool) {
                (String::from_str("xor"), InferType::Bool)
            } else {
                return Err(CodegenError::InvalidOperation(String::from_str("Logical NOT requires boolean type")));
            },
            UnaryOp::BitNot => if matches!(operand_val.type_info, InferType::Int) {
                (String::from_str("xor"), InferType::Int)
            } else {
                return Err(CodegenError::InvalidOperation(String::from_str("Bitwise NOT requires integer type")));
            },
        };
        let operand_llvm_type = self.infer_type_to_llvm_type(&operand_val.type_info);
        let const_zero = match &operand_val.type_info {
            InferType::Int => String::from_str("0"),
            InferType::Float => String::from_str("0.0"),
            InferType::Bool => String::from_str("true"),
            _ => return Err(CodegenError::InvalidOperation(String::from_str("Unsupported type for unary operation"))),
        };
        let mut l = String::from_str("  ");
        push_tmp(&mut l, result_temp);
        l.append(" = ");
        l.append(instruction.as_str());
        l.append(" ");
        l.append(operand_llvm_type.as_str());
        l.append(" ");
        l.append(const_zero.as_str());
        l.append(", ");
        l.append(operand_val.value_id.as_str());
        assert(l@ =~= "  "@ + tmp(result_temp) + " = "@ + instruction@ + " "@ + operand_llvm_type@ + " "@ + const_zero@ + ", "@
            + operand_val.value_id@);
        self.emit(l.as_str());
        Ok(LLVMValue { type_info: result_type, llvm_type: operand_llvm_type, value_id: tmp_text(result_temp) })
    }
}


impl LLVMCodegen {
    /// The IR emitted so far, one line after another.
    pub fn output(&self) -> (s: String)
        ensures
            s@ == crate::text::join(self.state().lines, "\n"@),
    {
        let ghost lines = self.state().lines;
        let mut out = String::new();
        let mut i: usize = 0;
        while i < self.ir_output.len()
            invariant
                i <= self.ir_output.len(),
                lines == self.state().lines,
                out@ == crate::text::join(lines.take(i as int), "\n"@),
            decreases self.ir_output.len() - i,
        {
            proof {
                assert(lines.take(i + 1).drop_last() =~= lines.take(i as int));
                crate::text::lemma_join_push(lines.take(i as int), "\n"@, lines[i as int]);
                assert(lines.take(i as int).push(lines[i as int]) =~= lines.take(i + 1));
            }
            if i > 0 {
                out.append("\n");
            }
            out.append(self.ir_output[i].as_str());
            i = i + 1;
        }
        assert(lines.take(self.ir_output.len() as int) =~= lines);
        out
    }

    /// Binds a variable in the current scope.
    pub fn define_variable(&mut self, name: String, value: LLVMValue)
        ensures
            final(self).state() == define_var(old(self).state(), name@, value@),
            final(self).module() == old(self).module(),
    {
        let ghost before = self.state();
        let ghost key = name@;
        let ghost vv = value@;
        self.symbols.define_variable(name, value);
        assert(self.state() =~= define_var(before, key, vv));
    }
}

} // verus!
