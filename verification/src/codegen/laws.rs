use vstd::prelude::*;
use crate::ast::{Expr, ExprKind, Stmt, StmtKind, Argument, ErrorAction};
use crate::resolver::types::IType;
use crate::lexer::TokenType;
use crate::parser::level_op;
use super::gen_spec::{
    tmp, binary_instruction, GenState, gen_expr, gen_values, gen_binary, gen_call, gen_function_call, gen_external_call, class_name, gen_action, gen_handler, inst_fields, gen_property, gen_if_expr,
    gen_list_literal, list_elements, gen_list_append, gen_map_literal, map_entries, gen_map_insert, gen_stmt, gen_stmts,
    gen_function, gen_if_stmt, gen_loop, gen_unless, gen_iterate, lookup_object, bind_param_vars,
};

verus! {

/// `b` keeps every line `a` had emitted, in place.
pub open spec fn extends(a: GenState, b: GenState) -> bool {
    &&& a.lines.len() <= b.lines.len()
    &&& forall|i: int| 0 <= i < a.lines.len() ==> #[trigger] b.lines[i] == a.lines[i]
}

proof fn lemma_bind_params_lines(st: GenState, info: Seq<(Seq<char>, IType)>)
    ensures
        bind_param_vars(st, info).lines == st.lines,
    decreases info.len(),
{
    if info.len() > 0 {
        lemma_bind_params_lines(st, info.drop_last());
    }
}

/// Compiling an expression only adds lines after those already emitted.
pub proof fn law_expr_appends(e: Expr, st: GenState)
    ensures
        extends(st, gen_expr(e, st).1),
    decreases e, 1nat,
{
    match e.kind {
        ExprKind::Binary { .. } => lemma_binary(e, st),
        ExprKind::Call { .. } => lemma_call(e, st),
        ExprKind::FieldAccess { .. } => lemma_property(e, st),
        ExprKind::If { .. } => lemma_if_expr(e, st),
        ExprKind::ListLiteral(_) => lemma_list_literal(e, st),
        ExprKind::ListAppend { .. } => lemma_list_append(e, st),
        ExprKind::MapLiteral(_) => lemma_map_literal(e, st),
        ExprKind::MapInsert { .. } => lemma_map_insert(e, st),
        _ => {},
    }
}

proof fn lemma_values(args: Seq<Argument>, i: int, acc: Seq<super::symbols::LValue>, st: GenState)
    ensures
        extends(st, gen_values(args, i, acc, st).1),
    decreases args, args.len() - i,
{
    if 0 <= i < args.len() {
        law_expr_appends(args[i].value, st);
        let r = gen_expr(args[i].value, st);
        if r.0 is Ok {
            lemma_values(args, i + 1, acc.push(r.0->Ok_0), r.1);
        }
    }
}

proof fn lemma_binary(e: Expr, st: GenState)
    ensures
        extends(st, gen_binary(e, st).1),
    decreases e, 0nat,
{
    if let ExprKind::Binary { left, right, .. } = e.kind {
        law_expr_appends(*left, st);
        let l = gen_expr(*left, st);
        if l.0 is Ok {
            law_expr_appends(*right, l.1);
        }
    }
}

proof fn lemma_inst_fields(
    args: Seq<Argument>,
    fields: Seq<(Seq<char>, IType)>,
    i: int,
    t: usize,
    lt: Seq<char>,
    st: GenState,
)
    ensures
        extends(st, inst_fields(args, fields, i, t, lt, st).1),
    decreases args, fields.len() - i,
{
    if 0 <= i < fields.len() {
        if i < args.len() {
            law_expr_appends(args[i].value, st);
        }
        let ft = fields[i].1;
        let r: super::gen_spec::Gen = if i < args.len() {
            gen_expr(args[i].value, st)
        } else {
            (Ok(super::gen_spec::value(ft, super::gen_spec::cg_llvm(ft), super::gen_spec::default_id(ft))), st)
        };
        if r.0 is Ok {
            let v = r.0->Ok_0;
            let s1 = super::gen_spec::emit(
                r.1,
                "  %fieldptr"@ + super::gen_spec::num(t) + " = getelementptr inbounds "@ + lt + ", "@ + lt + "* %"@
                    + super::gen_spec::num(t) + ", i32 0, i32 "@ + crate::text::decimal(i as nat),
            );
            let s2 = super::gen_spec::emit(
                s1,
                "  store "@ + v.llvm_type + " "@ + v.value_id + ", "@ + super::gen_spec::cg_llvm(ft) + "* %fieldptr"@
                    + super::gen_spec::num(t),
            );
            lemma_inst_fields(args, fields, i + 1, t, lt, s2);
        }
    }
}

proof fn lemma_external_call(name: Seq<char>, args: Seq<Argument>, st: GenState)
    ensures
        extends(st, gen_external_call(name, args, st).1),
    decreases args, args.len() + 1,
{
    lemma_values(args, 0, Seq::empty(), st);
}

proof fn lemma_function_call(name: Seq<char>, args: Seq<Argument>, st: GenState)
    ensures
        extends(st, gen_function_call(name, args, st).1),
    decreases args, args.len() + 2,
{
    lemma_values(args, 0, Seq::empty(), st);
    lemma_external_call(name, args, st);
}

proof fn lemma_call(e: Expr, st: GenState)
    ensures
        extends(st, gen_call(e, st).1),
    decreases e, 0nat,
{
    if let ExprKind::Call { callee, args } = e.kind {
        match callee.kind {
            ExprKind::Identifier(name) => match lookup_object(st, name@) {
                Some(ot) => {
                    let (t, s1) = super::gen_spec::new_temp(st);
                    let lt = super::gen_spec::cg_llvm(ot);
                    let s2 = super::gen_spec::emit(s1, "  "@ + super::gen_spec::tmp(t) + " = alloca "@ + lt);
                    let fields = match ot {
                        IType::Object { fields, .. } => fields,
                        _ => Seq::empty(),
                    };
                    lemma_inst_fields(args@, fields, 0, t, lt, s2);
                },
                None => lemma_function_call(name@, args@, st),
            },
            ExprKind::FieldAccess { object, field } => match class_name(*object, st) {
                Some(c) => lemma_external_call(c + "_"@ + field@, args@, st),
                None => {
                    law_expr_appends(*object, st);
                    let o = gen_expr(*object, st);
                    if o.0 is Ok {
                        lemma_values(args@, 0, seq![o.0->Ok_0], o.1);
                    }
                },
            },
            _ => {},
        }
    }
}

proof fn lemma_property(e: Expr, st: GenState)
    ensures
        extends(st, gen_property(e, st).1),
    decreases e, 0nat,
{
    if let ExprKind::FieldAccess { object, .. } = e.kind {
        law_expr_appends(*object, st);
    }
}

proof fn lemma_if_expr(e: Expr, st: GenState)
    ensures
        extends(st, gen_if_expr(e, st).1),
    decreases e, 0nat,
{
    if let ExprKind::If { condition, then_branch, else_branch } = e.kind {
        law_expr_appends(*condition, st);
        let c = gen_expr(*condition, st);
        if c.0 is Ok {
            let cv = c.0->Ok_0;
            let (tl, s1) = super::gen_spec::new_label(c.1);
            let (el, s2) = super::gen_spec::new_label(s1);
            let (ml, s3) = super::gen_spec::new_label(s2);
            let s4 = super::gen_spec::emit(s3, "  br i1 "@ + cv.value_id + ", "@ + super::gen_spec::lbl(tl) + ", "@ + super::gen_spec::lbl(el));
            let s5 = super::gen_spec::emit(s4, super::gen_spec::block(tl));
            law_expr_appends(*then_branch, s5);
            let t = gen_expr(*then_branch, s5);
            if t.0 is Ok {
                let s6 = super::gen_spec::emit(super::gen_spec::emit(t.1, "  br "@ + super::gen_spec::lbl(ml)), super::gen_spec::block(el));
                if let Some(eb) = else_branch {
                    law_expr_appends(*eb, s6);
                }
            }
        }
    }
}

proof fn lemma_list_elements(elements: Seq<Expr>, i: int, data: usize, size: usize, elt: Seq<char>, st: GenState)
    ensures
        extends(st, list_elements(elements, i, data, size, elt, st).1),
    decreases elements, elements.len() - i,
{
    if 0 <= i < elements.len() {
        law_expr_appends(elements[i], st);
        let r = gen_expr(elements[i], st);
        if r.0 is Ok {
            let v = r.0->Ok_0;
            let offset = vstd::wrapping::usize_specs::wrapping_mul(i as usize, size);
            let (p, s1) = super::gen_spec::new_temp(r.1);
            let s2 = super::gen_spec::emit(
                s1,
                "  "@ + super::gen_spec::tmp(p) + " = getelementptr inbounds i8, i8* "@ + super::gen_spec::tmp(data) + ", i64 "@
                    + super::gen_spec::num(offset),
            );
            let (c, s3) = super::gen_spec::new_temp(s2);
            let s4 = super::gen_spec::emit(s3, "  "@ + super::gen_spec::tmp(c) + " = bitcast i8* "@ + super::gen_spec::tmp(p) + " to "@ + elt + "*"@);
            let s5 = super::gen_spec::emit(s4, "  store "@ + v.llvm_type + " "@ + v.value_id + ", "@ + elt + "* "@ + super::gen_spec::tmp(c));
            lemma_list_elements(elements, i + 1, data, size, elt, s5);
        }
    }
}

proof fn lemma_list_literal(e: Expr, st: GenState)
    ensures
        extends(st, gen_list_literal(e, st).1),
    decreases e, 0nat,
{
    if let ExprKind::ListLiteral(elements) = e.kind {
        let et = if elements@.len() > 0 {
            super::gen_spec::cg_infer(elements@[0].type_@)
        } else {
            IType::Unknown
        };
        let elt = super::gen_spec::cg_llvm(et);
        let size = super::gen_spec::type_size(et);
        let n = elements@.len() as usize;
        let (d, s1) = super::gen_spec::new_temp(st);
        let s2 = super::gen_spec::emit(
            s1,
            "  "@ + super::gen_spec::tmp(d) + " = call i8* @malloc(i64 "@ + super::gen_spec::num(vstd::wrapping::usize_specs::wrapping_mul(n, size)) + ")"@,
        );
        let (l, s3) = super::gen_spec::new_temp(s2);
        let s4 = super::gen_spec::emit(s3, "  "@ + super::gen_spec::tmp(l) + " = alloca %coral.list"@);
        let (g0, s5) = super::gen_spec::new_temp(s4);
        let s6 = super::gen_spec::emit(
            super::gen_spec::emit(s5, super::gen_spec::field_gep(g0, "%coral.list"@, super::gen_spec::num(l), "0"@)),
            "  store i8* "@ + super::gen_spec::tmp(d) + ", i8** "@ + super::gen_spec::tmp(g0),
        );
        let (g1, s7) = super::gen_spec::new_temp(s6);
        let s8 = super::gen_spec::emit(
            super::gen_spec::emit(s7, super::gen_spec::field_gep(g1, "%coral.list"@, super::gen_spec::num(l), "1"@)),
            "  store i64 "@ + super::gen_spec::num(n) + ", i64* "@ + super::gen_spec::tmp(g1),
        );
        let (g2, s9) = super::gen_spec::new_temp(s8);
        let s10 = super::gen_spec::emit(
            super::gen_spec::emit(s9, super::gen_spec::field_gep(g2, "%coral.list"@, super::gen_spec::num(l), "2"@)),
            "  store i64 "@ + super::gen_spec::num(n) + ", i64* "@ + super::gen_spec::tmp(g2),
        );
        lemma_list_elements(elements@, 0, d, size, elt, s10);
    }
}

proof fn lemma_list_append(e: Expr, st: GenState)
    ensures
        extends(st, gen_list_append(e, st).1),
    decreases e, 0nat,
{
    if let ExprKind::ListAppend { list, element } = e.kind {
        law_expr_appends(*list, st);
        let l = gen_expr(*list, st);
        if l.0 is Ok {
            law_expr_appends(*element, l.1);
        }
    }
}

proof fn lemma_map_entries(pairs: Seq<(Expr, Expr)>, i: int, map: usize, st: GenState)
    ensures
        extends(st, map_entries(pairs, i, map, st).1),
    decreases pairs, pairs.len() - i,
{
    if 0 <= i < pairs.len() {
        law_expr_appends(pairs[i].0, st);
        let k = gen_expr(pairs[i].0, st);
        if k.0 is Ok {
            law_expr_appends(pairs[i].1, k.1);
            let v = gen_expr(pairs[i].1, k.1);
            if v.0 is Ok {
                let s = super::gen_spec::emit(
                    v.1,
                    "  call void @map_insert(i8* "@ + super::gen_spec::tmp(map) + ", "@ + super::gen_spec::typed_operand(k.0->Ok_0)
                        + ", "@ + super::gen_spec::typed_operand(v.0->Ok_0) + ")"@,
                );
                lemma_map_entries(pairs, i + 1, map, s);
            }
        }
    }
}

proof fn lemma_map_literal(e: Expr, st: GenState)
    ensures
        extends(st, gen_map_literal(e, st).1),
    decreases e, 0nat,
{
    if let ExprKind::MapLiteral(pairs) = e.kind {
        let kt = if pairs@.len() > 0 {
            super::gen_spec::cg_infer(pairs@[0].0.type_@)
        } else {
            IType::Unknown
        };
        let vt = if pairs@.len() > 0 {
            super::gen_spec::cg_infer(pairs@[0].1.type_@)
        } else {
            IType::Unknown
        };
        let n = pairs@.len() as usize;
        let (mp, s1) = super::gen_spec::new_temp(st);
        let s2 = super::gen_spec::emit(s1, "  "@ + super::gen_spec::tmp(mp) + " = alloca %coral.map"@);
        let (cm, s3) = super::gen_spec::new_temp(s2);
        let s4 = super::gen_spec::emit(
            s3,
            "  "@ + super::gen_spec::tmp(cm) + " = call i8* @map_create(i64 "@ + super::gen_spec::num(super::gen_spec::type_size(kt))
                + ", i64 "@ + super::gen_spec::num(super::gen_spec::type_size(vt)) + ") ; key_size, value_size"@,
        );
        let (g0, s5) = super::gen_spec::new_temp(s4);
        let s6 = super::gen_spec::emit(
            super::gen_spec::emit(s5, super::gen_spec::field_gep(g0, "%coral.map"@, super::gen_spec::num(mp), "0"@)),
            "  store i8* "@ + super::gen_spec::tmp(cm) + ", i8** "@ + super::gen_spec::tmp(g0),
        );
        let (g1, s7) = super::gen_spec::new_temp(s6);
        let s8 = super::gen_spec::emit(
            super::gen_spec::emit(s7, super::gen_spec::field_gep(g1, "%coral.map"@, super::gen_spec::num(mp), "1"@)),
            "  store i64 "@ + super::gen_spec::num(n) + ", i64* "@ + super::gen_spec::tmp(g1),
        );
        let (g2, s9) = super::gen_spec::new_temp(s8);
        let s10 = super::gen_spec::emit(
            super::gen_spec::emit(s9, super::gen_spec::field_gep(g2, "%coral.map"@, super::gen_spec::num(mp), "2"@)),
            "  store i64 "@ + super::gen_spec::num(n) + ", i64* "@ + super::gen_spec::tmp(g2),
        );
        lemma_map_entries(pairs@, 0, cm, s10);
    }
}

proof fn lemma_map_insert(e: Expr, st: GenState)
    ensures
        extends(st, gen_map_insert(e, st).1),
    decreases e, 0nat,
{
    if let ExprKind::MapInsert { map, key, value } = e.kind {
        law_expr_appends(*map, st);
        let m = gen_expr(*map, st);
        if m.0 is Ok {
            law_expr_appends(*key, m.1);
            let k = gen_expr(*key, m.1);
            if k.0 is Ok {
                law_expr_appends(*value, k.1);
            }
        }
    }
}


/// Compiling a statement only adds lines after those already emitted.
pub proof fn law_stmt_appends(s: Stmt, st: GenState)
    ensures
        extends(st, gen_stmt(s, st).1),
    decreases s, 1nat,
{
    match s.kind {
        StmtKind::Function { .. } => lemma_function(s, st),
        StmtKind::Assignment { value, .. } => law_expr_appends(value, st),
        StmtKind::Expression(e) => law_expr_appends(e, st),
        StmtKind::Return(Some(e)) => law_expr_appends(e, st),
        StmtKind::ErrorHandler { handler, inner } => {
            law_stmt_appends(*inner, st);
            let r = gen_stmt(*inner, st);
            if r.0 is Ok {
                lemma_handler(handler.actions@, 0, r.1);
            }
        },
        StmtKind::If { .. } => lemma_if_stmt(s, st),
        StmtKind::While { .. } | StmtKind::Until { .. } => lemma_loop(s, st),
        StmtKind::Unless { .. } => lemma_unless(s, st),
        StmtKind::Iterate { .. } => lemma_iterate(s, st),
        _ => {},
    }
}

proof fn lemma_handler(actions: Seq<ErrorAction>, i: int, st: GenState)
    ensures
        extends(st, gen_handler(actions, i, st).1),
    decreases actions.len() - i,
{
    if 0 <= i < actions.len() {
        match actions[i] {
            ErrorAction::Log(Some(e)) => law_expr_appends(e, st),
            ErrorAction::Return(Some(e)) => law_expr_appends(e, st),
            ErrorAction::Custom(e) => law_expr_appends(e, st),
            _ => {},
        }
        let r = gen_action(actions[i], st);
        if r.0 is Ok {
            lemma_handler(actions, i + 1, r.1);
        }
    }
}

/// Compiling statements in turn only adds lines after those already emitted.
pub proof fn law_stmts_append(stmts: Seq<Stmt>, i: int, st: GenState)
    ensures
        extends(st, gen_stmts(stmts, i, st).1),
    decreases stmts, stmts.len() - i,
{
    if 0 <= i < stmts.len() {
        law_stmt_appends(stmts[i], st);
        let r = gen_stmt(stmts[i], st);
        if r.0 is Ok {
            law_stmts_append(stmts, i + 1, r.1);
        }
    }
}

proof fn lemma_function(s: Stmt, st: GenState)
    ensures
        extends(st, gen_function(s, st).1),
    decreases s, 0nat,
{
    if let StmtKind::Function { name, params, return_type, body } = s.kind {
        let info = super::gen_spec::param_info(params@);
        let ret = match return_type {
            Some(t) => super::gen_spec::cg_infer(t@),
            None => IType::Unit,
        };
        let rl = super::gen_spec::cg_llvm(ret);
        let s1 = super::gen_spec::emit(
            st,
            "define "@ + rl + " @"@ + name@ + "("@ + crate::text::join(info.map_values(|p: (Seq<char>, IType)| super::gen_spec::param_decl(p)), ", "@)
                + ") {"@,
        );
        lemma_bind_params_lines(s1, info);
        law_stmts_append(body@, 0, bind_param_vars(s1, info));
    }
}

#[verifier::rlimit(60)]
proof fn lemma_if_stmt(s: Stmt, st: GenState)
    ensures
        extends(st, gen_if_stmt(s, st).1),
    decreases s, 0nat,
{
    if let StmtKind::If { condition, then_branch, else_branch } = s.kind {
        law_expr_appends(condition, st);
        let c = gen_expr(condition, st);
        if c.0 is Ok {
            let cv = c.0->Ok_0;
            let (tl, s1) = super::gen_spec::new_label(c.1);
            let (el, s2) = super::gen_spec::new_label(s1);
            let (ml, s3) = super::gen_spec::new_label(s2);
            let s4 = super::gen_spec::emit(
                super::gen_spec::emit(s3, "  br i1 "@ + cv.value_id + ", "@ + super::gen_spec::lbl(tl) + ", "@ + super::gen_spec::lbl(el)),
                super::gen_spec::block(tl),
            );
            law_stmts_append(then_branch@, 0, s4);
            let t = gen_stmts(then_branch@, 0, s4);
            if t.0 is Ok {
                let s5 = super::gen_spec::emit(super::gen_spec::emit(t.1, "  br "@ + super::gen_spec::lbl(ml)), super::gen_spec::block(el));
                if let Some(eb) = else_branch {
                    law_stmts_append(eb@, 0, s5);
                }
            }
        }
    }
}

proof fn lemma_loop(s: Stmt, st: GenState)
    ensures
        extends(st, gen_loop(s, st).1),
    decreases s, 0nat,
{
    let (condition, body, until) = match s.kind {
        StmtKind::While { condition, body } => (condition, body, false),
        StmtKind::Until { condition, body } => (condition, body, true),
        _ => (arbitrary(), arbitrary(), false),
    };
    if s.kind is While || s.kind is Until {
        let (hl, s1) = super::gen_spec::new_label(st);
        let (bl, s2) = super::gen_spec::new_label(s1);
        let (el, s3) = super::gen_spec::new_label(s2);
        let s4 = super::gen_spec::emit(super::gen_spec::emit(s3, "  br "@ + super::gen_spec::lbl(hl)), super::gen_spec::block(hl));
        law_expr_appends(condition, s4);
        let c = gen_expr(condition, s4);
        if c.0 is Ok {
            let cv = c.0->Ok_0;
            let branch = if until {
                "  br i1 "@ + cv.value_id + ", "@ + super::gen_spec::lbl(el) + ", "@ + super::gen_spec::lbl(bl)
            } else {
                "  br i1 "@ + cv.value_id + ", "@ + super::gen_spec::lbl(bl) + ", "@ + super::gen_spec::lbl(el)
            };
            law_stmts_append(body@, 0, super::gen_spec::emit(super::gen_spec::emit(c.1, branch), super::gen_spec::block(bl)));
        }
    }
}

proof fn lemma_unless(s: Stmt, st: GenState)
    ensures
        extends(st, gen_unless(s, st).1),
    decreases s, 0nat,
{
    if let StmtKind::Unless { condition, body } = s.kind {
        law_expr_appends(condition, st);
        let c = gen_expr(condition, st);
        if c.0 is Ok {
            let cv = c.0->Ok_0;
            let (tl, s1) = super::gen_spec::new_label(c.1);
            let (ml, s2) = super::gen_spec::new_label(s1);
            let s3 = super::gen_spec::emit(
                super::gen_spec::emit(s2, "  br i1 "@ + cv.value_id + ", "@ + super::gen_spec::lbl(ml) + ", "@ + super::gen_spec::lbl(tl)),
                super::gen_spec::block(tl),
            );
            law_stmts_append(body@, 0, s3);
        }
    }
}

proof fn lemma_iterate(s: Stmt, st: GenState)
    ensures
        extends(st, gen_iterate(s, st).1),
    decreases s, 0nat,
{
    if let StmtKind::Iterate { iterable, .. } = s.kind {
        law_expr_appends(iterable, st);
    }
}


/// Integer arithmetic compiles to the LLVM integer instruction of its operator: when both
/// operands of `a + b`, `a - b` or `a * b` compile to integers, the result is an integer held in
/// a fresh temporary, and the line emitted last is `%t = add`, `sub` or `mul` respectively,
/// applied to the two operands.
pub proof fn law_integer_arithmetic(e: Expr, st: GenState)
    ensures
        match e.kind {
            ExprKind::Binary { op, left, right } => {
                let l = gen_expr(*left, st);
                let r = gen_expr(*right, l.1);
                let g = gen_expr(e, st);
                match (l.0, r.0) {
                    (Ok(lv), Ok(rv)) => (lv.type_info is Int && rv.type_info is Int && (op is Add || op is Sub
                        || op is Mul)) ==> {
                        let opcode = if op is Add {
                            "add"@
                        } else if op is Sub {
                            "sub"@
                        } else {
                            "mul"@
                        };
                        &&& g.0 matches Ok(v) && v.type_info is Int && v.value_id == tmp(r.1.temp)
                        &&& g.1.lines == r.1.lines.push(
                            "  "@ + tmp(r.1.temp) + " = "@ + opcode + " "@ + lv.llvm_type + " "@ + lv.value_id + ", "@
                                + rv.value_id,
                        )
                    },
                    _ => true,
                }
            },
            _ => true,
        },
{
}


/// The instruction an operator token stands for on two integers.
pub open spec fn int_instruction_of(t: TokenType) -> Option<Seq<char>> {
    match t {
        TokenType::Plus => Some("add"@),
        TokenType::Minus => Some("sub"@),
        TokenType::Star => Some("mul"@),
        TokenType::Gt => Some("icmp sgt"@),
        TokenType::Gte => Some("icmp sge"@),
        TokenType::Lt => Some("icmp slt"@),
        TokenType::Lte => Some("icmp sle"@),
        TokenType::Equals | TokenType::EqualEqual => Some("icmp eq"@),
        TokenType::BangEqual => Some("icmp ne"@),
        TokenType::And | TokenType::LogicalAnd | TokenType::Ampersand => Some("and"@),
        TokenType::Or | TokenType::LogicalOr | TokenType::Pipe => Some("or"@),
        TokenType::Caret => Some("xor"@),
        TokenType::LeftShift => Some("shl"@),
        TokenType::RightShift => Some("lshr"@),
        _ => None,
    }
}

/// The instruction an arithmetic or ordering token stands for on two floats.
pub open spec fn float_instruction_of(t: TokenType) -> Option<Seq<char>> {
    match t {
        TokenType::Plus => Some("fadd"@),
        TokenType::Minus => Some("fsub"@),
        TokenType::Star => Some("fmul"@),
        TokenType::Gt => Some("fcmp ogt"@),
        TokenType::Gte => Some("fcmp oge"@),
        TokenType::Lt => Some("fcmp olt"@),
        TokenType::Lte => Some("fcmp ole"@),
        _ => None,
    }
}

/// An operator token, read by the parser at its precedence level and compiled on two integers,
/// gives the instruction the token stands for: `+` adds, `-` subtracts, `*` multiplies,
/// `gt`/`gte`/`lt`/`lte` compare signed, strictly or not, and `==`/`!=` compare for equality.
pub proof fn law_operator_tokens_compile(level: nat, t: TokenType)
    requires
        level_op(level, t) is Some,
        int_instruction_of(t) is Some,
    ensures
        binary_instruction(level_op(level, t)->0, IType::Int, IType::Int) matches Ok((instr, _)) && instr
            == int_instruction_of(t)->0,
{
}

/// The same on two floats: `+`, `-`, `*` give the float instructions and the orderings the
/// ordered float comparisons, with a float or a boolean result.
pub proof fn law_operator_tokens_compile_float(level: nat, t: TokenType)
    requires
        level_op(level, t) is Some,
        float_instruction_of(t) is Some,
    ensures
        binary_instruction(level_op(level, t)->0, IType::Float, IType::Float) matches Ok((instr, rt)) && instr
            == float_instruction_of(t)->0 && (if t == TokenType::Plus || t == TokenType::Minus || t
            == TokenType::Star { rt is Float } else { rt is Bool }),
{
}

} // verus!
