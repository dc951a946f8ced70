use vstd::prelude::*;
use crate::assoc::{assoc_get, assoc_pos, find_name, lemma_assoc_pos, lemma_assoc_pos_unique, lemma_assoc_pos_none};
use crate::ast::{
    SourceSpan, SpanView, Type, TypeView, type_view, types_view, fields_view, copy_type, copy_types, lemma_types_view,
    lemma_types_view_push,
    lemma_fields_view, type_eq, debug_text, is_numeric_view, is_integer_view, is_float_view, BinaryOp, UnaryOp,
    Literal,
};
use crate::codegen::symbols::{LLVMValue, LLVMFunction, values_view, functions_view};
use crate::ast::{Expr, ExprKind, Stmt, StmtKind, Parameter, StringPart, ErrorAction, Program};
use crate::analysis::{AnalysisState, enter, exit, declare, check_condition, check_args_fit, expr_check, args_check, parts_check, block_check, stmts_check, params_declare, stmt_check, actions_check,
    expr_kept, args_kept, parts_kept, stmts_kept, stmt_kept, actions_kept, part_kept, action_kept, lemma_args_kept,
    lemma_parts_kept, lemma_stmts_kept, lemma_actions_kept};
use crate::text::{push_decimal};

verus! {

/// What a name stands for.
#[derive(Debug)]
pub enum SymbolKind {
    Variable,
    Function { params: Vec<Type>, return_type: Type },
    Type,
}

/// The mathematical model of a `SymbolKind`.
pub enum KindView {
    Variable,
    Function { params: Seq<TypeView>, return_type: TypeView },
    Type,
}

impl View for SymbolKind {
    type V = KindView;

    open spec fn view(&self) -> KindView {
        match *self {
            SymbolKind::Variable => KindView::Variable,
            SymbolKind::Function { params, return_type } => KindView::Function {
                params: types_view(params@),
                return_type: return_type@,
            },
            SymbolKind::Type => KindView::Type,
        }
    }
}

/// A declared name: its type, what it stands for, and where it was declared.
#[derive(Debug)]
pub struct Symbol {
    pub name: String,
    pub type_: Type,
    pub kind: SymbolKind,
    pub span: SourceSpan,
}

/// The mathematical model of a `Symbol`.
pub struct SymbolView {
    pub name: Seq<char>,
    pub type_: TypeView,
    pub kind: KindView,
    pub span: SpanView,
}

impl View for Symbol {
    type V = SymbolView;

    open spec fn view(&self) -> SymbolView {
        SymbolView { name: self.name@, type_: self.type_@, kind: self.kind@, span: self.span@ }
    }
}

impl Clone for SymbolKind {
    fn clone(&self) -> (r: Self)
        ensures
            r@ == self@,
    {
        match self {
            SymbolKind::Variable => SymbolKind::Variable,
            SymbolKind::Function { params, return_type } => SymbolKind::Function {
                params: copy_types(params),
                return_type: copy_type(return_type),
            },
            SymbolKind::Type => SymbolKind::Type,
        }
    }
}

impl Clone for Symbol {
    fn clone(&self) -> (r: Self)
        ensures
            r@ == self@,
    {
        Symbol {
            name: self.name.clone(),
            type_: copy_type(&self.type_),
            kind: self.kind.clone(),
            span: self.span.copy(),
        }
    }
}

pub open spec fn scope_view(sc: Seq<(String, Symbol)>) -> Seq<(Seq<char>, SymbolView)> {
    sc.map_values(|e: (String, Symbol)| (e.0@, e.1@))
}

/// The symbol a name resolves to: its binding in the innermost scope that binds it.
pub open spec fn lookup_in_scopes(scopes: Seq<Seq<(Seq<char>, SymbolView)>>, name: Seq<char>) -> Option<SymbolView>
    decreases scopes.len(),
{
    if scopes.len() == 0 {
        None
    } else {
        match assoc_get(scopes.last(), name) {
            Some(s) => Some(s),
            None => lookup_in_scopes(scopes.drop_last(), name),
        }
    }
}

/// The message of a repeated declaration in one scope.
pub open spec fn duplicate_message(name: Seq<char>) -> Seq<char> {
    "Symbol '"@ + name + "' already defined in this scope"@
}

/// Scopes of declared names, innermost last, and the variables and functions compiled so far.
#[derive(Debug)]
pub struct SymbolTable {
    pub scopes: Vec<Vec<(String, Symbol)>>,
    pub functions: Vec<(String, LLVMFunction)>,
    pub variables: Vec<(String, LLVMValue)>,
}

impl SymbolTable {
    /// The scopes as mathematical values, innermost last.
    pub open spec fn scopes_view(self) -> Seq<Seq<(Seq<char>, SymbolView)>> {
        self.scopes@.map_values(|sc: Vec<(String, Symbol)>| scope_view(sc@))
    }

    /// A table with one empty, global scope.
    pub fn new() -> (t: Self)
        ensures
            t.scopes_view() == seq![Seq::<(Seq<char>, SymbolView)>::empty()],
            t.functions@ == Seq::<(String, LLVMFunction)>::empty(),
            t.variables@ == Seq::<(String, LLVMValue)>::empty(),
    {
        let mut scopes: Vec<Vec<(String, Symbol)>> = Vec::new();
        scopes.push(Vec::new());
        let t = SymbolTable { scopes, functions: Vec::new(), variables: Vec::new() };
        assert(scope_view(t.scopes@[0]@) =~= Seq::<(Seq<char>, SymbolView)>::empty());
        assert(t.scopes_view() =~= seq![Seq::<(Seq<char>, SymbolView)>::empty()]);
        t
    }

    /// A table with the scopes of `parent` and a new scope inside them; compiled variables and
    /// functions are not carried over.
    pub fn with_parent(parent: Self) -> (t: Self)
        ensures
            t.scopes_view() == parent.scopes_view().push(Seq::empty()),
            t.functions@ == Seq::<(String, LLVMFunction)>::empty(),
            t.variables@ == Seq::<(String, LLVMValue)>::empty(),
    {
        let mut new_table = Self::new();
        new_table.scopes = parent.scopes;
        new_table.enter_scope();
        new_table
    }

    /// Opens a new innermost scope.
    pub fn enter_scope(&mut self)
        ensures
            final(self).scopes_view() == old(self).scopes_view().push(Seq::empty()),
            final(self).functions == old(self).functions,
            final(self).variables == old(self).variables,
    {
        self.scopes.push(Vec::new());
        assert(scope_view(self.scopes@[self.scopes.len() - 1]@) =~= Seq::<(Seq<char>, SymbolView)>::empty());
        assert(self.scopes_view() =~= old(self).scopes_view().push(Seq::empty()));
    }

    /// Closes the innermost scope, if there is one.
    pub fn exit_scope(&mut self)
        ensures
            final(self).scopes_view() == (if old(self).scopes_view().len() > 0 {
                old(self).scopes_view().drop_last()
            } else {
                old(self).scopes_view()
            }),
            final(self).functions == old(self).functions,
            final(self).variables == old(self).variables,
    {
        let _ = self.scopes.pop();
        assert(self.scopes_view() =~= (if old(self).scopes_view().len() > 0 {
            old(self).scopes_view().drop_last()
        } else {
            old(self).scopes_view()
        }));
    }

    /// Declares `symbol` in the innermost scope; a name already declared there is refused.
    pub fn define(&mut self, symbol: Symbol) -> (r: Result<(), String>)
        requires
            old(self).scopes_view().len() > 0,
        ensures
            ({
                let sc = old(self).scopes_view();
                let name = symbol.name@;
                if assoc_get(sc.last(), name) is Some {
                    r == Err::<(), String>(r->Err_0) && r->Err_0@ == duplicate_message(name)
                        && final(self).scopes_view() == sc
                } else {
                    r is Ok && final(self).scopes_view() == sc.update(sc.len() - 1, sc.last().push((name, symbol@)))
                }
            }),
            final(self).functions == old(self).functions,
            final(self).variables == old(self).variables,
    {
        let ghost sc = self.scopes_view();
        let last = self.scopes.len() - 1;
        let ghost cur = scope_view(self.scopes@[last as int]@);
        assert(sc.last() == cur);
        match find_name(&self.scopes[last], symbol.name.as_str()) {
            Some(i) => {
                proof {
                    lemma_assoc_pos_unique(cur, symbol.name@, i as int);
                }
                let mut msg = String::from_str("Symbol '");
                msg.append(symbol.name.as_str());
                msg.append("' already defined in this scope");
                Err(msg)
            },
            None => {
                proof {
                    lemma_assoc_pos_none(cur, symbol.name@);
                }
                let ghost sv = symbol@;
                let mut scope = Vec::new();
                std::mem::swap(&mut scope, &mut self.scopes[last]);
                let name = symbol.name.clone();
                scope.push((name, symbol));
                assert(scope_view(scope@) =~= cur.push((sv.name, sv)));
                self.scopes.set(last, scope);
                assert(self.scopes_view() =~= sc.update(sc.len() - 1, cur.push((sv.name, sv))));
                Ok(())
            },
        }
    }

    /// The symbol a name resolves to, innermost scope first.
    pub fn lookup(&self, name: &str) -> (r: Option<&Symbol>)
        ensures
            match r {
                Some(s) => lookup_in_scopes(self.scopes_view(), name@) == Some(s@),
                None => lookup_in_scopes(self.scopes_view(), name@) is None,
            },
    {
        let ghost sc = self.scopes_view();
        let mut k: usize = self.scopes.len();
        assert(sc.take(k as int) =~= sc);
        while k > 0
            invariant
                k <= self.scopes.len(),
                sc == self.scopes_view(),
                lookup_in_scopes(sc, name@) == lookup_in_scopes(sc.take(k as int), name@),
            decreases k,
        {
            let ghost cur = scope_view(self.scopes@[k - 1]@);
            assert(sc.take(k as int).last() == cur);
            assert(sc.take(k as int).drop_last() =~= sc.take(k - 1));
            match find_name(&self.scopes[k - 1], name) {
                Some(i) => {
                    proof {
                        lemma_assoc_pos_unique(cur, name@, i as int);
                    }
                    return Some(&self.scopes[k - 1][i].1);
                },
                None => {
                    proof {
                        lemma_assoc_pos_none(cur, name@);
                    }
                },
            }
            k = k - 1;
        }
        None
    }

    /// Records a compiled variable.
    pub fn define_variable(&mut self, name: String, value: LLVMValue)
        ensures
            values_view(final(self).variables@) == crate::assoc::assoc_insert(values_view(old(self).variables@), name@, value@),
            final(self).scopes_view() == old(self).scopes_view(),
            final(self).functions == old(self).functions,
    {
        crate::codegen::symbols::insert_named(&mut self.variables, name, value);
    }

    /// A compiled variable.
    pub fn lookup_variable(&self, name: &str) -> (r: Option<&LLVMValue>)
        ensures
            match r {
                Some(v) => assoc_get(values_view(self.variables@), name@) == Some(v@),
                None => assoc_get(values_view(self.variables@), name@) is None,
            },
    {
        match crate::codegen::symbols::position_of(&self.variables, name) {
            Some(i) => Some(&self.variables[i].1),
            None => None,
        }
    }

    /// Records a compiled function.
    pub fn define_function(&mut self, name: String, func: LLVMFunction)
        ensures
            functions_view(final(self).functions@) == crate::assoc::assoc_insert(functions_view(old(self).functions@), name@, func@),
            final(self).scopes_view() == old(self).scopes_view(),
            final(self).variables == old(self).variables,
    {
        crate::codegen::symbols::insert_named(&mut self.functions, name, func);
    }

    /// A compiled function.
    pub fn lookup_function(&self, name: &str) -> (r: Option<&LLVMFunction>)
        ensures
            match r {
                Some(f) => assoc_get(functions_view(self.functions@), name@) == Some(f@),
                None => assoc_get(functions_view(self.functions@), name@) is None,
            },
    {
        match crate::codegen::symbols::position_of(&self.functions, name) {
            Some(i) => Some(&self.functions[i].1),
            None => None,
        }
    }
}

/// A declaration that succeeds is found by a lookup of its name.
pub proof fn law_define_lookup(scopes: Seq<Seq<(Seq<char>, SymbolView)>>, sym: SymbolView)
    requires
        scopes.len() > 0,
        assoc_get(scopes.last(), sym.name) is None,
    ensures
        lookup_in_scopes(scopes.update(scopes.len() - 1, scopes.last().push((sym.name, sym))), sym.name) == Some(sym),
{
    let s2 = scopes.update(scopes.len() - 1, scopes.last().push((sym.name, sym)));
    crate::assoc::lemma_assoc_get_push(scopes.last(), sym.name, sym, sym.name);
    assert(s2.last() == scopes.last().push((sym.name, sym)));
}

/// A new scope hides nothing: every name resolves as it did outside it.
pub proof fn law_enter_scope_lookup(scopes: Seq<Seq<(Seq<char>, SymbolView)>>, name: Seq<char>)
    ensures
        lookup_in_scopes(scopes.push(Seq::empty()), name) == lookup_in_scopes(scopes, name),
{
    assert(scopes.push(Seq::empty()).drop_last() =~= scopes);
    assert(assoc_get(Seq::<(Seq<char>, SymbolView)>::empty(), name) is None);
}

/// Closing a scope just opened restores the scopes as they were.
pub proof fn law_enter_exit(scopes: Seq<Seq<(Seq<char>, SymbolView)>>)
    ensures
        scopes.push(Seq::empty()).drop_last() == scopes,
{
    assert(scopes.push(Seq::empty()).drop_last() =~= scopes);
}

/// A definition changes only the innermost scope: every scope around it stays as it was.
pub proof fn law_define_keeps_outer(scopes: Seq<Seq<(Seq<char>, SymbolView)>>, sym: SymbolView)
    requires
        scopes.len() > 0,
    ensures
        scopes.update(scopes.len() - 1, scopes.last().push((sym.name, sym))).drop_last() == scopes.drop_last(),
{
    assert(scopes.update(scopes.len() - 1, scopes.last().push((sym.name, sym))).drop_last() =~= scopes.drop_last());
}

/// Entering a scope, defining anything in it (which fills only that scope, whatever `inner`
/// it ends with) and leaving it gives back the scopes, and so every lookup, as they were.
pub proof fn law_scope_restores(
    scopes: Seq<Seq<(Seq<char>, SymbolView)>>,
    inner: Seq<(Seq<char>, SymbolView)>,
    name: Seq<char>,
)
    ensures
        scopes.push(inner).drop_last() == scopes,
        lookup_in_scopes(scopes.push(inner).drop_last(), name) == lookup_in_scopes(scopes, name),
{
    assert(scopes.push(inner).drop_last() =~= scopes);
}

/// A declaration in an inner scope shadows one of the same name further out.
pub proof fn law_shadowing(scopes: Seq<Seq<(Seq<char>, SymbolView)>>, sym: SymbolView)
    ensures
        lookup_in_scopes(scopes.push(seq![(sym.name, sym)]), sym.name) == Some(sym),
{
    let s2 = scopes.push(seq![(sym.name, sym)]);
    assert(s2.last() == seq![(sym.name, sym)]);
    crate::assoc::lemma_assoc_get_push(Seq::<(Seq<char>, SymbolView)>::empty(), sym.name, sym, sym.name);
    assert(Seq::<(Seq<char>, SymbolView)>::empty().push((sym.name, sym)) =~= seq![(sym.name, sym)]);
}

/// A problem found by semantic analysis, and where it is.
#[derive(Debug)]
pub struct SemanticError {
    pub message: String,
    pub span: SourceSpan,
}

impl SemanticError {
    /// A copy of the error.
    pub fn copy(&self) -> (r: Self)
        ensures
            r.message@ == self.message@,
            r.span@ == self.span@,
    {
        SemanticError { message: self.message.clone(), span: self.span.copy() }
    }
}

impl Clone for SemanticError {
    fn clone(&self) -> (r: Self)
        ensures
            r.message@ == self.message@,
            r.span@ == self.span@,
    {
        self.copy()
    }
}

pub open spec fn errors_view(es: Seq<SemanticError>) -> Seq<(Seq<char>, SpanView)> {
    es.map_values(|e: SemanticError| (e.message@, e.span@))
}

/// Type checking and the other semantic checks, with the names in scope and the problems found.
pub struct SemanticAnalyzer {
    pub symbol_table: SymbolTable,
    pub errors: Vec<SemanticError>,
}

/// The type of a literal.
pub open spec fn literal_type_view(lit: Literal) -> TypeView {
    match lit {
        Literal::Integer(_) => TypeView::I32,
        Literal::Float(_) => TypeView::F64,
        Literal::String(_) => TypeView::String,
        Literal::Bool(_) => TypeView::Bool,
        Literal::Unit => TypeView::Unit,
        Literal::No => TypeView::Unit,
        Literal::Yes => TypeView::Bool,
        Literal::Empty => TypeView::List(Box::new(TypeView::Unknown)),
        Literal::Null => TypeView::Unit,
        Literal::Now => TypeView::I64,
        Literal::Error => TypeView::Unknown,
    }
}

/// The size of a type, counting each constructor once.
pub open spec fn tsize(t: TypeView) -> nat
    decreases t,
{
    match t {
        TypeView::List(x) => 1 + tsize(*x),
        TypeView::MapOf(k, v) => 1 + tsize(*k) + tsize(*v),
        TypeView::Function { params, return_type } => 1 + tsizes(params) + tsize(*return_type),
        TypeView::Object { fields, .. } => 1 + fsizes(fields),
        TypeView::Store { value_type, .. } => 1 + tsize(*value_type),
        TypeView::Actor { message_types, .. } => 1 + tsizes(message_types),
        TypeView::Result(o, e) => 1 + tsize(*o) + tsize(*e),
        TypeView::Pipe(x) => 1 + tsize(*x),
        _ => 1,
    }
}

pub open spec fn tsizes(ts: Seq<TypeView>) -> nat
    decreases ts,
{
    if ts.len() == 0 {
        0
    } else {
        tsizes(ts.drop_last()) + tsize(ts.last())
    }
}

pub open spec fn fsizes(fs: Seq<(Seq<char>, TypeView)>) -> nat
    decreases fs,
{
    if fs.len() == 0 {
        0
    } else {
        fsizes(fs.drop_last()) + tsize(fs.last().1)
    }
}

pub proof fn lemma_tsizes(ts: Seq<TypeView>, i: int)
    requires
        0 <= i < ts.len(),
    ensures
        tsize(ts[i]) <= tsizes(ts),
    decreases ts.len(),
{
    if i < ts.len() - 1 {
        lemma_tsizes(ts.drop_last(), i);
        assert(ts.drop_last()[i] == ts[i]);
    }
}

pub proof fn lemma_fsizes(fs: Seq<(Seq<char>, TypeView)>, i: int)
    requires
        0 <= i < fs.len(),
    ensures
        tsize(fs[i].1) <= fsizes(fs),
    decreases fs.len(),
{
    if i < fs.len() - 1 {
        lemma_fsizes(fs.drop_last(), i);
        assert(fs.drop_last()[i] == fs[i]);
    }
}

pub proof fn lemma_fsizes_get(fs: Seq<(Seq<char>, TypeView)>, name: Seq<char>)
    ensures
        assoc_get(fs, name) matches Some(t) ==> tsize(t) <= fsizes(fs),
{
    lemma_assoc_pos(fs, name);
    if let Some(i) = assoc_pos(fs, name) {
        lemma_fsizes(fs, i);
    }
}

/// The implicit widenings: a narrower integer to a wider one, `f32` to `f64`, and any
/// integer to a float.
pub open spec fn widens(a: TypeView, e: TypeView) -> bool {
    ||| a is I8 && (e is I16 || e is I32 || e is I64)
    ||| a is I16 && (e is I32 || e is I64)
    ||| a is I32 && e is I64
    ||| a is F32 && e is F64
    ||| is_integer_view(a) && is_float_view(e)
}

/// Whether a value of type `a` can stand where `e` is expected: unknown types fit anything,
/// equal types fit, widenings fit, lists and results and maps go by their parts, functions take
/// compatible parameters the other way round, and an object fits when it has every expected
/// field with a fitting type.
pub open spec fn compatible(a: TypeView, e: TypeView) -> bool
    decreases tsize(a) + tsize(e), 0nat,
{
    if a is Unknown || e is Unknown {
        true
    } else if type_eq(a, e) {
        true
    } else if widens(a, e) {
        true
    } else {
        match a {
            TypeView::List(x) => match e {
                TypeView::List(y) => compatible(*x, *y),
                _ => false,
            },
            TypeView::MapOf(k1, v1) => match e {
                TypeView::MapOf(k2, v2) => compatible(*k1, *k2) && compatible(*v1, *v2),
                _ => false,
            },
            TypeView::Function { params: ap, return_type: ar } => match e {
                TypeView::Function { params: ep, return_type: er } => ap.len() == ep.len() && params_compatible(ap, ep, 0)
                    && compatible(*ar, *er),
                _ => false,
            },
            TypeView::Object { fields: af, .. } => match e {
                TypeView::Object { fields: ef, .. } => fields_compatible(af, ef, 0),
                _ => false,
            },
            TypeView::Result(o1, e1) => match e {
                TypeView::Result(o2, e2) => compatible(*o1, *o2) && compatible(*e1, *e2),
                _ => false,
            },
            _ => false,
        }
    }
}

/// Each expected parameter from `i` on fits the actual one.
pub open spec fn params_compatible(ap: Seq<TypeView>, ep: Seq<TypeView>, i: int) -> bool
    decreases tsizes(ap) + tsizes(ep), ap.len() - i + 1,
{
    if i < 0 || i >= ap.len() || i >= ep.len() {
        true
    } else {
        proof {
            lemma_tsizes(ap, i);
            lemma_tsizes(ep, i);
        }
        compatible(ep[i], ap[i]) && params_compatible(ap, ep, i + 1)
    }
}

/// Each expected field from `i` on is a field of the actual object with a fitting type.
pub open spec fn fields_compatible(af: Seq<(Seq<char>, TypeView)>, ef: Seq<(Seq<char>, TypeView)>, i: int) -> bool
    decreases fsizes(af) + fsizes(ef), ef.len() - i + 1,
{
    if i < 0 || i >= ef.len() {
        true
    } else {
        match assoc_get(af, ef[i].0) {
            None => false,
            Some(at) => {
                proof {
                    lemma_fsizes_get(af, ef[i].0);
                    lemma_fsizes(ef, i);
                }
                compatible(at, ef[i].1) && fields_compatible(af, ef, i + 1)
            },
        }
    }
}

/// The type of a binary operation on operands of the given types, and the problem with it,
/// if any.
pub open spec fn binary_result(op: BinaryOp, l: TypeView, r: TypeView) -> (TypeView, Option<Seq<char>>) {
    match op {
        BinaryOp::Add | BinaryOp::Sub | BinaryOp::Mul | BinaryOp::Div | BinaryOp::Mod => {
            if is_numeric_view(l) && is_numeric_view(r) {
                if is_float_view(l) || is_float_view(r) {
                    (TypeView::F64, None)
                } else {
                    (TypeView::I32, None)
                }
            } else {
                (
                    TypeView::Unknown,
                    Some(
                        "Arithmetic operation requires numeric types, found "@ + debug_text(l) + " and "@ + debug_text(
                            r,
                        ),
                    ),
                )
            }
        },
        BinaryOp::Eq | BinaryOp::Ne | BinaryOp::Lt | BinaryOp::Le | BinaryOp::Gt | BinaryOp::Ge => {
            if compatible(l, r) {
                (TypeView::Bool, None)
            } else {
                (
                    TypeView::Bool,
                    Some("Comparison requires compatible types, found "@ + debug_text(l) + " and "@ + debug_text(r)),
                )
            }
        },
        BinaryOp::And | BinaryOp::Or => {
            if type_eq(l, TypeView::Bool) && type_eq(r, TypeView::Bool) {
                (TypeView::Bool, None)
            } else {
                (
                    TypeView::Bool,
                    Some("Logical operation requires boolean types, found "@ + debug_text(l) + " and "@ + debug_text(r)),
                )
            }
        },
        _ => (TypeView::Unknown, None),
    }
}

/// The type of a unary operation on an operand of the given type, and the problem with it,
/// if any.
pub open spec fn unary_result(op: UnaryOp, t: TypeView) -> (TypeView, Option<Seq<char>>) {
    match op {
        UnaryOp::Not => if type_eq(t, TypeView::Bool) {
            (TypeView::Bool, None)
        } else {
            (TypeView::Bool, Some("Logical not requires boolean type, found "@ + debug_text(t)))
        },
        UnaryOp::Neg => if is_numeric_view(t) {
            (t, None)
        } else {
            (TypeView::Unknown, Some("Numeric negation requires numeric type, found "@ + debug_text(t)))
        },
        UnaryOp::BitNot => if is_integer_view(t) {
            (t, None)
        } else {
            (TypeView::Unknown, Some("Bitwise not requires integer type, found "@ + debug_text(t)))
        },
    }
}

/// The errors after a check that may have found a problem at `span`.
pub open spec fn with_problem(
    errors: Seq<(Seq<char>, SpanView)>,
    problem: Option<Seq<char>>,
    span: SpanView,
) -> Seq<(Seq<char>, SpanView)> {
    match problem {
        Some(m) => errors.push((m, span)),
        None => errors,
    }
}

/// The return type of the first function symbol, scanning scopes from the innermost.
pub open spec fn first_function_return(scopes: Seq<Seq<(Seq<char>, SymbolView)>>) -> Option<TypeView>
    decreases scopes.len(),
{
    if scopes.len() == 0 {
        None
    } else {
        match first_function_in(scopes.last()) {
            Some(t) => Some(t),
            None => first_function_return(scopes.drop_last()),
        }
    }
}

pub open spec fn first_function_in(scope: Seq<(Seq<char>, SymbolView)>) -> Option<TypeView>
    decreases scope.len(),
{
    if scope.len() == 0 {
        None
    } else {
        match scope[0].1.kind {
            KindView::Function { return_type, .. } => Some(return_type),
            _ => first_function_in(scope.drop_first()),
        }
    }
}

fn message2(prefix: &str, l: &Type, r: &Type) -> (m: String)
    ensures
        m@ == prefix@ + debug_text(l@) + " and "@ + debug_text(r@),
{
    let mut m = String::from_str(prefix);
    let lt = l.debug_string();
    m.append(lt.as_str());
    m.append(" and ");
    let rt = r.debug_string();
    m.append(rt.as_str());
    m
}

fn message1(prefix: &str, t: &Type) -> (m: String)
    ensures
        m@ == prefix@ + debug_text(t@),
{
    let mut m = String::from_str(prefix);
    let tt = t.debug_string();
    m.append(tt.as_str());
    m
}

impl SemanticAnalyzer {
    /// An analyzer with the global scope and no problems found.
    pub fn new() -> (a: Self)
        ensures
            a.symbol_table.scopes_view() == seq![Seq::<(Seq<char>, SymbolView)>::empty()],
            a.symbol_table.functions@ == Seq::<(String, LLVMFunction)>::empty(),
            a.symbol_table.variables@ == Seq::<(String, LLVMValue)>::empty(),
            a.errors@ == Seq::<SemanticError>::empty(),
    {
        SemanticAnalyzer { symbol_table: SymbolTable::new(), errors: Vec::new() }
    }

    /// Records a problem.
    pub fn error(&mut self, message: String, span: SourceSpan)
        ensures
            errors_view(final(self).errors@) == errors_view(old(self).errors@).push((message@, span@)),
            final(self).symbol_table == old(self).symbol_table,
    {
        let ghost m = message@;
        let ghost sp = span@;
        self.errors.push(SemanticError { message, span });
        assert(errors_view(self.errors@) =~= errors_view(old(self).errors@).push((m, sp)));
    }

    /// The type of a literal.
    pub fn literal_type(&self, lit: &Literal) -> (t: Type)
        ensures
            t@ == literal_type_view(*lit),
    {
        proof {
            reveal_with_fuel(type_view, 2);
        }
        match lit {
            Literal::Integer(_) => Type::I32,
            Literal::Float(_) => Type::F64,
            Literal::String(_) => Type::String,
            Literal::Bool(_) => Type::Bool,
            Literal::Unit => Type::Unit,
            Literal::No => Type::Unit,
            Literal::Yes => Type::Bool,
            Literal::Empty => Type::List(Box::new(Type::Unknown)),
            Literal::Null => Type::Unit,
            Literal::Now => Type::I64,
            Literal::Error => Type::Unknown,
        }
    }

    /// Whether a value of type `actual` can stand where `expected` is expected.
    pub fn types_compatible(&self, actual: &Type, expected: &Type) -> (r: bool)
        ensures
            r == compatible(actual@, expected@),
        decreases tsize(actual@) + tsize(expected@),
    {
        if let Type::Unknown = actual {
            return true;
        }
        if let Type::Unknown = expected {
            return true;
        }
        if actual.equals(expected) {
            return true;
        }
        let widening = match (actual, expected) {
            (Type::I8, Type::I16) | (Type::I8, Type::I32) | (Type::I8, Type::I64) => true,
            (Type::I16, Type::I32) | (Type::I16, Type::I64) => true,
            (Type::I32, Type::I64) => true,
            (Type::F32, Type::F64) => true,
            (Type::I8, Type::F32) | (Type::I8, Type::F64) => true,
            (Type::I16, Type::F32) | (Type::I16, Type::F64) => true,
            (Type::I32, Type::F32) | (Type::I32, Type::F64) => true,
            (Type::I64, Type::F32) | (Type::I64, Type::F64) => true,
            _ => false,
        };
        if widening {
            return true;
        }
        match (actual, expected) {
            (Type::List(x), Type::List(y)) => self.types_compatible(x, y),
            (Type::MapOf(k1, v1), Type::MapOf(k2, v2)) => self.types_compatible(k1, k2) && self.types_compatible(v1, v2),
            (Type::Function { params: ap, return_type: ar }, Type::Function { params: ep, return_type: er }) => {
                proof {
                    lemma_types_view(ap@);
                    lemma_types_view(ep@);
                }
                if ap.len() != ep.len() {
                    return false;
                }
                let ghost av = types_view(ap@);
                let ghost ev = types_view(ep@);
                let mut all = true;
                let mut i: usize = 0;
                while i < ap.len()
                    invariant
                        i <= ap.len(),
                        ap.len() == ep.len(),
                        av == types_view(ap@),
                        ev == types_view(ep@),
                        av.len() == ap.len(),
                        ev.len() == ep.len(),
                        forall|j: int| 0 <= j < ap.len() ==> #[trigger] av[j] == ap@[j]@,
                        forall|j: int| 0 <= j < ep.len() ==> #[trigger] ev[j] == ep@[j]@,
                        tsizes(av) + tsizes(ev) < tsize(actual@) + tsize(expected@),
                        params_compatible(av, ev, 0) == (all && params_compatible(av, ev, i as int)),
                    decreases ap.len() - i,
                {
                    proof {
                        lemma_tsizes(av, i as int);
                        lemma_tsizes(ev, i as int);
                    }
                    let c = self.types_compatible(&ep[i], &ap[i]);
                    all = all && c;
                    i = i + 1;
                }
                let rc = self.types_compatible(ar, er);
                all && rc
            },
            (Type::Object { fields: af, .. }, Type::Object { fields: ef, .. }) => {
                let ghost afv = fields_view(af@);
                let ghost efv = fields_view(ef@);
                proof {
                    lemma_fields_view(af@);
                    lemma_fields_view(ef@);
                }
                assert(compatible(actual@, expected@) == fields_compatible(afv, efv, 0));
                let mut i: usize = 0;
                while i < ef.len()
                    invariant
                        i <= ef.len(),
                        compatible(actual@, expected@) == fields_compatible(afv, efv, 0),
                        afv == fields_view(af@),
                        efv == fields_view(ef@),
                        afv.len() == af.len(),
                        efv.len() == ef.len(),
                        forall|j: int| 0 <= j < af.len() ==> #[trigger] afv[j] == (af@[j].0@, af@[j].1@),
                        forall|j: int| 0 <= j < ef.len() ==> #[trigger] efv[j] == (ef@[j].0@, ef@[j].1@),
                        fsizes(afv) + fsizes(efv) < tsize(actual@) + tsize(expected@),
                        fields_compatible(afv, efv, 0) == fields_compatible(afv, efv, i as int),
                    decreases ef.len() - i,
                {
                    match find_name(af, ef[i].0.as_str()) {
                        Some(j) => {
                            proof {
                                lemma_assoc_pos_unique(afv, efv[i as int].0, j as int);
                                lemma_fsizes(afv, j as int);
                                lemma_fsizes(efv, i as int);
                            }
                            if !self.types_compatible(&af[j].1, &ef[i].1) {
                                return false;
                            }
                        },
                        None => {
                            proof {
                                lemma_assoc_pos_none(afv, efv[i as int].0);
                            }
                            return false;
                        },
                    }
                    i = i + 1;
                }
                true
            },
            (Type::Result(o1, e1), Type::Result(o2, e2)) => self.types_compatible(o1, o2) && self.types_compatible(e1, e2),
            _ => false,
        }
    }

    /// The type of a binary operation; a problem with the operand types is recorded at `span`.
    pub fn binary_result_type(&mut self, op: &BinaryOp, left: &Type, right: &Type, span: &SourceSpan) -> (t: Type)
        ensures
            t@ == binary_result(*op, left@, right@).0,
            errors_view(final(self).errors@) == with_problem(
                errors_view(old(self).errors@),
                binary_result(*op, left@, right@).1,
                span@,
            ),
            final(self).symbol_table == old(self).symbol_table,
    {
        match op {
            BinaryOp::Add | BinaryOp::Sub | BinaryOp::Mul | BinaryOp::Div | BinaryOp::Mod => {
                if left.is_numeric() && right.is_numeric() {
                    if left.is_float() || right.is_float() {
                        Type::F64
                    } else {
                        Type::I32
                    }
                } else {
                    let m = message2("Arithmetic operation requires numeric types, found ", left, right);
                    self.error(m, span.copy());
                    Type::Unknown
                }
            },
            BinaryOp::Eq | BinaryOp::Ne | BinaryOp::Lt | BinaryOp::Le | BinaryOp::Gt | BinaryOp::Ge => {
                if self.types_compatible(left, right) {
                    Type::Bool
                } else {
                    let m = message2("Comparison requires compatible types, found ", left, right);
                    self.error(m, span.copy());
                    Type::Bool
                }
            },
            BinaryOp::And | BinaryOp::Or => {
                let b = Type::Bool;
                if left.equals(&b) && right.equals(&b) {
                    Type::Bool
                } else {
                    let m = message2("Logical operation requires boolean types, found ", left, right);
                    self.error(m, span.copy());
                    Type::Bool
                }
            },
            _ => Type::Unknown,
        }
    }

    /// The type of a unary operation; a problem with the operand type is recorded at `span`.
    pub fn unary_result_type(&mut self, op: &UnaryOp, operand: &Type, span: &SourceSpan) -> (t: Type)
        ensures
            t@ == unary_result(*op, operand@).0,
            errors_view(final(self).errors@) == with_problem(
                errors_view(old(self).errors@),
                unary_result(*op, operand@).1,
                span@,
            ),
            final(self).symbol_table == old(self).symbol_table,
    {
        match op {
            UnaryOp::Not => {
                let b = Type::Bool;
                if operand.equals(&b) {
                    Type::Bool
                } else {
                    let m = message1("Logical not requires boolean type, found ", operand);
                    self.error(m, span.copy());
                    Type::Bool
                }
            },
            UnaryOp::Neg => {
                if operand.is_numeric() {
                    copy_type(operand)
                } else {
                    let m = message1("Numeric negation requires numeric type, found ", operand);
                    self.error(m, span.copy());
                    Type::Unknown
                }
            },
            UnaryOp::BitNot => {
                if operand.is_integer() {
                    copy_type(operand)
                } else {
                    let m = message1("Bitwise not requires integer type, found ", operand);
                    self.error(m, span.copy());
                    Type::Unknown
                }
            },
        }
    }

    /// The return type of the nearest function symbol in scope.
    pub fn current_function_return_type(&self) -> (r: Option<Type>)
        ensures
            match r {
                Some(t) => first_function_return(self.symbol_table.scopes_view()) == Some(t@),
                None => first_function_return(self.symbol_table.scopes_view()) is None,
            },
    {
        let ghost sc = self.symbol_table.scopes_view();
        let scopes = &self.symbol_table.scopes;
        let mut k: usize = scopes.len();
        assert(sc.take(k as int) =~= sc);
        while k > 0
            invariant
                k <= scopes.len(),
                scopes == &self.symbol_table.scopes,
                sc == self.symbol_table.scopes_view(),
                first_function_return(sc) == first_function_return(sc.take(k as int)),
            decreases k,
        {
            let scope = &scopes[k - 1];
            let ghost cur = scope_view(scope@);
            assert(sc.take(k as int).last() == cur);
            assert(sc.take(k as int).drop_last() =~= sc.take(k - 1));
            assert(cur.skip(0) =~= cur);
            let mut i: usize = 0;
            while i < scope.len()
                invariant
                    i <= scope.len(),
                    0 < k <= scopes.len(),
                    sc.len() == scopes.len(),
                    scope == &scopes[k - 1],
                    sc == self.symbol_table.scopes_view(),
                    first_function_return(sc) == first_function_return(sc.take(k as int)),
                    sc.take(k as int).last() == cur,
                    sc.take(k as int).drop_last() == sc.take(k - 1),
                    cur == scope_view(scope@),
                    first_function_in(cur) == first_function_in(cur.skip(i as int)),
                decreases scope.len() - i,
            {
                assert(cur.skip(i as int)[0] == cur[i as int]);
                assert(cur.skip(i as int).drop_first() =~= cur.skip(i + 1));
                if let SymbolKind::Function { return_type, .. } = &scope[i].1.kind {
                    let t = copy_type(return_type);
                    proof {
                        assert(cur.skip(i as int)[0].1.kind == scope@[i as int].1.kind@);
                        assert(first_function_in(cur.skip(i as int)) == Some(return_type@));
                        assert(sc.take(k as int).len() > 0);
                        assert(first_function_return(sc.take(k as int)) == Some(return_type@));
                    }
                    return Some(t);
                }
                i = i + 1;
            }
            assert(cur.skip(scope.len() as int) =~= Seq::<(Seq<char>, SymbolView)>::empty());
            k = k - 1;
        }
        None
    }
}

impl SemanticAnalyzer {
    /// The scopes and the problems found, as mathematical values.
    pub open spec fn state(self) -> AnalysisState {
        AnalysisState { scopes: self.symbol_table.scopes_view(), errors: errors_view(self.errors@) }
    }

    /// The compiled variables and functions are left as they are.
    pub open spec fn same_compiled(self, other: Self) -> bool {
        self.symbol_table.functions == other.symbol_table.functions && self.symbol_table.variables
            == other.symbol_table.variables
    }

    fn declare(&mut self, symbol: Symbol, span: SourceSpan)
        requires
            old(self).state().scopes.len() > 0,
        ensures
            final(self).state() == declare(old(self).state(), symbol@, span@),
            final(self).state().scopes.len() == old(self).state().scopes.len(),
            final(self).same_compiled(*old(self)),
    {
        match self.symbol_table.define(symbol) {
            Ok(()) => {},
            Err(msg) => self.error(msg, span),
        }
    }

    fn check_condition(&mut self, t: &Type, what: &str, span: &SourceSpan)
        ensures
            final(self).state() == check_condition(old(self).state(), t@, what@, span@),
            final(self).same_compiled(*old(self)),
    {
        let b = Type::Bool;
        if !t.equals(&b) {
            let mut m = String::from_str(what);
            m.append(" condition must be boolean, found ");
            let d = t.debug_string();
            m.append(d.as_str());
            self.error(m, span.copy());
        }
    }

    fn enter_scope(&mut self)
        ensures
            final(self).state() == enter(old(self).state()),
            final(self).same_compiled(*old(self)),
    {
        self.symbol_table.enter_scope();
    }

    fn exit_scope(&mut self)
        ensures
            final(self).state() == exit(old(self).state()),
            final(self).same_compiled(*old(self)),
    {
        self.symbol_table.exit_scope();
    }

    /// Type checks an expression, records its type on it, and returns the type.
    #[verifier::loop_isolation(false)]
    fn visit_expr(&mut self, expr: &mut Expr) -> (t: Type)
        requires
            old(self).state().scopes.len() > 0,
        ensures
            (t@, final(self).state()) == expr_check(*old(expr), old(self).state()),
            final(expr).type_@ == t@,
            final(expr).span == old(expr).span,
            expr_kept(*old(expr), *final(expr)),
            final(self).state().scopes.len() == old(self).state().scopes.len(),
            final(self).same_compiled(*old(self)),
        decreases *old(expr),
    {
        let ghost st0 = self.state();
        let inferred = match &mut expr.kind {
            ExprKind::Literal(lit) => self.literal_type(lit),
            ExprKind::Identifier(name) => match self.symbol_table.lookup(name.as_str()) {
                Some(sym) => copy_type(&sym.type_),
                None => {
                    let mut m = String::from_str("Undefined variable: ");
                    m.append(name.as_str());
                    self.error(m, expr.span.copy());
                    Type::Unknown
                },
            },
            ExprKind::Binary { op, left, right } => {
                let lt = self.visit_expr(left);
                let rt = self.visit_expr(right);
                self.binary_result_type(op, &lt, &rt, &expr.span)
            },
            ExprKind::Unary { op, operand } => {
                let ot = self.visit_expr(operand);
                self.unary_result_type(op, &ot, &expr.span)
            },
            ExprKind::Call { callee, args } => {
                let ct = self.visit_expr(callee);
                let ghost s1 = self.state();
                let ghost old_args = args@;
                let mut arg_types: Vec<Type> = Vec::new();
                let mut i: usize = 0;
                while i < args.len()
                    invariant
                        i <= args.len(),
                        args@.len() == old_args.len(),
                        forall|j: int| i <= j < args@.len() ==> #[trigger] args@[j] == old_args[j],
                        forall|j: int|
                            0 <= j < i ==> (#[trigger] args@[j]).name == old_args[j].name && args@[j].span
                                == old_args[j].span && expr_kept(old_args[j].value, args@[j].value),
                        self.state().scopes.len() == st0.scopes.len(),
                        self.same_compiled(*old(self)),
                        args_check(old_args, 0, Seq::empty(), s1) == args_check(
                            old_args,
                            i as int,
                            types_view(arg_types@),
                            self.state(),
                        ),
                    decreases args.len() - i,
                {
                    let at = self.visit_expr(&mut args[i].value);
                    proof {
                        lemma_types_view_push(arg_types@, at);
                    }
                    arg_types.push(at);
                    i = i + 1;
                }
                proof {
                    lemma_args_kept(old_args, args@, 0);
                }
                let ghost a = args_check(old_args, 0, Seq::empty(), s1);
                assert(a == (types_view(arg_types@), self.state()));
                proof {
                    lemma_types_view(arg_types@);
                }
                match &ct {
                    Type::Function { params, return_type } => {
                        proof {
                            lemma_types_view(params@);
                        }
                        if params.len() != arg_types.len() {
                            let mut m = String::from_str("Function call argument count mismatch: expected ");
                            push_decimal(&mut m, params.len() as u64);
                            m.append(", found ");
                            push_decimal(&mut m, arg_types.len() as u64);
                            self.error(m, expr.span.copy());
                        } else {
                            self.check_args_fit(params, &arg_types, &expr.span);
                        }
                        copy_type(return_type)
                    },
                    _ => {
                        let mut m = String::from_str("Cannot call non-function type: ");
                        let d = ct.debug_string();
                        m.append(d.as_str());
                        self.error(m, expr.span.copy());
                        Type::Unknown
                    },
                }
            },
            ExprKind::If { condition, then_branch, else_branch } => {
                let ct = self.visit_expr(condition);
                self.check_condition(&ct, "If", &condition.span);
                let tt = self.visit_expr(then_branch);
                match else_branch {
                    Some(eb) => {
                        let et = self.visit_expr(eb);
                        if !self.types_compatible(&tt, &et) {
                            let mut m = String::from_str("If branch type mismatch: then branch is ");
                            let d1 = tt.debug_string();
                            m.append(d1.as_str());
                            m.append(", else branch is ");
                            let d2 = et.debug_string();
                            m.append(d2.as_str());
                            self.error(m, expr.span.copy());
                        }
                    },
                    None => {},
                }
                tt
            },
            ExprKind::Block(stmts) => self.visit_block(stmts),
            ExprKind::StringInterpolation { parts } => {
                self.visit_parts(parts);
                Type::String
            },
            _ => Type::Unknown,
        };
        expr.type_ = copy_type(&inferred);
        inferred
    }

    fn check_args_fit(&mut self, params: &Vec<Type>, args: &Vec<Type>, span: &SourceSpan)
        requires
            params.len() == args.len(),
        ensures
            final(self).state() == check_args_fit(types_view(params@), types_view(args@), 0, old(self).state(), span@),
            final(self).state().scopes == old(self).state().scopes,
            final(self).same_compiled(*old(self)),
    {
        let ghost pv = types_view(params@);
        let ghost av = types_view(args@);
        proof {
            lemma_types_view(params@);
            lemma_types_view(args@);
        }
        let mut i: usize = 0;
        while i < params.len()
            invariant
                i <= params.len(),
                params.len() == args.len(),
                pv == types_view(params@),
                av == types_view(args@),
                pv.len() == params.len(),
                av.len() == args.len(),
                forall|j: int| 0 <= j < params.len() ==> #[trigger] pv[j] == params@[j]@,
                forall|j: int| 0 <= j < args.len() ==> #[trigger] av[j] == args@[j]@,
                self.state().scopes == old(self).state().scopes,
                self.same_compiled(*old(self)),
                check_args_fit(pv, av, 0, old(self).state(), span@) == check_args_fit(pv, av, i as int, self.state(), span@),
            decreases params.len() - i,
        {
            if !self.types_compatible(&args[i], &params[i]) {
                let mut m = String::from_str("Function call argument type mismatch: expected ");
                let d1 = params[i].debug_string();
                m.append(d1.as_str());
                m.append(", found ");
                let d2 = args[i].debug_string();
                m.append(d2.as_str());
                self.error(m, span.copy());
            }
            i = i + 1;
        }
    }

    fn visit_parts(&mut self, parts: &mut Vec<StringPart>)
        requires
            old(self).state().scopes.len() > 0,
        ensures
            final(self).state() == parts_check(old(parts)@, 0, old(self).state()),
            parts_kept(old(parts)@, final(parts)@, 0),
            final(self).state().scopes.len() == old(self).state().scopes.len(),
            final(self).same_compiled(*old(self)),
        decreases *old(parts),
    {
        let ghost old_parts = parts@;
        let mut i: usize = 0;
        while i < parts.len()
            invariant
                i <= parts.len(),
                parts@.len() == old_parts.len(),
                old_parts == old(parts)@,
                forall|j: int| i <= j < parts@.len() ==> #[trigger] parts@[j] == old_parts[j],
                forall|j: int| 0 <= j < i ==> part_kept(old_parts[j], #[trigger] parts@[j]),
                old(self).state().scopes.len() > 0,
                self.state().scopes.len() == old(self).state().scopes.len(),
                self.same_compiled(*old(self)),
                parts_check(old_parts, 0, old(self).state()) == parts_check(old_parts, i as int, self.state()),
            decreases parts.len() - i,
        {
            match &mut parts[i] {
                StringPart::Expression(pe) => {
                    self.visit_expr(pe);
                },
                StringPart::Literal(_) => {},
            }
            i = i + 1;
        }
        proof {
            lemma_parts_kept(old_parts, parts@, 0);
        }
    }

    fn visit_block(&mut self, stmts: &mut Vec<Stmt>) -> (t: Type)
        requires
            old(self).state().scopes.len() > 0,
        ensures
            ({
                let b = block_check(old(stmts)@, 0, TypeView::Unit, enter(old(self).state()));
                t@ == b.0 && final(self).state() == exit(b.1)
            }),
            stmts_kept(old(stmts)@, final(stmts)@, 0),
            final(self).state().scopes.len() == old(self).state().scopes.len(),
            final(self).same_compiled(*old(self)),
        decreases *old(stmts),
    {
        self.enter_scope();
        let ghost old_stmts = stmts@;
        let ghost s1 = self.state();
        let mut last_type = Type::Unit;
        let mut i: usize = 0;
        while i < stmts.len()
            invariant
                i <= stmts.len(),
                stmts@.len() == old_stmts.len(),
                old_stmts == old(stmts)@,
                forall|j: int| i <= j < stmts@.len() ==> #[trigger] stmts@[j] == old_stmts[j],
                self.state().scopes.len() == old(self).state().scopes.len() + 1,
                self.same_compiled(*old(self)),
                forall|j: int| 0 <= j < i ==> stmt_kept(old_stmts[j], #[trigger] stmts@[j]),
                block_check(old_stmts, 0, TypeView::Unit, s1) == block_check(old_stmts, i as int, last_type@, self.state()),
            decreases stmts.len() - i,
        {
            assert(stmts@[i as int] == old_stmts[i as int]);
            self.visit_stmt(&mut stmts[i]);
            if let StmtKind::Expression(e) = &stmts[i].kind {
                last_type = copy_type(&e.type_);
            }
            i = i + 1;
        }
        self.exit_scope();
        proof {
            lemma_stmts_kept(old_stmts, stmts@, 0);
        }
        last_type
    }

    fn visit_stmts(&mut self, stmts: &mut Vec<Stmt>)
        requires
            old(self).state().scopes.len() > 0,
        ensures
            final(self).state() == stmts_check(old(stmts)@, 0, old(self).state()),
            stmts_kept(old(stmts)@, final(stmts)@, 0),
            final(self).state().scopes.len() == old(self).state().scopes.len(),
            final(self).same_compiled(*old(self)),
        decreases *old(stmts),
    {
        let ghost old_stmts = stmts@;
        let mut i: usize = 0;
        while i < stmts.len()
            invariant
                i <= stmts.len(),
                stmts@.len() == old_stmts.len(),
                old_stmts == old(stmts)@,
                forall|j: int| i <= j < stmts@.len() ==> #[trigger] stmts@[j] == old_stmts[j],
                old(self).state().scopes.len() > 0,
                self.state().scopes.len() == old(self).state().scopes.len(),
                self.same_compiled(*old(self)),
                stmts_check(old_stmts, 0, old(self).state()) == stmts_check(old_stmts, i as int, self.state()),
                forall|j: int| 0 <= j < i ==> stmt_kept(old_stmts[j], #[trigger] stmts@[j]),
            decreases stmts.len() - i,
        {
            self.visit_stmt(&mut stmts[i]);
            i = i + 1;
        }
        proof {
            lemma_stmts_kept(old_stmts, stmts@, 0);
        }
    }

    /// Analyses a statement.
    #[verifier::loop_isolation(false)]
    #[verifier::rlimit(100)]
    #[verifier::spinoff_prover]
    fn visit_stmt(&mut self, stmt: &mut Stmt)
        requires
            old(self).state().scopes.len() > 0,
        ensures
            final(self).state() == stmt_check(*old(stmt), old(self).state()),
            stmt_kept(*old(stmt), *final(stmt)),
            old(stmt).kind is Expression ==> final(stmt).kind is Expression && final(stmt).kind->Expression_0.type_@
                == expr_check(old(stmt).kind->Expression_0, old(self).state()).0,
            !(old(stmt).kind is Expression) ==> !(final(stmt).kind is Expression),
            final(self).state().scopes.len() == old(self).state().scopes.len(),
            final(self).same_compiled(*old(self)),
        decreases *old(stmt),
    {
        let ghost st0 = self.state();
        match &mut stmt.kind {
            StmtKind::Function { name, params, return_type, body } => {
                let ghost pv = params@;
                let mut param_types: Vec<Type> = Vec::new();
                let mut i: usize = 0;
                while i < params.len()
                    invariant
                        i <= params.len(),
                        params@ == pv,
                        types_view(param_types@) == pv.take(i as int).map_values(|p: Parameter| p.type_@),
                    decreases params.len() - i,
                {
                    let t = copy_type(&params[i].type_);
                    proof {
                        lemma_types_view_push(param_types@, t);
                        assert(pv.take(i + 1).map_values(|p: Parameter| p.type_@) =~= pv.take(i as int).map_values(
                            |p: Parameter| p.type_@,
                        ).push(t@));
                    }
                    param_types.push(t);
                    i = i + 1;
                }
                assert(pv.take(params.len() as int) =~= pv);
                let ret = match return_type {
                    Some(t) => copy_type(t),
                    None => Type::Unit,
                };
                let symbol = Symbol {
                    name: name.clone(),
                    type_: Type::Function { params: copy_types(&param_types), return_type: Box::new(copy_type(&ret)) },
                    kind: SymbolKind::Function { params: param_types, return_type: ret },
                    span: stmt.span.copy(),
                };
                self.declare(symbol, stmt.span.copy());
                self.enter_scope();
                let ghost sp = self.state();
                let mut k: usize = 0;
                while k < params.len()
                    invariant
                        k <= params.len(),
                        params@ == pv,
                        self.state().scopes.len() == st0.scopes.len() + 1,
                        self.same_compiled(*old(self)),
                        params_declare(pv, 0, sp) == params_declare(pv, k as int, self.state()),
                    decreases params.len() - k,
                {
                    let p = &params[k];
                    let sym = Symbol {
                        name: p.name.clone(),
                        type_: copy_type(&p.type_),
                        kind: SymbolKind::Variable,
                        span: p.span.copy(),
                    };
                    self.declare(sym, p.span.copy());
                    k = k + 1;
                }
                self.visit_stmts(body);
                self.exit_scope();
            },
            StmtKind::If { condition, then_branch, else_branch } => {
                let ct = self.visit_expr(condition);
                self.check_condition(&ct, "If", &condition.span);
                self.enter_scope();
                self.visit_stmts(then_branch);
                self.exit_scope();
                match else_branch {
                    Some(es) => {
                        self.enter_scope();
                        self.visit_stmts(es);
                        self.exit_scope();
                    },
                    None => {},
                }
            },
            StmtKind::While { condition, body } => {
                let ct = self.visit_expr(condition);
                self.check_condition(&ct, "While", &condition.span);
                self.enter_scope();
                self.visit_stmts(body);
                self.exit_scope();
            },
            StmtKind::Unless { condition, body } => {
                let ct = self.visit_expr(condition);
                self.check_condition(&ct, "Unless", &condition.span);
                self.enter_scope();
                self.visit_stmts(body);
                self.exit_scope();
            },
            StmtKind::Until { condition, body } => {
                let ct = self.visit_expr(condition);
                self.check_condition(&ct, "Until", &condition.span);
                self.enter_scope();
                self.visit_stmts(body);
                self.exit_scope();
            },
            StmtKind::Iterate { iterable, body } => {
                let it = self.visit_expr(iterable);
                let elem = match &it {
                    Type::List(inner) => copy_type(inner),
                    Type::String => Type::String,
                    _ => {
                        let mut m = String::from_str("Cannot iterate over type ");
                        let d = it.debug_string();
                        m.append(d.as_str());
                        self.error(m, iterable.span.copy());
                        Type::Unknown
                    },
                };
                self.enter_scope();
                let dollar = Symbol {
                    name: String::from_str("$"),
                    type_: elem,
                    kind: SymbolKind::Variable,
                    span: iterable.span.copy(),
                };
                self.declare(dollar, iterable.span.copy());
                self.visit_stmts(body);
                self.exit_scope();
            },
            StmtKind::Assignment { target, value } => {
                let ghost t0 = *target;
                let vt = self.visit_expr(value);
                let ident: Option<String> = match &target.kind {
                    ExprKind::Identifier(name) => Some(name.clone()),
                    _ => None,
                };
                let known = match &ident {
                    Some(name) => self.symbol_table.lookup(name.as_str()).is_some(),
                    None => true,
                };
                if known {
                    let tt = self.visit_expr(target);
                    if !self.types_compatible(&vt, &tt) {
                        let mut m = String::from_str("Assignment type mismatch: cannot assign ");
                        let d1 = vt.debug_string();
                        m.append(d1.as_str());
                        m.append(" to ");
                        let d2 = tt.debug_string();
                        m.append(d2.as_str());
                        self.error(m, stmt.span.copy());
                    }
                } else {
                    assert(expr_kept(t0, t0));
                    match ident {
                        Some(name) => {
                            let symbol = Symbol {
                                name,
                                type_: copy_type(&vt),
                                kind: SymbolKind::Variable,
                                span: target.span.copy(),
                            };
                            self.declare(symbol, stmt.span.copy());
                        },
                        None => {},
                    }
                }
            },
            StmtKind::Return(r) => {
                if let Some(re) = r {
                    self.visit_expr(re);
                }
            },
            StmtKind::Expression(e) => {
                self.visit_expr(e);
            },
            StmtKind::ErrorHandler { handler, inner } => {
                self.visit_stmt(inner);
                self.visit_actions(&mut handler.actions);
            },
            _ => {},
        }
    }

    fn visit_actions(&mut self, actions: &mut Vec<ErrorAction>)
        requires
            old(self).state().scopes.len() > 0,
        ensures
            final(self).state() == actions_check(old(actions)@, 0, old(self).state()),
            actions_kept(old(actions)@, final(actions)@, 0),
            final(self).state().scopes.len() == old(self).state().scopes.len(),
            final(self).same_compiled(*old(self)),
        decreases *old(actions),
    {
        let ghost old_actions = actions@;
        let mut i: usize = 0;
        while i < actions.len()
            invariant
                i <= actions.len(),
                actions@.len() == old_actions.len(),
                old_actions == old(actions)@,
                forall|j: int| i <= j < actions@.len() ==> #[trigger] actions@[j] == old_actions[j],
                forall|j: int| 0 <= j < i ==> action_kept(old_actions[j], #[trigger] actions@[j]),
                old(self).state().scopes.len() > 0,
                self.state().scopes.len() == old(self).state().scopes.len(),
                self.same_compiled(*old(self)),
                actions_check(old_actions, 0, old(self).state()) == actions_check(old_actions, i as int, self.state()),
            decreases actions.len() - i,
        {
            match &mut actions[i] {
                ErrorAction::Log(opt) => {
                    if let Some(le) = opt {
                        self.visit_expr(le);
                        let ty = copy_type(&le.type_);
                        let s = Type::String;
                        let u = Type::Unknown;
                        if !ty.equals(&s) && !ty.equals(&u) {
                            let mut m = String::from_str("Log action expects string or convertible, found ");
                            let d = ty.debug_string();
                            m.append(d.as_str());
                            self.error(m, le.span.copy());
                        }
                    }
                },
                ErrorAction::Return(opt) => {
                    if let Some(re) = opt {
                        self.visit_expr(re);
                        let ty = copy_type(&re.type_);
                        match self.current_function_return_type() {
                            Some(expected) => {
                                if !self.types_compatible(&ty, &expected) {
                                    let mut m = String::from_str("Return type mismatch in error handler: expected ");
                                    let d1 = expected.debug_string();
                                    m.append(d1.as_str());
                                    m.append(", found ");
                                    let d2 = ty.debug_string();
                                    m.append(d2.as_str());
                                    self.error(m, re.span.copy());
                                }
                            },
                            None => {},
                        }
                    }
                },
                ErrorAction::Custom(ce) => {
                    self.visit_expr(ce);
                },
            }
            i = i + 1;
        }
        proof {
            lemma_actions_kept(old_actions, actions@, 0);
        }
    }

    /// Analyses a whole program; the problems found, if any, are handed back.
    pub fn analyze(&mut self, program: &mut Program) -> (r: Result<(), Vec<SemanticError>>)
        requires
            old(self).state().scopes.len() > 0,
        ensures
            final(self).state() == stmts_check(old(program).statements@, 0, old(self).state()),
            stmts_kept(old(program).statements@, final(program).statements@, 0),
            final(program).span == old(program).span,
            match r {
                Ok(()) => final(self).errors@.len() == 0,
                Err(es) => final(self).errors@.len() > 0 && errors_view(es@) == errors_view(final(self).errors@),
            },
            final(self).same_compiled(*old(self)),
    {
        self.visit_program(program);
        if self.errors.len() == 0 {
            Ok(())
        } else {
            let mut es: Vec<SemanticError> = Vec::new();
            let mut i: usize = 0;
            while i < self.errors.len()
                invariant
                    i <= self.errors.len(),
                    errors_view(es@) == errors_view(self.errors@).take(i as int),
                decreases self.errors.len() - i,
            {
                let e = self.errors[i].copy();
                let ghost before = es@;
                let ghost item = (e.message@, e.span@);
                assert(item == errors_view(self.errors@)[i as int]);
                es.push(e);
                assert(errors_view(es@) =~= errors_view(before).push(item));
                assert(errors_view(self.errors@).take(i + 1) =~= errors_view(self.errors@).take(i as int).push(item));
                i = i + 1;
            }
            assert(errors_view(self.errors@).take(self.errors.len() as int) =~= errors_view(self.errors@));
            Err(es)
        }
    }

    fn visit_program(&mut self, program: &mut Program)
        requires
            old(self).state().scopes.len() > 0,
        ensures
            final(self).state() == stmts_check(old(program).statements@, 0, old(self).state()),
            stmts_kept(old(program).statements@, final(program).statements@, 0),
            final(program).span == old(program).span,
            final(self).same_compiled(*old(self)),
    {
        self.visit_stmts(&mut program.statements);
    }
}


/// Container types fit by their parts: a map fits a map exactly when its keys fit the keys and
/// its values fit the values, and a list or a result likewise by its element types.
pub proof fn law_compatible_parts(a1: TypeView, a2: TypeView, e1: TypeView, e2: TypeView)
    ensures
        compatible(TypeView::MapOf(Box::new(a1), Box::new(a2)), TypeView::MapOf(Box::new(e1), Box::new(e2)))
            <==> (compatible(a1, e1) && compatible(a2, e2)),
        compatible(TypeView::Result(Box::new(a1), Box::new(a2)), TypeView::Result(Box::new(e1), Box::new(e2)))
            <==> (compatible(a1, e1) && compatible(a2, e2)),
        compatible(TypeView::List(Box::new(a1)), TypeView::List(Box::new(e1))) <==> compatible(a1, e1),
{
    lemma_type_eq_compatible(a1, e1);
    lemma_type_eq_compatible(a2, e2);
}

/// Equal types fit each other.
proof fn lemma_type_eq_compatible(a: TypeView, e: TypeView)
    ensures
        type_eq(a, e) ==> compatible(a, e),
{
}

} // verus!
