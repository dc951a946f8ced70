use vstd::prelude::*;
use crate::ast::{
    Expr, ExprKind, Stmt, StmtKind, Argument, Parameter, Field, ObjectMethod, MessageHandler, StringPart, Literal,
    BinaryOp, UnaryOp, Type, TypeView, type_eq, copy_type,
};
use super::{TypeResolver, same_but_counter};
use super::env::TypeEnv;
use super::error::{TypeError, TypeErrorView};
use super::solve::constraints_view;
use super::types::{
    Constraint, EffectSet, InferType, IType, itypes_view, members_view, handlers_view, lemma_itypes_view_push,
    lemma_members_view, lemma_handlers_view, lemma_handlers_view_push, copy_itype, copy_members, insert_member,
};
use super::inference::{member_types, one_type};
use super::infer_spec::{InferState, fresh_var, add_constraint, convert, param_type, literal_infer, binary_infer, unary_infer, fun_type, infer_expr, infer_args, infer_elements, infer_pairs, infer_parts, bind_params, infer_block, infer_function, infer_stmt, method_type, method_params, object_fields, object_methods, object_type, handler_insert, actor_fields, actor_handlers, actor_type};

verus! {

/// What inference sees of a resolver.
pub open spec fn istate(r: TypeResolver) -> InferState {
    InferState {
        scopes: r.env.scopes(),
        counter: r.var_gen.counter,
        constraints: constraints_view(r.constraints@),
        objects: members_view(r.object_definitions@),
        stores: members_view(r.store_types@),
        actors: members_view(r.actor_types@),
    }
}

pub open spec fn type_result(r: Result<InferType, TypeError>) -> Result<IType, TypeErrorView> {
    match r {
        Ok(t) => Ok(t@),
        Err(e) => Err(e@),
    }
}

pub open spec fn types_result(r: Result<Vec<InferType>, TypeError>) -> Result<Seq<IType>, TypeErrorView> {
    match r {
        Ok(ts) => Ok(itypes_view(ts@)),
        Err(e) => Err(e@),
    }
}

pub open spec fn members_result(r: Result<Vec<(String, InferType)>, TypeError>) -> Result<
    Seq<(Seq<char>, IType)>,
    TypeErrorView,
> {
    match r {
        Ok(ms) => Ok(members_view(ms@)),
        Err(e) => Err(e@),
    }
}

/// Whether `s` is the text `lit`.
fn is_named(s: &String, lit: &str) -> (b: bool)
    ensures
        b == (s@ == lit@),
{
    *s == lit.to_owned()
}

pub(crate) fn function_type(params: Vec<InferType>, ret: InferType, effects: EffectSet) -> (t: InferType)
    ensures
        t@ == fun_type(itypes_view(params@), ret@, effects),
{
    InferType::Function { params, return_type: Box::new(ret), effects }
}

/// The types of the members, in order.
fn member_values(ms: &Vec<(String, InferType)>) -> (r: Vec<InferType>)
    ensures
        itypes_view(r@) == member_types(members_view(ms@)),
{
    let ghost mv = members_view(ms@);
    proof {
        lemma_members_view(ms@);
    }
    let mut r: Vec<InferType> = Vec::new();
    let mut i: usize = 0;
    while i < ms.len()
        invariant
            i <= ms.len(),
            mv == members_view(ms@),
            mv.len() == ms.len(),
            forall|j: int| 0 <= j < ms.len() ==> #[trigger] mv[j] == (ms@[j].0@, ms@[j].1@),
            itypes_view(r@) == member_types(mv).take(i as int),
        decreases ms.len() - i,
    {
        let t = copy_itype(&ms[i].1);
        proof {
            lemma_itypes_view_push(r@, t);
            assert(member_types(mv).take(i + 1) =~= member_types(mv).take(i as int).push(t@));
        }
        r.push(t);
        i = i + 1;
    }
    assert(member_types(mv).take(ms.len() as int) =~= member_types(mv));
    r
}

proof fn lemma_handler_insert_at(hv: Seq<(TypeView, IType)>, kv: TypeView, vv: IType, i: int)
    requires
        0 <= i < hv.len(),
        type_eq(hv[i].0, kv),
        forall|j: int| 0 <= j < i ==> !#[trigger] type_eq(hv[j].0, kv),
    ensures
        handler_insert(hv, kv, vv) == hv.update(i, (hv[i].0, vv)),
{
    let c = choose|j: int|
        0 <= j < hv.len() && type_eq(hv[j].0, kv) && forall|m: int| 0 <= m < j ==> !#[trigger] type_eq(hv[m].0, kv);
    assert(exists|j: int| 0 <= j < hv.len() && #[trigger] type_eq(hv[j].0, kv));
    assert(0 <= c < hv.len() && type_eq(hv[c].0, kv) && forall|m: int| 0 <= m < c ==> !#[trigger] type_eq(hv[m].0, kv));
    if c < i {
        assert(!type_eq(hv[c].0, kv));
    }
    if c > i {
        assert(!type_eq(hv[i].0, kv));
    }
}

/// Binds a handler type under a message type: an equal message type keeps its place and takes
/// the new handler.
fn insert_handler(hs: &mut Vec<(Type, InferType)>, k: Type, v: InferType)
    ensures
        handlers_view(final(hs)@) == handler_insert(handlers_view(old(hs)@), k@, v@),
{
    let ghost hv = handlers_view(hs@);
    let ghost kv = k@;
    let ghost vv = v@;
    proof {
        lemma_handlers_view(hs@);
    }
    let mut i: usize = 0;
    while i < hs.len()
        invariant
            i <= hs.len(),
            hv == handlers_view(hs@),
            hv.len() == hs.len(),
            kv == k@,
            vv == v@,
            hv == handlers_view(old(hs)@),
            forall|j: int| 0 <= j < hs.len() ==> #[trigger] hv[j] == (hs@[j].0@, hs@[j].1@),
            forall|j: int| 0 <= j < i ==> !#[trigger] type_eq(hv[j].0, kv),
        decreases hs.len() - i,
    {
        if hs[i].0.equals(&k) {
        proof {
            lemma_handler_insert_at(hv, kv, vv, i as int);
        }
        let key = copy_type(&hs[i].0);
        let ghost before = hs@;
        hs.set(i, (key, v));
        proof {
            lemma_handlers_view(hs@);
            assert forall|j: int| 0 <= j < hs@.len() implies #[trigger] handlers_view(hs@)[j] == hv.update(
                i as int,
                (hv[i as int].0, vv),
            )[j] by {
                if j != i {
                    assert(hs@[j] == before[j]);
                    assert(hv[j] == (before[j].0@, before[j].1@));
                } else {
                    assert(hs@[j].1@ == vv);
                }
            }
            assert(handlers_view(hs@) =~= hv.update(i as int, (hv[i as int].0, vv)));
        }
        return;
        }
        i = i + 1;
    }
    proof {
        lemma_handlers_view_push(hs@, (k, v));
    }
    hs.push((k, v));
    assert(handlers_view(hs@) =~= hv.push((kv, vv)));
}

impl TypeResolver {
    pub(crate) fn push_constraint(&mut self, c: Constraint)
        ensures
            istate(*final(self)) == add_constraint(istate(*old(self)), c@),
            final(self).builtin_types == old(self).builtin_types,
    {
        let ghost cv = c@;
        let ghost before = constraints_view(self.constraints@);
        self.constraints.push(c);
        assert(constraints_view(self.constraints@) =~= before.push(cv));
    }

    pub(crate) fn fresh_type(&mut self) -> (t: InferType)
        ensures
            (t@, istate(*final(self))) == fresh_var(istate(*old(self))),
            same_but_counter(*final(self), *old(self)),
            final(self).builtin_types == old(self).builtin_types,
    {
        InferType::Var(self.var_gen.fresh())
    }

    pub(crate) fn convert_type(&mut self, t: &Type) -> (r: Result<InferType, TypeError>)
        ensures
            r is Ok,
            (r->Ok_0@, istate(*final(self))) == convert(t@, istate(*old(self))),
            same_but_counter(*final(self), *old(self)),
            final(self).builtin_types == old(self).builtin_types,
    {
        self.ast_type_to_infer_type(t)
    }

    /// The type of a parameter: a fresh variable when none is written.
    pub(crate) fn parameter_type(&mut self, t: &Type) -> (r: Result<InferType, TypeError>)
        ensures
            r is Ok,
            (r->Ok_0@, istate(*final(self))) == param_type(t@, istate(*old(self))),
            same_but_counter(*final(self), *old(self)),
            final(self).builtin_types == old(self).builtin_types,
    {
        match t {
            Type::Unknown => Ok(self.fresh_type()),
            _ => self.convert_type(t),
        }
    }

    /// The type of a literal.
    fn infer_literal(&mut self, lit: &Literal) -> (r: Result<InferType, TypeError>)
        ensures
            r is Ok,
            (r->Ok_0@, istate(*final(self))) == literal_infer(*lit, istate(*old(self))),
            same_but_counter(*final(self), *old(self)),
            final(self).builtin_types == old(self).builtin_types,
    {
        match lit {
            Literal::Integer(_) => Ok(InferType::Int),
            Literal::Float(_) => Ok(InferType::Float),
            Literal::String(_) => Ok(InferType::String),
            Literal::Bool(_) => Ok(InferType::Bool),
            Literal::Unit => Ok(InferType::Unit),
            Literal::No => Ok(InferType::Unit),
            Literal::Yes => Ok(InferType::Bool),
            Literal::Empty => Ok(self.fresh_type()),
            Literal::Null => Ok(InferType::Unit),
            Literal::Now => Ok(InferType::Int),
            Literal::Error => Ok(InferType::Unknown),
        }
    }

    /// The type of a binary operation on operands of the given types, with the constraints it adds.
    fn binary_type(&mut self, op: &BinaryOp, left_type: InferType, right_type: InferType) -> (r: Result<
        InferType,
        TypeError,
    >)
        ensures
            (type_result(r), istate(*final(self))) == binary_infer(*op, left_type@, right_type@, istate(*old(self))),
            final(self).builtin_types == old(self).builtin_types,
    {
        match op {
            BinaryOp::Add | BinaryOp::Sub | BinaryOp::Mul | BinaryOp::Div | BinaryOp::Mod => {
                self.push_constraint(Constraint::Equal(copy_itype(&left_type), right_type));
                match &left_type {
                    InferType::Int | InferType::Float => Ok(left_type),
                    InferType::Var(_) => {
                        let numeric_type = self.fresh_type();
                        self.push_constraint(Constraint::Equal(left_type, copy_itype(&numeric_type)));
                        Ok(numeric_type)
                    },
                    _ => Err(TypeError::TypeMismatch(InferType::Int, left_type)),
                }
            },
            BinaryOp::Lt | BinaryOp::Le | BinaryOp::Gt | BinaryOp::Ge | BinaryOp::Eq | BinaryOp::Ne | BinaryOp::Is => {
                self.push_constraint(Constraint::Equal(left_type, right_type));
                Ok(InferType::Bool)
            },
            BinaryOp::And | BinaryOp::Or | BinaryOp::Xor => {
                self.push_constraint(Constraint::Equal(left_type, InferType::Bool));
                self.push_constraint(Constraint::Equal(right_type, InferType::Bool));
                Ok(InferType::Bool)
            },
            BinaryOp::BitAnd | BinaryOp::BitOr | BinaryOp::BitXor | BinaryOp::Shl | BinaryOp::Shr => {
                self.push_constraint(Constraint::Equal(left_type, InferType::Int));
                self.push_constraint(Constraint::Equal(right_type, InferType::Int));
                Ok(InferType::Int)
            },
        }
    }

    /// The type of a unary operation on an operand of the given type.
    fn unary_type(&mut self, op: &UnaryOp, operand_type: InferType) -> (r: Result<InferType, TypeError>)
        ensures
            (type_result(r), istate(*final(self))) == unary_infer(*op, operand_type@, istate(*old(self))),
            final(self).builtin_types == old(self).builtin_types,
    {
        match op {
            UnaryOp::Neg => match &operand_type {
                InferType::Int | InferType::Float | InferType::Var(_) => Ok(operand_type),
                _ => Err(TypeError::TypeMismatch(InferType::Int, operand_type)),
            },
            UnaryOp::Not => {
                self.push_constraint(Constraint::Equal(operand_type, InferType::Bool));
                Ok(InferType::Bool)
            },
            UnaryOp::BitNot => {
                self.push_constraint(Constraint::Equal(operand_type, InferType::Int));
                Ok(InferType::Int)
            },
        }
    }
}


impl TypeResolver {
    /// The type of an expression, gathering the constraints it imposes.
    pub fn infer_expression(&mut self, expr: &Expr) -> (r: Result<InferType, TypeError>)
        ensures
            (type_result(r), istate(*final(self))) == infer_expr(*expr, istate(*old(self))),
            final(self).builtin_types == old(self).builtin_types,
        decreases expr, 3nat,
    {
        match &expr.kind {
            ExprKind::Literal(lit) => self.infer_literal(lit),
            ExprKind::Identifier(name) => match self.env.lookup(name.as_str()) {
                Some(t) => Ok(t),
                None => Err(TypeError::UnknownVariable(name.clone())),
            },
            ExprKind::Binary { .. } => self.infer_binary_expression(expr),
            ExprKind::Unary { .. } => self.infer_unary_expression(expr),
            ExprKind::Call { .. } => self.infer_call_expression(expr),
            ExprKind::Index { .. } => self.infer_index(expr),
            ExprKind::FieldAccess { .. } => self.infer_field_access(expr),
            ExprKind::ListLiteral(_) => self.infer_list_literal(expr),
            ExprKind::MapLiteral(_) => self.infer_map_literal(expr),
            ExprKind::StringInterpolation { .. } => self.infer_interpolation(expr),
            ExprKind::If { .. } => self.infer_if_expression(expr),
            ExprKind::Block(stmts) => self.infer_block(stmts),
            ExprKind::Lambda { .. } => self.infer_lambda(expr),
            ExprKind::ListAppend { .. } => self.infer_list_append(expr),
            ExprKind::MapInsert { .. } => self.infer_map_insert(expr),
            _ => Ok(InferType::Unknown),
        }
    }

    fn infer_binary_expression(&mut self, expr: &Expr) -> (r: Result<InferType, TypeError>)
        requires
            expr.kind is Binary,
        ensures
            (type_result(r), istate(*final(self))) == infer_expr(*expr, istate(*old(self))),
            final(self).builtin_types == old(self).builtin_types,
        decreases expr, 2nat,
    {
        match &expr.kind {
            ExprKind::Binary { op, left, right } => {
                let left_type = match self.infer_expression(left) {
                    Ok(t) => t,
                    Err(e) => return Err(e),
                };
                let right_type = match self.infer_expression(right) {
                    Ok(t) => t,
                    Err(e) => return Err(e),
                };
                self.binary_type(op, left_type, right_type)
            },
            _ => Ok(InferType::Unknown),
        }
    }

    fn infer_unary_expression(&mut self, expr: &Expr) -> (r: Result<InferType, TypeError>)
        requires
            expr.kind is Unary,
        ensures
            (type_result(r), istate(*final(self))) == infer_expr(*expr, istate(*old(self))),
            final(self).builtin_types == old(self).builtin_types,
        decreases expr, 2nat,
    {
        match &expr.kind {
            ExprKind::Unary { op, operand } => {
                let operand_type = match self.infer_expression(operand) {
                    Ok(t) => t,
                    Err(e) => return Err(e),
                };
                self.unary_type(op, operand_type)
            },
            _ => Ok(InferType::Unknown),
        }
    }

    /// The types of the argument values, after those already in `acc`.
    #[verifier::loop_isolation(false)]
    fn infer_args(&mut self, args: &Vec<Argument>, acc: Vec<InferType>) -> (r: Result<Vec<InferType>, TypeError>)
        ensures
            (types_result(r), istate(*final(self))) == infer_args(args@, 0, itypes_view(acc@), istate(*old(self))),
            final(self).builtin_types == old(self).builtin_types,
        decreases args@, 1nat,
    {
        let ghost goal = infer_args(args@, 0, itypes_view(acc@), istate(*self));
        let ghost b0 = self.builtin_types;
        let mut types = acc;
        let mut i: usize = 0;
        while i < args.len()
            invariant
                i <= args.len(),
                goal == infer_args(args@, i as int, itypes_view(types@), istate(*self)),
                self.builtin_types == b0,
            decreases args.len() - i,
        {
            let t = match self.infer_expression(&args[i].value) {
                Ok(t) => t,
                Err(e) => return Err(e),
            };
            proof {
                lemma_itypes_view_push(types@, t);
            }
            types.push(t);
            i = i + 1;
        }
        Ok(types)
    }

    /// A call: `make` on an object and `with_id` on a store build values; another field of an
    /// object is a method; anything else is called as a function.
    fn infer_call_expression(&mut self, expr: &Expr) -> (r: Result<InferType, TypeError>)
        requires
            expr.kind is Call,
        ensures
            (type_result(r), istate(*final(self))) == infer_expr(*expr, istate(*old(self))),
            final(self).builtin_types == old(self).builtin_types,
        decreases expr, 2nat,
    {
        match &expr.kind {
            ExprKind::Call { callee, args } => match &callee.kind {
                ExprKind::FieldAccess { object, field } => {
                    if is_named(field, "make") {
                        let object_type = match self.infer_expression(object) {
                            Ok(t) => t,
                            Err(e) => return Err(e),
                        };
                        if let InferType::Object { fields, .. } = &object_type {
                            let make_params = member_values(fields);
                            let func_type = function_type(make_params, copy_itype(&object_type), EffectSet::pure());
                            let arg_types = match self.infer_args(args, Vec::new()) {
                                Ok(ts) => ts,
                                Err(e) => return Err(e),
                            };
                            self.push_constraint(Constraint::IsCallable(func_type, arg_types, copy_itype(&object_type)));
                            return Ok(object_type);
                        }
                    }
                    if is_named(field, "with_id") {
                        let object_type = match self.infer_expression(object) {
                            Ok(t) => t,
                            Err(e) => return Err(e),
                        };
                        if let InferType::Store { value_type, .. } = &object_type {
                            let func_type = function_type(
                                one_type(InferType::Int),
                                copy_itype(value_type),
                                EffectSet::store(),
                            );
                            let arg_types = match self.infer_args(args, Vec::new()) {
                                Ok(ts) => ts,
                                Err(e) => return Err(e),
                            };
                            self.push_constraint(Constraint::IsCallable(func_type, arg_types, copy_itype(value_type)));
                            return Ok(copy_itype(value_type));
                        }
                    }
                    let object_type = match self.infer_expression(object) {
                        Ok(t) => t,
                        Err(e) => return Err(e),
                    };
                    let mut self_arg: Vec<InferType> = Vec::new();
                    if !is_named(field, "make") && !is_named(field, "with_id") {
                        self_arg = one_type(copy_itype(&object_type));
                    }
                    let arg_types = match self.infer_args(args, self_arg) {
                        Ok(ts) => ts,
                        Err(e) => return Err(e),
                    };
                    let method_type = self.fresh_type();
                    let return_type = self.fresh_type();
                    self.push_constraint(Constraint::HasMethod(object_type, field.clone(), copy_itype(&method_type)));
                    self.push_constraint(Constraint::IsCallable(method_type, arg_types, copy_itype(&return_type)));
                    Ok(return_type)
                },
                _ => {
                    let callee_type = match self.infer_expression(callee) {
                        Ok(t) => t,
                        Err(e) => return Err(e),
                    };
                    let arg_types = match self.infer_args(args, Vec::new()) {
                        Ok(ts) => ts,
                        Err(e) => return Err(e),
                    };
                    let return_type = self.fresh_type();
                    self.push_constraint(Constraint::IsCallable(callee_type, arg_types, copy_itype(&return_type)));
                    Ok(return_type)
                },
            },
            _ => Ok(InferType::Unknown),
        }
    }
}


impl TypeResolver {
    fn infer_index(&mut self, expr: &Expr) -> (r: Result<InferType, TypeError>)
        requires
            expr.kind is Index,
        ensures
            (type_result(r), istate(*final(self))) == infer_expr(*expr, istate(*old(self))),
            final(self).builtin_types == old(self).builtin_types,
        decreases expr, 2nat,
    {
        match &expr.kind {
            ExprKind::Index { object, index } => {
                let object_type = match self.infer_expression(object) {
                    Ok(t) => t,
                    Err(e) => return Err(e),
                };
                let index_type = match self.infer_expression(index) {
                    Ok(t) => t,
                    Err(e) => return Err(e),
                };
                let element_type = self.fresh_type();
                match &object_type {
                    InferType::List(_) => {
                        self.push_constraint(Constraint::Equal(index_type, InferType::Int));
                    },
                    InferType::MapOf(key_type, _) => {
                        self.push_constraint(Constraint::Equal(index_type, copy_itype(key_type)));
                    },
                    _ => {},
                }
                Ok(element_type)
            },
            _ => Ok(InferType::Unknown),
        }
    }

    /// A field of an object: a fresh type that the object must have as that field.
    fn infer_field_access(&mut self, expr: &Expr) -> (r: Result<InferType, TypeError>)
        requires
            expr.kind is FieldAccess,
        ensures
            (type_result(r), istate(*final(self))) == infer_expr(*expr, istate(*old(self))),
            final(self).builtin_types == old(self).builtin_types,
        decreases expr, 2nat,
    {
        match &expr.kind {
            ExprKind::FieldAccess { object, field } => {
                let object_type = match self.infer_expression(object) {
                    Ok(t) => t,
                    Err(e) => return Err(e),
                };
                let field_type = self.fresh_type();
                self.push_constraint(Constraint::HasField(object_type, field.clone(), copy_itype(&field_type)));
                Ok(field_type)
            },
            _ => Ok(InferType::Unknown),
        }
    }

    #[verifier::loop_isolation(false)]
    fn infer_list_literal(&mut self, expr: &Expr) -> (r: Result<InferType, TypeError>)
        requires
            expr.kind is ListLiteral,
        ensures
            (type_result(r), istate(*final(self))) == infer_expr(*expr, istate(*old(self))),
            final(self).builtin_types == old(self).builtin_types,
        decreases expr, 2nat,
    {
        match &expr.kind {
            ExprKind::ListLiteral(elements) => {
                let element_type_var = self.fresh_type();
                let ghost v = element_type_var@;
                let ghost goal = infer_elements(elements@, 0, v, istate(*self));
                let ghost b0 = self.builtin_types;
                let mut i: usize = 0;
                while i < elements.len()
                    invariant
                        i <= elements.len(),
                        v == element_type_var@,
                        goal == infer_elements(elements@, i as int, v, istate(*self)),
                        self.builtin_types == b0,
                    decreases elements.len() - i,
                {
                    let elem_type = match self.infer_expression(&elements[i]) {
                        Ok(t) => t,
                        Err(e) => return Err(e),
                    };
                    self.push_constraint(Constraint::Equal(copy_itype(&element_type_var), elem_type));
                    i = i + 1;
                }
                Ok(InferType::List(Box::new(element_type_var)))
            },
            _ => Ok(InferType::Unknown),
        }
    }

    #[verifier::loop_isolation(false)]
    fn infer_map_literal(&mut self, expr: &Expr) -> (r: Result<InferType, TypeError>)
        requires
            expr.kind is MapLiteral,
        ensures
            (type_result(r), istate(*final(self))) == infer_expr(*expr, istate(*old(self))),
            final(self).builtin_types == old(self).builtin_types,
        decreases expr, 2nat,
    {
        match &expr.kind {
            ExprKind::MapLiteral(pairs) => {
                let key_type_var = self.fresh_type();
                let value_type_var = self.fresh_type();
                let ghost k = key_type_var@;
                let ghost v = value_type_var@;
                let ghost goal = infer_pairs(pairs@, 0, k, v, istate(*self));
                let ghost b0 = self.builtin_types;
                let mut i: usize = 0;
                while i < pairs.len()
                    invariant
                        i <= pairs.len(),
                        k == key_type_var@,
                        v == value_type_var@,
                        goal == infer_pairs(pairs@, i as int, k, v, istate(*self)),
                        self.builtin_types == b0,
                    decreases pairs.len() - i,
                {
                    proof {
                        assert(decreases_to!(pairs@ => pairs@[i as int]));
                        assert(decreases_to!(pairs@[i as int] => pairs@[i as int].0));
                        assert(decreases_to!(pairs@[i as int] => pairs@[i as int].1));
                    }
                    let k_type = match self.infer_expression(&pairs[i].0) {
                        Ok(t) => t,
                        Err(e) => return Err(e),
                    };
                    let v_type = match self.infer_expression(&pairs[i].1) {
                        Ok(t) => t,
                        Err(e) => return Err(e),
                    };
                    self.push_constraint(Constraint::Equal(copy_itype(&key_type_var), k_type));
                    self.push_constraint(Constraint::Equal(copy_itype(&value_type_var), v_type));
                    i = i + 1;
                }
                Ok(InferType::MapOf(Box::new(key_type_var), Box::new(value_type_var)))
            },
            _ => Ok(InferType::Unknown),
        }
    }

    #[verifier::loop_isolation(false)]
    fn infer_interpolation(&mut self, expr: &Expr) -> (r: Result<InferType, TypeError>)
        requires
            expr.kind is StringInterpolation,
        ensures
            (type_result(r), istate(*final(self))) == infer_expr(*expr, istate(*old(self))),
            final(self).builtin_types == old(self).builtin_types,
        decreases expr, 2nat,
    {
        match &expr.kind {
            ExprKind::StringInterpolation { parts } => {
                let ghost goal = infer_parts(parts@, 0, istate(*self));
                let ghost b0 = self.builtin_types;
                let mut i: usize = 0;
                while i < parts.len()
                    invariant
                        i <= parts.len(),
                        goal == infer_parts(parts@, i as int, istate(*self)),
                        self.builtin_types == b0,
                    decreases parts.len() - i,
                {
                    proof {
                        assert(decreases_to!(parts@ => parts@[i as int]));
                    }
                    if let StringPart::Expression(part) = &parts[i] {
                        match self.infer_expression(part) {
                            Ok(_) => {},
                            Err(e) => return Err(e),
                        }
                    }
                    i = i + 1;
                }
                Ok(InferType::String)
            },
            _ => Ok(InferType::Unknown),
        }
    }

    fn infer_if_expression(&mut self, expr: &Expr) -> (r: Result<InferType, TypeError>)
        requires
            expr.kind is If,
        ensures
            (type_result(r), istate(*final(self))) == infer_expr(*expr, istate(*old(self))),
            final(self).builtin_types == old(self).builtin_types,
        decreases expr, 2nat,
    {
        match &expr.kind {
            ExprKind::If { condition, then_branch, else_branch } => {
                let cond_type = match self.infer_expression(condition) {
                    Ok(t) => t,
                    Err(e) => return Err(e),
                };
                self.push_constraint(Constraint::Equal(cond_type, InferType::Bool));
                let then_type = match self.infer_expression(then_branch) {
                    Ok(t) => t,
                    Err(e) => return Err(e),
                };
                let else_type = match else_branch {
                    Some(else_expr) => match self.infer_expression(else_expr) {
                        Ok(t) => t,
                        Err(e) => return Err(e),
                    },
                    None => InferType::Unit,
                };
                self.push_constraint(Constraint::Equal(copy_itype(&then_type), else_type));
                Ok(then_type)
            },
            _ => Ok(InferType::Unknown),
        }
    }

    /// A lambda: its parameters are bound in a new scope for its body.
    fn infer_lambda(&mut self, expr: &Expr) -> (r: Result<InferType, TypeError>)
        requires
            expr.kind is Lambda,
        ensures
            (type_result(r), istate(*final(self))) == infer_expr(*expr, istate(*old(self))),
            final(self).builtin_types == old(self).builtin_types,
        decreases expr, 2nat,
    {
        match &expr.kind {
            ExprKind::Lambda { params, body } => {
                let mut lambda_env = self.env.extend();
                let param_types = match self.bind_parameters(params, &mut lambda_env) {
                    Ok(ts) => ts,
                    Err(e) => return Err(e),
                };
                std::mem::swap(&mut self.env, &mut lambda_env);
                let return_type = match self.infer_expression(body) {
                    Ok(t) => t,
                    Err(e) => return Err(e),
                };
                self.env = lambda_env;
                Ok(function_type(param_types, return_type, EffectSet::pure()))
            },
            _ => Ok(InferType::Unknown),
        }
    }

    /// Gives each parameter its type and binds it in `env`, the scope being built for a body.
    #[verifier::loop_isolation(false)]
    fn bind_parameters(&mut self, params: &Vec<Parameter>, env: &mut TypeEnv) -> (r: Result<
        Vec<InferType>,
        TypeError,
    >)
        ensures
            r is Ok,
            ({
                let b = bind_params(params@, 0, Seq::empty(), InferState { scopes: old(env).scopes(), ..istate(*old(self)) });
                &&& itypes_view(r->Ok_0@) == b.0
                &&& b.1 == InferState { scopes: final(env).scopes(), ..istate(*final(self)) }
            }),
            final(self).env == old(self).env,
            final(self).builtin_types == old(self).builtin_types,
    {
        let ghost goal = bind_params(params@, 0, Seq::empty(), InferState { scopes: env.scopes(), ..istate(*self) });
        let ghost env0 = self.env;
        let ghost b0 = self.builtin_types;
        let mut param_types: Vec<InferType> = Vec::new();
        let mut i: usize = 0;
        while i < params.len()
            invariant
                i <= params.len(),
                goal == bind_params(
                    params@,
                    i as int,
                    itypes_view(param_types@),
                    InferState { scopes: env.scopes(), ..istate(*self) },
                ),
                self.env == env0,
                self.builtin_types == b0,
            decreases params.len() - i,
        {
            let param_type = match self.parameter_type(&params[i].type_) {
                Ok(t) => t,
                Err(e) => return Err(e),
            };
            env.bind(params[i].name.clone(), copy_itype(&param_type));
            proof {
                lemma_itypes_view_push(param_types@, param_type);
            }
            param_types.push(param_type);
            i = i + 1;
        }
        Ok(param_types)
    }

    fn infer_list_append(&mut self, expr: &Expr) -> (r: Result<InferType, TypeError>)
        requires
            expr.kind is ListAppend,
        ensures
            (type_result(r), istate(*final(self))) == infer_expr(*expr, istate(*old(self))),
            final(self).builtin_types == old(self).builtin_types,
        decreases expr, 2nat,
    {
        match &expr.kind {
            ExprKind::ListAppend { list, element } => {
                let list_type = match self.infer_expression(list) {
                    Ok(t) => t,
                    Err(e) => return Err(e),
                };
                let element_type = match self.infer_expression(element) {
                    Ok(t) => t,
                    Err(e) => return Err(e),
                };
                let list_element_type = self.fresh_type();
                self.push_constraint(
                    Constraint::Equal(list_type, InferType::List(Box::new(copy_itype(&list_element_type)))),
                );
                self.push_constraint(Constraint::Equal(list_element_type, element_type));
                Ok(InferType::Unit)
            },
            _ => Ok(InferType::Unknown),
        }
    }

    fn infer_map_insert(&mut self, expr: &Expr) -> (r: Result<InferType, TypeError>)
        requires
            expr.kind is MapInsert,
        ensures
            (type_result(r), istate(*final(self))) == infer_expr(*expr, istate(*old(self))),
            final(self).builtin_types == old(self).builtin_types,
        decreases expr, 2nat,
    {
        match &expr.kind {
            ExprKind::MapInsert { map, key, value } => {
                let map_type = match self.infer_expression(map) {
                    Ok(t) => t,
                    Err(e) => return Err(e),
                };
                let key_type = match self.infer_expression(key) {
                    Ok(t) => t,
                    Err(e) => return Err(e),
                };
                let value_type = match self.infer_expression(value) {
                    Ok(t) => t,
                    Err(e) => return Err(e),
                };
                let map_key_type = self.fresh_type();
                let map_value_type = self.fresh_type();
                self.push_constraint(
                    Constraint::Equal(
                        map_type,
                        InferType::MapOf(Box::new(copy_itype(&map_key_type)), Box::new(copy_itype(&map_value_type))),
                    ),
                );
                self.push_constraint(Constraint::Equal(map_key_type, key_type));
                self.push_constraint(Constraint::Equal(map_value_type, value_type));
                Ok(InferType::Unit)
            },
            _ => Ok(InferType::Unknown),
        }
    }

    /// The type of a block: that of its last statement, `Unit` when it is empty.
    #[verifier::loop_isolation(false)]
    pub fn infer_block(&mut self, stmts: &Vec<Stmt>) -> (r: Result<InferType, TypeError>)
        ensures
            (type_result(r), istate(*final(self))) == infer_block(stmts@, 0, IType::Unit, istate(*old(self))),
            final(self).builtin_types == old(self).builtin_types,
        decreases stmts@, 1nat,
    {
        let ghost goal = infer_block(stmts@, 0, IType::Unit, istate(*self));
        let ghost b0 = self.builtin_types;
        let mut last_type = InferType::Unit;
        let mut i: usize = 0;
        while i < stmts.len()
            invariant
                i <= stmts.len(),
                goal == infer_block(stmts@, i as int, last_type@, istate(*self)),
                self.builtin_types == b0,
            decreases stmts.len() - i,
        {
            last_type = match self.infer_statement(&stmts[i]) {
                Ok(t) => t,
                Err(e) => return Err(e),
            };
            i = i + 1;
        }
        Ok(last_type)
    }
}


impl TypeResolver {
    /// The type of a statement, gathering its constraints and binding what it defines.
    pub fn infer_statement(&mut self, stmt: &Stmt) -> (r: Result<InferType, TypeError>)
        ensures
            (type_result(r), istate(*final(self))) == infer_stmt(*stmt, istate(*old(self))),
            final(self).builtin_types == old(self).builtin_types,
        decreases stmt, 3nat,
    {
        match &stmt.kind {
            StmtKind::Expression(expr) => self.infer_expression(expr),
            StmtKind::Assignment { target, value } => {
                let value_type = match self.infer_expression(value) {
                    Ok(t) => t,
                    Err(e) => return Err(e),
                };
                if let ExprKind::Identifier(name) = &target.kind {
                    self.env.bind(name.clone(), value_type);
                }
                Ok(InferType::Unit)
            },
            StmtKind::Function { .. } => self.infer_function_definition(stmt),
            StmtKind::Object { .. } | StmtKind::Store { .. } => self.infer_object_definition(stmt),
            StmtKind::Actor { name, fields, handlers } => {
                let actor_type = match self.create_actor_type(name, fields, handlers) {
                    Ok(t) => t,
                    Err(e) => return Err(e),
                };
                insert_member(&mut self.actor_types, name.clone(), actor_type);
                Ok(InferType::Unit)
            },
            StmtKind::If { .. } | StmtKind::While { .. } => self.infer_branching(stmt),
            StmtKind::Return(value) => match value {
                Some(val) => self.infer_expression(val),
                None => Ok(InferType::Unit),
            },
            _ => Ok(InferType::Unit),
        }
    }

    /// A function definition: its name is bound to a fresh type, equated with the function's.
    fn infer_function_definition(&mut self, stmt: &Stmt) -> (r: Result<InferType, TypeError>)
        requires
            stmt.kind is Function,
        ensures
            (type_result(r), istate(*final(self))) == infer_stmt(*stmt, istate(*old(self))),
            final(self).builtin_types == old(self).builtin_types,
        decreases stmt, 2nat,
    {
        match &stmt.kind {
            StmtKind::Function { name, params, return_type, body } => {
                let func_type_var = self.fresh_type();
                self.env.bind(name.clone(), copy_itype(&func_type_var));
                let func_type = match self.infer_function(name, params, return_type, body) {
                    Ok(t) => t,
                    Err(e) => return Err(e),
                };
                self.push_constraint(Constraint::Equal(func_type_var, func_type));
                Ok(InferType::Unit)
            },
            _ => Ok(InferType::Unit),
        }
    }

    /// The type of a function: its parameters are bound in a new scope for its body, and a
    /// declared return type must equal the inferred one.
    pub fn infer_function(
        &mut self,
        name: &String,
        params: &Vec<Parameter>,
        return_type: &Option<Type>,
        body: &Vec<Stmt>,
    ) -> (r: Result<InferType, TypeError>)
        ensures
            (type_result(r), istate(*final(self))) == infer_function(params@, *return_type, body@, istate(*old(self))),
            final(self).builtin_types == old(self).builtin_types,
        decreases body@, 2nat,
    {
        let mut func_env = self.env.extend();
        let param_types = match self.bind_parameters(params, &mut func_env) {
            Ok(ts) => ts,
            Err(e) => return Err(e),
        };
        std::mem::swap(&mut self.env, &mut func_env);
        let inferred_return = if body.len() == 0 {
            InferType::Unit
        } else {
            match self.infer_block(body) {
                Ok(t) => t,
                Err(e) => return Err(e),
            }
        };
        self.env = func_env;
        let final_return = match return_type {
            Some(declared) => {
                let declared_type = match self.convert_type(declared) {
                    Ok(t) => t,
                    Err(e) => return Err(e),
                };
                self.push_constraint(Constraint::Equal(inferred_return, copy_itype(&declared_type)));
                declared_type
            },
            None => inferred_return,
        };
        Ok(function_type(param_types, final_return, EffectSet::pure()))
    }

    /// An object or store definition: its type is recorded under its name and bound to it.
    pub(crate) fn infer_object_definition(&mut self, stmt: &Stmt) -> (r: Result<InferType, TypeError>)
        requires
            stmt.kind is Object || stmt.kind is Store,
        ensures
            (type_result(r), istate(*final(self))) == infer_stmt(*stmt, istate(*old(self))),
            final(self).builtin_types == old(self).builtin_types,
        decreases stmt, 2nat,
    {
        match &stmt.kind {
            StmtKind::Object { name, fields, methods } => {
                let field_types = match self.infer_field_types(fields) {
                    Ok(ts) => ts,
                    Err(e) => return Err(e),
                };
                let obj_type = match self.create_object_type(name, field_types, methods, false, false) {
                    Ok(t) => t,
                    Err(e) => return Err(e),
                };
                insert_member(&mut self.object_definitions, name.clone(), copy_itype(&obj_type));
                self.env.bind(name.clone(), obj_type);
                Ok(InferType::Unit)
            },
            StmtKind::Store { name, fields, methods } => {
                let field_types = match self.infer_field_types(fields) {
                    Ok(ts) => ts,
                    Err(e) => return Err(e),
                };
                let store_type = match self.create_object_type(name, field_types, methods, false, true) {
                    Ok(t) => t,
                    Err(e) => return Err(e),
                };
                insert_member(&mut self.store_types, name.clone(), copy_itype(&store_type));
                self.env.bind(name.clone(), store_type);
                Ok(InferType::Unit)
            },
            _ => Ok(InferType::Unit),
        }
    }

    /// `if` and `while`: the condition is a `Bool`; an `if` has the type of its branches.
    fn infer_branching(&mut self, stmt: &Stmt) -> (r: Result<InferType, TypeError>)
        requires
            stmt.kind is If || stmt.kind is While,
        ensures
            (type_result(r), istate(*final(self))) == infer_stmt(*stmt, istate(*old(self))),
            final(self).builtin_types == old(self).builtin_types,
        decreases stmt, 2nat,
    {
        match &stmt.kind {
            StmtKind::If { condition, then_branch, else_branch } => {
                let cond_type = match self.infer_expression(condition) {
                    Ok(t) => t,
                    Err(e) => return Err(e),
                };
                self.push_constraint(Constraint::Equal(cond_type, InferType::Bool));
                let then_type = match self.infer_block(then_branch) {
                    Ok(t) => t,
                    Err(e) => return Err(e),
                };
                if let Some(else_stmts) = else_branch {
                    let else_type = match self.infer_block(else_stmts) {
                        Ok(t) => t,
                        Err(e) => return Err(e),
                    };
                    self.push_constraint(Constraint::Equal(copy_itype(&then_type), else_type));
                }
                Ok(then_type)
            },
            StmtKind::While { condition, body } => {
                let cond_type = match self.infer_expression(condition) {
                    Ok(t) => t,
                    Err(e) => return Err(e),
                };
                self.push_constraint(Constraint::Equal(cond_type, InferType::Bool));
                match self.infer_block(body) {
                    Ok(_) => {},
                    Err(e) => return Err(e),
                }
                Ok(InferType::Unit)
            },
            _ => Ok(InferType::Unit),
        }
    }

    /// The field types of an object: the type of the default value when there is one, else the
    /// written type.
    #[verifier::loop_isolation(false)]
    pub fn infer_field_types(&mut self, fields: &Vec<Field>) -> (r: Result<Vec<(String, InferType)>, TypeError>)
        ensures
            (members_result(r), istate(*final(self))) == object_fields(fields@, 0, Seq::empty(), istate(*old(self))),
            final(self).builtin_types == old(self).builtin_types,
        decreases fields@, 1nat,
    {
        let ghost goal = object_fields(fields@, 0, Seq::empty(), istate(*self));
        let ghost b0 = self.builtin_types;
        let mut field_types: Vec<(String, InferType)> = Vec::new();
        assert(members_view(field_types@) =~= Seq::<(Seq<char>, IType)>::empty());
        let mut i: usize = 0;
        while i < fields.len()
            invariant
                i <= fields.len(),
                goal == object_fields(fields@, i as int, members_view(field_types@), istate(*self)),
                self.builtin_types == b0,
            decreases fields.len() - i,
        {
            let field = &fields[i];
            let field_type = match &field.default_value {
                Some(expr) => match self.infer_expression(expr) {
                    Ok(t) => t,
                    Err(e) => return Err(e),
                },
                None => match self.convert_type(&field.type_) {
                    Ok(t) => t,
                    Err(e) => return Err(e),
                },
            };
            insert_member(&mut field_types, field.name.clone(), field_type);
            i = i + 1;
        }
        Ok(field_types)
    }

    /// The type of an object or store with the given field types: its methods, the built-in
    /// ones, and a `make` that builds an instance from the field values in order.
    #[verifier::loop_isolation(false)]
    pub fn create_object_type(
        &mut self,
        name: &String,
        field_types: Vec<(String, InferType)>,
        methods: &Vec<ObjectMethod>,
        is_actor: bool,
        is_store: bool,
    ) -> (r: Result<InferType, TypeError>)
        ensures
            (type_result(r), istate(*final(self))) == object_type(
                name@,
                (Ok(members_view(field_types@)), istate(*old(self))),
                methods@,
                is_actor,
                is_store,
            ),
            final(self).builtin_types == old(self).builtin_types,
        decreases methods@, 2nat,
    {
        let ghost goal = object_methods(methods@, 0, Seq::empty(), istate(*self));
        let ghost b0 = self.builtin_types;
        let mut method_types: Vec<(String, InferType)> = Vec::new();
        assert(members_view(method_types@) =~= Seq::<(Seq<char>, IType)>::empty());
        let mut i: usize = 0;
        while i < methods.len()
            invariant
                i <= methods.len(),
                goal == object_methods(methods@, i as int, members_view(method_types@), istate(*self)),
                self.builtin_types == b0,
            decreases methods.len() - i,
        {
            let method_type = match self.infer_method_type(&methods[i]) {
                Ok(t) => t,
                Err(e) => return Err(e),
            };
            insert_member(&mut method_types, methods[i].name.clone(), method_type);
            i = i + 1;
        }
        match self.add_builtin_object_methods(&mut method_types, &field_types) {
            Ok(()) => {},
            Err(e) => return Err(e),
        }
        if is_store {
            match self.add_store_methods(&mut method_types, name.as_str()) {
                Ok(()) => {},
                Err(e) => return Err(e),
            }
        }
        if is_actor {
            match self.add_actor_methods(&mut method_types) {
                Ok(()) => {},
                Err(e) => return Err(e),
            }
        }
        let make_params = member_values(&field_types);
        let make_return = InferType::Object {
            name: name.clone(),
            fields: copy_members(&field_types),
            methods: Vec::new(),
            is_actor,
            is_store,
        };
        insert_member(&mut method_types, String::from_str("make"), function_type(make_params, make_return, EffectSet::pure()));
        Ok(InferType::Object { name: name.clone(), fields: field_types, methods: method_types, is_actor, is_store })
    }

    /// The type of a method: a fresh type for the object itself, then its parameters; its result
    /// is the declared type, `Unit` for an empty body, else the type of the body.
    #[verifier::loop_isolation(false)]
    #[verifier::rlimit(40)]
    fn infer_method_type(&mut self, method: &ObjectMethod) -> (r: Result<InferType, TypeError>)
        ensures
            (type_result(r), istate(*final(self))) == method_type(*method, istate(*old(self))),
            final(self).builtin_types == old(self).builtin_types,
        decreases method, 1nat,
    {
        let self_type = self.fresh_type();
        let ghost goal = method_params(method.params@, 0, seq![self_type@], istate(*self));
        let ghost b0 = self.builtin_types;
        let mut param_types = one_type(self_type);
        let mut i: usize = 0;
        while i < method.params.len()
            invariant
                i <= method.params.len(),
                goal == method_params(method.params@, i as int, itypes_view(param_types@), istate(*self)),
                self.builtin_types == b0,
            decreases method.params.len() - i,
        {
            let param_type = match self.parameter_type(&method.params[i].type_) {
                Ok(t) => t,
                Err(e) => return Err(e),
            };
            proof {
                lemma_itypes_view_push(param_types@, param_type);
            }
            param_types.push(param_type);
            i = i + 1;
        }
        let return_type = match &method.return_type {
            Some(ret_type) => match self.convert_type(ret_type) {
                Ok(t) => t,
                Err(e) => return Err(e),
            },
            None => if method.body.len() == 0 {
                InferType::Unit
            } else {
                match self.infer_block(&method.body) {
                    Ok(t) => t,
                    Err(e) => return Err(e),
                }
            },
        };
        Ok(function_type(param_types, return_type, EffectSet::pure()))
    }

    /// The type of an actor: its fields' written types and, under each message type, a handler
    /// that takes the actor and the message.
    #[verifier::loop_isolation(false)]
    pub fn create_actor_type(&mut self, name: &String, fields: &Vec<Field>, handlers: &Vec<MessageHandler>) -> (r:
        Result<InferType, TypeError>)
        ensures
            (type_result(r), istate(*final(self))) == actor_type(name@, fields@, handlers@, istate(*old(self))),
            final(self).builtin_types == old(self).builtin_types,
    {
        let ghost fgoal = actor_fields(fields@, 0, Seq::empty(), istate(*self));
        let ghost b0 = self.builtin_types;
        let mut actor_field_types: Vec<(String, InferType)> = Vec::new();
        assert(members_view(actor_field_types@) =~= Seq::<(Seq<char>, IType)>::empty());
        let mut i: usize = 0;
        while i < fields.len()
            invariant
                i <= fields.len(),
                fgoal == actor_fields(fields@, i as int, members_view(actor_field_types@), istate(*self)),
                self.builtin_types == b0,
            decreases fields.len() - i,
        {
            let field_type = match self.convert_type(&fields[i].type_) {
                Ok(t) => t,
                Err(e) => return Err(e),
            };
            insert_member(&mut actor_field_types, fields[i].name.clone(), field_type);
            i = i + 1;
        }
        let ghost afs = members_view(actor_field_types@);
        let ghost hgoal = actor_handlers(name@, afs, handlers@, 0, Seq::empty(), istate(*self));
        let mut handler_types: Vec<(Type, InferType)> = Vec::new();
        assert(handlers_view(handler_types@) =~= Seq::<(TypeView, IType)>::empty());
        let mut j: usize = 0;
        while j < handlers.len()
            invariant
                j <= handlers.len(),
                afs == members_view(actor_field_types@),
                hgoal == actor_handlers(name@, afs, handlers@, j as int, handlers_view(handler_types@), istate(*self)),
                self.builtin_types == b0,
            decreases handlers.len() - j,
        {
            let handler = &handlers[j];
            let no_methods: Vec<(String, InferType)> = Vec::new();
            assert(members_view(no_methods@) =~= Seq::<(Seq<char>, IType)>::empty());
            let me = InferType::Object {
                name: name.clone(),
                fields: copy_members(&actor_field_types),
                methods: no_methods,
                is_actor: true,
                is_store: false,
            };
            let ghost me_view = IType::Object {
                name: name@,
                fields: afs,
                methods: Seq::empty(),
                is_actor: true,
                is_store: false,
            };
            assert(me@ == me_view);
            let ghost st_before = istate(*self);
            let message = match self.convert_type(&handler.message_type) {
                Ok(t) => t,
                Err(e) => return Err(e),
            };
            let mut params = one_type(me);
            proof {
                lemma_itypes_view_push(params@, message);
            }
            let ghost message_view = message@;
            params.push(message);
            assert(itypes_view(params@) =~= seq![me_view, message_view]);
            let handler_type = function_type(params, InferType::Unit, EffectSet::actor());
            insert_handler(&mut handler_types, copy_type(&handler.message_type), handler_type);
            j = j + 1;
        }
        Ok(InferType::Actor { name: name.clone(), fields: actor_field_types, handlers: handler_types })
    }
}

} // verus!
