use vstd::prelude::*;
use super::types::{Constraint, ConstraintView, InferType, IType, TypeVar};
use crate::text::{decimal, push_decimal};

verus! {

/// Why type inference failed.
#[derive(Debug)]
pub enum TypeError {
    TypeMismatch(InferType, InferType),
    InfiniteType(TypeVar, InferType),
    ArityMismatch(usize, usize),
    FieldNotFound(String),
    MethodNotFound(String),
    NotAnObject(InferType),
    NotCallable(InferType),
    NotIterable(InferType),
    UnknownVariable(String),
    ConstraintUnsatisfied(Constraint),
}

/// The mathematical model of a `TypeError`.
pub enum TypeErrorView {
    TypeMismatch(IType, IType),
    InfiniteType(TypeVar, IType),
    ArityMismatch(nat, nat),
    FieldNotFound(Seq<char>),
    MethodNotFound(Seq<char>),
    NotAnObject(IType),
    NotCallable(IType),
    NotIterable(IType),
    UnknownVariable(Seq<char>),
    ConstraintUnsatisfied(ConstraintView),
}

impl View for TypeError {
    type V = TypeErrorView;

    open spec fn view(&self) -> TypeErrorView {
        match *self {
            TypeError::TypeMismatch(a, b) => TypeErrorView::TypeMismatch(a@, b@),
            TypeError::InfiniteType(v, t) => TypeErrorView::InfiniteType(v, t@),
            TypeError::ArityMismatch(a, b) => TypeErrorView::ArityMismatch(a as nat, b as nat),
            TypeError::FieldNotFound(f) => TypeErrorView::FieldNotFound(f@),
            TypeError::MethodNotFound(m) => TypeErrorView::MethodNotFound(m@),
            TypeError::NotAnObject(t) => TypeErrorView::NotAnObject(t@),
            TypeError::NotCallable(t) => TypeErrorView::NotCallable(t@),
            TypeError::NotIterable(t) => TypeErrorView::NotIterable(t@),
            TypeError::UnknownVariable(n) => TypeErrorView::UnknownVariable(n@),
            TypeError::ConstraintUnsatisfied(c) => TypeErrorView::ConstraintUnsatisfied(c@),
        }
    }
}


/// The rendering `{:?}` gives an inference type, named by its model.
pub uninterp spec fn infer_debug(t: IType) -> Seq<char>;

/// The rendering `{:?}` gives a constraint, named by its model.
pub uninterp spec fn constraint_debug(c: ConstraintView) -> Seq<char>;

/// `format!("{:?}", t)`: the derived `Debug` rendering of an inference type; its characters are
/// not stated, only that they depend on the type's model alone.
#[verifier::external_body]
fn debug_infer(t: &InferType) -> (s: String)
    ensures
        s@ == infer_debug(t@),
{
    format!("{:?}", t)
}

/// `format!("{:?}", c)` on a constraint, named likewise.
#[verifier::external_body]
fn debug_constraint(c: &Constraint) -> (s: String)
    ensures
        s@ == constraint_debug(c@),
{
    format!("{:?}", c)
}

/// The message of a type error, as it is shown to the user.
pub open spec fn type_error_text(e: TypeErrorView) -> Seq<char> {
    match e {
        TypeErrorView::TypeMismatch(a, b) => "Type mismatch: expected "@ + infer_debug(a) + ", found "@ + infer_debug(b),
        TypeErrorView::InfiniteType(v, t) => "Infinite type: TypeVar("@ + decimal(v.0 as nat) + ") occurs in "@ + infer_debug(t),
        TypeErrorView::ArityMismatch(a, b) => "Arity mismatch: expected "@ + decimal(a) + " arguments, found "@ + decimal(b),
        TypeErrorView::FieldNotFound(f) => "Field '"@ + f + "' not found"@,
        TypeErrorView::MethodNotFound(m) => "Method '"@ + m + "' not found"@,
        TypeErrorView::NotAnObject(t) => "Type "@ + infer_debug(t) + " is not an object"@,
        TypeErrorView::NotCallable(t) => "Type "@ + infer_debug(t) + " is not callable"@,
        TypeErrorView::NotIterable(t) => "Type "@ + infer_debug(t) + " is not iterable"@,
        TypeErrorView::UnknownVariable(n) => "Unknown variable '"@ + n + "'"@,
        TypeErrorView::ConstraintUnsatisfied(c) => "Constraint unsatisfied: "@ + constraint_debug(c),
    }
}

fn wrapped(prefix: &str, middle: &str, suffix: &str) -> (s: String)
    ensures
        s@ == prefix@ + middle@ + suffix@,
{
    let mut s = String::from_str(prefix);
    s.append(middle);
    s.append(suffix);
    s
}

impl TypeError {
    /// The message of the error.
    pub fn message(&self) -> (s: String)
        ensures
            s@ == type_error_text(self@),
    {
        match self {
            TypeError::TypeMismatch(a, b) => {
                let mut s = String::from_str("Type mismatch: expected ");
                s.append(debug_infer(a).as_str());
                s.append(", found ");
                s.append(debug_infer(b).as_str());
                s
            },
            TypeError::InfiniteType(v, t) => {
                let mut s = String::from_str("Infinite type: TypeVar(");
                push_decimal(&mut s, v.0 as u64);
                s.append(") occurs in ");
                s.append(debug_infer(t).as_str());
                s
            },
            TypeError::ArityMismatch(a, b) => {
                let mut s = String::from_str("Arity mismatch: expected ");
                push_decimal(&mut s, *a as u64);
                s.append(" arguments, found ");
                push_decimal(&mut s, *b as u64);
                s
            },
            TypeError::FieldNotFound(f) => wrapped("Field '", f.as_str(), "' not found"),
            TypeError::MethodNotFound(m) => wrapped("Method '", m.as_str(), "' not found"),
            TypeError::NotAnObject(t) => wrapped("Type ", debug_infer(t).as_str(), " is not an object"),
            TypeError::NotCallable(t) => wrapped("Type ", debug_infer(t).as_str(), " is not callable"),
            TypeError::NotIterable(t) => wrapped("Type ", debug_infer(t).as_str(), " is not iterable"),
            TypeError::UnknownVariable(n) => wrapped("Unknown variable '", n.as_str(), "'"),
            TypeError::ConstraintUnsatisfied(c) => {
                let mut s = String::from_str("Constraint unsatisfied: ");
                s.append(debug_constraint(c).as_str());
                s
            },
        }
    }
}

} // verus!
