pub mod types;
pub mod error;
pub mod subst;
pub mod env;
pub mod unification;
pub mod solve;
pub mod inference;
pub mod convert;
pub mod infer_spec;
pub mod infer;
pub mod program;
pub mod inference_laws;

use vstd::prelude::*;
use self::types::{Constraint, InferType, TypeVarGen};
use self::env::TypeEnv;

verus! {

/// The type resolver: a source of fresh variables, the constraints gathered so far, the
/// environment of names, and the named types it knows.
pub struct TypeResolver {
    pub var_gen: TypeVarGen,
    pub constraints: Vec<Constraint>,
    pub env: TypeEnv,
    pub builtin_types: Vec<(String, InferType)>,
    pub object_definitions: Vec<(String, InferType)>,
    pub store_types: Vec<(String, InferType)>,
    pub actor_types: Vec<(String, InferType)>,
}

/// Everything but the fresh-variable counter is as it was.
pub open spec fn same_but_counter(a: TypeResolver, b: TypeResolver) -> bool {
    &&& a.constraints == b.constraints
    &&& a.env == b.env
    &&& a.builtin_types == b.builtin_types
    &&& a.object_definitions == b.object_definitions
    &&& a.store_types == b.store_types
    &&& a.actor_types == b.actor_types
}

} // verus!
