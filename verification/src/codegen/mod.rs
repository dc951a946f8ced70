pub mod types;
pub mod symbols;
pub mod gen_spec;
pub mod llvm;
pub mod laws;

use vstd::prelude::*;
use crate::ast::{Type};

verus! {

/// Why IR generation failed.
#[derive(Debug)]
pub enum CodegenError {
    TypeResolutionFailed(String),
    UnsupportedFeature(String),
    UndefinedFunction(String),
    UndefinedVariable(String),
    InvalidOperation(String),
    MemoryAllocationFailed,
    LLVMError(String),
}

/// The mathematical model of a `CodegenError`.
pub enum CodegenErrorView {
    TypeResolutionFailed(Seq<char>),
    UnsupportedFeature(Seq<char>),
    UndefinedFunction(Seq<char>),
    UndefinedVariable(Seq<char>),
    InvalidOperation(Seq<char>),
    MemoryAllocationFailed,
    LLVMError(Seq<char>),
}

impl View for CodegenError {
    type V = CodegenErrorView;

    open spec fn view(&self) -> CodegenErrorView {
        match *self {
            CodegenError::TypeResolutionFailed(m) => CodegenErrorView::TypeResolutionFailed(m@),
            CodegenError::UnsupportedFeature(f) => CodegenErrorView::UnsupportedFeature(f@),
            CodegenError::UndefinedFunction(n) => CodegenErrorView::UndefinedFunction(n@),
            CodegenError::UndefinedVariable(n) => CodegenErrorView::UndefinedVariable(n@),
            CodegenError::InvalidOperation(m) => CodegenErrorView::InvalidOperation(m@),
            CodegenError::MemoryAllocationFailed => CodegenErrorView::MemoryAllocationFailed,
            CodegenError::LLVMError(m) => CodegenErrorView::LLVMError(m@),
        }
    }
}

/// The message of an error, as it is shown to the user.
pub open spec fn codegen_error_text(e: CodegenError) -> Seq<char> {
    match e {
        CodegenError::TypeResolutionFailed(m) => "Type resolution failed: "@ + m@,
        CodegenError::UnsupportedFeature(f) => "Unsupported feature: "@ + f@,
        CodegenError::UndefinedFunction(n) => "Undefined function: "@ + n@,
        CodegenError::UndefinedVariable(n) => "Undefined variable: "@ + n@,
        CodegenError::InvalidOperation(m) => "Invalid operation: "@ + m@,
        CodegenError::MemoryAllocationFailed => "Memory allocation failed"@,
        CodegenError::LLVMError(m) => "LLVM error: "@ + m@,
    }
}

fn prefixed(prefix: &str, s: &String) -> (r: String)
    ensures
        r@ == prefix@ + s@,
{
    let mut r = String::from_str(prefix);
    r.append(s.as_str());
    r
}

impl CodegenError {
    /// The message of the error.
    pub fn message(&self) -> (r: String)
        ensures
            r@ == codegen_error_text(*self),
    {
        match self {
            CodegenError::TypeResolutionFailed(m) => prefixed("Type resolution failed: ", m),
            CodegenError::UnsupportedFeature(f) => prefixed("Unsupported feature: ", f),
            CodegenError::UndefinedFunction(n) => prefixed("Undefined function: ", n),
            CodegenError::UndefinedVariable(n) => prefixed("Undefined variable: ", n),
            CodegenError::InvalidOperation(m) => prefixed("Invalid operation: ", m),
            CodegenError::MemoryAllocationFailed => String::from_str("Memory allocation failed"),
            CodegenError::LLVMError(m) => prefixed("LLVM error: ", m),
        }
    }
}

} // verus!
