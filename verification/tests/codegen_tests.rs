use coral::codegen::types::{infer_to_llvm_type, LLVMType};
use coral::codegen::CodegenError;
use coral::resolver::types::{EffectSet, InferType};

#[test]
fn llvm_types_render() {
    let t = LLVMType::Function { ret: Box::new(LLVMType::Void), params: vec![LLVMType::Int(32), LLVMType::Double] };
    assert_eq!(t.to_string(), "void (i32, double)");
    let s = LLVMType::Struct(vec![LLVMType::Int(1), LLVMType::Pointer(Box::new(LLVMType::Int(8)))]);
    assert_eq!(s.to_string(), "{ i1, i8* }");
}

#[test]
fn inference_types_lower_to_llvm() {
    assert_eq!(infer_to_llvm_type(&InferType::List(Box::new(InferType::Int))).to_string(), "%list.i64*");
    let m = InferType::MapOf(Box::new(InferType::String), Box::new(InferType::Bool));
    assert_eq!(infer_to_llvm_type(&m).to_string(), "%map.%string.i1*");
    let f = InferType::Function { params: vec![InferType::Float], return_type: Box::new(InferType::Unit), effects: EffectSet::pure() };
    assert_eq!(infer_to_llvm_type(&f), LLVMType::Pointer(Box::new(LLVMType::Function { ret: Box::new(LLVMType::Void), params: vec![LLVMType::Double] })));
    assert_eq!(infer_to_llvm_type(&InferType::Unknown).to_string(), "i8*");
}

#[test]
fn error_messages() {
    assert_eq!(CodegenError::UndefinedVariable("x".to_string()).message(), "Undefined variable: x");
    assert_eq!(CodegenError::MemoryAllocationFailed.message(), "Memory allocation failed");
}
