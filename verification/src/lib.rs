pub mod text;
pub mod assoc;
pub mod ast;
pub mod token;
pub mod lexer;
pub mod resolver;
pub mod codegen;
pub mod semantic;
pub mod analysis;
pub mod lsp;
pub mod parser;
