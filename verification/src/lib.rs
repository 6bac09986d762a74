pub mod ast;
pub mod bytecode;
pub mod error;
pub mod parser;
pub mod renamer;
pub mod text;
pub mod tokenizer;
pub mod typechecker;
pub mod vm;
