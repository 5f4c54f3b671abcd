pub mod text;
pub mod strmap;
pub mod ast;
pub mod read;
pub mod tokenizer;
pub mod optimize;
pub mod cg;
pub mod parser;
pub mod log;
pub mod files;
pub mod lexer;
