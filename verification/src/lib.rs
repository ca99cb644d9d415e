pub mod ast;
pub mod code;
pub mod compiler;
pub mod data;
pub mod engine;
pub mod error;
pub mod float;
pub mod heap;
pub mod lexer;
pub mod module;
pub mod parser;
pub mod prelude;
pub mod semck;
pub mod span;
pub mod token;
