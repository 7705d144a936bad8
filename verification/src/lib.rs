pub mod error;
pub mod lox;
pub mod parser;
pub mod scanner;
pub mod token;
