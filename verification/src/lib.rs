//! A compiler-and-virtual-machine pipeline for a small dynamically typed
//! scripting language: source text is tokenized, parsed into an expression
//! and statement tree, lowered into flat bytecode with a constant pool, and
//! executed by a stack-based interpreter over a tagged runtime value.

pub mod ast;
pub mod compiler;
pub mod error;
pub mod lex;
pub mod parse;
pub mod text;
pub mod value;
pub mod vm;

pub use error::Error;
pub use lex::Lexer;
pub use parse::Parser;
pub use value::Value;
