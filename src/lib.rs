//! A small-language front end: a byte-level lexer producing spanned tokens,
//! a spanned syntax tree, a precedence-climbing parser with structured
//! errors, a printer, and a tree-walking evaluator, each stated against a
//! mathematical model and proved to meet it.

pub mod ast;
pub mod diagnostic;
mod foreign;
pub mod interpreter;
pub mod lexer;
pub mod parser;
pub mod printer;
pub mod round_trip;
pub mod span;
pub mod token;
pub mod visit;

pub use interpreter::{Interpreter, RuntimeError, Value, ValueKind};
pub use lexer::{tokenize, LexError, Lexer, TokenStream};
pub use parser::{Parser, SyntaxError};
pub use printer::print_expr;
pub use span::{Span, Spanned};
pub use token::{Token, TokenType};
