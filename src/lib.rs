pub mod ast;
pub mod chars;
pub mod interning;
pub mod lexer;
pub mod literals;
pub mod parsing;
pub mod pretty_printing;

pub use interning::{InternedStr, Interner};
