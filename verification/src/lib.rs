//! Lexical and type-dispatch core of an embedded command language:
//! a maximal-munch tokenizer, a per-type method and operator registry with
//! declared-order dispatch arms, and a structural codec between runtime
//! values and a generic interchange tree.

pub mod binary_op;
pub mod duration;
pub mod errors;
pub mod float;
pub mod json;
pub mod lexer;
pub mod registry;
pub mod string;
pub mod value;

pub use lexer::Lexer;
pub use lexer::TokenType;
