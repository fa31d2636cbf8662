//! A small verifying compiler core: an append-only arena of syntax terms, a
//! verification-condition generator that tracks path conditions through
//! short-circuiting operators, and a backend-agnostic circuit interface with
//! an SMT-LIB backend whose obligations an external solver decides.

use vstd::prelude::*;

pub mod ast;
pub mod circuit;
pub mod grammar;
pub mod codegen;
pub mod lexer;
pub mod parser;
pub mod text;
pub mod verification;

pub use ast::{BinOp, Function, SyntacticHeap, SyntacticRef, Term};
pub use codegen::RustPrinter;
pub use lexer::{Lexer, Token, TokenType};
pub use parser::Parser;
pub use verification::{Environment, Translator, Verifier, VerifierError};

verus! {

} // verus!
