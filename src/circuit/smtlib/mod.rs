pub mod ast;
pub mod circuit;
pub mod printer;
pub mod reader;
pub mod solver;

pub use ast::{Command, Expr, Function, Op, Sort};
pub use circuit::SmtLibCircuit;
pub use printer::SmtLibWriter;
pub use solver::SmtOutcome;
