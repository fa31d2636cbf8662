use vstd::prelude::*;
use crate::circuit::{Formula, Kind, LogicOp};

verus! {

/// Set of built-in operators
#[derive(Clone, Copy, Debug, PartialEq, Eq, Structural)]
pub enum Op {
    Eq,
    Neq,
    // Arithmetical
    Add,
    Sub,
    Mul,
    Div,
    Mod,
    // Relational
    Gt,
    GtEq,
    Lt,
    LtEq,
    // Logical
    Or,
    And,
    Implies,
    Not,
    // Other
    IfThenElse,
}

/// The logical operator that an SMT-LIB operator stands for.
pub open spec fn logic_op(op: Op) -> LogicOp {
    match op {
        Op::Eq => LogicOp::Eq,
        Op::Neq => LogicOp::Neq,
        Op::Add => LogicOp::Add,
        Op::Sub => LogicOp::Sub,
        Op::Mul => LogicOp::Mul,
        Op::Div => LogicOp::Div,
        Op::Mod => LogicOp::Mod,
        Op::Gt => LogicOp::Gt,
        Op::GtEq => LogicOp::GtEq,
        Op::Lt => LogicOp::Lt,
        Op::LtEq => LogicOp::LtEq,
        Op::Or => LogicOp::Or,
        Op::And => LogicOp::And,
        Op::Implies => LogicOp::Implies,
        Op::Not => LogicOp::Not,
        Op::IfThenElse => LogicOp::IfThenElse,
    }
}

/// The SMT-LIB spelling of each operator.
pub open spec fn op_text(op: Op) -> Seq<char> {
    match op {
        Op::Eq => "="@,
        Op::Neq => "distinct"@,
        Op::Add => "+"@,
        Op::Sub => "-"@,
        Op::Mul => "*"@,
        Op::Div => "div"@,
        Op::Mod => "mod"@,
        Op::Gt => ">"@,
        Op::GtEq => ">="@,
        Op::Lt => "<"@,
        Op::LtEq => "<="@,
        Op::Or => "or"@,
        Op::And => "and"@,
        Op::Implies => "=>"@,
        Op::Not => "not"@,
        Op::IfThenElse => "ite"@,
    }
}

impl Op {
    /// Determine how many arguments are expected (`usize::MAX` for the
    /// operators that take two or more).
    pub fn arity(&self) -> (r: usize)
        ensures
            r == match *self {
                Op::IfThenElse => 3,
                Op::Not => 1,
                _ => usize::MAX,
            },
    {
        match self {
            Op::IfThenElse => 3,
            Op::Not => 1,
            _ => usize::MAX,
        }
    }

    /// Get the string representation of this operator.
    pub fn as_str(&self) -> (r: &'static str)
        ensures
            r@ == op_text(*self),
    {
        match self {
            Op::Eq => "=",
            Op::Neq => "distinct",
            Op::Add => "+",
            Op::Sub => "-",
            Op::Mul => "*",
            Op::Div => "div",
            Op::Mod => "mod",
            Op::Gt => ">",
            Op::GtEq => ">=",
            Op::Lt => "<",
            Op::LtEq => "<=",
            Op::Or => "or",
            Op::And => "and",
            Op::Implies => "=>",
            Op::Not => "not",
            Op::IfThenElse => "ite",
        }
    }
}

#[derive(Debug, PartialEq)]
pub enum Expr {
    /// Int Literal
    Integer(usize),
    /// Boolean Literal
    Boolean(bool),
    /// Nary Expression
    Operator(Op, Vec<Expr>),
    /// Variable Access
    VarAccess(String),
    /// Application of a declared function symbol
    Invoke(String, Vec<Expr>),
}

/// The formula that an expression denotes.
pub open spec fn expr_formula(e: Expr) -> Formula
    decreases e,
{
    match e {
        Expr::Integer(i) => Formula::IntLit(i as nat),
        Expr::Boolean(b) => Formula::BoolLit(b),
        Expr::Operator(op, args) => Formula::App(logic_op(op), exprs_formula(args@)),
        Expr::VarAccess(n) => Formula::Var(n@),
        Expr::Invoke(n, args) => Formula::Call(n@, exprs_formula(args@)),
    }
}

/// The formulas of a sequence of expressions, one for one.
pub open spec fn exprs_formula(es: Seq<Expr>) -> Seq<Formula>
    decreases es,
{
    if es.len() == 0 {
        seq![]
    } else {
        exprs_formula(es.drop_last()).push(expr_formula(es.last()))
    }
}

pub proof fn lemma_exprs_formula(es: Seq<Expr>)
    ensures
        exprs_formula(es).len() == es.len(),
        forall|k: int| 0 <= k < es.len() ==> #[trigger] exprs_formula(es)[k] == expr_formula(es[k]),
    decreases es.len(),
{
    if es.len() > 0 {
        lemma_exprs_formula(es.drop_last());
    }
}

/// Two sequences of expressions with the same formulas, one for one.
pub proof fn lemma_exprs_formula_ext(a: Seq<Expr>, b: Seq<Expr>)
    requires
        a.len() == b.len(),
        forall|k: int| 0 <= k < a.len() ==> expr_formula(#[trigger] a[k]) == expr_formula(b[k]),
    ensures
        exprs_formula(a) == exprs_formula(b),
{
    lemma_exprs_formula(a);
    lemma_exprs_formula(b);
    assert(exprs_formula(a) =~= exprs_formula(b));
}

impl Expr {
    /// An independent copy of this expression.
    pub fn copy(&self) -> (r: Expr)
        ensures
            expr_formula(r) == expr_formula(*self),
        decreases *self,
    {
        match self {
            Expr::Integer(i) => Expr::Integer(*i),
            Expr::Boolean(b) => Expr::Boolean(*b),
            Expr::VarAccess(n) => Expr::VarAccess(n.clone()),
            Expr::Operator(op, args) => Expr::Operator(*op, copy_exprs(args)),
            Expr::Invoke(n, args) => Expr::Invoke(n.clone(), copy_exprs(args)),
        }
    }
}

impl Clone for Expr {
    fn clone(&self) -> (r: Expr)
        ensures
            expr_formula(r) == expr_formula(*self),
    {
        self.copy()
    }
}

/// Copies of a sequence of expressions.
pub fn copy_exprs(args: &Vec<Expr>) -> (r: Vec<Expr>)
    ensures
        exprs_formula(r@) == exprs_formula(args@),
    decreases args,
{
    let mut r: Vec<Expr> = Vec::new();
    let mut i: usize = 0;
    while i < args.len()
        invariant
            i <= args@.len(),
            r@.len() == i,
            forall|k: int| 0 <= k < i ==> expr_formula(#[trigger] r@[k]) == expr_formula(args@[k]),
        decreases args@.len() - i,
    {
        assert(decreases_to!(args => args@[i as int]));
        r.push(args[i].copy());
        i += 1;
    }
    proof {
        lemma_exprs_formula_ext(r@, args@);
    }
    r
}

#[derive(Clone, Copy, Debug, PartialEq, Eq, Structural)]
pub enum Sort {
    Bool,
    Int,
}

/// The sort of the logic that an SMT-LIB sort names.
pub open spec fn sort_kind(s: Sort) -> Kind {
    match s {
        Sort::Bool => Kind::Bool,
        Sort::Int => Kind::Int,
    }
}

pub enum Command {
    DeclareFun(String, Vec<Sort>, Sort),
    DeclareVar(String, Sort),
    Assert(Expr),
    CheckSat,
}

pub struct Function {
    pub name: String,
    pub arity: usize,
}

} // verus!
