use vstd::prelude::*;

pub mod smtlib;

pub use smtlib::{SmtLibCircuit, SmtLibWriter, SmtOutcome};

verus! {

#[derive(Clone, Copy, Debug, PartialEq, Eq, Structural)]
pub enum Outcome {
    /// Indicates a given condition holds for all interpretations.
    Valid,
    /// Indicates a given condition does not hold for all
    /// interpretations (ideally it would include a counter-example).
    Invalid,
    /// Unknown outcome (e.g. because of a timeout).
    Unknown,
}

/// How many of `os` are `o`.
pub open spec fn count_of(os: Seq<Outcome>, o: Outcome) -> nat
    decreases os.len(),
{
    if os.len() == 0 {
        0
    } else {
        count_of(os.drop_last(), o) + if os.last() == o {
            1nat
        } else {
            0nat
        }
    }
}

proof fn lemma_count_of_bound(os: Seq<Outcome>)
    ensures
        count_of(os, Outcome::Valid) + count_of(os, Outcome::Invalid) + count_of(os, Outcome::Unknown)
            == os.len(),
    decreases os.len(),
{
    if os.len() > 0 {
        lemma_count_of_bound(os.drop_last());
    }
}

/// The number of valid, invalid and unknown outcomes, in that order.
pub fn tally(outcomes: &Vec<Outcome>) -> (r: (usize, usize, usize))
    ensures
        r.0 == count_of(outcomes@, Outcome::Valid),
        r.1 == count_of(outcomes@, Outcome::Invalid),
        r.2 == count_of(outcomes@, Outcome::Unknown),
{
    let mut valid: usize = 0;
    let mut invalid: usize = 0;
    let mut unknown: usize = 0;
    let mut i: usize = 0;
    while i < outcomes.len()
        invariant
            i <= outcomes@.len(),
            valid == count_of(outcomes@.subrange(0, i as int), Outcome::Valid),
            invalid == count_of(outcomes@.subrange(0, i as int), Outcome::Invalid),
            unknown == count_of(outcomes@.subrange(0, i as int), Outcome::Unknown),
        decreases outcomes@.len() - i,
    {
        let ghost next = outcomes@.subrange(0, i + 1);
        assert(next.drop_last() =~= outcomes@.subrange(0, i as int));
        proof {
            lemma_count_of_bound(next);
        }
        match outcomes[i] {
            Outcome::Valid => valid += 1,
            Outcome::Invalid => invalid += 1,
            Outcome::Unknown => unknown += 1,
        }
        i += 1;
    }
    assert(outcomes@.subrange(0, i as int) =~= outcomes@);
    (valid, invalid, unknown)
}

/// The two sorts that circuit terms can have.
#[derive(Clone, Copy, Debug, PartialEq, Eq, Structural)]
pub enum Kind {
    Bool,
    Int,
}

/// The primitive operators of the logic.
pub enum LogicOp {
    Eq,
    Neq,
    Add,
    Sub,
    Mul,
    Div,
    Mod,
    Gt,
    GtEq,
    Lt,
    LtEq,
    Or,
    And,
    Implies,
    Not,
    IfThenElse,
}

/// The logical meaning of a circuit term, independent of any backend.
pub enum Formula {
    BoolLit(bool),
    IntLit(nat),
    Var(Seq<char>),
    App(LogicOp, Seq<Formula>),
    Call(Seq<char>, Seq<Formula>),
}

/// What a circuit has declared: the sort of each variable, and the parameter
/// sorts and return sort of each function symbol.
pub struct Signature {
    pub vars: Map<Seq<char>, Kind>,
    pub funs: Map<Seq<char>, (Seq<Kind>, Kind)>,
}

pub open spec fn app1(op: LogicOp, a: Formula) -> Formula {
    Formula::App(op, seq![a])
}

pub open spec fn app2(op: LogicOp, a: Formula, b: Formula) -> Formula {
    Formula::App(op, seq![a, b])
}

pub open spec fn app3(op: LogicOp, a: Formula, b: Formula, c: Formula) -> Formula {
    Formula::App(op, seq![a, b, c])
}

/// The sort of a formula under the declarations of `sig`, or `None` where
/// some operator is applied to arguments of the wrong sort or number.
pub open spec fn sort_of(f: Formula, sig: Signature) -> Option<Kind>
    decreases f,
{
    match f {
        Formula::BoolLit(_) => Some(Kind::Bool),
        Formula::IntLit(_) => Some(Kind::Int),
        Formula::Var(n) => if sig.vars.contains_key(n) {
            Some(sig.vars[n])
        } else {
            None
        },
        Formula::App(op, args) => {
            if args.len() == 1 {
                let a = sort_of(args[0], sig);
                match op {
                    LogicOp::Not => if a == Some(Kind::Bool) {
                        Some(Kind::Bool)
                    } else {
                        None
                    },
                    LogicOp::Sub => if a == Some(Kind::Int) {
                        Some(Kind::Int)
                    } else {
                        None
                    },
                    _ => None,
                }
            } else if args.len() == 2 {
                let a = sort_of(args[0], sig);
                let b = sort_of(args[1], sig);
                match op {
                    LogicOp::Eq | LogicOp::Neq => if a is Some && a == b {
                        Some(Kind::Bool)
                    } else {
                        None
                    },
                    LogicOp::Add | LogicOp::Sub | LogicOp::Mul | LogicOp::Div | LogicOp::Mod => if a
                        == Some(Kind::Int) && b == Some(Kind::Int) {
                        Some(Kind::Int)
                    } else {
                        None
                    },
                    LogicOp::Gt | LogicOp::GtEq | LogicOp::Lt | LogicOp::LtEq => if a == Some(
                        Kind::Int,
                    ) && b == Some(Kind::Int) {
                        Some(Kind::Bool)
                    } else {
                        None
                    },
                    LogicOp::Or | LogicOp::And | LogicOp::Implies => if a == Some(Kind::Bool) && b
                        == Some(Kind::Bool) {
                        Some(Kind::Bool)
                    } else {
                        None
                    },
                    _ => None,
                }
            } else if args.len() == 3 {
                let c = sort_of(args[0], sig);
                let a = sort_of(args[1], sig);
                let b = sort_of(args[2], sig);
                match op {
                    LogicOp::IfThenElse => if c == Some(Kind::Bool) && a is Some && a == b {
                        a
                    } else {
                        None
                    },
                    _ => None,
                }
            } else {
                None
            }
        },
        Formula::Call(n, args) => {
            if sig.funs.contains_key(n) && args.len() == sig.funs[n].0.len() && (forall|k: int|
                0 <= k < args.len() ==> sort_of(#[trigger] args[k], sig) == Some(sig.funs[n].0[k])) {
                Some(sig.funs[n].1)
            } else {
                None
            }
        },
    }
}

/// Anything that denotes a formula of the logic.
pub trait Logical: Sized {
    spec fn formula(&self) -> Formula;

    /// A second term with the same meaning.
    fn duplicate(&self) -> (r: Self)
        ensures
            r.formula() == self.formula(),
    ;
}

/// A circuit represents an encoding of information using logical or
/// arithmetic primitives.
pub trait Circuit: Sized {
    /// Represents a fundamental type within the circuit.
    type Type: Type;
    type Term: Any<Bool = Self::Bool>;
    type Bool: Bool<Any = Self::Term>;
    type Int: Int<Any = Self::Term, Bool = Self::Bool>;
    /// Represents a function declaration within the circuit.
    type Function: Function<Any = Self::Term>;

    /// The variables and function symbols declared so far.
    spec fn signature(&self) -> Signature;

    /// The conditions asserted so far, in order.
    spec fn obligations(&self) -> Seq<Formula>;

    /// Declare a boolean variable
    fn declare_bool(&mut self, name: &str) -> (r: Self::Bool)
        ensures
            r.formula() == Formula::Var(name@),
            final(self).signature() == (Signature {
                vars: old(self).signature().vars.insert(name@, Kind::Bool),
                ..old(self).signature()
            }),
            final(self).obligations() == old(self).obligations(),
    ;

    /// Declare an integer variable
    fn declare_int(&mut self, name: &str) -> (r: Self::Int)
        ensures
            r.formula() == Formula::Var(name@),
            final(self).signature() == (Signature {
                vars: old(self).signature().vars.insert(name@, Kind::Int),
                ..old(self).signature()
            }),
            final(self).obligations() == old(self).obligations(),
    ;

    /// Declare an (uninterpreted) function with exactly one return sort.
    fn declare_fn(&mut self, name: &str, params: &[Self::Type], rets: &[Self::Type]) -> (r:
        Self::Function)
        requires
            rets@.len() == 1,
        ensures
            r.symbol() == name@,
            final(self).signature() == (Signature {
                funs: old(self).signature().funs.insert(
                    name@,
                    (params@.map_values(|t: Self::Type| t.kind()), rets@[0].kind()),
                ),
                ..old(self).signature()
            }),
            final(self).obligations() == old(self).obligations(),
    ;

    /// Construct a boolean term from a boolean value.
    fn from_bool(&self, val: bool) -> (r: Self::Bool)
        ensures
            r.formula() == Formula::BoolLit(val),
    ;

    /// Construct an integer term from an unsigned value.
    fn from_usize(&self, val: usize) -> (r: Self::Int)
        ensures
            r.formula() == Formula::IntLit(val as nat),
    ;

    /// Construct a boolean type
    fn bool_type(&self) -> (r: Self::Type)
        ensures
            r.kind() == Kind::Bool,
    ;

    /// Construct an integer type
    fn int_type(&self) -> (r: Self::Type)
        ensures
            r.kind() == Kind::Int,
    ;

    /// Assert that a specific `condition` must be true for all
    /// possible interpretations of the circuit.  In effect, this
    /// places a constraint on the circuit that the given condition
    /// holds.
    fn assert_condition(&mut self, condition: Self::Bool)
        ensures
            final(self).obligations() == old(self).obligations().push(condition.formula()),
            final(self).signature() == old(self).signature(),
    ;
}

pub trait Any: Logical {
    type Bool: Logical;

    fn eq(&self, other: &Self) -> (r: Self::Bool)
        ensures
            r.formula() == app2(LogicOp::Eq, self.formula(), other.formula()),
    ;

    fn neq(&self, other: &Self) -> (r: Self::Bool)
        ensures
            r.formula() == app2(LogicOp::Neq, self.formula(), other.formula()),
    ;
}

pub trait Bool: Logical {
    type Any: Logical;

    /// Construct a `Bool` from arbitrary term.
    fn from_any(any: &Self::Any) -> (r: Self)
        ensures
            r.formula() == any.formula(),
    ;

    /// Convert a `bool` into an arbitrary term.
    fn to_any(&self) -> (r: Self::Any)
        ensures
            r.formula() == self.formula(),
    ;

    fn not(&self) -> (r: Self)
        ensures
            r.formula() == app1(LogicOp::Not, self.formula()),
    ;

    fn and(&self, other: &Self) -> (r: Self)
        ensures
            r.formula() == app2(LogicOp::And, self.formula(), other.formula()),
    ;

    fn or(&self, other: &Self) -> (r: Self)
        ensures
            r.formula() == app2(LogicOp::Or, self.formula(), other.formula()),
    ;

    fn implies(&self, other: &Self) -> (r: Self)
        ensures
            r.formula() == app2(LogicOp::Implies, self.formula(), other.formula()),
    ;

    fn ite(&self, lhs: &Self::Any, rhs: &Self::Any) -> (r: Self::Any)
        ensures
            r.formula() == app3(LogicOp::IfThenElse, self.formula(), lhs.formula(), rhs.formula()),
    ;
}

pub trait Int: Logical {
    type Any: Logical;
    type Bool: Logical;

    /// Construct an `Int` from arbitrary term.
    fn from_any(any: &Self::Any) -> (r: Self)
        ensures
            r.formula() == any.formula(),
    ;

    /// Convert an `int` into an arbitrary term.
    fn to_any(&self) -> (r: Self::Any)
        ensures
            r.formula() == self.formula(),
    ;

    fn non_zero(&self) -> (r: Self::Bool)
        ensures
            r.formula() == app2(LogicOp::Neq, self.formula(), Formula::IntLit(0)),
    ;

    fn lt(&self, other: &Self) -> (r: Self::Bool)
        ensures
            r.formula() == app2(LogicOp::Lt, self.formula(), other.formula()),
    ;

    fn lteq(&self, other: &Self) -> (r: Self::Bool)
        ensures
            r.formula() == app2(LogicOp::LtEq, self.formula(), other.formula()),
    ;

    fn gt(&self, other: &Self) -> (r: Self::Bool)
        ensures
            r.formula() == app2(LogicOp::Gt, self.formula(), other.formula()),
    ;

    fn gteq(&self, other: &Self) -> (r: Self::Bool)
        ensures
            r.formula() == app2(LogicOp::GtEq, self.formula(), other.formula()),
    ;

    fn neg(&self) -> (r: Self)
        ensures
            r.formula() == app1(LogicOp::Sub, self.formula()),
    ;

    fn add(&self, other: &Self) -> (r: Self)
        ensures
            r.formula() == app2(LogicOp::Add, self.formula(), other.formula()),
    ;

    fn sub(&self, other: &Self) -> (r: Self)
        ensures
            r.formula() == app2(LogicOp::Sub, self.formula(), other.formula()),
    ;

    fn div(&self, other: &Self) -> (r: Self)
        ensures
            r.formula() == app2(LogicOp::Div, self.formula(), other.formula()),
    ;

    fn mul(&self, other: &Self) -> (r: Self)
        ensures
            r.formula() == app2(LogicOp::Mul, self.formula(), other.formula()),
    ;

    fn rem(&self, other: &Self) -> (r: Self)
        ensures
            r.formula() == app2(LogicOp::Mod, self.formula(), other.formula()),
    ;
}

pub trait Type: Sized {
    spec fn kind(&self) -> Kind;
}

pub trait Function {
    type Any: Logical;

    /// The symbol this function was declared under.
    spec fn symbol(&self) -> Seq<char>;

    /// Get the name of this function.
    fn name(&self) -> (r: String)
        ensures
            r@ == self.symbol(),
    ;

    /// Construct a term representing an invocation of this function
    /// with the given arguments.
    fn invoke(&self, args: &[Self::Any]) -> (r: Self::Any)
        ensures
            r.formula() == Formula::Call(
                self.symbol(),
                args@.map_values(|a: Self::Any| a.formula()),
            ),
    ;
}

} // verus!
