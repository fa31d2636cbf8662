use vstd::prelude::*;
use crate::circuit;
use crate::circuit::{Formula, Kind, LogicOp, Outcome, Signature, app1, app2, app3};
use super::ast::{Command, Expr, Function, Op, Sort, expr_formula, exprs_formula, sort_kind,
    lemma_exprs_formula, copy_exprs};
use super::printer::{SmtLibWriter, commands_text, lemma_commands_text_push};
use super::solver::SmtOutcome;

verus! {

// =============================================================================
// Specification of recorded commands
// =============================================================================

/// The declarations that a sequence of commands makes.
pub open spec fn commands_signature(cs: Seq<Command>) -> Signature
    decreases cs.len(),
{
    if cs.len() == 0 {
        Signature { vars: Map::empty(), funs: Map::empty() }
    } else {
        let s = commands_signature(cs.drop_last());
        match cs.last() {
            Command::DeclareVar(n, t) => Signature { vars: s.vars.insert(n@, sort_kind(t)), ..s },
            Command::DeclareFun(n, ps, r) => Signature {
                funs: s.funs.insert(n@, (ps@.map_values(|p: Sort| sort_kind(p)), sort_kind(r))),
                ..s
            },
            _ => s,
        }
    }
}

/// The claim behind a recorded assertion, which holds its negation.
pub open spec fn asserted_claim(e: Expr) -> Formula {
    match e {
        Expr::Operator(Op::Not, args) => if args@.len() == 1 {
            expr_formula(args@[0])
        } else {
            expr_formula(e)
        },
        _ => expr_formula(e),
    }
}

/// The claims that a sequence of commands asserts, in order.
pub open spec fn commands_obligations(cs: Seq<Command>) -> Seq<Formula>
    decreases cs.len(),
{
    if cs.len() == 0 {
        seq![]
    } else {
        let s = commands_obligations(cs.drop_last());
        match cs.last() {
            Command::Assert(e) => s.push(asserted_claim(e)),
            _ => s,
        }
    }
}

/// The commands sent to the solver for the `ith` obligation: the declarations
/// made before it, then the assertion of its negation.
pub open spec fn transcript_commands(cs: Seq<Command>, ith: int) -> Seq<Command>
    decreases cs.len(),
{
    if cs.len() == 0 {
        seq![]
    } else {
        let prev = transcript_commands(cs.drop_last(), ith);
        let n = commands_obligations(cs.drop_last()).len();
        match cs.last() {
            Command::Assert(_) => if n == ith {
                prev.push(cs.last())
            } else {
                prev
            },
            Command::CheckSat => prev,
            _ => if n <= ith {
                prev.push(cs.last())
            } else {
                prev
            },
        }
    }
}

/// What a solver answer says of the obligation whose negation it was asked
/// about.
pub open spec fn outcome_of(o: SmtOutcome) -> Outcome {
    match o {
        SmtOutcome::Sat => Outcome::Invalid,
        SmtOutcome::Unsat => Outcome::Valid,
        SmtOutcome::Maybe => Outcome::Unknown,
    }
}

/// Obligations are counted per assertion and kept in order: recording an
/// assertion appends exactly its claim, and any other command leaves the
/// obligations as they were. With the contract of `outcomes`, a check
/// gives exactly one outcome per assertion, in the order of the assertions.
pub proof fn lemma_one_obligation_per_assertion(cs: Seq<Command>, c: Command)
    ensures
        commands_obligations(cs.push(c)) == match c {
            Command::Assert(e) => commands_obligations(cs).push(asserted_claim(e)),
            _ => commands_obligations(cs),
        },
{
    assert(cs.push(c).drop_last() =~= cs);
}

// =============================================================================
// SmtLib Circuit
// =============================================================================

/// A circuit that records SMT-LIB commands, to be discharged by an external
/// solver.
pub struct SmtLibCircuit {
    /// Declarations and asserted verification conditions, in order.
    commands: Vec<Command>,
}

impl View for SmtLibCircuit {
    type V = Seq<Command>;

    closed spec fn view(&self) -> Seq<Command> {
        self.commands@
    }
}

impl SmtLibCircuit {
    pub fn new() -> (r: Self)
        ensures
            r@ == Seq::<Command>::empty(),
    {
        Self { commands: Vec::new() }
    }

    /// Record the negation of `condition`: the solver is asked whether it
    /// can be satisfied.
    pub fn discharge(&mut self, condition: Expr)
        ensures
            final(self)@.len() == old(self)@.len() + 1,
            final(self)@.drop_last() == old(self)@,
            match final(self)@.last() {
                Command::Assert(Expr::Operator(Op::Not, args)) => args@ == seq![condition],
                _ => false,
            },
    {
        let r = Expr::Operator(Op::Not, vec![condition]);
        self.commands.push(Command::Assert(r));
        assert(self@.drop_last() =~= old(self)@);
    }

    /// The number of obligations asserted so far.
    pub fn len(&self) -> (r: usize)
        ensures
            r == commands_obligations(self@).len(),
    {
        let mut n: usize = 0;
        let mut i: usize = 0;
        while i < self.commands.len()
            invariant
                i <= self@.len(),
                n == commands_obligations(self@.subrange(0, i as int)).len(),
                n <= i,
            decreases self@.len() - i,
        {
            assert(self@.subrange(0, i + 1).drop_last() =~= self@.subrange(0, i as int));
            if let Command::Assert(_) = &self.commands[i] {
                n += 1;
            }
            i += 1;
        }
        assert(self@.subrange(0, i as int) =~= self@);
        n
    }

    /// The SMT-LIB text that asks the solver about the `ith` obligation:
    /// the declarations made before it, the assertion of its negation, and
    /// a trailing `(check-sat)`. Each obligation is checked on its own.
    pub fn transcript(&self, ith: usize) -> (r: String)
        ensures
            r@ == commands_text(transcript_commands(self@, ith as int)) + "(check-sat)\n"@,
    {
        let mut w = SmtLibWriter::new();
        let mut n: usize = 0;
        let mut i: usize = 0;
        while i < self.commands.len()
            invariant
                i <= self@.len(),
                n == commands_obligations(self@.subrange(0, i as int)).len(),
                n <= i,
                w@ == commands_text(transcript_commands(self@.subrange(0, i as int), ith as int)),
            decreases self@.len() - i,
        {
            let ghost pre = self@.subrange(0, i as int);
            assert(self@.subrange(0, i + 1).drop_last() =~= pre);
            assert(self@.subrange(0, i + 1).last() == self@[i as int]);
            let cmd = &self.commands[i];
            proof {
                lemma_commands_text_push(
                    transcript_commands(pre, ith as int),
                    self@[i as int],
                );
            }
            match cmd {
                Command::Assert(_) => {
                    if n == ith {
                        w.write_command(cmd);
                    }
                    n += 1;
                },
                Command::CheckSat => {},
                _ => {
                    if n <= ith {
                        w.write_command(cmd);
                    }
                },
            }
            i += 1;
        }
        assert(self@.subrange(0, i as int) =~= self@);
        w.write_command(&Command::CheckSat);
        w.done()
    }

    /// The outcome of each obligation, in the order they were asserted,
    /// given the solver's answer to each transcript. Obligations that got no
    /// answer (the solver failed or stopped early) are `Unknown`.
    pub fn outcomes(&self, answers: &Vec<SmtOutcome>) -> (r: Vec<Outcome>)
        ensures
            r@.len() == commands_obligations(self@).len(),
            forall|i: int|
                0 <= i < r@.len() ==> #[trigger] r@[i] == if i < answers@.len() {
                    outcome_of(answers@[i])
                } else {
                    Outcome::Unknown
                },
    {
        let n = self.len();
        let mut r: Vec<Outcome> = Vec::new();
        let mut i: usize = 0;
        while i < n
            invariant
                i <= n,
                r@.len() == i,
                forall|k: int|
                    0 <= k < i ==> #[trigger] r@[k] == if k < answers@.len() {
                        outcome_of(answers@[k])
                    } else {
                        Outcome::Unknown
                    },
            decreases n - i,
        {
            let o = if i < answers.len() {
                match answers[i] {
                    SmtOutcome::Sat => Outcome::Invalid,
                    SmtOutcome::Unsat => Outcome::Valid,
                    SmtOutcome::Maybe => Outcome::Unknown,
                }
            } else {
                Outcome::Unknown
            };
            r.push(o);
            i += 1;
        }
        r
    }
}

proof fn lemma_push_drop<A>(s: Seq<A>, a: A)
    ensures
        s.push(a).drop_last() == s,
        s.push(a).last() == a,
{
    assert(s.push(a).drop_last() =~= s);
}

impl circuit::Circuit for SmtLibCircuit {
    type Term = Expr;
    type Bool = Expr;
    type Int = Expr;
    type Type = Sort;
    type Function = Function;

    open spec fn signature(&self) -> Signature {
        commands_signature(self@)
    }

    open spec fn obligations(&self) -> Seq<Formula> {
        commands_obligations(self@)
    }

    fn from_bool(&self, val: bool) -> (r: Expr) {
        Expr::Boolean(val)
    }

    fn from_usize(&self, val: usize) -> (r: Expr) {
        Expr::Integer(val)
    }

    fn declare_bool(&mut self, name: &str) -> (r: Expr)
        ensures
            final(self)@.drop_last() == old(self)@,
            final(self)@.len() == old(self)@.len() + 1,
            final(self)@.last() is DeclareVar,
            final(self)@.last()->DeclareVar_0@ == name@,
            final(self)@.last()->DeclareVar_1 == Sort::Bool,
    {
        let ghost cs = self@;
        self.commands.push(Command::DeclareVar(name.to_string(), Sort::Bool));
        proof {
            lemma_push_drop(cs, self@.last());
        }
        Expr::VarAccess(name.to_string())
    }

    fn declare_int(&mut self, name: &str) -> (r: Expr)
        ensures
            final(self)@.drop_last() == old(self)@,
            final(self)@.len() == old(self)@.len() + 1,
            final(self)@.last() is DeclareVar,
            final(self)@.last()->DeclareVar_0@ == name@,
            final(self)@.last()->DeclareVar_1 == Sort::Int,
    {
        let ghost cs = self@;
        let c = Command::DeclareVar(name.to_string(), Sort::Int);
        self.commands.push(c);
        proof {
            lemma_push_drop(cs, self@.last());
        }
        Expr::VarAccess(name.to_string())
    }

    fn declare_fn(&mut self, name: &str, params: &[Sort], rets: &[Sort]) -> (r: Function)
        ensures
            final(self)@.drop_last() == old(self)@,
            final(self)@.len() == old(self)@.len() + 1,
            final(self)@.last() is DeclareFun,
            final(self)@.last()->DeclareFun_0@ == name@,
            final(self)@.last()->DeclareFun_1@ == params@,
            final(self)@.last()->DeclareFun_2 == rets@[0],
            r.name@ == name@,
            r.arity == params@.len(),
    {
        let ghost cs = self@;
        let mut ps: Vec<Sort> = Vec::new();
        let mut i: usize = 0;
        while i < params.len()
            invariant
                i <= params@.len(),
                ps@ == params@.subrange(0, i as int),
            decreases params@.len() - i,
        {
            ps.push(params[i]);
            i += 1;
        }
        assert(ps@ =~= params@);
        self.commands.push(Command::DeclareFun(name.to_string(), ps, rets[0]));
        proof {
            lemma_push_drop(cs, self@.last());
            let s = commands_signature(cs);
            let a = params@.map_values(|p: Sort| sort_kind(p));
            let b = params@.map_values(|t: Sort| <Sort as circuit::Type>::kind(&t));
            assert(a =~= b);
        }
        Function { name: name.to_string(), arity: params.len() }
    }

    fn bool_type(&self) -> (r: Sort) {
        Sort::Bool
    }

    fn int_type(&self) -> (r: Sort) {
        Sort::Int
    }

    fn assert_condition(&mut self, condition: Expr) {
        let ghost cs = self@;
        self.discharge(condition);
        proof {
            assert(self@ =~= cs.push(self@.last()));
            lemma_push_drop(cs, self@.last());
        }
    }
}

// =============================================================================
// Any
// =============================================================================
impl circuit::Logical for Expr {
    open spec fn formula(&self) -> Formula {
        expr_formula(*self)
    }

    fn duplicate(&self) -> (r: Expr) {
        self.copy()
    }
}

/// An operator applied to two copies of the given expressions.
fn binary(op: Op, l: &Expr, r: &Expr) -> (e: Expr)
    ensures
        expr_formula(e) == app2(logic_op_of(op), expr_formula(*l), expr_formula(*r)),
{
    let args = vec![l.copy(), r.copy()];
    proof {
        lemma_exprs_formula(args@);
        assert(exprs_formula(args@) =~= seq![expr_formula(*l), expr_formula(*r)]);
    }
    Expr::Operator(op, args)
}

/// An operator applied to a copy of the given expression.
fn unary(op: Op, l: &Expr) -> (e: Expr)
    ensures
        expr_formula(e) == app1(logic_op_of(op), expr_formula(*l)),
{
    let args = vec![l.copy()];
    proof {
        lemma_exprs_formula(args@);
        assert(exprs_formula(args@) =~= seq![expr_formula(*l)]);
    }
    Expr::Operator(op, args)
}

pub open spec fn logic_op_of(op: Op) -> LogicOp {
    super::ast::logic_op(op)
}

impl circuit::Any for Expr {
    type Bool = Expr;

    fn eq(&self, other: &Self) -> (r: Expr) {
        binary(Op::Eq, self, other)
    }

    fn neq(&self, other: &Self) -> (r: Expr) {
        binary(Op::Neq, self, other)
    }
}

// =============================================================================
// Boolean
// =============================================================================
impl circuit::Bool for Expr {
    type Any = Expr;

    fn from_any(any: &Expr) -> (r: Expr) {
        any.copy()
    }

    fn to_any(&self) -> (r: Expr) {
        self.copy()
    }

    fn not(&self) -> (r: Expr) {
        unary(Op::Not, self)
    }

    fn and(&self, other: &Self) -> (r: Expr) {
        binary(Op::And, self, other)
    }

    fn or(&self, other: &Self) -> (r: Expr) {
        binary(Op::Or, self, other)
    }

    fn implies(&self, other: &Self) -> (r: Expr) {
        binary(Op::Implies, self, other)
    }

    fn ite(&self, lhs: &Expr, rhs: &Expr) -> (r: Expr) {
        let args = vec![self.copy(), lhs.copy(), rhs.copy()];
        proof {
            lemma_exprs_formula(args@);
            assert(exprs_formula(args@) =~= seq![
                expr_formula(*self),
                expr_formula(*lhs),
                expr_formula(*rhs),
            ]);
        }
        Expr::Operator(Op::IfThenElse, args)
    }
}

// =============================================================================
// Int
// =============================================================================
impl circuit::Int for Expr {
    type Any = Expr;
    type Bool = Expr;

    fn from_any(any: &Expr) -> (r: Expr) {
        any.copy()
    }

    fn to_any(&self) -> (r: Expr) {
        self.copy()
    }

    fn non_zero(&self) -> (r: Expr) {
        binary(Op::Neq, self, &Expr::Integer(0))
    }

    fn lt(&self, other: &Self) -> (r: Expr) {
        binary(Op::Lt, self, other)
    }

    fn lteq(&self, other: &Self) -> (r: Expr) {
        binary(Op::LtEq, self, other)
    }

    fn gt(&self, other: &Self) -> (r: Expr) {
        binary(Op::Gt, self, other)
    }

    fn gteq(&self, other: &Self) -> (r: Expr) {
        binary(Op::GtEq, self, other)
    }

    fn neg(&self) -> (r: Expr) {
        unary(Op::Sub, self)
    }

    fn add(&self, other: &Self) -> (r: Expr) {
        binary(Op::Add, self, other)
    }

    fn sub(&self, other: &Self) -> (r: Expr) {
        binary(Op::Sub, self, other)
    }

    fn div(&self, other: &Self) -> (r: Expr) {
        binary(Op::Div, self, other)
    }

    fn mul(&self, other: &Self) -> (r: Expr) {
        binary(Op::Mul, self, other)
    }

    fn rem(&self, other: &Self) -> (r: Expr) {
        binary(Op::Mod, self, other)
    }
}

// =============================================================================
// Type
// =============================================================================
impl circuit::Type for Sort {
    open spec fn kind(&self) -> Kind {
        sort_kind(*self)
    }
}

// =============================================================================
// Function
// =============================================================================
impl circuit::Function for Function {
    type Any = Expr;

    open spec fn symbol(&self) -> Seq<char> {
        self.name@
    }

    fn name(&self) -> (r: String) {
        self.name.clone()
    }

    fn invoke(&self, args: &[Expr]) -> (r: Expr) {
        let mut vargs: Vec<Expr> = Vec::new();
        let mut i: usize = 0;
        while i < args.len()
            invariant
                i <= args@.len(),
                vargs@.len() == i,
                forall|k: int| 0 <= k < i ==> expr_formula(#[trigger] vargs@[k]) == expr_formula(args@[k]),
            decreases args@.len() - i,
        {
            vargs.push(args[i].copy());
            i += 1;
        }
        proof {
            lemma_exprs_formula(vargs@);
            assert(exprs_formula(vargs@) =~= args@.map_values(|a: Expr| circuit::Logical::formula(&a)));
        }
        Expr::Invoke(self.name.clone(), vargs)
    }
}

} // verus!
