use vstd::prelude::*;
use crate::ast::{BinOp, Function, SyntacticHeap, Term, refs, refs_below};
use crate::circuit::{Any, Bool, Circuit, Formula, Int, Kind, Logical, LogicOp, Type, app1, app2};
use super::Environment;
use super::EnvModel;
use super::translator::{Translator, type_kind, typed};

verus! {

/// Identifies a specific error arising in the verifier.  This
/// typically indicates the input program was malformed in some way
/// (for example, referred to a variable or function that was not
/// defined).  Such errors should be caught earlier in the pipeline
/// (e.g. during name resolution or type checking).
#[derive(Debug)]
pub struct VerifierError {}

pub open spec fn and_f(p: Formula, q: Formula) -> Formula {
    app2(LogicOp::And, p, q)
}

pub open spec fn not_f(p: Formula) -> Formula {
    app1(LogicOp::Not, p)
}

/// The obligation that `claim` holds wherever the path condition `p` does.
pub open spec fn implies_f(p: Formula, claim: Formula) -> Formula {
    app2(LogicOp::Implies, p, claim)
}

/// Conjoin each of `assumptions`, in order, onto `p`.
pub open spec fn conj_all(p: Formula, assumptions: Seq<Formula>) -> Formula
    decreases assumptions.len(),
{
    if assumptions.len() == 0 {
        p
    } else {
        and_f(conj_all(p, assumptions.drop_last()), assumptions.last())
    }
}

/// The obligations of term `i` under path condition `p`, and the path
/// condition after it; `None` where the generator reports an error.
pub open spec fn gen(heap: Seq<Term>, env: EnvModel, i: int, p: Formula) -> Option<
    (Seq<Formula>, Formula),
>
    decreases i, 2nat, 0nat,
{
    if !(0 <= i < heap.len()) {
        None
    } else {
        match heap[i] {
            Term::Block(ss) => gen_seq(heap, env, ss@, i, p),
            Term::Assume(e) => if e < i {
                match (gen(heap, env, e as int, p), typed(heap, env, e as int)) {
                    (Some(g), Some((f, Kind::Bool))) => Some((g.0, and_f(p, f))),
                    _ => None,
                }
            } else {
                None
            },
            Term::Assert(e) => if e < i {
                match (gen(heap, env, e as int, p), typed(heap, env, e as int)) {
                    (Some(g), Some((f, Kind::Bool))) => Some((g.0.push(implies_f(p, f)), and_f(p, f))),
                    _ => None,
                }
            } else {
                None
            },
            Term::Binary(op, l, r) => match gen_binary(heap, env, i, op, l as int, r as int, p) {
                Some(obs) => Some((obs, p)),
                None => None,
            },
            Term::Braced(e) => if e < i {
                match gen(heap, env, e as int, p) {
                    Some(g) => Some((g.0, p)),
                    None => None,
                }
            } else {
                None
            },
            Term::IfElse { cond, tt, ff } => match gen_ifelse(
                heap,
                env,
                i,
                cond as int,
                tt as int,
                ff as int,
                p,
            ) {
                Some(obs) => Some((obs, p)),
                None => None,
            },
            Term::StaticInvoke(_, args) => match gen_each(heap, env, args@, i, p) {
                Some(obs) => Some((obs, p)),
                None => None,
            },
            Term::VarAccess(_) => Some((seq![], p)),
            Term::BoolLiteral(_) => Some((seq![], p)),
            Term::IntLiteral(_) => Some((seq![], p)),
            _ => None,
        }
    }
}

/// A sequence of statements, each under the path condition that the
/// previous one left.
pub open spec fn gen_seq(heap: Seq<Term>, env: EnvModel, ss: Seq<usize>, bound: int, p: Formula) -> Option<
    (Seq<Formula>, Formula),
>
    decreases bound, 0nat, ss.len(),
{
    if ss.len() == 0 {
        Some((seq![], p))
    } else if 0 <= ss.last() < bound {
        match gen_seq(heap, env, ss.drop_last(), bound, p) {
            Some(g1) => match gen(heap, env, ss.last() as int, g1.1) {
                Some(g2) => Some((g1.0 + g2.0, g2.1)),
                None => None,
            },
            None => None,
        }
    } else {
        None
    }
}

/// A sequence of expressions, each under the same path condition.
pub open spec fn gen_each(heap: Seq<Term>, env: EnvModel, es: Seq<usize>, bound: int, p: Formula) -> Option<
    Seq<Formula>,
>
    decreases bound, 0nat, es.len(),
{
    if es.len() == 0 {
        Some(seq![])
    } else if 0 <= es.last() < bound {
        match (gen_each(heap, env, es.drop_last(), bound, p), gen(heap, env, es.last() as int, p)) {
            (Some(o1), Some(g2)) => Some(o1 + g2.0),
            _ => None,
        }
    } else {
        None
    }
}

/// The obligations of a binary expression at index `i`.
pub open spec fn gen_binary(
    heap: Seq<Term>,
    env: EnvModel,
    i: int,
    op: BinOp,
    l: int,
    r: int,
    p: Formula,
) -> Option<Seq<Formula>>
    decreases i, 1nat, 0nat,
{
    if 0 <= l < i && 0 <= r < i {
        match op {
            BinOp::LogicalAnd | BinOp::LogicalImplies => gen_guarded(heap, env, i, l, r, p, false),
            BinOp::LogicalOr => gen_guarded(heap, env, i, l, r, p, true),
            _ => match (gen(heap, env, l, p), gen(heap, env, r, p)) {
                (Some(gl), Some(gr)) => match check_of(heap, env, op, l, r) {
                    Some(Some(claim)) => Some(gl.0 + gr.0.push(implies_f(p, claim))),
                    Some(None) => Some(gl.0 + gr.0),
                    None => None,
                },
                _ => None,
            },
        }
    } else {
        None
    }
}

/// The claim that a binary operator needs of its operands to be
/// well-defined: `l >= r` for an (unsigned) subtraction, `r != 0` for a
/// division or remainder. `Some(None)` where it needs none; `None` where an
/// operand it reads does not translate to an integer.
pub open spec fn check_of(heap: Seq<Term>, env: EnvModel, op: BinOp, l: int, r: int) -> Option<
    Option<Formula>,
> {
    if op == BinOp::Subtract {
        match (typed(heap, env, l), typed(heap, env, r)) {
            (Some((fl, Kind::Int)), Some((fr, Kind::Int))) => Some(
                Some(app2(LogicOp::GtEq, fl, fr)),
            ),
            _ => None,
        }
    } else if op == BinOp::Divide || op == BinOp::Remainder {
        match typed(heap, env, r) {
            Some((fr, Kind::Int)) => Some(Some(app2(LogicOp::Neq, fr, Formula::IntLit(0)))),
            _ => None,
        }
    } else {
        Some(None)
    }
}

/// `l` under `p`, then `r` under `p ∧ l` (or `p ∧ ¬l` when `negate`).
pub open spec fn gen_guarded(
    heap: Seq<Term>,
    env: EnvModel,
    i: int,
    l: int,
    r: int,
    p: Formula,
    negate: bool,
) -> Option<Seq<Formula>>
    decreases i, 0nat, 0nat,
{
    if 0 <= l < i && 0 <= r < i {
        match (gen(heap, env, l, p), typed(heap, env, l)) {
            (Some(gl), Some((fl, Kind::Bool))) => {
                let q = if negate {
                    and_f(p, not_f(fl))
                } else {
                    and_f(p, fl)
                };
                match gen(heap, env, r, q) {
                    Some(gr) => Some(gl.0 + gr.0),
                    None => None,
                }
            },
            _ => None,
        }
    } else {
        None
    }
}

/// The condition under `p`, then each branch under `p` and the condition or
/// its negation.
pub open spec fn gen_ifelse(
    heap: Seq<Term>,
    env: EnvModel,
    i: int,
    c: int,
    t: int,
    f: int,
    p: Formula,
) -> Option<Seq<Formula>>
    decreases i, 0nat, 0nat,
{
    if 0 <= c < i && 0 <= t < i && 0 <= f < i {
        match (gen(heap, env, c, p), typed(heap, env, c)) {
            (Some(gc), Some((fc, Kind::Bool))) => match (
                gen(heap, env, t, and_f(p, fc)),
                gen(heap, env, f, and_f(p, not_f(fc))),
            ) {
                (Some(gt), Some(gf)) => Some(gc.0 + gt.0 + gf.0),
                _ => None,
            },
            _ => None,
        }
    } else {
        None
    }
}

/// The assumptions that a statement adds to the path condition: the
/// claim of each `assume` and `assert` in it, in order.
pub open spec fn assumptions(heap: Seq<Term>, env: EnvModel, i: int) -> Seq<Formula>
    decreases i, 1nat, 0nat,
{
    if !(0 <= i < heap.len()) {
        seq![]
    } else {
        match heap[i] {
            Term::Block(ss) => assumptions_seq(heap, env, ss@, i),
            Term::Assume(e) => seq![typed(heap, env, e as int).unwrap().0],
            Term::Assert(e) => seq![typed(heap, env, e as int).unwrap().0],
            _ => seq![],
        }
    }
}

pub open spec fn assumptions_seq(heap: Seq<Term>, env: EnvModel, ss: Seq<usize>, bound: int) -> Seq<
    Formula,
>
    decreases bound, 0nat, ss.len(),
{
    if ss.len() == 0 {
        seq![]
    } else if 0 <= ss.last() < bound {
        assumptions_seq(heap, env, ss.drop_last(), bound) + assumptions(heap, env, ss.last() as int)
    } else {
        seq![]
    }
}


// =============================================================================
// Declarations
// =============================================================================

/// The sort of the type term at index `t`.
pub open spec fn kind_at(heap: Seq<Term>, t: int) -> Option<Kind> {
    if 0 <= t < heap.len() {
        type_kind(heap[t])
    } else {
        None
    }
}

/// The environment after binding each parameter, in order, to a fresh
/// variable of its declared sort.
pub open spec fn bind_params(heap: Seq<Term>, env: EnvModel, ps: Seq<(usize, String)>) -> Option<EnvModel>
    decreases ps.len(),
{
    if ps.len() == 0 {
        Some(env)
    } else {
        match (bind_params(heap, env, ps.drop_last()), kind_at(heap, ps.last().0 as int)) {
            (Some(e), Some(k)) => Some(
                EnvModel { vars: e.vars.push((ps.last().1@, Formula::Var(ps.last().1@), k)), ..e },
            ),
            _ => None,
        }
    }
}

/// The sorts of the parameters.
pub open spec fn param_kinds(heap: Seq<Term>, ps: Seq<(usize, String)>) -> Seq<Kind> {
    ps.map_values(|b: (usize, String)| kind_at(heap, b.0 as int).unwrap())
}

/// `p` conjoined with each precondition, in order.
pub open spec fn conjoin_requires(heap: Seq<Term>, env: EnvModel, rs: Seq<usize>, p: Formula) -> Option<
    Formula,
>
    decreases rs.len(),
{
    if rs.len() == 0 {
        Some(p)
    } else {
        match (conjoin_requires(heap, env, rs.drop_last(), p), typed(heap, env, rs.last() as int)) {
            (Some(q), Some((f, Kind::Bool))) => Some(and_f(q, f)),
            _ => None,
        }
    }
}

/// One obligation per postcondition: it holds wherever `pb` does.
pub open spec fn ensures_obligations(heap: Seq<Term>, env: EnvModel, es: Seq<usize>, pb: Formula) -> Option<
    Seq<Formula>,
>
    decreases es.len(),
{
    if es.len() == 0 {
        Some(seq![])
    } else {
        match (ensures_obligations(heap, env, es.drop_last(), pb), typed(heap, env, es.last() as int)) {
            (Some(o), Some((f, Kind::Bool))) => Some(o.push(implies_f(pb, f))),
            _ => None,
        }
    }
}

/// With a single return, the environment gains the return variable and the
/// path condition learns that it equals the body.
pub open spec fn bind_result(
    heap: Seq<Term>,
    env: EnvModel,
    rets: Seq<(usize, String)>,
    body: int,
    pb: Formula,
) -> Option<(EnvModel, Formula)> {
    if rets.len() == 0 {
        Some((env, pb))
    } else if rets.len() == 1 {
        let n = rets[0].1@;
        match (kind_at(heap, rets[0].0 as int), typed(heap, env, body)) {
            (Some(k), Some((fb, kb))) => if k == kb {
                Some(
                    (
                        EnvModel { vars: env.vars.push((n, Formula::Var(n), k)), ..env },
                        unsigned_fact(
                            heap,
                            rets[0].0 as int,
                            n,
                            and_f(pb, app2(LogicOp::Eq, Formula::Var(n), fb)),
                        ),
                    ),
                )
            } else {
                None
            },
            _ => None,
        }
    } else {
        None
    }
}

/// Whether the type term at `t` is the unsigned integer type.
pub open spec fn unsigned_at(heap: Seq<Term>, t: int) -> bool {
    0 <= t < heap.len() && heap[t] == Term::IntType(false)
}

/// A variable of unsigned type is known to be non-negative: `p ∧ n >= 0`
/// where the type term at `t` is unsigned, `p` otherwise.
pub open spec fn unsigned_fact(heap: Seq<Term>, t: int, n: Seq<char>, p: Formula) -> Formula {
    if unsigned_at(heap, t) {
        and_f(p, app2(LogicOp::GtEq, Formula::Var(n), Formula::IntLit(0)))
    } else {
        p
    }
}

/// `p` conjoined with the non-negativity of each unsigned parameter, in order.
pub open spec fn param_facts(heap: Seq<Term>, ps: Seq<(usize, String)>, p: Formula) -> Formula
    decreases ps.len(),
{
    if ps.len() == 0 {
        p
    } else {
        unsigned_fact(heap, ps.last().0 as int, ps.last().1@, param_facts(heap, ps.drop_last(), p))
    }
}

/// The obligations of a function declaration, and the environment after it:
/// parameters are bound (an unsigned one is known to be non-negative),
/// preconditions conjoined onto `p`, the body
/// generated, then one obligation per postcondition; a function with a
/// single return is finally bound as a symbol that later callers invoke.
pub open spec fn gen_function(heap: Seq<Term>, env: EnvModel, f: crate::ast::Function, p: Formula) -> Option<
    (Seq<Formula>, EnvModel),
> {
    match bind_params(heap, env, f.params@) {
        Some(env1) => match conjoin_requires(heap, env1, f.requires@, param_facts(heap, f.params@, p)) {
            Some(p0) => match gen(heap, env1, f.body as int, p0) {
                Some((obs, pb)) => match bind_result(heap, env1, f.rets@, f.body as int, pb) {
                    Some((env2, pb2)) => match ensures_obligations(heap, env2, f.ensures@, pb2) {
                        Some(eobs) => Some(
                            (
                                obs + eobs,
                                if f.rets@.len() == 1 {
                                    EnvModel {
                                        funs: env2.funs.push(
                                            (
                                                f.name@,
                                                f.name@,
                                                param_kinds(heap, f.params@),
                                                kind_at(heap, f.rets@[0].0 as int).unwrap(),
                                            ),
                                        ),
                                        ..env2
                                    }
                                } else {
                                    env2
                                },
                            ),
                        ),
                        None => None,
                    },
                    None => None,
                },
                None => None,
            },
            None => None,
        },
        None => None,
    }
}

/// The obligations of a sequence of top-level declarations, each generated
/// from the path condition `true` in the environment the previous ones left.
pub open spec fn gen_program(heap: Seq<Term>, env: EnvModel, ds: Seq<usize>) -> Option<
    (Seq<Formula>, EnvModel),
>
    decreases ds.len(),
{
    if ds.len() == 0 {
        Some((seq![], env))
    } else {
        match gen_program(heap, env, ds.drop_last()) {
            Some((o1, e1)) => {
                let d = ds.last() as int;
                if 0 <= d < heap.len() && heap[d] is Function {
                    match gen_function(heap, e1, heap[d]->Function_0, Formula::BoolLit(true)) {
                        Some((o2, e2)) => Some((o1 + o2, e2)),
                        None => None,
                    }
                } else {
                    match gen(heap, e1, d, Formula::BoolLit(true)) {
                        Some((o2, _)) => Some((o1 + o2, e1)),
                        None => None,
                    }
                }
            },
            None => None,
        }
    }
}

/// Each statement adds exactly its own assumptions to the path condition:
/// whenever generation succeeds on term `i` from path condition `p`, the
/// path condition after it is `p ∧ A₁ ∧ … ∧ Aₖ`, where `A₁ … Aₖ` are the
/// claims of the `assume` and `assert` statements it holds, in order.
/// Nothing else is added.
pub proof fn lemma_path_condition(heap: Seq<Term>, env: EnvModel, i: int, p: Formula)
    requires
        gen(heap, env, i, p) is Some,
    ensures
        gen(heap, env, i, p).unwrap().1 == conj_all(p, assumptions(heap, env, i)),
    decreases i, 1nat, 0nat,
{
    match heap[i] {
        Term::Block(ss) => {
            lemma_path_condition_seq(heap, env, ss@, i, p);
        },
        Term::Assume(e) => {
            let a = assumptions(heap, env, i);
            assert(a.drop_last() =~= seq![]);
            assert(conj_all(p, a.drop_last()) == p);
        },
        Term::Assert(e) => {
            let a = assumptions(heap, env, i);
            assert(a.drop_last() =~= seq![]);
            assert(conj_all(p, a.drop_last()) == p);
        },
        _ => {},
    }
}

proof fn lemma_conj_all_append(p: Formula, a: Seq<Formula>, b: Seq<Formula>)
    ensures
        conj_all(conj_all(p, a), b) == conj_all(p, a + b),
    decreases b.len(),
{
    if b.len() == 0 {
        assert(a + b =~= a);
    } else {
        lemma_conj_all_append(p, a, b.drop_last());
        assert((a + b).drop_last() =~= a + b.drop_last());
        assert((a + b).last() == b.last());
    }
}

proof fn lemma_path_condition_seq(heap: Seq<Term>, env: EnvModel, ss: Seq<usize>, bound: int, p: Formula)
    requires
        gen_seq(heap, env, ss, bound, p) is Some,
    ensures
        gen_seq(heap, env, ss, bound, p).unwrap().1 == conj_all(p, assumptions_seq(heap, env, ss, bound)),
    decreases bound, 0nat, ss.len(),
{
    if ss.len() > 0 {
        let d = ss.drop_last();
        lemma_path_condition_seq(heap, env, d, bound, p);
        let p1 = gen_seq(heap, env, d, bound, p).unwrap().1;
        lemma_path_condition(heap, env, ss.last() as int, p1);
        lemma_conj_all_append(
            p,
            assumptions_seq(heap, env, d, bound),
            assumptions(heap, env, ss.last() as int),
        );
    }
}

/// A sequence fails to generate where one of its prefixes does.
proof fn lemma_gen_seq_prefix(heap: Seq<Term>, env: EnvModel, ss: Seq<usize>, bound: int, p: Formula, n: int)
    requires
        0 <= n <= ss.len(),
        gen_seq(heap, env, ss.subrange(0, n), bound, p) is None,
    ensures
        gen_seq(heap, env, ss, bound, p) is None,
    decreases ss.len(),
{
    if n < ss.len() {
        assert(ss.drop_last().subrange(0, n) =~= ss.subrange(0, n));
        lemma_gen_seq_prefix(heap, env, ss.drop_last(), bound, p, n);
    } else {
        assert(ss.subrange(0, n) =~= ss);
    }
}

proof fn lemma_gen_each_prefix(heap: Seq<Term>, env: EnvModel, es: Seq<usize>, bound: int, p: Formula, n: int)
    requires
        0 <= n <= es.len(),
        gen_each(heap, env, es.subrange(0, n), bound, p) is None,
    ensures
        gen_each(heap, env, es, bound, p) is None,
    decreases es.len(),
{
    if n < es.len() {
        assert(es.drop_last().subrange(0, n) =~= es.subrange(0, n));
        lemma_gen_each_prefix(heap, env, es.drop_last(), bound, p, n);
    } else {
        assert(es.subrange(0, n) =~= es);
    }
}

proof fn lemma_bind_params_prefix(heap: Seq<Term>, env: EnvModel, ps: Seq<(usize, String)>, n: int)
    requires
        0 <= n <= ps.len(),
        bind_params(heap, env, ps.subrange(0, n)) is None,
    ensures
        bind_params(heap, env, ps) is None,
    decreases ps.len(),
{
    if n < ps.len() {
        assert(ps.drop_last().subrange(0, n) =~= ps.subrange(0, n));
        lemma_bind_params_prefix(heap, env, ps.drop_last(), n);
    } else {
        assert(ps.subrange(0, n) =~= ps);
    }
}

proof fn lemma_conjoin_requires_prefix(heap: Seq<Term>, env: EnvModel, rs: Seq<usize>, p: Formula, n: int)
    requires
        0 <= n <= rs.len(),
        conjoin_requires(heap, env, rs.subrange(0, n), p) is None,
    ensures
        conjoin_requires(heap, env, rs, p) is None,
    decreases rs.len(),
{
    if n < rs.len() {
        assert(rs.drop_last().subrange(0, n) =~= rs.subrange(0, n));
        lemma_conjoin_requires_prefix(heap, env, rs.drop_last(), p, n);
    } else {
        assert(rs.subrange(0, n) =~= rs);
    }
}

proof fn lemma_ensures_obligations_prefix(heap: Seq<Term>, env: EnvModel, es: Seq<usize>, pb: Formula, n: int)
    requires
        0 <= n <= es.len(),
        ensures_obligations(heap, env, es.subrange(0, n), pb) is None,
    ensures
        ensures_obligations(heap, env, es, pb) is None,
    decreases es.len(),
{
    if n < es.len() {
        assert(es.drop_last().subrange(0, n) =~= es.subrange(0, n));
        lemma_ensures_obligations_prefix(heap, env, es.drop_last(), pb, n);
    } else {
        assert(es.subrange(0, n) =~= es);
    }
}

proof fn lemma_gen_program_prefix(heap: Seq<Term>, env: EnvModel, ds: Seq<usize>, n: int)
    requires
        0 <= n <= ds.len(),
        gen_program(heap, env, ds.subrange(0, n)) is None,
    ensures
        gen_program(heap, env, ds) is None,
    decreases ds.len(),
{
    if n < ds.len() {
        assert(ds.drop_last().subrange(0, n) =~= ds.subrange(0, n));
        lemma_gen_program_prefix(heap, env, ds.drop_last(), n);
    } else {
        assert(ds.subrange(0, n) =~= ds);
    }
}

/// Responsible for generating verification conditions necessary to
/// ensure that a given term is _well-defined_ or not.  For example,
/// consider the following statement:
///
/// ```text
///    assert xs[i] >= 0
/// ```
///
/// In this case, there is an implicit precondition that `i >=0 && i <
/// |xs|` in order for the asserted expression to be well-defined.  A
/// more complex example is the following:
///
/// ```text
///    if(i < |xs| && xs[i] >= 0)
/// ```
///
/// This is more complex because the well-definedness condition is not
/// simply `i >=0 && i < |xs|` as before.  That is, because we have
/// learned something from the left-hand side of the logical
/// conjunction.  Instead, the required condition for well-definedness
/// is `(i < |xs|) ==> (i >= 0 && i < |xs|)`.  This takes into account
/// the _short circuiting_ nature of source-level expressions.
/// Specifically, if the left-hand side of the conjunction doesn't
/// hold then it doesn't matter whether or not the right-hand side is
/// undefined.
pub struct Verifier<'a, C: Circuit> {
    /// Represents the source program being verified.
    heap: &'a SyntacticHeap,
    /// The verification circuit being constructed.
    circuit: C,
    /// Name resolver
    env: Environment<C>,
}

impl<'a, C: Circuit> Verifier<'a, C> {
    /// The source program.
    pub closed spec fn source(&self) -> SyntacticHeap {
        *self.heap
    }

    /// The circuit built so far.
    pub closed spec fn built(&self) -> C {
        self.circuit
    }

    /// The bindings in scope.
    pub closed spec fn scope(&self) -> EnvModel {
        self.env@
    }

    pub fn new(heap: &'a SyntacticHeap, circuit: C) -> (r: Self)
        ensures
            r.source() == *heap,
            r.built() == circuit,
            r.scope().vars.len() == 0,
            r.scope().funs.len() == 0,
    {
        let env = Environment::new();
        Self { heap, env, circuit }
    }

    // ===================================================================================
    // Translation
    // ===================================================================================

    fn translate_bool(&self, term: usize) -> (r: Result<C::Bool, VerifierError>)
        requires
            self.heap.wf(),
        ensures
            match typed(self.heap@, self.env@, term as int) {
                Some((f, Kind::Bool)) => r is Ok && r.unwrap().formula() == f,
                _ => r is Err,
            },
    {
        let translator = Translator::new(self.heap, &self.circuit, &self.env);
        translator.try_translate_bool(term)
    }

    fn translate_int(&self, term: usize) -> (r: Result<C::Int, VerifierError>)
        requires
            self.heap.wf(),
        ensures
            match typed(self.heap@, self.env@, term as int) {
                Some((f, Kind::Int)) => r is Ok && r.unwrap().formula() == f,
                _ => r is Err,
            },
    {
        let translator = Translator::new(self.heap, &self.circuit, &self.env);
        translator.try_translate_int(term)
    }

    /// Generate a circuit (i.e. a set of verification conditions) for
    /// the given set of top-level declarations in the source program.
    pub fn to_circuit(self, declarations: &[usize]) -> (r: Result<C, VerifierError>)
        requires
            self.source().wf(),
        ensures
            match gen_program(self.source()@, self.scope(), declarations@) {
                Some((obs, _)) => r is Ok && r.unwrap().obligations() == self.built().obligations()
                    + obs,
                None => r is Err,
            },
    {
        let mut v = self;
        let ghost heap = v.heap@;
        let ghost env0 = v.env@;
        let ghost obs0 = v.circuit.obligations();
        let ghost mut obs: Seq<Formula> = seq![];
        assert(declarations@.subrange(0, 0) =~= seq![]);
        let mut i: usize = 0;
        while i < declarations.len()
            invariant
                v.heap.wf(),
                v.heap@ == heap,
                heap == self.heap@,
                env0 == self.env@,
                obs0 == self.circuit.obligations(),
                i <= declarations@.len(),
                gen_program(heap, env0, declarations@.subrange(0, i as int)) == Some((obs, v.env@)),
                v.circuit.obligations() == obs0 + obs,
            decreases declarations@.len() - i,
        {
            let ghost sub = declarations@.subrange(0, i + 1);
            assert(sub.drop_last() =~= declarations@.subrange(0, i as int));
            assert(sub.last() == declarations@[i as int]);
            let ghost e1 = v.env@;
            let ghost o1 = v.circuit.obligations();
            let d = declarations[i];
            let heap_ref = v.heap;
            // Construct initial path condition.
            let precondition = v.circuit.from_bool(true);
            let res = if d < heap_ref.len() {
                match heap_ref.get(d) {
                    Term::Function(fun) => v.generate_decl_function(d, fun, precondition),
                    _ => v.generate_term(d, precondition),
                }
            } else {
                v.generate_term(d, precondition)
            };
            match res {
                Ok(_) => {},
                Err(e) => {
                    proof {
                        lemma_gen_program_prefix(heap, env0, declarations@, i + 1);
                    }
                    return Err(e);
                },
            }
            proof {
                let dd = declarations@[i as int] as int;
                let o2 = if 0 <= dd < heap.len() && heap[dd] is Function {
                    gen_function(heap, e1, heap[dd]->Function_0, Formula::BoolLit(true)).unwrap().0
                } else {
                    gen(heap, e1, dd, Formula::BoolLit(true)).unwrap().0
                };
                assert(obs0 + obs + o2 =~= obs0 + (obs + o2));
                obs = obs + o2;
            }
            i += 1;
        }
        assert(declarations@.subrange(0, i as int) =~= declarations@);
        Ok(v.circuit)
    }

    /// The sort of the type term at `t`.
    fn kind_of(&self, t: usize) -> (r: Result<Kind, VerifierError>)
        ensures
            match kind_at(self.heap@, t as int) {
                Some(k) => r is Ok && r.unwrap() == k,
                None => r is Err,
            },
    {
        if t >= self.heap.len() {
            return Err(VerifierError {});
        }
        match self.heap.get(t) {
            Term::BoolType => Ok(Kind::Bool),
            Term::IntType(_) => Ok(Kind::Int),
            _ => Err(VerifierError {}),
        }
    }

    /// Conjoin onto `p` that the variable `v` is non-negative where the type
    /// term at `t` is unsigned.
    fn assume_unsigned(&self, t: usize, v: &C::Term, p: C::Bool) -> (r: C::Bool)
        requires
            v.formula() is Var,
        ensures
            r.formula() == unsigned_fact(self.heap@, t as int, v.formula()->Var_0, p.formula()),
    {
        let unsigned = t < self.heap.len() && match self.heap.get(t) {
            Term::IntType(signed) => !*signed,
            _ => false,
        };
        if unsigned {
            let x = C::Int::from_any(v);
            let zero = self.circuit.from_usize(0);
            p.and(&x.gteq(&zero))
        } else {
            p
        }
    }

    /// The circuit's type for a sort.
    fn type_of(&self, k: Kind) -> (r: C::Type)
        ensures
            r.kind() == k,
    {
        match k {
            Kind::Bool => self.circuit.bool_type(),
            Kind::Int => self.circuit.int_type(),
        }
    }

    /// Declare a fresh variable of sort `k` in the circuit and bind `name`
    /// to it.
    fn declare_var(&mut self, name: &str, k: Kind) -> (r: C::Term)
        ensures
            final(self).heap == old(self).heap,
            final(self).env@ == (EnvModel {
                vars: old(self).env@.vars.push((name@, Formula::Var(name@), k)),
                ..old(self).env@
            }),
            final(self).circuit.obligations() == old(self).circuit.obligations(),
            r.formula() == Formula::Var(name@),
    {
        let v = match k {
            Kind::Bool => self.circuit.declare_bool(name).to_any(),
            Kind::Int => self.circuit.declare_int(name).to_any(),
        };
        let r = v.duplicate();
        self.env.allocate(name, v, k);
        r
    }

    // ===================================================================================
    // Declarations
    // ===================================================================================

    /// Conjoin each precondition of `fun`, in order, onto `precondition`.
    fn generate_decl_precondition(&self, fun: &Function, precondition: C::Bool) -> (r: Result<
        C::Bool,
        VerifierError,
    >)
        requires
            self.heap.wf(),
        ensures
            match conjoin_requires(self.heap@, self.env@, fun.requires@, precondition.formula()) {
                Some(q) => r is Ok && r.unwrap().formula() == q,
                None => r is Err,
            },
    {
        let ghost p = precondition.formula();
        let mut pc = precondition;
        assert(fun.requires@.subrange(0, 0) =~= seq![]);
        let mut i: usize = 0;
        while i < fun.requires.len()
            invariant
                self.heap.wf(),
                p == precondition.formula(),
                i <= fun.requires@.len(),
                conjoin_requires(self.heap@, self.env@, fun.requires@.subrange(0, i as int), p)
                    == Some(pc.formula()),
            decreases fun.requires@.len() - i,
        {
            let ghost sub = fun.requires@.subrange(0, i + 1);
            assert(sub.drop_last() =~= fun.requires@.subrange(0, i as int));
            assert(sub.last() == fun.requires@[i as int]);
            let f = match self.translate_bool(fun.requires[i]) {
                Ok(f) => f,
                Err(e) => {
                    proof {
                        lemma_conjoin_requires_prefix(self.heap@, self.env@, fun.requires@, p, i + 1);
                    }
                    return Err(e);
                },
            };
            pc = pc.and(&f);
            i += 1;
        }
        assert(fun.requires@.subrange(0, i as int) =~= fun.requires@);
        Ok(pc)
    }

    /// Emit one verification condition per postcondition of `fun`: it holds
    /// wherever `precondition` (the path condition after the body) does.
    fn generate_decl_checks(&mut self, fun: &Function, precondition: &C::Bool) -> (r: Result<
        (),
        VerifierError,
    >)
        requires
            old(self).heap.wf(),
        ensures
            final(self).heap == old(self).heap,
            final(self).env@ == old(self).env@,
            match ensures_obligations(
                old(self).heap@,
                old(self).env@,
                fun.ensures@,
                precondition.formula(),
            ) {
                Some(eobs) => r is Ok && final(self).circuit.obligations() == old(
                    self,
                ).circuit.obligations() + eobs,
                None => r is Err,
            },
    {
        let ghost heap = self.heap@;
        let ghost env = self.env@;
        let ghost obs0 = self.circuit.obligations();
        let ghost pb = precondition.formula();
        let ghost mut eobs: Seq<Formula> = seq![];
        assert(fun.ensures@.subrange(0, 0) =~= seq![]);
        assert(obs0 + eobs =~= obs0);
        let mut i: usize = 0;
        while i < fun.ensures.len()
            invariant
                self.heap.wf(),
                self.heap@ == heap,
                self.heap == old(self).heap,
                self.env@ == env,
                heap == old(self).heap@,
                env == old(self).env@,
                obs0 == old(self).circuit.obligations(),
                pb == precondition.formula(),
                self.circuit.obligations() == obs0 + eobs,
                i <= fun.ensures@.len(),
                ensures_obligations(heap, env, fun.ensures@.subrange(0, i as int), pb) == Some(eobs),
            decreases fun.ensures@.len() - i,
        {
            let ghost sub = fun.ensures@.subrange(0, i + 1);
            assert(sub.drop_last() =~= fun.ensures@.subrange(0, i as int));
            assert(sub.last() == fun.ensures@[i as int]);
            let f = match self.translate_bool(fun.ensures[i]) {
                Ok(f) => f,
                Err(e) => {
                    proof {
                        lemma_ensures_obligations_prefix(heap, env, fun.ensures@, pb, i + 1);
                    }
                    return Err(e);
                },
            };
            self.circuit.assert_condition(precondition.implies(&f));
            proof {
                let c = implies_f(pb, f.formula());
                assert(obs0 + eobs.push(c) =~= (obs0 + eobs).push(c));
                eobs = eobs.push(c);
            }
            i += 1;
        }
        assert(fun.ensures@.subrange(0, i as int) =~= fun.ensures@);
        Ok(())
    }

    fn generate_decl_function(&mut self, index: usize, fun: &Function, precondition: C::Bool) -> (r:
        Result<C::Bool, VerifierError>)
        requires
            old(self).heap.wf(),
            index < old(self).heap@.len(),
            old(self).heap@[index as int] == Term::Function(*fun),
        ensures
            final(self).heap == old(self).heap,
            match gen_function(old(self).heap@, old(self).env@, *fun, precondition.formula()) {
                Some((obs, env2)) => r is Ok && r.unwrap().formula() == precondition.formula()
                    && final(self).circuit.obligations() == old(self).circuit.obligations() + obs
                    && final(self).env@ == env2,
                None => r is Err,
            },
    {
        let ghost heap = self.heap@;
        let ghost env0 = self.env@;
        let ghost obs0 = self.circuit.obligations();
        let ghost p = precondition.formula();
        proof {
            assert(refs_below(heap[index as int], index as int));
            let rs = refs(heap[index as int]);
            assert(rs.last() == fun.body);
            assert(rs[rs.len() - 1] == fun.body);
        }
        // Declare parameters as fresh variables of their declared sorts.
        let mut kinds: Vec<Kind> = Vec::new();
        let mut types: Vec<C::Type> = Vec::new();
        let mut facts = precondition.duplicate();
        assert(fun.params@.subrange(0, 0) =~= seq![]);
        let mut i: usize = 0;
        while i < fun.params.len()
            invariant
                self.heap.wf(),
                self.heap@ == heap,
                self.heap == old(self).heap,
                heap == old(self).heap@,
                env0 == old(self).env@,
                obs0 == old(self).circuit.obligations(),
                i <= fun.params@.len(),
                bind_params(heap, env0, fun.params@.subrange(0, i as int)) == Some(self.env@),
                self.circuit.obligations() == obs0,
                kinds@ == param_kinds(heap, fun.params@.subrange(0, i as int)),
                types@.len() == i,
                forall|k: int| 0 <= k < i ==> (#[trigger] types@[k]).kind() == kinds@[k],
                p == precondition.formula(),
                facts.formula() == param_facts(heap, fun.params@.subrange(0, i as int), p),
            decreases fun.params@.len() - i,
        {
            let ghost sub = fun.params@.subrange(0, i + 1);
            assert(sub.drop_last() =~= fun.params@.subrange(0, i as int));
            assert(sub.last() == fun.params@[i as int]);
            let k = match self.kind_of(fun.params[i].0) {
                Ok(k) => k,
                Err(e) => {
                    proof {
                        lemma_bind_params_prefix(heap, env0, fun.params@, i + 1);
                    }
                    return Err(e);
                },
            };
            types.push(self.type_of(k));
            kinds.push(k);
            let v = self.declare_var(fun.params[i].1.as_str(), k);
            facts = self.assume_unsigned(fun.params[i].0, &v, facts);
            assert(kinds@ =~= param_kinds(heap, fun.params@.subrange(0, i + 1)));
            i += 1;
        }
        assert(fun.params@.subrange(0, i as int) =~= fun.params@);
        let ghost env1 = self.env@;
        // Conjoin preconditions into the path condition.
        let pc = match self.generate_decl_precondition(fun, facts) {
            Ok(q) => q,
            Err(e) => {
                return Err(e);
            },
        };
        // Generate verification conditions from body
        let ghost p0 = pc.formula();
        let mut pb = self.generate_term(fun.body, pc)?;
        let ghost obs1 = self.circuit.obligations();
        let ghost pb0 = pb.formula();
        // Relate a single return value to the body
        let nrets = fun.rets.len();
        if nrets > 1 {
            return Err(VerifierError {});
        }
        let mut ret_kind: Kind = Kind::Bool;
        if nrets == 1 {
            let k = self.kind_of(fun.rets[0].0)?;
            let body = match k {
                Kind::Bool => self.translate_bool(fun.body)?.to_any(),
                Kind::Int => self.translate_int(fun.body)?.to_any(),
            };
            let v = self.declare_var(fun.rets[0].1.as_str(), k);
            pb = pb.and(&v.eq(&body));
            pb = self.assume_unsigned(fun.rets[0].0, &v, pb);
            ret_kind = k;
        }
        let ghost env2 = self.env@;
        // Generate one verification condition per postcondition
        let ghost eobs = ensures_obligations(heap, env2, fun.ensures@, pb.formula()).unwrap();
        self.generate_decl_checks(fun, &pb)?;
        proof {
            let g = gen(heap, env1, fun.body as int, p0).unwrap();
            assert(obs0 + g.0 + eobs =~= obs0 + (g.0 + eobs));
        }
        // Declare an uninterpreted function symbol so that later callers can
        // invoke this function.
        if nrets == 1 {
            let rts: Vec<C::Type> = vec![self.type_of(ret_kind)];
            let decl = self.circuit.declare_fn(fun.name.as_str(), types.as_slice(), rts.as_slice());
            self.env.declare_fn(decl, kinds, ret_kind);
        }
        Ok(precondition)
    }

    // ===================================================================================
    // Terms
    // ===================================================================================

    /// Generate the verification conditions of the term at `index` under
    /// `precondition`, and return the path condition that holds after it.
    fn generate_term(&mut self, index: usize, precondition: C::Bool) -> (r: Result<
        C::Bool,
        VerifierError,
    >)
        requires
            old(self).heap.wf(),
        ensures
            final(self).heap == old(self).heap,
            final(self).env@ == old(self).env@,
            match gen(old(self).heap@, old(self).env@, index as int, precondition.formula()) {
                Some((obs, q)) => r is Ok && r.unwrap().formula() == q
                    && final(self).circuit.obligations() == old(self).circuit.obligations() + obs,
                None => r is Err,
            },
        decreases index, 5nat,
    {
        if index >= self.heap.len() {
            return Err(VerifierError {});
        }
        let term = self.heap.get(index);
        proof {
            assert(refs_below(self.heap@[index as int], index as int));
        }
        match term {
            // Statements
            Term::Block(terms) => self.generate_stmt_block(index, terms, precondition),
            Term::Assume(e) => {
                proof {
                    assert(refs(*term)[0] == *e);
                }
                self.generate_stmt_assume(index, *e, precondition)
            },
            Term::Assert(e) => {
                proof {
                    assert(refs(*term)[0] == *e);
                }
                self.generate_stmt_assert(index, *e, precondition)
            },
            // Expressions
            Term::Binary(bop, lhs, rhs) => {
                proof {
                    assert(refs(*term)[0] == *lhs);
                    assert(refs(*term)[1] == *rhs);
                }
                self.generate_expr_binary(index, *bop, *lhs, *rhs, precondition)
            },
            Term::Braced(lhs) => {
                proof {
                    assert(refs(*term)[0] == *lhs);
                }
                let _ = self.generate_term(*lhs, precondition.duplicate())?;
                Ok(precondition)
            },
            Term::IfElse { cond, tt, ff } => {
                proof {
                    assert(refs(*term)[0] == *cond);
                    assert(refs(*term)[1] == *tt);
                    assert(refs(*term)[2] == *ff);
                }
                self.generate_expr_ifelse(index, *cond, *tt, *ff, precondition)
            },
            Term::StaticInvoke(name, args) => self.generate_expr_invoke(index, name, args, precondition),
            Term::VarAccess(_) => {
                assert(self.circuit.obligations() + seq![] =~= self.circuit.obligations());
                Ok(precondition)
            },
            Term::BoolLiteral(_) => {
                assert(self.circuit.obligations() + seq![] =~= self.circuit.obligations());
                Ok(precondition)
            },
            Term::IntLiteral(_) => {
                assert(self.circuit.obligations() + seq![] =~= self.circuit.obligations());
                Ok(precondition)
            },
            _ => Err(VerifierError {}),
        }
    }

    // ===================================================================================
    // Statements
    // ===================================================================================

    fn generate_stmt_block(&mut self, index: usize, terms: &Vec<usize>, precondition: C::Bool) -> (r:
        Result<C::Bool, VerifierError>)
        requires
            old(self).heap.wf(),
            index < old(self).heap@.len(),
            old(self).heap@[index as int] == Term::Block(*terms),
        ensures
            final(self).heap == old(self).heap,
            final(self).env@ == old(self).env@,
            match gen_seq(old(self).heap@, old(self).env@, terms@, index as int, precondition.formula()) {
                Some((obs, q)) => r is Ok && r.unwrap().formula() == q
                    && final(self).circuit.obligations() == old(self).circuit.obligations() + obs,
                None => r is Err,
            },
        decreases index, 4nat,
    {
        let ghost heap = self.heap@;
        let ghost env = self.env@;
        let ghost p0 = precondition.formula();
        let ghost obs0 = self.circuit.obligations();
        let mut pc = precondition;
        let ghost mut obs: Seq<Formula> = seq![];
        proof {
            assert(refs_below(heap[index as int], index as int));
            assert(terms@.subrange(0, 0) =~= seq![]);
        }
        let mut i: usize = 0;
        while i < terms.len()
            invariant
                self.heap.wf(),
                self.heap@ == heap,
                self.env@ == env,
                self.heap == old(self).heap,
                heap[index as int] == Term::Block(*terms),
                refs_below(heap[index as int], index as int),
                index < heap.len(),
                i <= terms@.len(),
                gen_seq(heap, env, terms@.subrange(0, i as int), index as int, p0) == Some(
                    (obs, pc.formula()),
                ),
                self.circuit.obligations() == obs0 + obs,
                heap == old(self).heap@,
                env == old(self).env@,
                obs0 == old(self).circuit.obligations(),
                p0 == precondition.formula(),
            decreases terms@.len() - i,
        {
            let ghost sub = terms@.subrange(0, i + 1);
            assert(sub.drop_last() =~= terms@.subrange(0, i as int));
            assert(sub.last() == terms@[i as int]);
            assert(refs(heap[index as int])[i as int] == terms@[i as int]);
            let ghost p1 = pc.formula();
            pc = match self.generate_term(terms[i], pc) {
                Ok(q) => q,
                Err(e) => {
                    proof {
                        lemma_gen_seq_prefix(heap, env, terms@, index as int, p0, i + 1);
                    }
                    return Err(e);
                },
            };
            proof {
                let g2 = gen(heap, env, terms@[i as int] as int, p1).unwrap();
                assert(obs0 + obs + g2.0 =~= obs0 + (obs + g2.0));
                obs = obs + g2.0;
            }
            i += 1;
        }
        assert(terms@.subrange(0, i as int) =~= terms@);
        Ok(pc)
    }

    fn generate_stmt_assume(&mut self, index: usize, expr: usize, precondition: C::Bool) -> (r: Result<
        C::Bool,
        VerifierError,
    >)
        requires
            old(self).heap.wf(),
            index < old(self).heap@.len(),
            old(self).heap@[index as int] == Term::Assume(expr),
            expr < index,
        ensures
            final(self).heap == old(self).heap,
            final(self).env@ == old(self).env@,
            match gen(old(self).heap@, old(self).env@, index as int, precondition.formula()) {
                Some((obs, q)) => r is Ok && r.unwrap().formula() == q
                    && final(self).circuit.obligations() == old(self).circuit.obligations() + obs,
                None => r is Err,
            },
        decreases index, 4nat,
    {
        // Extract verification conditions from operand
        let _ = self.generate_term(expr, precondition.duplicate())?;
        // Translate expression
        let assumption = self.translate_bool(expr)?;
        // Include assumption
        Ok(precondition.and(&assumption))
    }

    fn generate_stmt_assert(&mut self, index: usize, expr: usize, precondition: C::Bool) -> (r: Result<
        C::Bool,
        VerifierError,
    >)
        requires
            old(self).heap.wf(),
            index < old(self).heap@.len(),
            old(self).heap@[index as int] == Term::Assert(expr),
            expr < index,
        ensures
            final(self).heap == old(self).heap,
            final(self).env@ == old(self).env@,
            match gen(old(self).heap@, old(self).env@, index as int, precondition.formula()) {
                Some((obs, q)) => r is Ok && r.unwrap().formula() == q
                    && final(self).circuit.obligations() == old(self).circuit.obligations() + obs,
                None => r is Err,
            },
        decreases index, 4nat,
    {
        let ghost obs0 = self.circuit.obligations();
        // Extract verification conditions from operand
        let _ = self.generate_term(expr, precondition.duplicate())?;
        // Translate expression
        let assertion = self.translate_bool(expr)?;
        let ghost obs1 = self.circuit.obligations();
        // Emit verification condition (i.e. precondition ==> assertion)
        self.circuit.assert_condition(precondition.implies(&assertion));
        proof {
            let g = gen(self.heap@, self.env@, expr as int, precondition.formula()).unwrap();
            assert(obs1 == obs0 + g.0);
            assert(obs0 + g.0.push(implies_f(precondition.formula(), assertion.formula())) =~= obs1.push(
                implies_f(precondition.formula(), assertion.formula()),
            ));
        }
        // Include assertion as assumption going forward
        Ok(precondition.and(&assertion))
    }

    // ===================================================================================
    // Expressions
    // ===================================================================================

    /// Extract verification conditions from a binary expression.
    /// Whilst some binary operators (e.g. `/`) generate verification
    /// conditions, most don't.  In all cases, we must recursively
    /// generate verification conditions for the operands.
    fn generate_expr_binary(
        &mut self,
        index: usize,
        bop: BinOp,
        lhs: usize,
        rhs: usize,
        precondition: C::Bool,
    ) -> (r: Result<C::Bool, VerifierError>)
        requires
            old(self).heap.wf(),
            lhs < index,
            rhs < index,
        ensures
            final(self).heap == old(self).heap,
            final(self).env@ == old(self).env@,
            match gen_binary(
                old(self).heap@,
                old(self).env@,
                index as int,
                bop,
                lhs as int,
                rhs as int,
                precondition.formula(),
            ) {
                Some(obs) => r is Ok && r.unwrap().formula() == precondition.formula()
                    && final(self).circuit.obligations() == old(self).circuit.obligations() + obs,
                None => r is Err,
            },
        decreases index, 4nat,
    {
        match bop {
            BinOp::LogicalAnd => self.generate_expr_and(index, lhs, rhs, precondition),
            BinOp::LogicalOr => self.generate_expr_or(index, lhs, rhs, precondition),
            BinOp::LogicalImplies => self.generate_expr_implies(index, lhs, rhs, precondition),
            BinOp::Subtract => self.generate_expr_sub(index, lhs, rhs, precondition),
            BinOp::Divide => self.generate_expr_div(index, lhs, rhs, precondition),
            BinOp::Remainder => self.generate_expr_rem(index, lhs, rhs, precondition),
            _ => {
                let ghost obs0 = self.circuit.obligations();
                self.generate_operands(index, lhs, rhs, &precondition)?;
                proof {
                    let p = precondition.formula();
                    let gl = gen(self.heap@, self.env@, lhs as int, p).unwrap();
                    let gr = gen(self.heap@, self.env@, rhs as int, p).unwrap();
                    assert(obs0 + gl.0 + gr.0 =~= obs0 + (gl.0 + gr.0));
                }
                Ok(precondition)
            },
        }
    }

    /// Generate the conditions of both operands, each under `precondition`.
    fn generate_operands(&mut self, index: usize, lhs: usize, rhs: usize, precondition: &C::Bool) -> (r:
        Result<(), VerifierError>)
        requires
            old(self).heap.wf(),
            lhs < index,
            rhs < index,
        ensures
            final(self).heap == old(self).heap,
            final(self).env@ == old(self).env@,
            match (
                gen(old(self).heap@, old(self).env@, lhs as int, precondition.formula()),
                gen(old(self).heap@, old(self).env@, rhs as int, precondition.formula()),
            ) {
                (Some(gl), Some(gr)) => r is Ok && final(self).circuit.obligations() == old(
                    self,
                ).circuit.obligations() + gl.0 + gr.0,
                _ => r is Err,
            },
        decreases index, 1nat,
    {
        let _ = self.generate_term(lhs, precondition.duplicate())?;
        let _ = self.generate_term(rhs, precondition.duplicate())?;
        Ok(())
    }

    /// Generate the conditions of `lhs` under `precondition`, and those of
    /// `rhs` under `precondition` conjoined with `lhs` (or its negation).
    fn generate_guarded(&mut self, index: usize, lhs: usize, rhs: usize, precondition: C::Bool, negate: bool) -> (r:
        Result<C::Bool, VerifierError>)
        requires
            old(self).heap.wf(),
            lhs < index,
            rhs < index,
        ensures
            final(self).heap == old(self).heap,
            final(self).env@ == old(self).env@,
            match gen_guarded(
                old(self).heap@,
                old(self).env@,
                index as int,
                lhs as int,
                rhs as int,
                precondition.formula(),
                negate,
            ) {
                Some(obs) => r is Ok && r.unwrap().formula() == precondition.formula()
                    && final(self).circuit.obligations() == old(self).circuit.obligations() + obs,
                None => r is Err,
            },
        decreases index, 2nat,
    {
        // Extract vcs from left-hand side
        let _ = self.generate_term(lhs, precondition.duplicate())?;
        // Translate left-hand side
        let l = self.translate_bool(lhs)?;
        // The right-hand side is only executed when the left-hand side
        // is true (respectively false).
        let guard = if negate {
            precondition.and(&l.not())
        } else {
            precondition.and(&l)
        };
        // Extract vcs from right-hand side
        let _ = self.generate_term(rhs, guard)?;
        Ok(precondition)
    }

    /// For an expression `e1 && e2` it follows (by short circuiting)
    /// that `e2` is only executed when `e1` is true.  Therefore,
    /// when executing `e2` we can safely assume that `e1` holds.
    fn generate_expr_and(&mut self, index: usize, lhs: usize, rhs: usize, precondition: C::Bool) -> (r:
        Result<C::Bool, VerifierError>)
        requires
            old(self).heap.wf(),
            lhs < index,
            rhs < index,
        ensures
            final(self).heap == old(self).heap,
            final(self).env@ == old(self).env@,
            match gen_guarded(
                old(self).heap@,
                old(self).env@,
                index as int,
                lhs as int,
                rhs as int,
                precondition.formula(),
                false,
            ) {
                Some(obs) => r is Ok && r.unwrap().formula() == precondition.formula()
                    && final(self).circuit.obligations() == old(self).circuit.obligations() + obs,
                None => r is Err,
            },
        decreases index, 3nat,
    {
        self.generate_guarded(index, lhs, rhs, precondition, false)
    }

    /// For an expression `e1 || e2` it follows (by short circuiting)
    /// that `e2` is only executed when `e1` is false.  Therefore,
    /// when executing `e2` we can safely assume that `e1` is false.
    fn generate_expr_or(&mut self, index: usize, lhs: usize, rhs: usize, precondition: C::Bool) -> (r:
        Result<C::Bool, VerifierError>)
        requires
            old(self).heap.wf(),
            lhs < index,
            rhs < index,
        ensures
            final(self).heap == old(self).heap,
            final(self).env@ == old(self).env@,
            match gen_guarded(
                old(self).heap@,
                old(self).env@,
                index as int,
                lhs as int,
                rhs as int,
                precondition.formula(),
                true,
            ) {
                Some(obs) => r is Ok && r.unwrap().formula() == precondition.formula()
                    && final(self).circuit.obligations() == old(self).circuit.obligations() + obs,
                None => r is Err,
            },
        decreases index, 3nat,
    {
        self.generate_guarded(index, lhs, rhs, precondition, true)
    }

    /// For an expression `e1 ==> e2` it follows (by short circuiting)
    /// that `e2` is only executed when `e1` is true.  Therefore,
    /// when executing `e2` we can safely assume that `e1` holds.
    fn generate_expr_implies(&mut self, index: usize, lhs: usize, rhs: usize, precondition: C::Bool) -> (r:
        Result<C::Bool, VerifierError>)
        requires
            old(self).heap.wf(),
            lhs < index,
            rhs < index,
        ensures
            final(self).heap == old(self).heap,
            final(self).env@ == old(self).env@,
            match gen_guarded(
                old(self).heap@,
                old(self).env@,
                index as int,
                lhs as int,
                rhs as int,
                precondition.formula(),
                false,
            ) {
                Some(obs) => r is Ok && r.unwrap().formula() == precondition.formula()
                    && final(self).circuit.obligations() == old(self).circuit.obligations() + obs,
                None => r is Err,
            },
        decreases index, 3nat,
    {
        self.generate_guarded(index, lhs, rhs, precondition, false)
    }

    /// For an expression `x - y` which produces an unsigned integer,
    /// it follows that `x >= y` must hold.
    fn generate_expr_sub(&mut self, index: usize, lhs: usize, rhs: usize, precondition: C::Bool) -> (r:
        Result<C::Bool, VerifierError>)
        requires
            old(self).heap.wf(),
            lhs < index,
            rhs < index,
        ensures
            final(self).heap == old(self).heap,
            final(self).env@ == old(self).env@,
            match gen_binary(
                old(self).heap@,
                old(self).env@,
                index as int,
                BinOp::Subtract,
                lhs as int,
                rhs as int,
                precondition.formula(),
            ) {
                Some(obs) => r is Ok && r.unwrap().formula() == precondition.formula()
                    && final(self).circuit.obligations() == old(self).circuit.obligations() + obs,
                None => r is Err,
            },
        decreases index, 3nat,
    {
        let ghost obs0 = self.circuit.obligations();
        // Extract vcs from left and right-hand sides
        self.generate_operands(index, lhs, rhs, &precondition)?;
        let ghost obs1 = self.circuit.obligations();
        // Translate left & right-hand sides
        let l = self.translate_int(lhs)?;
        let r = self.translate_int(rhs)?;
        // Emit verification condition (i.e. lhs >= rhs)
        let claim = l.gteq(&r);
        self.circuit.assert_condition(precondition.implies(&claim));
        proof {
            let p = precondition.formula();
            let gl = gen(self.heap@, self.env@, lhs as int, p).unwrap();
            let gr = gen(self.heap@, self.env@, rhs as int, p).unwrap();
            let c = implies_f(p, claim.formula());
            assert(obs0 + gl.0 + gr.0 + seq![c] =~= obs0 + (gl.0 + gr.0.push(c)));
            assert(obs1.push(c) =~= obs0 + gl.0 + gr.0 + seq![c]);
        }
        // Done
        Ok(precondition)
    }

    /// Emit the condition that the divisor `rhs` is non-zero.
    fn generate_nonzero_divisor(&mut self, index: usize, bop: BinOp, lhs: usize, rhs: usize, precondition: C::Bool) -> (r:
        Result<C::Bool, VerifierError>)
        requires
            old(self).heap.wf(),
            lhs < index,
            rhs < index,
            bop == BinOp::Divide || bop == BinOp::Remainder,
        ensures
            final(self).heap == old(self).heap,
            final(self).env@ == old(self).env@,
            match gen_binary(
                old(self).heap@,
                old(self).env@,
                index as int,
                bop,
                lhs as int,
                rhs as int,
                precondition.formula(),
            ) {
                Some(obs) => r is Ok && r.unwrap().formula() == precondition.formula()
                    && final(self).circuit.obligations() == old(self).circuit.obligations() + obs,
                None => r is Err,
            },
        decreases index, 2nat,
    {
        let ghost obs0 = self.circuit.obligations();
        // Extract vcs from left and right-hand sides
        self.generate_operands(index, lhs, rhs, &precondition)?;
        let ghost obs1 = self.circuit.obligations();
        // Translate right-hand side
        let r = self.translate_int(rhs)?;
        // Emit verification condition (i.e. rhs != 0)
        let claim = r.non_zero();
        self.circuit.assert_condition(precondition.implies(&claim));
        proof {
            let p = precondition.formula();
            let gl = gen(self.heap@, self.env@, lhs as int, p).unwrap();
            let gr = gen(self.heap@, self.env@, rhs as int, p).unwrap();
            let c = implies_f(p, claim.formula());
            assert(obs0 + gl.0 + gr.0 + seq![c] =~= obs0 + (gl.0 + gr.0.push(c)));
            assert(obs1.push(c) =~= obs0 + gl.0 + gr.0 + seq![c]);
        }
        Ok(precondition)
    }

    /// For an expression `x / y`, it follows that `y != 0` must hold.
    fn generate_expr_div(&mut self, index: usize, lhs: usize, rhs: usize, precondition: C::Bool) -> (r:
        Result<C::Bool, VerifierError>)
        requires
            old(self).heap.wf(),
            lhs < index,
            rhs < index,
        ensures
            final(self).heap == old(self).heap,
            final(self).env@ == old(self).env@,
            match gen_binary(
                old(self).heap@,
                old(self).env@,
                index as int,
                BinOp::Divide,
                lhs as int,
                rhs as int,
                precondition.formula(),
            ) {
                Some(obs) => r is Ok && r.unwrap().formula() == precondition.formula()
                    && final(self).circuit.obligations() == old(self).circuit.obligations() + obs,
                None => r is Err,
            },
        decreases index, 3nat,
    {
        self.generate_nonzero_divisor(index, BinOp::Divide, lhs, rhs, precondition)
    }

    /// For an expression `x % y`, it follows that `y != 0` must hold.
    fn generate_expr_rem(&mut self, index: usize, lhs: usize, rhs: usize, precondition: C::Bool) -> (r:
        Result<C::Bool, VerifierError>)
        requires
            old(self).heap.wf(),
            lhs < index,
            rhs < index,
        ensures
            final(self).heap == old(self).heap,
            final(self).env@ == old(self).env@,
            match gen_binary(
                old(self).heap@,
                old(self).env@,
                index as int,
                BinOp::Remainder,
                lhs as int,
                rhs as int,
                precondition.formula(),
            ) {
                Some(obs) => r is Ok && r.unwrap().formula() == precondition.formula()
                    && final(self).circuit.obligations() == old(self).circuit.obligations() + obs,
                None => r is Err,
            },
        decreases index, 3nat,
    {
        self.generate_nonzero_divisor(index, BinOp::Remainder, lhs, rhs, precondition)
    }

    /// For an expression `if e1 { e2 } else { e3 }`, it follows that
    /// `e2` is only executed when `e1` is true (and vice-versa for
    /// `e3`).  Therefore, when executing `e2` we can safely assume
    /// that `e1` holds (respectively, for `e3` that `e1` does not
    /// hold).
    fn generate_expr_ifelse(
        &mut self,
        index: usize,
        cond: usize,
        lhs: usize,
        rhs: usize,
        precondition: C::Bool,
    ) -> (r: Result<C::Bool, VerifierError>)
        requires
            old(self).heap.wf(),
            cond < index,
            lhs < index,
            rhs < index,
        ensures
            final(self).heap == old(self).heap,
            final(self).env@ == old(self).env@,
            match gen_ifelse(
                old(self).heap@,
                old(self).env@,
                index as int,
                cond as int,
                lhs as int,
                rhs as int,
                precondition.formula(),
            ) {
                Some(obs) => r is Ok && r.unwrap().formula() == precondition.formula()
                    && final(self).circuit.obligations() == old(self).circuit.obligations() + obs,
                None => r is Err,
            },
        decreases index, 4nat,
    {
        let ghost obs0 = self.circuit.obligations();
        // Extract vcs from condition
        let _ = self.generate_term(cond, precondition.duplicate())?;
        // Translate condition
        let c = self.translate_bool(cond)?;
        // Extract vcs from each branch, knowing which way the condition went
        let _ = self.generate_term(lhs, precondition.and(&c))?;
        let _ = self.generate_term(rhs, precondition.and(&c.not()))?;
        proof {
            let p = precondition.formula();
            let gc = gen(self.heap@, self.env@, cond as int, p).unwrap();
            let gt = gen(self.heap@, self.env@, lhs as int, and_f(p, c.formula())).unwrap();
            let gf = gen(self.heap@, self.env@, rhs as int, and_f(p, not_f(c.formula()))).unwrap();
            assert(obs0 + gc.0 + gt.0 + gf.0 =~= obs0 + (gc.0 + gt.0 + gf.0));
        }
        Ok(precondition)
    }

    fn generate_expr_invoke(
        &mut self,
        index: usize,
        name: &String,
        args: &Vec<usize>,
        precondition: C::Bool,
    ) -> (r: Result<C::Bool, VerifierError>)
        requires
            old(self).heap.wf(),
            index < old(self).heap@.len(),
            old(self).heap@[index as int] == Term::StaticInvoke(*name, *args),
        ensures
            final(self).heap == old(self).heap,
            final(self).env@ == old(self).env@,
            match gen_each(old(self).heap@, old(self).env@, args@, index as int, precondition.formula()) {
                Some(obs) => r is Ok && r.unwrap().formula() == precondition.formula()
                    && final(self).circuit.obligations() == old(self).circuit.obligations() + obs,
                None => r is Err,
            },
        decreases index, 4nat,
    {
        let ghost heap = self.heap@;
        let ghost env = self.env@;
        let ghost p = precondition.formula();
        let ghost obs0 = self.circuit.obligations();
        let ghost mut obs: Seq<Formula> = seq![];
        proof {
            assert(refs_below(heap[index as int], index as int));
            assert(refs(heap[index as int]) == args@);
            assert(args@.subrange(0, 0) =~= seq![]);
        }
        // Generate verification conditions from arguments
        let mut i: usize = 0;
        while i < args.len()
            invariant
                self.heap.wf(),
                self.heap@ == heap,
                self.env@ == env,
                self.heap == old(self).heap,
                refs(heap[index as int]) == args@,
                refs_below(heap[index as int], index as int),
                precondition.formula() == p,
                i <= args@.len(),
                gen_each(heap, env, args@.subrange(0, i as int), index as int, p) == Some(obs),
                self.circuit.obligations() == obs0 + obs,
                heap == old(self).heap@,
                env == old(self).env@,
                obs0 == old(self).circuit.obligations(),
            decreases args@.len() - i,
        {
            let ghost sub = args@.subrange(0, i + 1);
            assert(sub.drop_last() =~= args@.subrange(0, i as int));
            assert(sub.last() == args@[i as int]);
            assert(refs(heap[index as int])[i as int] == args@[i as int]);
            match self.generate_term(args[i], precondition.duplicate()) {
                Ok(_) => {},
                Err(e) => {
                    proof {
                        lemma_gen_each_prefix(heap, env, args@, index as int, p, i + 1);
                    }
                    return Err(e);
                },
            }
            proof {
                let g2 = gen(heap, env, args@[i as int] as int, p).unwrap();
                assert(obs0 + obs + g2.0 =~= obs0 + (obs + g2.0));
                obs = obs + g2.0;
            }
            i += 1;
        }
        assert(args@.subrange(0, i as int) =~= args@);
        Ok(precondition)
    }
}

} // verus!
