use vstd::prelude::*;
use crate::ast::{BinOp, SyntacticHeap, Term};
use crate::circuit::{Any, Bool, Circuit, Formula, Function, Int, Kind, Logical, LogicOp, Signature,
    Type, app2, app3, sort_of};
use super::{EnvModel, Environment, lookup_fun, lookup_var};
use super::vcg::VerifierError;

verus! {

pub open spec fn is_arithmetic(op: BinOp) -> bool {
    op == BinOp::Add || op == BinOp::Subtract || op == BinOp::Multiply || op == BinOp::Divide
        || op == BinOp::Remainder
}

pub open spec fn is_relational(op: BinOp) -> bool {
    op == BinOp::LessThan || op == BinOp::LessThanOrEquals || op == BinOp::GreaterThan || op
        == BinOp::GreaterThanOrEquals
}

pub open spec fn is_equational(op: BinOp) -> bool {
    op == BinOp::Equals || op == BinOp::NotEquals
}

/// The logical operator a binary source operator translates to.
pub open spec fn binop_logic(op: BinOp) -> LogicOp {
    match op {
        BinOp::Add => LogicOp::Add,
        BinOp::Subtract => LogicOp::Sub,
        BinOp::Multiply => LogicOp::Mul,
        BinOp::Divide => LogicOp::Div,
        BinOp::Remainder => LogicOp::Mod,
        BinOp::Equals => LogicOp::Eq,
        BinOp::NotEquals => LogicOp::Neq,
        BinOp::LessThan => LogicOp::Lt,
        BinOp::LessThanOrEquals => LogicOp::LtEq,
        BinOp::GreaterThan => LogicOp::Gt,
        BinOp::GreaterThanOrEquals => LogicOp::GtEq,
        BinOp::LogicalAnd => LogicOp::And,
        BinOp::LogicalOr => LogicOp::Or,
        BinOp::LogicalImplies => LogicOp::Implies,
    }
}

/// The translation of a binary expression from those of its operands:
/// arithmetic takes and gives integers, comparisons take integers,
/// equality takes two operands of one sort, and the connectives take
/// booleans.
pub open spec fn typed_binary(op: BinOp, l: (Formula, Kind), r: (Formula, Kind)) -> Option<
    (Formula, Kind),
> {
    let f = app2(binop_logic(op), l.0, r.0);
    if is_arithmetic(op) {
        if l.1 == Kind::Int && r.1 == Kind::Int {
            Some((f, Kind::Int))
        } else {
            None
        }
    } else if is_relational(op) {
        if l.1 == Kind::Int && r.1 == Kind::Int {
            Some((f, Kind::Bool))
        } else {
            None
        }
    } else if is_equational(op) {
        if l.1 == r.1 {
            Some((f, Kind::Bool))
        } else {
            None
        }
    } else {
        if l.1 == Kind::Bool && r.1 == Kind::Bool {
            Some((f, Kind::Bool))
        } else {
            None
        }
    }
}

/// The translation of the term at index `i` with its sort, or `None` where
/// the term cannot be translated (an unsupported variant, an unbound name,
/// a sort mismatch, a multi-statement block).
pub open spec fn typed(heap: Seq<Term>, env: EnvModel, i: int) -> Option<(Formula, Kind)>
    decreases i, 1nat, 0nat,
{
    if !(0 <= i < heap.len()) {
        None
    } else {
        match heap[i] {
            Term::BoolLiteral(b) => Some((Formula::BoolLit(b), Kind::Bool)),
            Term::IntLiteral(n) => Some((Formula::IntLit(n as nat), Kind::Int)),
            Term::VarAccess(x) => lookup_var(env.vars, x@),
            Term::Braced(e) => if e < i {
                typed(heap, env, e as int)
            } else {
                None
            },
            Term::Block(ss) => if ss@.len() == 1 && ss@[0] < i {
                typed(heap, env, ss@[0] as int)
            } else {
                None
            },
            Term::Binary(op, l, r) => if l < i && r < i {
                match (typed(heap, env, l as int), typed(heap, env, r as int)) {
                    (Some(tl), Some(tr)) => typed_binary(op, tl, tr),
                    _ => None,
                }
            } else {
                None
            },
            Term::IfElse { cond, tt, ff } => if cond < i && tt < i && ff < i {
                match (
                    typed(heap, env, cond as int),
                    typed(heap, env, tt as int),
                    typed(heap, env, ff as int),
                ) {
                    (Some(c), Some(t), Some(f)) => if c.1 == Kind::Bool && t.1 == f.1 {
                        Some((app3(LogicOp::IfThenElse, c.0, t.0, f.0), t.1))
                    } else {
                        None
                    },
                    _ => None,
                }
            } else {
                None
            },
            Term::StaticInvoke(n, args) => match lookup_fun(env.funs, n@) {
                Some((sym, ps, ret)) => match typed_args(heap, env, args@, i) {
                    Some(ts) => if ts.len() == ps.len() && (forall|k: int|
                        0 <= k < ts.len() ==> (#[trigger] ts[k]).1 == ps[k]) {
                        Some((Formula::Call(sym, ts.map_values(|t: (Formula, Kind)| t.0)), ret))
                    } else {
                        None
                    },
                    None => None,
                },
                None => None,
            },
            _ => None,
        }
    }
}

/// The translations of a sequence of terms, each below `bound`.
pub open spec fn typed_args(heap: Seq<Term>, env: EnvModel, args: Seq<usize>, bound: int) -> Option<
    Seq<(Formula, Kind)>,
>
    decreases bound, 0nat, args.len(),
{
    if args.len() == 0 {
        Some(seq![])
    } else if 0 <= args.last() < bound {
        match (typed_args(heap, env, args.drop_last(), bound), typed(heap, env, args.last() as int)) {
            (Some(ts), Some(t)) => Some(ts.push(t)),
            _ => None,
        }
    } else {
        None
    }
}

/// The sort that a type term denotes.
pub open spec fn type_kind(t: Term) -> Option<Kind> {
    match t {
        Term::BoolType => Some(Kind::Bool),
        Term::IntType(_) => Some(Kind::Int),
        _ => None,
    }
}

/// Every binding of the environment has, under the circuit's declarations,
/// the sort it is recorded with.
pub open spec fn env_sorted(env: EnvModel, sig: Signature) -> bool {
    &&& forall|k: int|
        0 <= k < env.vars.len() ==> sort_of(#[trigger] env.vars[k].1, sig) == Some(env.vars[k].2)
    &&& forall|k: int|
        0 <= k < env.funs.len() ==> sig.funs.contains_key(#[trigger] env.funs[k].1) && sig.funs[env.funs[k].1]
            == (env.funs[k].2, env.funs[k].3)
}

proof fn lemma_lookup_var_sorted(vars: Seq<(Seq<char>, Formula, Kind)>, n: Seq<char>, sig: Signature)
    requires
        forall|k: int| 0 <= k < vars.len() ==> sort_of(#[trigger] vars[k].1, sig) == Some(vars[k].2),
        lookup_var(vars, n) is Some,
    ensures
        sort_of(lookup_var(vars, n).unwrap().0, sig) == Some(lookup_var(vars, n).unwrap().1),
    decreases vars.len(),
{
    if vars.last().0 != n {
        let d = vars.drop_last();
        assert forall|k: int| 0 <= k < d.len() implies sort_of(#[trigger] d[k].1, sig) == Some(d[k].2) by {
            assert(d[k] == vars[k]);
        }
        lemma_lookup_var_sorted(d, n, sig);
    } else {
        assert(vars.last() == vars[vars.len() - 1]);
    }
}

proof fn lemma_lookup_fun_sorted(
    funs: Seq<(Seq<char>, Seq<char>, Seq<Kind>, Kind)>,
    n: Seq<char>,
    sig: Signature,
)
    requires
        forall|k: int|
            0 <= k < funs.len() ==> sig.funs.contains_key(#[trigger] funs[k].1) && sig.funs[funs[k].1]
                == (funs[k].2, funs[k].3),
        lookup_fun(funs, n) is Some,
    ensures
        sig.funs.contains_key(lookup_fun(funs, n).unwrap().0),
        sig.funs[lookup_fun(funs, n).unwrap().0] == (lookup_fun(funs, n).unwrap().1, lookup_fun(funs, n).unwrap().2),
    decreases funs.len(),
{
    if funs.last().0 != n {
        let d = funs.drop_last();
        assert forall|k: int| 0 <= k < d.len() implies sig.funs.contains_key(#[trigger] d[k].1)
            && sig.funs[d[k].1] == (d[k].2, d[k].3) by {
            assert(d[k] == funs[k]);
        }
        lemma_lookup_fun_sorted(d, n, sig);
    } else {
        assert(funs.last() == funs[funs.len() - 1]);
    }
}

/// Translation is sort-correct: whenever the bindings of the environment
/// have their recorded sorts under the circuit's declarations, the formula
/// that a term translates to has, under those declarations, exactly the
/// sort that the translation assigns it.
pub proof fn lemma_translation_sorted(heap: Seq<Term>, env: EnvModel, sig: Signature, i: int)
    requires
        env_sorted(env, sig),
        typed(heap, env, i) is Some,
    ensures
        sort_of(typed(heap, env, i).unwrap().0, sig) == Some(typed(heap, env, i).unwrap().1),
    decreases i, 1nat, 0nat,
{
    match heap[i] {
        Term::VarAccess(x) => {
            lemma_lookup_var_sorted(env.vars, x@, sig);
        },
        Term::Braced(e) => {
            lemma_translation_sorted(heap, env, sig, e as int);
        },
        Term::Block(ss) => {
            lemma_translation_sorted(heap, env, sig, ss@[0] as int);
        },
        Term::Binary(op, l, r) => {
            lemma_translation_sorted(heap, env, sig, l as int);
            lemma_translation_sorted(heap, env, sig, r as int);
            let f = typed(heap, env, i).unwrap().0;
            assert(f->App_1[0] == typed(heap, env, l as int).unwrap().0);
            assert(f->App_1[1] == typed(heap, env, r as int).unwrap().0);
        },
        Term::IfElse { cond, tt, ff } => {
            lemma_translation_sorted(heap, env, sig, cond as int);
            lemma_translation_sorted(heap, env, sig, tt as int);
            lemma_translation_sorted(heap, env, sig, ff as int);
            let f = typed(heap, env, i).unwrap().0;
            assert(f->App_1[0] == typed(heap, env, cond as int).unwrap().0);
            assert(f->App_1[1] == typed(heap, env, tt as int).unwrap().0);
            assert(f->App_1[2] == typed(heap, env, ff as int).unwrap().0);
        },
        Term::StaticInvoke(n, args) => {
            let (sym, ps, ret) = lookup_fun(env.funs, n@)->0;
            lemma_lookup_fun_sorted(env.funs, n@, sig);
            lemma_args_sorted(heap, env, sig, args@, i);
            let ts = typed_args(heap, env, args@, i)->0;
            let fs = ts.map_values(|t: (Formula, Kind)| t.0);
            assert forall|k: int| 0 <= k < fs.len() implies sort_of(#[trigger] fs[k], sig) == Some(
                sig.funs[sym].0[k],
            ) by {
                assert(fs[k] == ts[k].0);
            }
        },
        _ => {},
    }
}

proof fn lemma_args_sorted(heap: Seq<Term>, env: EnvModel, sig: Signature, args: Seq<usize>, bound: int)
    requires
        env_sorted(env, sig),
        typed_args(heap, env, args, bound) is Some,
    ensures
        typed_args(heap, env, args, bound)->0.len() == args.len(),
        forall|k: int|
            0 <= k < args.len() ==> sort_of(#[trigger] typed_args(heap, env, args, bound)->0[k].0, sig)
                == Some(typed_args(heap, env, args, bound)->0[k].1),
    decreases bound, 0nat, args.len(),
{
    if args.len() > 0 {
        lemma_args_sorted(heap, env, sig, args.drop_last(), bound);
        lemma_translation_sorted(heap, env, sig, args.last() as int);
    }
}

/// Responsible for translating terms in the high-level Abstract
/// Syntax Tree.
pub struct Translator<'a, C: Circuit> {
    pub heap: &'a SyntacticHeap,
    /// Circuit being constructed.
    pub context: &'a C,
    /// Maps variables from the context.
    pub env: &'a Environment<C>,
}

impl<'a, C: Circuit> Translator<'a, C> {
    pub fn new(heap: &'a SyntacticHeap, context: &'a C, env: &'a Environment<C>) -> (r: Self)
        ensures
            *r.heap == *heap,
            *r.context == *context,
            *r.env == *env,
    {
        Self { heap, context, env }
    }

    // =========================================================================
    // Public Interface
    // =========================================================================
    /// Translate the term at a given `index` position within the heap
    /// into a circuit term. The term must translate: no unbound names,
    /// unsupported variants or sort mismatches.
    pub fn translate(&self, index: usize) -> (r: C::Term)
        requires
            self.heap.wf(),
            typed(self.heap@, self.env@, index as int) is Some,
        ensures
            r.formula() == typed(self.heap@, self.env@, index as int).unwrap().0,
    {
        match self.translate_typed(index) {
            Ok((t, _)) => t,
            Err(_) => vstd::pervasive::unreached(),
        }
    }

    /// Translate the term at a given `index` position within the heap
    /// into a _boolean_ circuit term; the term must translate with sort
    /// `Bool`.
    pub fn translate_bool(&self, index: usize) -> (r: C::Bool)
        requires
            self.heap.wf(),
            typed(self.heap@, self.env@, index as int) is Some,
            typed(self.heap@, self.env@, index as int).unwrap().1 == Kind::Bool,
        ensures
            r.formula() == typed(self.heap@, self.env@, index as int).unwrap().0,
            env_sorted(self.env@, self.context.signature()) ==> sort_of(
                r.formula(),
                self.context.signature(),
            ) == Some(Kind::Bool),
    {
        match self.try_translate_bool(index) {
            Ok(r) => r,
            Err(_) => vstd::pervasive::unreached(),
        }
    }

    /// Translate the term at a given `index` position within the heap
    /// into a _integer_ circuit term; the term must translate with sort
    /// `Int`.
    pub fn translate_int(&self, index: usize) -> (r: C::Int)
        requires
            self.heap.wf(),
            typed(self.heap@, self.env@, index as int) is Some,
            typed(self.heap@, self.env@, index as int).unwrap().1 == Kind::Int,
        ensures
            r.formula() == typed(self.heap@, self.env@, index as int).unwrap().0,
            env_sorted(self.env@, self.context.signature()) ==> sort_of(
                r.formula(),
                self.context.signature(),
            ) == Some(Kind::Int),
    {
        match self.try_translate_int(index) {
            Ok(r) => r,
            Err(_) => vstd::pervasive::unreached(),
        }
    }

    /// Translate the type term at `index` into a _sort_; it must be the
    /// boolean or an integer type.
    pub fn translate_type(&self, index: usize) -> (r: C::Type)
        requires
            index < self.heap@.len(),
            type_kind(self.heap@[index as int]) is Some,
        ensures
            r.kind() == type_kind(self.heap@[index as int]).unwrap(),
    {
        match self.heap.get(index) {
            Term::BoolType => self.context.bool_type(),
            Term::IntType(_) => self.context.int_type(),
            _ => vstd::pervasive::unreached(),
        }
    }

    /// Translate into a boolean term, or fail where the term does not
    /// translate with sort `Bool`.
    pub(crate) fn try_translate_bool(&self, index: usize) -> (r: Result<C::Bool, VerifierError>)
        requires
            self.heap.wf(),
        ensures
            match typed(self.heap@, self.env@, index as int) {
                Some((f, Kind::Bool)) => r is Ok && r.unwrap().formula() == f,
                _ => r is Err,
            },
            r is Ok && env_sorted(self.env@, self.context.signature()) ==> sort_of(
                r.unwrap().formula(),
                self.context.signature(),
            ) == Some(Kind::Bool),
    {
        match self.translate_typed(index) {
            Ok((t, Kind::Bool)) => {
                let r = C::Bool::from_any(&t);
                proof {
                    if env_sorted(self.env@, self.context.signature()) {
                        lemma_translation_sorted(
                            self.heap@,
                            self.env@,
                            self.context.signature(),
                            index as int,
                        );
                    }
                }
                Ok(r)
            },
            _ => Err(VerifierError {}),
        }
    }

    /// Translate into an integer term, or fail where the term does not
    /// translate with sort `Int`.
    pub(crate) fn try_translate_int(&self, index: usize) -> (r: Result<C::Int, VerifierError>)
        requires
            self.heap.wf(),
        ensures
            match typed(self.heap@, self.env@, index as int) {
                Some((f, Kind::Int)) => r is Ok && r.unwrap().formula() == f,
                _ => r is Err,
            },
            r is Ok && env_sorted(self.env@, self.context.signature()) ==> sort_of(
                r.unwrap().formula(),
                self.context.signature(),
            ) == Some(Kind::Int),
    {
        match self.translate_typed(index) {
            Ok((t, Kind::Int)) => {
                let r = C::Int::from_any(&t);
                proof {
                    if env_sorted(self.env@, self.context.signature()) {
                        lemma_translation_sorted(
                            self.heap@,
                            self.env@,
                            self.context.signature(),
                            index as int,
                        );
                    }
                }
                Ok(r)
            },
            _ => Err(VerifierError {}),
        }
    }

    // =========================================================================
    // Private Translation Helpers
    // =========================================================================
    /// Translate a term together with its sort.
    fn translate_typed(&self, index: usize) -> (r: Result<(C::Term, Kind), VerifierError>)
        requires
            self.heap.wf(),
        ensures
            match typed(self.heap@, self.env@, index as int) {
                Some((f, k)) => r is Ok && r.unwrap().0.formula() == f && r.unwrap().1 == k,
                None => r is Err,
            },
        decreases index, 1nat,
    {
        if index >= self.heap.len() {
            return Err(VerifierError {});
        }
        let term = self.heap.get(index);
        proof {
            assert(crate::ast::refs_below(self.heap@[index as int], index as int));
        }
        match term {
            Term::Block(stmts) => self.translate_block(index, stmts),
            Term::Binary(bop, lhs, rhs) => {
                proof {
                    assert(crate::ast::refs(*term)[0] == *lhs);
                    assert(crate::ast::refs(*term)[1] == *rhs);
                }
                self.translate_binary(index, *bop, *lhs, *rhs)
            },
            Term::Braced(lhs) => {
                proof {
                    assert(crate::ast::refs(*term)[0] == *lhs);
                }
                self.translate_typed(*lhs)
            },
            Term::IfElse { cond, tt, ff } => {
                proof {
                    assert(crate::ast::refs(*term)[0] == *cond);
                    assert(crate::ast::refs(*term)[1] == *tt);
                    assert(crate::ast::refs(*term)[2] == *ff);
                }
                self.translate_ifelse(index, *cond, *tt, *ff)
            },
            Term::StaticInvoke(n, args) => self.translate_static_invoke(index, n, args),
            Term::VarAccess(s) => self.translate_var(s.as_str()),
            // Literals
            Term::BoolLiteral(v) => Ok((self.translate_bool_literal(*v), Kind::Bool)),
            Term::IntLiteral(v) => Ok((self.translate_int_literal(*v), Kind::Int)),
            _ => Err(VerifierError {}),
        }
    }

    fn translate_block(&self, index: usize, indices: &Vec<usize>) -> (r: Result<
        (C::Term, Kind),
        VerifierError,
    >)
        requires
            self.heap.wf(),
            index < self.heap@.len(),
            self.heap@[index as int] == Term::Block(*indices),
        ensures
            match typed(self.heap@, self.env@, index as int) {
                Some((f, k)) => r is Ok && r.unwrap().0.formula() == f && r.unwrap().1 == k,
                None => r is Err,
            },
        decreases index, 0nat,
    {
        // Multi-statement blocks are not supported
        if indices.len() != 1 {
            return Err(VerifierError {});
        }
        proof {
            assert(crate::ast::refs_below(self.heap@[index as int], index as int));
            assert(crate::ast::refs(self.heap@[index as int])[0] == indices@[0]);
        }
        self.translate_typed(indices[0])
    }

    /// Translate an arbitrary binary expression.  This is done by
    /// considering the main categories separately.
    fn translate_binary(&self, index: usize, bop: BinOp, lhs: usize, rhs: usize) -> (r: Result<
        (C::Term, Kind),
        VerifierError,
    >)
        requires
            self.heap.wf(),
            lhs < index,
            rhs < index,
        ensures
            match (typed(self.heap@, self.env@, lhs as int), typed(self.heap@, self.env@, rhs as int)) {
                (Some(tl), Some(tr)) => match typed_binary(bop, tl, tr) {
                    Some((f, k)) => r is Ok && r.unwrap().0.formula() == f && r.unwrap().1 == k,
                    None => r is Err,
                },
                _ => r is Err,
            },
        decreases index, 0nat,
    {
        let (l, lk) = self.translate_typed(lhs)?;
        let (r, rk) = self.translate_typed(rhs)?;
        match bop {
            // Arithmetic
            BinOp::Add | BinOp::Subtract | BinOp::Multiply | BinOp::Divide | BinOp::Remainder => {
                if lk != Kind::Int || rk != Kind::Int {
                    return Err(VerifierError {});
                }
                Ok((self.translate_arithmetical(bop, &l, &r).to_any(), Kind::Int))
            },
            // Comparators
            BinOp::LessThan | BinOp::LessThanOrEquals | BinOp::GreaterThan
            | BinOp::GreaterThanOrEquals => {
                if lk != Kind::Int || rk != Kind::Int {
                    return Err(VerifierError {});
                }
                Ok((self.translate_relational(bop, &l, &r).to_any(), Kind::Bool))
            },
            // Equality
            BinOp::Equals | BinOp::NotEquals => {
                if lk != rk {
                    return Err(VerifierError {});
                }
                Ok((self.translate_equational(bop, &l, &r).to_any(), Kind::Bool))
            },
            // Logic
            BinOp::LogicalAnd | BinOp::LogicalOr | BinOp::LogicalImplies => {
                if lk != Kind::Bool || rk != Kind::Bool {
                    return Err(VerifierError {});
                }
                Ok((self.translate_logical(bop, &l, &r).to_any(), Kind::Bool))
            },
        }
    }

    fn translate_arithmetical(&self, bop: BinOp, lhs: &C::Term, rhs: &C::Term) -> (r: C::Int)
        requires
            is_arithmetic(bop),
        ensures
            r.formula() == app2(binop_logic(bop), lhs.formula(), rhs.formula()),
    {
        let l = C::Int::from_any(lhs);
        let r = C::Int::from_any(rhs);
        match bop {
            BinOp::Add => l.add(&r),
            BinOp::Subtract => l.sub(&r),
            BinOp::Multiply => l.mul(&r),
            BinOp::Divide => l.div(&r),
            _ => l.rem(&r),
        }
    }

    fn translate_equational(&self, bop: BinOp, lhs: &C::Term, rhs: &C::Term) -> (r: C::Bool)
        requires
            is_equational(bop),
        ensures
            r.formula() == app2(binop_logic(bop), lhs.formula(), rhs.formula()),
    {
        match bop {
            BinOp::Equals => lhs.eq(rhs),
            _ => lhs.neq(rhs),
        }
    }

    fn translate_relational(&self, bop: BinOp, lhs: &C::Term, rhs: &C::Term) -> (r: C::Bool)
        requires
            is_relational(bop),
        ensures
            r.formula() == app2(binop_logic(bop), lhs.formula(), rhs.formula()),
    {
        let l = C::Int::from_any(lhs);
        let r = C::Int::from_any(rhs);
        match bop {
            BinOp::LessThan => l.lt(&r),
            BinOp::LessThanOrEquals => l.lteq(&r),
            BinOp::GreaterThan => l.gt(&r),
            _ => l.gteq(&r),
        }
    }

    fn translate_logical(&self, bop: BinOp, lhs: &C::Term, rhs: &C::Term) -> (r: C::Bool)
        requires
            !is_arithmetic(bop),
            !is_relational(bop),
            !is_equational(bop),
        ensures
            r.formula() == app2(binop_logic(bop), lhs.formula(), rhs.formula()),
    {
        let l = C::Bool::from_any(lhs);
        let r = C::Bool::from_any(rhs);
        match bop {
            BinOp::LogicalAnd => l.and(&r),
            BinOp::LogicalOr => l.or(&r),
            _ => l.implies(&r),
        }
    }

    fn translate_ifelse(&self, index: usize, cond: usize, lhs: usize, rhs: usize) -> (r: Result<
        (C::Term, Kind),
        VerifierError,
    >)
        requires
            self.heap.wf(),
            cond < index,
            lhs < index,
            rhs < index,
        ensures
            match (
                typed(self.heap@, self.env@, cond as int),
                typed(self.heap@, self.env@, lhs as int),
                typed(self.heap@, self.env@, rhs as int),
            ) {
                (Some(c), Some(t), Some(f)) => if c.1 == Kind::Bool && t.1 == f.1 {
                    r is Ok && r.unwrap().0.formula() == app3(LogicOp::IfThenElse, c.0, t.0, f.0)
                        && r.unwrap().1 == t.1
                } else {
                    r is Err
                },
                _ => r is Err,
            },
        decreases index, 0nat,
    {
        let (c, ck) = self.translate_typed(cond)?;
        let (l, lk) = self.translate_typed(lhs)?;
        let (r, rk) = self.translate_typed(rhs)?;
        if ck != Kind::Bool || lk != rk {
            return Err(VerifierError {});
        }
        let c = C::Bool::from_any(&c);
        Ok((c.ite(&l, &r), lk))
    }

    fn translate_static_invoke(&self, index: usize, name: &String, args: &Vec<usize>) -> (r: Result<
        (C::Term, Kind),
        VerifierError,
    >)
        requires
            self.heap.wf(),
            index < self.heap@.len(),
            self.heap@[index as int] == Term::StaticInvoke(*name, *args),
        ensures
            match typed(self.heap@, self.env@, index as int) {
                Some((f, k)) => r is Ok && r.unwrap().0.formula() == f && r.unwrap().1 == k,
                None => r is Err,
            },
        decreases index, 0nat,
    {
        // Lookup function to invoke
        if !self.env.contains_fn(name.as_str()) {
            return Err(VerifierError {});
        }
        let entry = self.env.lookup_fn(name.as_str());
        let ghost ps = entry.2@;
        proof {
            assert(crate::ast::refs_below(self.heap@[index as int], index as int));
        }
        // Translate arguments
        let mut terms: Vec<C::Term> = Vec::new();
        let ghost mut ts: Seq<(Formula, Kind)> = seq![];
        let mut i: usize = 0;
        while i < args.len()
            invariant
                self.heap.wf(),
                index < self.heap@.len(),
                self.heap@[index as int] == Term::StaticInvoke(*name, *args),
                crate::ast::refs_below(self.heap@[index as int], index as int),
                ps == entry.2@,
                lookup_fun(self.env@.funs, name@) == Some((entry.1.symbol(), entry.2@, entry.3)),
                i <= args@.len(),
                terms@.len() == i,
                typed_args(self.heap@, self.env@, args@.subrange(0, i as int), index as int) == Some(ts),
                ts.len() == i,
                forall|k: int| 0 <= k < i ==> #[trigger] terms@[k].formula() == ts[k].0,
                forall|k: int| 0 <= k < i ==> (#[trigger] ts[k]).1 == ps[k],
                i <= ps.len(),
            decreases args@.len() - i,
        {
            let ghost sub = args@.subrange(0, i + 1);
            assert(sub.drop_last() =~= args@.subrange(0, i as int));
            assert(sub.last() == args@[i as int]);
            assert(crate::ast::refs(self.heap@[index as int])[i as int] == args@[i as int]);
            let (t, k) = match self.translate_typed(args[i]) {
                Ok(x) => x,
                Err(e) => {
                    assert(typed_args(self.heap@, self.env@, args@, index as int) is None) by {
                        lemma_typed_args_prefix(self.heap@, self.env@, args@, index as int, i as int + 1);
                    }
                    return Err(e);
                },
            };
            if i >= entry.2.len() || k != entry.2[i] {
                proof {
                    lemma_typed_args_len(self.heap@, self.env@, args@, index as int);
                    let tf = lookup_fun(self.env@.funs, name@);
                    assert(tf is Some);
                    assert(tf.unwrap().1 == ps);
                    if typed_args(self.heap@, self.env@, args@, index as int) is Some {
                        let all = typed_args(self.heap@, self.env@, args@, index as int)->0;
                        assert(all[i as int] == typed(self.heap@, self.env@, args@[i as int] as int)->0);
                        assert(all[i as int].1 == k);
                        assert(all.len() == args@.len());
                        if i < ps.len() {
                            assert(all[i as int].1 != ps[i as int]);
                        }
                    }
                    assert(typed(self.heap@, self.env@, index as int) is None);
                }
                return Err(VerifierError {});
            }
            terms.push(t);
            proof {
                ts = ts.push((terms@[i as int].formula(), k));
            }
            i += 1;
        }
        assert(args@.subrange(0, i as int) =~= args@);
        if terms.len() != entry.2.len() {
            return Err(VerifierError {});
        }
        // Construct invocation
        let r = entry.1.invoke(terms.as_slice());
        proof {
            let fs = ts.map_values(|t: (Formula, Kind)| t.0);
            assert(fs =~= terms@.map_values(|a: C::Term| a.formula()));
        }
        Ok((r, entry.3))
    }

    fn translate_var(&self, var: &str) -> (r: Result<(C::Term, Kind), VerifierError>)
        ensures
            match lookup_var(self.env@.vars, var@) {
                Some((f, k)) => r is Ok && r.unwrap().0.formula() == f && r.unwrap().1 == k,
                None => r is Err,
            },
    {
        if !self.env.contains(var) {
            return Err(VerifierError {});
        }
        let b = self.env.lookup(var);
        Ok((b.1.duplicate(), b.2))
    }

    fn translate_bool_literal(&self, val: bool) -> (r: C::Term)
        ensures
            r.formula() == Formula::BoolLit(val),
    {
        let ast = self.context.from_bool(val);
        ast.to_any()
    }

    fn translate_int_literal(&self, val: usize) -> (r: C::Term)
        ensures
            r.formula() == Formula::IntLit(val as nat),
    {
        let ast = self.context.from_usize(val);
        ast.to_any()
    }
}

proof fn lemma_typed_args_len(heap: Seq<Term>, env: EnvModel, args: Seq<usize>, bound: int)
    ensures
        typed_args(heap, env, args, bound) is Some ==> typed_args(heap, env, args, bound)->0.len()
            == args.len(),
        typed_args(heap, env, args, bound) is Some ==> forall|k: int|
            0 <= k < args.len() ==> #[trigger] typed_args(heap, env, args, bound)->0[k] == typed(
                heap,
                env,
                args[k] as int,
            )->0,
        typed_args(heap, env, args, bound) is Some ==> forall|k: int|
            0 <= k < args.len() ==> typed(heap, env, #[trigger] args[k] as int) is Some,
    decreases args.len(),
{
    if args.len() > 0 {
        lemma_typed_args_len(heap, env, args.drop_last(), bound);
        if typed_args(heap, env, args, bound) is Some {
            assert forall|k: int| 0 <= k < args.len() implies typed(heap, env, #[trigger] args[k] as int) is Some by {
                if k < args.len() - 1 {
                    assert(args.drop_last()[k] == args[k]);
                }
            }
            assert forall|k: int| 0 <= k < args.len() implies #[trigger] typed_args(heap, env, args, bound)->0[k]
                == typed(heap, env, args[k] as int)->0 by {
                if k < args.len() - 1 {
                    assert(args.drop_last()[k] == args[k]);
                }
            }
        }
    }
}

/// A sequence translates only if each of its prefixes does.
proof fn lemma_typed_args_prefix(heap: Seq<Term>, env: EnvModel, args: Seq<usize>, bound: int, n: int)
    requires
        0 <= n <= args.len(),
        typed_args(heap, env, args.subrange(0, n), bound) is None,
    ensures
        typed_args(heap, env, args, bound) is None,
    decreases args.len(),
{
    if n < args.len() {
        assert(args.drop_last().subrange(0, n) =~= args.subrange(0, n));
        lemma_typed_args_prefix(heap, env, args.drop_last(), bound, n);
    } else {
        assert(args.subrange(0, n) =~= args);
    }
}

} // verus!
