use vstd::prelude::*;

pub mod translator;
pub mod vcg;

use crate::circuit::{Circuit, Formula, Function, Kind, Logical};
use crate::text::str_equals;

pub use translator::Translator;
pub use vcg::{Verifier, VerifierError};

verus! {

/// The bindings of an environment, as formulas: each variable with the
/// formula it stands for and its sort; each function with its symbol,
/// parameter sorts and return sort. Later bindings shadow earlier ones.
pub struct EnvModel {
    pub vars: Seq<(Seq<char>, Formula, Kind)>,
    pub funs: Seq<(Seq<char>, Seq<char>, Seq<Kind>, Kind)>,
}

/// The most recent binding of variable `n`.
pub open spec fn lookup_var(vars: Seq<(Seq<char>, Formula, Kind)>, n: Seq<char>) -> Option<
    (Formula, Kind),
>
    decreases vars.len(),
{
    if vars.len() == 0 {
        None
    } else if vars.last().0 == n {
        Some((vars.last().1, vars.last().2))
    } else {
        lookup_var(vars.drop_last(), n)
    }
}

/// The most recent binding of function `n`: its symbol, parameter sorts and
/// return sort.
pub open spec fn lookup_fun(funs: Seq<(Seq<char>, Seq<char>, Seq<Kind>, Kind)>, n: Seq<char>) -> Option<
    (Seq<char>, Seq<Kind>, Kind),
>
    decreases funs.len(),
{
    if funs.len() == 0 {
        None
    } else if funs.last().0 == n {
        Some((funs.last().1, funs.last().2, funs.last().3))
    } else {
        lookup_fun(funs.drop_last(), n)
    }
}

/// Variable and function symbol table keyed by name.
pub struct Environment<C: Circuit> {
    /// Map local variables.
    bindings: Vec<(String, C::Term, Kind)>,
    /// Bind function names to declarations.
    fn_bindings: Vec<(String, C::Function, Vec<Kind>, Kind)>,
}

impl<C: Circuit> View for Environment<C> {
    type V = EnvModel;

    closed spec fn view(&self) -> EnvModel {
        EnvModel {
            vars: self.bindings@.map_values(
                |b: (String, C::Term, Kind)| (b.0@, b.1.formula(), b.2),
            ),
            funs: self.fn_bindings@.map_values(
                |b: (String, C::Function, Vec<Kind>, Kind)| (b.0@, b.1.symbol(), b.2@, b.3),
            ),
        }
    }
}

impl<C: Circuit> Environment<C> {
    pub fn new() -> (r: Self)
        ensures
            r@.vars == Seq::<(Seq<char>, Formula, Kind)>::empty(),
            r@.funs == Seq::<(Seq<char>, Seq<char>, Seq<Kind>, Kind)>::empty(),
    {
        let r = Self { bindings: Vec::new(), fn_bindings: Vec::new() };
        assert(r@.vars =~= Seq::<(Seq<char>, Formula, Kind)>::empty());
        assert(r@.funs =~= Seq::<(Seq<char>, Seq<char>, Seq<Kind>, Kind)>::empty());
        r
    }

    /// Bind variable `name` to `term` of sort `kind`.
    pub fn allocate(&mut self, name: &str, term: C::Term, kind: Kind)
        ensures
            final(self)@.vars == old(self)@.vars.push((name@, term.formula(), kind)),
            final(self)@.funs == old(self)@.funs,
    {
        self.bindings.push((name.to_string(), term, kind));
        assert(final(self)@.vars =~= old(self)@.vars.push((name@, term.formula(), kind)));
        assert(final(self)@.funs =~= old(self)@.funs);
    }

    /// Whether variable `name` is bound.
    pub fn contains(&self, name: &str) -> (r: bool)
        ensures
            r == lookup_var(self@.vars, name@) is Some,
    {
        self.find(name).is_some()
    }

    /// The term and sort that variable `name` is bound to.
    pub fn lookup(&self, name: &str) -> (r: &(String, C::Term, Kind))
        requires
            lookup_var(self@.vars, name@) is Some,
        ensures
            r.1.formula() == lookup_var(self@.vars, name@).unwrap().0,
            r.2 == lookup_var(self@.vars, name@).unwrap().1,
    {
        match self.find(name) {
            Some(b) => b,
            None => vstd::pervasive::unreached(),
        }
    }

    /// The most recent binding of variable `name`, if any.
    fn find(&self, name: &str) -> (r: Option<&(String, C::Term, Kind)>)
        ensures
            match lookup_var(self@.vars, name@) {
                Some((f, k)) => r is Some && r.unwrap().1.formula() == f && r.unwrap().2 == k,
                None => r is None,
            },
    {
        let ghost vars = self@.vars;
        let mut i: usize = self.bindings.len();
        assert(vars.subrange(0, i as int) =~= vars);
        while i > 0
            invariant
                i <= self.bindings@.len(),
                vars == self@.vars,
                vars.len() == self.bindings@.len(),
                lookup_var(vars, name@) == lookup_var(vars.subrange(0, i as int), name@),
            decreases i,
        {
            let ghost sub = vars.subrange(0, i as int);
            assert(sub.drop_last() =~= vars.subrange(0, i - 1));
            assert(sub.last() == vars[i - 1]);
            let b = &self.bindings[i - 1];
            if str_equals(b.0.as_str(), name) {
                return Some(b);
            }
            i -= 1;
        }
        None
    }

    /// Bind function symbol `decl`, under its own name, with the sorts of
    /// its parameters and of its result.
    pub fn declare_fn(&mut self, decl: C::Function, params: Vec<Kind>, ret: Kind)
        ensures
            final(self)@.funs == old(self)@.funs.push((decl.symbol(), decl.symbol(), params@, ret)),
            final(self)@.vars == old(self)@.vars,
    {
        let n = decl.name();
        self.fn_bindings.push((n, decl, params, ret));
        assert(final(self)@.funs =~= old(self)@.funs.push(
            (decl.symbol(), decl.symbol(), params@, ret),
        ));
        assert(final(self)@.vars =~= old(self)@.vars);
    }

    /// Whether function `name` is bound.
    pub fn contains_fn(&self, name: &str) -> (r: bool)
        ensures
            r == lookup_fun(self@.funs, name@) is Some,
    {
        self.find_fn(name).is_some()
    }

    /// The declaration that function `name` is bound to, with its parameter
    /// sorts and return sort.
    pub fn lookup_fn(&self, name: &str) -> (r: &(String, C::Function, Vec<Kind>, Kind))
        requires
            lookup_fun(self@.funs, name@) is Some,
        ensures
            r.1.symbol() == lookup_fun(self@.funs, name@).unwrap().0,
            r.2@ == lookup_fun(self@.funs, name@).unwrap().1,
            r.3 == lookup_fun(self@.funs, name@).unwrap().2,
    {
        match self.find_fn(name) {
            Some(b) => b,
            None => vstd::pervasive::unreached(),
        }
    }

    /// The most recent binding of function `name`, if any.
    fn find_fn(&self, name: &str) -> (r: Option<&(String, C::Function, Vec<Kind>, Kind)>)
        ensures
            match lookup_fun(self@.funs, name@) {
                Some((s, ps, k)) => r is Some && r.unwrap().1.symbol() == s && r.unwrap().2@ == ps && r.unwrap().3
                    == k,
                None => r is None,
            },
    {
        let ghost funs = self@.funs;
        let mut i: usize = self.fn_bindings.len();
        assert(funs.subrange(0, i as int) =~= funs);
        while i > 0
            invariant
                i <= self.fn_bindings@.len(),
                funs == self@.funs,
                funs.len() == self.fn_bindings@.len(),
                lookup_fun(funs, name@) == lookup_fun(funs.subrange(0, i as int), name@),
            decreases i,
        {
            let ghost sub = funs.subrange(0, i as int);
            assert(sub.drop_last() =~= funs.subrange(0, i - 1));
            assert(sub.last() == funs[i - 1]);
            let b = &self.fn_bindings[i - 1];
            if str_equals(b.0.as_str(), name) {
                return Some(b);
            }
            i -= 1;
        }
        None
    }
}

} // verus!
