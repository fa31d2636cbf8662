use vstd::prelude::*;
use crate::ast::{BinOp, Function, SyntacticHeap, Term, binding_types, refs, refs_below};
use crate::lexer::{Lexer, Token, TokenType, eof_token, next_token, nth_token};
use crate::text::parse_decimal;
use crate::grammar::{Shape, Step, shape, shapes, g_type, g_unit_type, g_tuple_type, g_tuple_rest, g_array_suffix, g_expr, g_binary, g_postfix, g_postfix_rest, g_unit, g_array_access, g_tuple_access, g_array_constructor, g_array_items, g_elements, g_rets, g_array_length, g_braced, g_ifelse, g_invoke, g_exprs, g_block, g_block_rest, g_stmt, g_params, g_params_rest, g_clauses, g_function, g_program, g_ident, bindings_view, binop_of, level_of, literal_value, consume, stored, ahead};

verus! {

proof fn lemma_refs1(t: Term, a: usize, n: int)
    requires
        refs(t) == seq![a],
        a < n,
    ensures
        refs_below(t, n),
{
    assert(refs(t)[0] == a);
}

proof fn lemma_refs2(t: Term, a: usize, b: usize, n: int)
    requires
        refs(t) == seq![a, b],
        a < n,
        b < n,
    ensures
        refs_below(t, n),
{
    let s = refs(t);
    assert forall|k: int| 0 <= k < s.len() implies #[trigger] s[k] < n by {
        if k == 0 {
            assert(s[0] == a);
        } else {
            assert(s[1] == b);
        }
    }
}

proof fn lemma_refs3(t: Term, a: usize, b: usize, c: usize, n: int)
    requires
        refs(t) == seq![a, b, c],
        a < n,
        b < n,
        c < n,
    ensures
        refs_below(t, n),
{
    let s = refs(t);
    assert forall|k: int| 0 <= k < s.len() implies #[trigger] s[k] < n by {
        if k == 0 {
            assert(s[0] == a);
        } else if k == 1 {
            assert(s[1] == b);
        } else {
            assert(s[2] == c);
        }
    }
}

/// Every index that a sequence holds lies below `n`.
pub open spec fn all_below(s: Seq<usize>, n: int) -> bool {
    forall|k: int| 0 <= k < s.len() ==> #[trigger] s[k] < n
}

proof fn lemma_function_refs_below(f: Function, n: int)
    requires
        all_below(binding_types(f.params@), n),
        all_below(binding_types(f.rets@), n),
        all_below(f.requires@, n),
        all_below(f.ensures@, n),
        f.body < n,
    ensures
        refs_below(Term::Function(f), n),
{
    let a = binding_types(f.params@);
    let b = binding_types(f.rets@);
    let rs = refs(Term::Function(f));
    assert(rs == a + b + f.requires@ + f.ensures@ + seq![f.body]);
    assert forall|k: int| 0 <= k < rs.len() implies #[trigger] rs[k] < n by {
        if k < a.len() {
        } else if k < a.len() + b.len() {
            assert(rs[k] == b[k - a.len()]);
        } else if k < a.len() + b.len() + f.requires@.len() {
            assert(rs[k] == f.requires@[k - a.len() - b.len()]);
        } else if k < a.len() + b.len() + f.requires@.len() + f.ensures@.len() {
            assert(rs[k] == f.ensures@[k - a.len() - b.len() - f.requires@.len()]);
        } else {
        }
    }
}

// ===================================================================
// Parser
// ===================================================================

/// Simplest possible parser.  Its a combination lexer and parser!
pub struct Parser {
    /// Character sequence being parsed
    lexer: Lexer,
    /// Heap being constructed
    pub heap: SyntacticHeap,
}

impl Parser {
    /// The lexer is well-formed and the arena acyclic.
    pub closed spec fn wf(&self) -> bool {
        self.lexer.wf() && self.heap.wf()
    }

    /// How many characters are left to read.
    pub closed spec fn remaining(&self) -> nat {
        self.lexer.remaining()
    }

    /// The arena built so far.
    pub closed spec fn arena(&self) -> SyntacticHeap {
        self.heap
    }

    /// The position of the next unread character.
    pub closed spec fn position(&self) -> int {
        self.lexer.position()
    }

    /// Whether only whitespace is left to read.
    pub open spec fn at_end(&self) -> bool {
        next_token(self.source(), self.position()) == Some(eof_token())
    }

    /// The text being parsed.
    pub closed spec fn source(&self) -> Seq<char> {
        self.lexer.input()
    }

    /// What holds after a parsing step that started from `before`: the
    /// parser is well-formed, has read no text back, has only grown the
    /// arena, and where a term was parsed, that term is in the arena and
    /// some text was read.
    pub closed spec fn advanced(&self, before: Parser, r: Result<usize, ()>) -> bool {
        &&& self.wf()
        &&& self.source() == before.source()
        &&& self.remaining() <= before.remaining()
        &&& before.heap@.len() <= self.heap@.len()
        &&& forall|k: int| 0 <= k < before.heap@.len() ==> #[trigger] self.heap@[k] == before.heap@[k]
        &&& r is Ok ==> r->Ok_0 < self.heap@.len() && self.remaining() < before.remaining()
    }

    /// The same for a step that yields several terms.
    pub closed spec fn advanced_all(&self, before: Parser, r: Result<Vec<usize>, ()>) -> bool {
        &&& self.wf()
        &&& self.source() == before.source()
        &&& self.remaining() <= before.remaining()
        &&& before.heap@.len() <= self.heap@.len()
        &&& forall|k: int| 0 <= k < before.heap@.len() ==> #[trigger] self.heap@[k] == before.heap@[k]
        &&& r is Ok ==> all_below(r->Ok_0@, self.heap@.len() as int)
    }

    /// The shapes of the arena built so far.
    pub open spec fn state(&self) -> Seq<Shape> {
        shapes(self.arena()@)
    }

    /// Whether the next token has kind `k`.
    pub open spec fn peek_is(&self, k: TokenType) -> bool {
        next_token(self.source(), self.position()) is Some && next_token(
            self.source(),
            self.position(),
        )->0.kind == k
    }

    /// Whether a parsing step ended as the grammar step `g` says: with
    /// `g`'s position, arena and term where `g` parses, failing where not.
    pub open spec fn yields(&self, g: Step, r: Result<usize, ()>) -> bool {
        match g {
            Some((q, h, i)) => r == Ok::<usize, ()>(i) && self.position() == q && self.state() == h,
            None => r is Err,
        }
    }

    /// Construct a parser from a string slice.
    pub fn new(content: &str) -> (r: Self)
        ensures
            r.wf(),
            r.source() == content@,
            r.arena()@.len() == 0,
    {
        let lexer = Lexer::new(content);
        let heap = SyntacticHeap::new();
        Self { lexer, heap }
    }

    /// Store a term whose references are all already stored.
    fn store(&mut self, term: Term) -> (r: usize)
        requires
            old(self).wf(),
            refs_below(term, old(self).heap@.len() as int),
        ensures
            final(self).wf(),
            final(self).source() == old(self).source(),
            final(self).remaining() == old(self).remaining(),
            final(self).heap@ == old(self).heap@.push(term),
            final(self).position() == old(self).position(),
            final(self).state() == old(self).state().push(shape(term)),
            r == old(self).heap@.len(),
    {
        let r = self.heap.allocate(term);
        assert(self.state() =~= old(self).state().push(shape(term)));
        r
    }

    /// Parse a whole source text into its top-level declarations.
    pub fn parse(&mut self) -> (r: Result<Vec<usize>, ()>)
        requires
            old(self).wf(),
        ensures
            final(self).advanced_all(*old(self), r),
            final(self).arena().wf(),
            r is Ok ==> all_below(r->Ok_0@, final(self).arena()@.len() as int),
            r is Ok ==> forall|k: int|
                0 <= k < r->Ok_0@.len() ==> #[trigger] final(self).arena()@[r->Ok_0@[k] as int] is Function,
            r is Ok ==> final(self).at_end(),
            match g_program(old(self).source(), old(self).position(), old(self).state(), seq![]) {
                Some((q, h, ds)) => r is Ok && r->Ok_0@ == ds && final(self).position() == q
                    && final(self).state() == h,
                None => r is Err,
            },
    {
        let ghost s = self.source();
        let mut terms: Vec<usize> = Vec::new();
        loop
            invariant
                self.advanced_all(*old(self), Ok::<Vec<usize>, ()>(terms)),
                forall|k: int| 0 <= k < terms@.len() ==> #[trigger] self.heap@[terms@[k] as int] is Function,
                s == self.source(),
                g_program(s, old(self).position(), old(self).state(), seq![]) == g_program(
                    s,
                    self.position(),
                    self.state(),
                    terms@,
                ),
            ensures
                self.at_end(),
                self.advanced_all(*old(self), Ok::<Vec<usize>, ()>(terms)),
                forall|k: int| 0 <= k < terms@.len() ==> #[trigger] self.heap@[terms@[k] as int] is Function,
                g_program(s, old(self).position(), old(self).state(), seq![]) == Some(
                    (self.position(), self.state(), terms@),
                ),
            decreases self.remaining(),
        {
            let lookahead = self.lexer.lookahead(0)?;
            if lookahead.kind == TokenType::EOF {
                proof {
                    crate::lexer::lemma_next_token(self.source(), self.position());
                }
                break;
            }
            let d = self.parse_declaration()?;
            terms.push(d);
        }
        Ok(terms)
    }

    fn parse_declaration(&mut self) -> (r: Result<usize, ()>)
        requires
            old(self).wf(),
        ensures
            final(self).advanced(*old(self), r),
            r is Ok ==> final(self).heap@[r->Ok_0 as int] is Function,
            if old(self).peek_is(TokenType::Function) {
                final(self).yields(g_function(old(self).source(), old(self).position(), old(self).state()), r)
            } else {
                r is Err
            },
    {
        let lookahead = self.lexer.lookahead(0)?;
        match lookahead.kind {
            TokenType::Function => self.parse_decl_function(),
            _ => Err(()),
        }
    }

    // ===============================================================
    // Declarations
    // ===============================================================
    #[verifier::rlimit(100)]
    #[verifier::spinoff_prover]
    fn parse_decl_function(&mut self) -> (r: Result<usize, ()>)
        requires
            old(self).wf(),
        ensures
            final(self).advanced(*old(self), r),
            r is Ok ==> final(self).heap@[r->Ok_0 as int] is Function,
            final(self).yields(g_function(old(self).source(), old(self).position(), old(self).state()), r),
    {
        self.lexer.expect(TokenType::Function)?;
        // Parse function name
        let id = self.lexer.expect(TokenType::Identifier)?;
        let name = self.lexer.to_string(&id);
        // Parse declared parameters
        let params = self.parse_decl_params()?;
        // Parse optional return
        let rets = self.parse_decl_rets()?;
        let pres = self.parse_decl_requires()?;
        let posts = self.parse_decl_ensures()?;
        // Parse function body
        let body = self.parse_block()?;
        // Done
        let fun = Function { name, params, rets, requires: pres, ensures: posts, body };
        proof {
            lemma_function_refs_below(fun, self.heap@.len() as int);
        }
        Ok(self.store(Term::Function(fun)))
    }

    /// Parse an optional return list.
    fn parse_decl_rets(&mut self) -> (r: Result<Vec<(usize, String)>, ()>)
        requires
            old(self).wf(),
        ensures
            final(self).wf(),
            final(self).source() == old(self).source(),
            final(self).remaining() <= old(self).remaining(),
            old(self).heap@.len() <= final(self).heap@.len(),
            forall|k: int|
                0 <= k < old(self).heap@.len() ==> #[trigger] final(self).heap@[k] == old(self).heap@[k],
            r is Ok ==> all_below(binding_types(r->Ok_0@), final(self).heap@.len() as int),
            match g_rets(old(self).source(), old(self).position(), old(self).state()) {
                Some((q, h, ps)) => r is Ok && bindings_view(r->Ok_0@) == ps && final(self).position()
                    == q && final(self).state() == h,
                None => r is Err,
            },
    {
        if self.lexer.matches(TokenType::RightArrow) {
            self.parse_decl_params()
        } else {
            let v: Vec<(usize, String)> = Vec::new();
            assert(bindings_view(v@) =~= seq![]);
            assert(binding_types(v@) =~= seq![]);
            Ok(v)
        }
    }

    #[verifier::rlimit(100)]
    #[verifier::spinoff_prover]
    fn parse_decl_params(&mut self) -> (r: Result<Vec<(usize, String)>, ()>)
        requires
            old(self).wf(),
        ensures
            final(self).wf(),
            final(self).source() == old(self).source(),
            final(self).remaining() <= old(self).remaining(),
            old(self).heap@.len() <= final(self).heap@.len(),
            forall|k: int|
                0 <= k < old(self).heap@.len() ==> #[trigger] final(self).heap@[k] == old(self).heap@[k],
            r is Ok ==> all_below(binding_types(r->Ok_0@), final(self).heap@.len() as int),
            match g_params(old(self).source(), old(self).position(), old(self).state()) {
                Some((q, h, ps)) => r is Ok && bindings_view(r->Ok_0@) == ps && final(self).position()
                    == q && final(self).state() == h,
                None => r is Err,
            },
    {
        let ghost s = self.source();
        let mut params: Vec<(usize, String)> = Vec::new();
        self.lexer.expect(TokenType::LeftBrace)?;
        let ghost start = self.remaining();
        assert(bindings_view(params@) =~= seq![]);
        loop
            invariant
                self.wf(),
                self.source() == s,
                s == old(self).source(),
                self.remaining() <= start,
                start < old(self).remaining(),
                old(self).heap@.len() <= self.heap@.len(),
                forall|k: int|
                    0 <= k < old(self).heap@.len() ==> #[trigger] self.heap@[k] == old(self).heap@[k],
                all_below(binding_types(params@), self.heap@.len() as int),
                g_params(s, old(self).position(), old(self).state()) == g_params_rest(
                    s,
                    self.position(),
                    self.state(),
                    bindings_view(params@),
                ),
            ensures
                self.wf(),
                self.source() == s,
                self.remaining() < old(self).remaining(),
                old(self).heap@.len() <= self.heap@.len(),
                forall|k: int|
                    0 <= k < old(self).heap@.len() ==> #[trigger] self.heap@[k] == old(self).heap@[k],
                all_below(binding_types(params@), self.heap@.len() as int),
                g_params(s, old(self).position(), old(self).state()) == g_params_rest(
                    s,
                    self.position(),
                    self.state(),
                    bindings_view(params@),
                ),
                self.peek_is(TokenType::RightBrace),
            decreases self.remaining(),
        {
            let lookahead = self.lexer.lookahead(0)?;
            if lookahead.kind == TokenType::RightBrace {
                break;
            }
            if params.len() != 0 {
                self.lexer.expect(TokenType::Comma)?;
            }
            let t = self.parse_type()?;
            let var = self.parse_identifier()?;
            let ghost before = params@;
            params.push((t, var));
            proof {
                let after = binding_types(params@);
                assert forall|k: int| 0 <= k < after.len() implies #[trigger] after[k]
                    < self.heap@.len() by {
                    if k < before.len() {
                        assert(after[k] == binding_types(before)[k]);
                    }
                }
                assert(bindings_view(params@) =~= bindings_view(before).push((t, var@)));
            }
        }
        // Done
        self.lexer.expect(TokenType::RightBrace)?;
        Ok(params)
    }

    /// Parse the clauses `kw expr` that follow, in order.
    fn parse_clauses(&mut self, kw: TokenType) -> (r: Result<Vec<usize>, ()>)
        requires
            old(self).wf(),
            kw != TokenType::EOF,
        ensures
            final(self).advanced_all(*old(self), r),
            match g_clauses(old(self).source(), old(self).position(), old(self).state(), kw, seq![]) {
                Some((q, h, es)) => r is Ok && r->Ok_0@ == es && final(self).position() == q
                    && final(self).state() == h,
                None => r is Err,
            },
    {
        let ghost s = self.source();
        let mut es: Vec<usize> = Vec::new();
        while self.lexer.matches(kw)
            invariant
                self.advanced_all(*old(self), Ok::<Vec<usize>, ()>(es)),
                kw != TokenType::EOF,
                s == self.source(),
                g_clauses(s, old(self).position(), old(self).state(), kw, seq![]) == g_clauses(
                    s,
                    self.position(),
                    self.state(),
                    kw,
                    es@,
                ),
            decreases self.remaining(),
        {
            let e = self.parse_expr()?;
            es.push(e);
        }
        Ok(es)
    }

    fn parse_decl_requires(&mut self) -> (r: Result<Vec<usize>, ()>)
        requires
            old(self).wf(),
        ensures
            final(self).advanced_all(*old(self), r),
            match g_clauses(
                old(self).source(),
                old(self).position(),
                old(self).state(),
                TokenType::Requires,
                seq![],
            ) {
                Some((q, h, es)) => r is Ok && r->Ok_0@ == es && final(self).position() == q
                    && final(self).state() == h,
                None => r is Err,
            },
    {
        self.parse_clauses(TokenType::Requires)
    }

    fn parse_decl_ensures(&mut self) -> (r: Result<Vec<usize>, ()>)
        requires
            old(self).wf(),
        ensures
            final(self).advanced_all(*old(self), r),
            match g_clauses(
                old(self).source(),
                old(self).position(),
                old(self).state(),
                TokenType::Ensures,
                seq![],
            ) {
                Some((q, h, es)) => r is Ok && r->Ok_0@ == es && final(self).position() == q
                    && final(self).state() == h,
                None => r is Err,
            },
    {
        self.parse_clauses(TokenType::Ensures)
    }

    // ===============================================================
    // Statement Blocks
    // ===============================================================
    /// Parse a _block_, which is a sequence of statements wrapped in curly
    /// braces and separated by semicolons.
    #[verifier::rlimit(100)]
    #[verifier::spinoff_prover]
    fn parse_block(&mut self) -> (r: Result<usize, ()>)
        requires
            old(self).wf(),
        ensures
            final(self).advanced(*old(self), r),
            final(self).yields(g_block(old(self).source(), old(self).position(), old(self).state()), r),
        decreases old(self).remaining(), 42nat,
    {
        let ghost s = self.source();
        let mut terms: Vec<usize> = Vec::new();
        // Blocks begin with open curly brace
        self.lexer.expect(TokenType::LeftCurly)?;
        let ghost start = self.remaining();
        // Keep going until closing curly brace
        loop
            invariant
                self.wf(),
                self.source() == s,
                s == old(self).source(),
                self.remaining() <= start,
                start < old(self).remaining(),
                old(self).heap@.len() <= self.heap@.len(),
                forall|k: int|
                    0 <= k < old(self).heap@.len() ==> #[trigger] self.heap@[k] == old(self).heap@[k],
                all_below(terms@, self.heap@.len() as int),
                g_block(s, old(self).position(), old(self).state()) == g_block_rest(
                    s,
                    self.position(),
                    self.state(),
                    terms@,
                ),
            ensures
                self.wf(),
                self.source() == s,
                self.remaining() < old(self).remaining(),
                old(self).heap@.len() <= self.heap@.len(),
                forall|k: int|
                    0 <= k < old(self).heap@.len() ==> #[trigger] self.heap@[k] == old(self).heap@[k],
                all_below(terms@, self.heap@.len() as int),
                g_block(s, old(self).position(), old(self).state()) == g_block_rest(
                    s,
                    self.position(),
                    self.state(),
                    terms@,
                ),
                self.peek_is(TokenType::RightCurly),
            decreases self.remaining(),
        {
            let ghost r0 = self.remaining();
            let lookahead = self.lexer.lookahead(0)?;
            if lookahead.kind == TokenType::RightCurly {
                break;
            }
            // Parse separator (if applicable)
            if terms.len() != 0 {
                self.lexer.expect(TokenType::SemiColon)?;
            }
            // Parse statement or terminating expression
            let next = self.lexer.lookahead(0)?;
            match next.kind {
                TokenType::Assert => {
                    let x = self.parse_stmt_assert()?;
                    terms.push(x);
                },
                TokenType::Assume => {
                    let x = self.parse_stmt_assume()?;
                    terms.push(x);
                },
                TokenType::RightCurly => {
                    // No trailing expression
                },
                _ => {
                    // Trailing expression
                    let e = self.parse_expr()?;
                    terms.push(e);
                },
            }
            assert(self.remaining() < r0);
        }
        self.lexer.expect(TokenType::RightCurly)?;
        Ok(self.store(Term::Block(terms)))
    }

    #[verifier::rlimit(100)]
    #[verifier::spinoff_prover]
    fn parse_stmt_assert(&mut self) -> (r: Result<usize, ()>)
        requires
            old(self).wf(),
        ensures
            final(self).advanced(*old(self), r),
            final(self).yields(
                g_stmt(old(self).source(), old(self).position(), old(self).state(), TokenType::Assert),
                r,
            ),
        decreases old(self).remaining(), 35nat,
    {
        let ghost s0 = self.source();
        let ghost p0 = self.position();
        let ghost h0 = self.state();
        self.lexer.expect(TokenType::Assert)?;
        let ghost p1 = self.position();
        assert(consume(s0, p0, TokenType::Assert) == Some(p1));
        assert(ahead(s0, p0, p1));
        let expr = self.parse_expr()?;
        assert(g_expr(s0, p1, h0) == Some((self.position(), self.state(), expr)));
        let t = Term::Assert(expr);
        proof {
            lemma_refs1(t, expr, self.heap@.len() as int);
        }
        Ok(self.store(t))
    }

    #[verifier::rlimit(100)]
    #[verifier::spinoff_prover]
    fn parse_stmt_assume(&mut self) -> (r: Result<usize, ()>)
        requires
            old(self).wf(),
        ensures
            final(self).advanced(*old(self), r),
            final(self).yields(
                g_stmt(old(self).source(), old(self).position(), old(self).state(), TokenType::Assume),
                r,
            ),
        decreases old(self).remaining(), 35nat,
    {
        let ghost s0 = self.source();
        let ghost p0 = self.position();
        let ghost h0 = self.state();
        self.lexer.expect(TokenType::Assume)?;
        let ghost p1 = self.position();
        assert(consume(s0, p0, TokenType::Assume) == Some(p1));
        assert(ahead(s0, p0, p1));
        let expr = self.parse_expr()?;
        assert(g_expr(s0, p1, h0) == Some((self.position(), self.state(), expr)));
        let t = Term::Assume(expr);
        proof {
            lemma_refs1(t, expr, self.heap@.len() as int);
        }
        Ok(self.store(t))
    }

    // ===============================================================
    // Expressions
    // ===============================================================
    /// Parse an expression at the current position, as `g_expr` describes.
    pub fn parse_expr(&mut self) -> (r: Result<usize, ()>)
        requires
            old(self).wf(),
        ensures
            final(self).advanced(*old(self), r),
            final(self).arena().wf(),
            r is Ok ==> r->Ok_0 < final(self).arena()@.len(),
            final(self).yields(g_expr(old(self).source(), old(self).position(), old(self).state()), r),
        decreases old(self).remaining(), 30nat,
    {
        self.parse_expr_binary(3)
    }

    /// Parse a binary expression at a given _level_.  Higher levels
    /// indicate expressions which bind _less tightly_.  Furthermore,
    /// level `0` corresponds simply to parsing a unary expression.
    #[verifier::rlimit(100)]
    #[verifier::spinoff_prover]
    fn parse_expr_binary(&mut self, level: usize) -> (r: Result<usize, ()>)
        requires
            old(self).wf(),
            level <= 3,
        ensures
            final(self).advanced(*old(self), r),
            final(self).yields(
                g_binary(old(self).source(), old(self).position(), old(self).state(), level as nat),
                r,
            ),
        decreases old(self).remaining(), 20 + level,
    {
        if level == 0 {
            return self.parse_expr_postfix();
        }
        // Parse level below
        let lhs = self.parse_expr_binary(level - 1)?;
        // Check whether binary connective follows
        let lookahead = match self.lexer.lookahead(0) {
            Ok(t) => t,
            Err(_) => {
                return Ok(lhs);
            },
        };
        match Self::binop_from_token(lookahead.kind) {
            Some(bop) => {
                if Self::binop_level(bop) != level {
                    return Ok(lhs);
                }
                self.lexer.expect(lookahead.kind)?;
                let rhs = self.parse_expr_binary(level - 1)?;
                let t = Term::Binary(bop, lhs, rhs);
                proof {
                    lemma_refs2(t, lhs, rhs, self.heap@.len() as int);
                }
                Ok(self.store(t))
            },
            None => Ok(lhs),
        }
    }

    #[verifier::rlimit(100)]
    #[verifier::spinoff_prover]
    fn parse_expr_postfix(&mut self) -> (r: Result<usize, ()>)
        requires
            old(self).wf(),
        ensures
            final(self).advanced(*old(self), r),
            final(self).yields(g_postfix(old(self).source(), old(self).position(), old(self).state()), r),
        decreases old(self).remaining(), 19nat,
    {
        let ghost s = self.source();
        // Parse the source term
        let mut src = self.parse_expr_unit()?;
        // Attempt to parse postfix operators
        loop
            invariant
                self.advanced(*old(self), Ok::<usize, ()>(src)),
                s == self.source(),
                g_postfix(s, old(self).position(), old(self).state()) == g_postfix_rest(
                    s,
                    self.position(),
                    self.state(),
                    src,
                ),
            ensures
                self.advanced(*old(self), Ok::<usize, ()>(src)),
                g_postfix(s, old(self).position(), old(self).state()) == Some(
                    (self.position(), self.state(), src),
                ),
            decreases self.remaining(),
        {
            let lookahead = match self.lexer.lookahead(0) {
                Ok(t) => t,
                Err(_) => {
                    break;
                },
            };
            if !Self::is_postfix_operator(lookahead) {
                break;
            }
            if lookahead.kind == TokenType::LeftSquare {
                src = self.parse_expr_arrayaccess(src)?;
            } else {
                src = self.parse_expr_tupleaccess(src)?;
            }
        }
        Ok(src)
    }

    #[verifier::rlimit(100)]
    #[verifier::spinoff_prover]
    fn parse_expr_unit(&mut self) -> (r: Result<usize, ()>)
        requires
            old(self).wf(),
        ensures
            final(self).advanced(*old(self), r),
            final(self).yields(g_unit(old(self).source(), old(self).position(), old(self).state()), r),
        decreases old(self).remaining(), 17nat,
    {
        let lookahead = self.lexer.lookahead(0)?;
        match lookahead.kind {
            TokenType::Bar => self.parse_expr_arraylength(),
            TokenType::BoolLiteral(v) => self.parse_literal_bool(v),
            TokenType::LeftBrace => self.parse_expr_braced(),
            TokenType::LeftSquare => self.parse_expr_arrayconstructor(),
            TokenType::Identifier => {
                // Disambiguate static invocation from variable access
                let invoke = match self.lexer.lookahead(1) {
                    Ok(t) => t.kind == TokenType::LeftBrace,
                    Err(_) => false,
                };
                if invoke {
                    self.parse_expr_staticinvoke()
                } else {
                    self.parse_expr_varaccess()
                }
            },
            TokenType::IntLiteral => self.parse_literal_int(),
            TokenType::If => self.parse_expr_ifelse(),
            _ => Err(()),
        }
    }

    #[verifier::rlimit(100)]
    #[verifier::spinoff_prover]
    fn parse_expr_arrayaccess(&mut self, src: usize) -> (r: Result<usize, ()>)
        requires
            old(self).wf(),
            src < old(self).heap@.len(),
        ensures
            final(self).advanced(*old(self), r),
            final(self).yields(
                g_array_access(old(self).source(), old(self).position(), old(self).state(), src),
                r,
            ),
        decreases old(self).remaining(), 16nat,
    {
        self.lexer.expect(TokenType::LeftSquare)?;
        let index = self.parse_expr_unit()?;
        // Check whether access or slice
        if self.lexer.matches(TokenType::DotDot) {
            let end = self.parse_expr_unit()?;
            self.lexer.expect(TokenType::RightSquare)?;
            let t = Term::ArraySlice { src, start: index, end };
            proof {
                lemma_refs3(t, src, index, end, self.heap@.len() as int);
            }
            Ok(self.store(t))
        } else {
            self.lexer.expect(TokenType::RightSquare)?;
            let t = Term::ArrayAccess { src, index };
            proof {
                lemma_refs2(t, src, index, self.heap@.len() as int);
            }
            Ok(self.store(t))
        }
    }

    #[verifier::rlimit(100)]
    #[verifier::spinoff_prover]
    fn parse_expr_arrayconstructor(&mut self) -> (r: Result<usize, ()>)
        requires
            old(self).wf(),
        ensures
            final(self).advanced(*old(self), r),
            final(self).yields(
                g_array_constructor(old(self).source(), old(self).position(), old(self).state()),
                r,
            ),
        decreases old(self).remaining(), 16nat,
    {
        // Parse left square brace
        self.lexer.expect(TokenType::LeftSquare)?;
        if self.lexer.lookahead(0)?.kind == TokenType::RightSquare {
            self.lexer.expect(TokenType::RightSquare)?;
            return Ok(self.store(Term::ArrayConstructor(Vec::new())));
        }
        self.parse_array_items()
    }

    /// Parse the inside of a non-empty array literal and its closing `]`.
    #[verifier::rlimit(100)]
    #[verifier::spinoff_prover]
    fn parse_array_items(&mut self) -> (r: Result<usize, ()>)
        requires
            old(self).wf(),
        ensures
            final(self).advanced(*old(self), r),
            final(self).yields(g_array_items(old(self).source(), old(self).position(), old(self).state()), r),
        decreases old(self).remaining(), 32nat,
    {
        let ghost s = self.source();
        let mut terms: Vec<usize> = Vec::new();
        let e1 = self.parse_expr()?;
        let ghost start = self.remaining();
        // Decide between literal and generator
        if self.lexer.matches(TokenType::SemiColon) {
            let e2 = self.parse_expr()?;
            self.lexer.expect(TokenType::RightSquare)?;
            let t = Term::ArrayGenerator(e1, e2);
            proof {
                lemma_refs2(t, e1, e2, self.heap@.len() as int);
            }
            return Ok(self.store(t));
        }
        terms.push(e1);
        // Parse remainder
        loop
            invariant
                self.wf(),
                self.source() == s,
                s == old(self).source(),
                self.remaining() <= start,
                start < old(self).remaining(),
                old(self).heap@.len() <= self.heap@.len(),
                forall|k: int|
                    0 <= k < old(self).heap@.len() ==> #[trigger] self.heap@[k] == old(self).heap@[k],
                all_below(terms@, self.heap@.len() as int),
                g_array_items(s, old(self).position(), old(self).state()) == g_elements(
                    s,
                    self.position(),
                    self.state(),
                    terms@,
                ),
            ensures
                self.wf(),
                self.source() == s,
                self.remaining() < old(self).remaining(),
                old(self).heap@.len() <= self.heap@.len(),
                forall|k: int|
                    0 <= k < old(self).heap@.len() ==> #[trigger] self.heap@[k] == old(self).heap@[k],
                all_below(terms@, self.heap@.len() as int),
                g_array_items(s, old(self).position(), old(self).state()) == g_elements(
                    s,
                    self.position(),
                    self.state(),
                    terms@,
                ),
                self.peek_is(TokenType::RightSquare),
            decreases self.remaining(),
        {
            let lookahead = self.lexer.lookahead(0)?;
            if lookahead.kind == TokenType::RightSquare {
                break;
            }
            self.lexer.expect(TokenType::Comma)?;
            let e = self.parse_expr()?;
            terms.push(e);
        }
        // Match right square brace
        self.lexer.expect(TokenType::RightSquare)?;
        Ok(self.store(Term::ArrayConstructor(terms)))
    }

    #[verifier::rlimit(100)]
    #[verifier::spinoff_prover]
    fn parse_expr_arraylength(&mut self) -> (r: Result<usize, ()>)
        requires
            old(self).wf(),
        ensures
            final(self).advanced(*old(self), r),
            final(self).yields(g_array_length(old(self).source(), old(self).position(), old(self).state()), r),
        decreases old(self).remaining(), 16nat,
    {
        self.lexer.expect(TokenType::Bar)?;
        // Parse source expression
        let src = self.parse_expr()?;
        self.lexer.expect(TokenType::Bar)?;
        let t = Term::ArrayLength(src);
        proof {
            lemma_refs1(t, src, self.heap@.len() as int);
        }
        Ok(self.store(t))
    }

    #[verifier::rlimit(100)]
    #[verifier::spinoff_prover]
    fn parse_expr_braced(&mut self) -> (r: Result<usize, ()>)
        requires
            old(self).wf(),
        ensures
            final(self).advanced(*old(self), r),
            final(self).yields(g_braced(old(self).source(), old(self).position(), old(self).state()), r),
        decreases old(self).remaining(), 16nat,
    {
        // Parse opening bracket
        self.lexer.expect(TokenType::LeftBrace)?;
        // Parse comma-separated terms
        let terms = self.parse_exprs_until(TokenType::RightBrace)?;
        // Parse right brace
        self.lexer.expect(TokenType::RightBrace)?;
        if terms.len() == 1 {
            // Normal braced expression
            let t = Term::Braced(terms[0]);
            proof {
                assert(terms@[0] < self.heap@.len());
                lemma_refs1(t, terms@[0], self.heap@.len() as int);
            }
            Ok(self.store(t))
        } else {
            Ok(self.store(Term::TupleConstructor(terms)))
        }
    }

    #[verifier::rlimit(100)]
    #[verifier::spinoff_prover]
    fn parse_expr_ifelse(&mut self) -> (r: Result<usize, ()>)
        requires
            old(self).wf(),
        ensures
            final(self).advanced(*old(self), r),
            final(self).yields(g_ifelse(old(self).source(), old(self).position(), old(self).state()), r),
        decreases old(self).remaining(), 16nat,
    {
        self.lexer.expect(TokenType::If)?;
        // Parse condition
        let cond = self.parse_expr()?;
        // Parse true branch
        let tt = self.parse_block()?;
        // Parse false branch (currently required)
        self.lexer.expect(TokenType::Else)?;
        let ff = self.parse_block()?;
        let t = Term::IfElse { cond, tt, ff };
        proof {
            lemma_refs3(t, cond, tt, ff, self.heap@.len() as int);
        }
        Ok(self.store(t))
    }

    #[verifier::rlimit(100)]
    #[verifier::spinoff_prover]
    fn parse_expr_staticinvoke(&mut self) -> (r: Result<usize, ()>)
        requires
            old(self).wf(),
        ensures
            final(self).advanced(*old(self), r),
            final(self).yields(g_invoke(old(self).source(), old(self).position(), old(self).state()), r),
        decreases old(self).remaining(), 16nat,
    {
        let id = self.lexer.expect(TokenType::Identifier)?;
        let name = self.lexer.to_string(&id);
        // Parse left brace
        self.lexer.expect(TokenType::LeftBrace)?;
        // Parse terms within literal
        let terms = self.parse_exprs_until(TokenType::RightBrace)?;
        // Match right brace
        self.lexer.expect(TokenType::RightBrace)?;
        Ok(self.store(Term::StaticInvoke(name, terms)))
    }

    #[verifier::rlimit(100)]
    #[verifier::spinoff_prover]
    fn parse_expr_tupleaccess(&mut self, src: usize) -> (r: Result<usize, ()>)
        requires
            old(self).wf(),
            src < old(self).heap@.len(),
        ensures
            final(self).advanced(*old(self), r),
            final(self).yields(
                g_tuple_access(old(self).source(), old(self).position(), old(self).state(), src),
                r,
            ),
        decreases old(self).remaining(), 16nat,
    {
        self.lexer.expect(TokenType::Dot)?;
        let tok = self.lexer.expect(TokenType::IntLiteral)?;
        let s = self.lexer.to_string(&tok);
        let i = parse_decimal(s.as_str())?;
        let t = Term::TupleAccess(src, i);
        proof {
            lemma_refs1(t, src, self.heap@.len() as int);
        }
        Ok(self.store(t))
    }

    fn parse_expr_varaccess(&mut self) -> (r: Result<usize, ()>)
        requires
            old(self).wf(),
            old(self).peek_is(TokenType::Identifier),
        ensures
            final(self).advanced(*old(self), r),
            ({
                let t = next_token(old(self).source(), old(self).position())->0;
                final(self).yields(
                    stored(
                        t.offset + t.len,
                        old(self).state(),
                        Shape::VarAccess(old(self).source().subrange(t.offset as int, t.offset + t.len)),
                    ),
                    r,
                )
            }),
        decreases old(self).remaining(), 16nat,
    {
        let id = self.lexer.expect(TokenType::Identifier)?;
        let name = self.lexer.to_string(&id);
        // Parse as variable access
        Ok(self.store(Term::VarAccess(name)))
    }

    /// Parse a sequence of zero or more comma-separated terms until a
    /// given end token is encountered.
    #[verifier::rlimit(100)]
    #[verifier::spinoff_prover]
    fn parse_exprs_until(&mut self, end: TokenType) -> (r: Result<Vec<usize>, ()>)
        requires
            old(self).wf(),
        ensures
            final(self).advanced_all(*old(self), r),
            match g_exprs(old(self).source(), old(self).position(), old(self).state(), end, seq![]) {
                Some((q, h, es)) => r is Ok && r->Ok_0@ == es && final(self).position() == q
                    && final(self).state() == h,
                None => r is Err,
            },
        decreases old(self).remaining(), 31nat,
    {
        let ghost s = self.source();
        let mut terms: Vec<usize> = Vec::new();
        let ghost start = self.remaining();
        loop
            invariant
                self.advanced_all(*old(self), Ok::<Vec<usize>, ()>(terms)),
                self.remaining() <= start,
                start == old(self).remaining(),
                terms.len() > 0 ==> self.remaining() < start,
                s == self.source(),
                g_exprs(s, old(self).position(), old(self).state(), end, seq![]) == g_exprs(
                    s,
                    self.position(),
                    self.state(),
                    end,
                    terms@,
                ),
            ensures
                self.advanced_all(*old(self), Ok::<Vec<usize>, ()>(terms)),
                g_exprs(s, old(self).position(), old(self).state(), end, seq![]) == Some(
                    (self.position(), self.state(), terms@),
                ),
            decreases self.remaining(),
        {
            let lookahead = self.lexer.lookahead(0)?;
            if lookahead.kind == end {
                break;
            }
            if terms.len() != 0 {
                self.lexer.expect(TokenType::Comma)?;
            }
            let ith = self.parse_expr()?;
            terms.push(ith);
        }
        Ok(terms)
    }

    // ===============================================================
    // Literals
    // ===============================================================
    fn parse_literal_bool(&mut self, val: bool) -> (r: Result<usize, ()>)
        requires
            old(self).wf(),
            old(self).peek_is(TokenType::BoolLiteral(val)),
        ensures
            final(self).advanced(*old(self), r),
            final(self).yields(g_unit(old(self).source(), old(self).position(), old(self).state()), r),
        decreases old(self).remaining(), 16nat,
    {
        self.lexer.expect(TokenType::BoolLiteral(val))?;
        Ok(self.store(Term::BoolLiteral(val)))
    }

    fn parse_literal_int(&mut self) -> (r: Result<usize, ()>)
        requires
            old(self).wf(),
            old(self).peek_is(TokenType::IntLiteral),
        ensures
            final(self).advanced(*old(self), r),
            final(self).yields(g_unit(old(self).source(), old(self).position(), old(self).state()), r),
        decreases old(self).remaining(), 16nat,
    {
        let tok = self.lexer.expect(TokenType::IntLiteral)?;
        let s = self.lexer.to_string(&tok);
        let i = parse_decimal(s.as_str())?;
        Ok(self.store(Term::IntLiteral(i)))
    }

    // ===============================================================
    // Types
    // ===============================================================
    fn parse_type(&mut self) -> (r: Result<usize, ()>)
        requires
            old(self).wf(),
        ensures
            final(self).advanced(*old(self), r),
            final(self).yields(g_type(old(self).source(), old(self).position(), old(self).state()), r),
        decreases old(self).remaining(), 5nat,
    {
        let ghost s = self.source();
        let mut src = self.parse_unit_type()?;
        // Parse array type
        loop
            invariant
                self.advanced(*old(self), Ok::<usize, ()>(src)),
                s == self.source(),
                g_type(s, old(self).position(), old(self).state()) == g_array_suffix(
                    s,
                    self.position(),
                    self.state(),
                    src,
                ),
            ensures
                self.advanced(*old(self), Ok::<usize, ()>(src)),
                g_type(s, old(self).position(), old(self).state()) == Some(
                    (self.position(), self.state(), src),
                ),
            decreases self.remaining(),
        {
            if !self.lexer.matches(TokenType::LeftSquare) {
                break;
            }
            self.lexer.expect(TokenType::RightSquare)?;
            let t = Term::ArrayType(src);
            proof {
                lemma_refs1(t, src, self.heap@.len() as int);
            }
            src = self.store(t);
        }
        Ok(src)
    }

    fn parse_unit_type(&mut self) -> (r: Result<usize, ()>)
        requires
            old(self).wf(),
        ensures
            final(self).advanced(*old(self), r),
            final(self).yields(g_unit_type(old(self).source(), old(self).position(), old(self).state()), r),
        decreases old(self).remaining(), 4nat,
    {
        let lookahead = self.lexer.lookahead(0)?;
        match lookahead.kind {
            TokenType::Uint => self.parse_uint_type(),
            TokenType::Bool => self.parse_bool_type(),
            TokenType::LeftBrace => self.parse_tuple_type(),
            _ => Err(()),
        }
    }

    fn parse_bool_type(&mut self) -> (r: Result<usize, ()>)
        requires
            old(self).wf(),
            old(self).peek_is(TokenType::Bool),
        ensures
            final(self).advanced(*old(self), r),
            final(self).yields(g_unit_type(old(self).source(), old(self).position(), old(self).state()), r),
        decreases old(self).remaining(), 3nat,
    {
        self.lexer.expect(TokenType::Bool)?;
        Ok(self.store(Term::BoolType))
    }

    fn parse_uint_type(&mut self) -> (r: Result<usize, ()>)
        requires
            old(self).wf(),
            old(self).peek_is(TokenType::Uint),
        ensures
            final(self).advanced(*old(self), r),
            final(self).yields(g_unit_type(old(self).source(), old(self).position(), old(self).state()), r),
        decreases old(self).remaining(), 3nat,
    {
        self.lexer.expect(TokenType::Uint)?;
        Ok(self.store(Term::IntType(false)))
    }

    #[verifier::rlimit(100)]
    #[verifier::spinoff_prover]
    fn parse_tuple_type(&mut self) -> (r: Result<usize, ()>)
        requires
            old(self).wf(),
        ensures
            final(self).advanced(*old(self), r),
            final(self).yields(g_tuple_type(old(self).source(), old(self).position(), old(self).state()), r),
        decreases old(self).remaining(), 3nat,
    {
        let ghost s = self.source();
        let mut types: Vec<usize> = Vec::new();
        self.lexer.expect(TokenType::LeftBrace)?;
        let ghost start = self.remaining();
        loop
            invariant
                self.wf(),
                self.source() == s,
                s == old(self).source(),
                self.remaining() <= start,
                start < old(self).remaining(),
                old(self).heap@.len() <= self.heap@.len(),
                forall|k: int|
                    0 <= k < old(self).heap@.len() ==> #[trigger] self.heap@[k] == old(self).heap@[k],
                all_below(types@, self.heap@.len() as int),
                g_tuple_type(s, old(self).position(), old(self).state()) == g_tuple_rest(
                    s,
                    self.position(),
                    self.state(),
                    types@,
                ),
            ensures
                self.wf(),
                self.source() == s,
                old(self).heap@.len() <= self.heap@.len(),
                self.remaining() < old(self).remaining(),
                forall|k: int|
                    0 <= k < old(self).heap@.len() ==> #[trigger] self.heap@[k] == old(self).heap@[k],
                all_below(types@, self.heap@.len() as int),
                g_tuple_type(s, old(self).position(), old(self).state()) == g_tuple_rest(
                    s,
                    self.position(),
                    self.state(),
                    types@,
                ),
                self.peek_is(TokenType::RightBrace),
            decreases self.remaining(),
        {
            let lookahead = self.lexer.lookahead(0)?;
            if lookahead.kind == TokenType::RightBrace {
                break;
            }
            if types.len() != 0 {
                self.lexer.expect(TokenType::Comma)?;
            }
            let t = self.parse_type()?;
            types.push(t);
        }
        self.lexer.expect(TokenType::RightBrace)?;
        Ok(self.store(Term::TupleType(types)))
    }

    // ===============================================================
    // Misc
    // ===============================================================
    fn parse_identifier(&mut self) -> (r: Result<String, ()>)
        requires
            old(self).wf(),
        ensures
            final(self).wf(),
            final(self).source() == old(self).source(),
            final(self).remaining() <= old(self).remaining(),
            final(self).heap@ == old(self).heap@,
            match g_ident(old(self).source(), old(self).position()) {
                Some((q, n)) => r is Ok && r->Ok_0@ == n && final(self).position() == q,
                None => r is Err,
            },
    {
        let ith = self.lexer.expect(TokenType::Identifier)?;
        Ok(self.lexer.to_string(&ith))
    }

    fn is_postfix_operator(token: Token) -> (r: bool)
        ensures
            r == (token.kind == TokenType::LeftSquare || token.kind == TokenType::Dot),
    {
        token.kind == TokenType::LeftSquare || token.kind == TokenType::Dot
    }

    /// The level of precedence of a binary operator: arithmetic binds
    /// tightest, then comparisons, then the logical connectives.
    fn binop_level(bop: BinOp) -> (r: usize)
        ensures
            1 <= r <= 3,
            r == level_of(bop),
    {
        match bop {
            BinOp::Add | BinOp::Subtract | BinOp::Divide | BinOp::Multiply | BinOp::Remainder => 1,
            BinOp::LogicalAnd | BinOp::LogicalOr | BinOp::LogicalImplies => 3,
            _ => 2,
        }
    }

    /// Construct a `BinOp` from a `TokenType`.
    fn binop_from_token(token: TokenType) -> (r: Option<BinOp>)
        ensures
            r is Some ==> token != TokenType::EOF,
            r == binop_of(token),
    {
        let bop = match token {
            // Equality
            TokenType::EqualsEquals => BinOp::Equals,
            TokenType::ShreakEquals => BinOp::NotEquals,
            // Comparison
            TokenType::LeftAngle => BinOp::LessThan,
            TokenType::LeftAngleEquals => BinOp::LessThanOrEquals,
            TokenType::RightAngle => BinOp::GreaterThan,
            TokenType::RightAngleEquals => BinOp::GreaterThanOrEquals,
            // Arithmetic
            TokenType::Minus => BinOp::Subtract,
            TokenType::Percent => BinOp::Remainder,
            TokenType::Plus => BinOp::Add,
            TokenType::RightSlash => BinOp::Divide,
            TokenType::Star => BinOp::Multiply,
            // Logical
            TokenType::AmpersandAmpersand => BinOp::LogicalAnd,
            TokenType::BarBar => BinOp::LogicalOr,
            TokenType::EqualsEqualsRightAngle => BinOp::LogicalImplies,
            // No match
            _ => {
                return None;
            },
        };
        Some(bop)
    }
}

} // verus!
