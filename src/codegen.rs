use vstd::prelude::*;
use crate::ast::{BinOp, Function, SyntacticHeap, Term, binding_types, refs, refs_below};
use crate::text::{decimal, push_decimal, push_str};

verus! {

/// Simplest possible code generator
pub struct RustPrinter<'a> {
    heap: &'a SyntacticHeap,
    out: String,
    indent: usize,
}

impl<'a> RustPrinter<'a> {
    /// The text printed so far.
    pub closed spec fn text(&self) -> Seq<char> {
        self.out@
    }

    /// The current depth of indentation.
    pub closed spec fn depth(&self) -> nat {
        self.indent as nat
    }

    /// The program being printed.
    pub closed spec fn source(&self) -> SyntacticHeap {
        *self.heap
    }

    /// Whether `self` is `before` with `t` printed after its text.
    pub open spec fn prints(&self, before: RustPrinter<'a>, t: Seq<char>) -> bool {
        &&& self.text() == before.text() + t
        &&& self.depth() == before.depth()
        &&& self.source() == before.source()
    }

    /// Create a new printer
    pub fn new(heap: &'a SyntacticHeap) -> (r: Self)
        ensures
            r.text() == Seq::<char>::empty(),
            r.depth() == 0,
            r.source() == *heap,
    {
        let mut out = String::new();
        push_str(&mut out, Self::preamble());
        Self { heap, out, indent: 0 }
    }

    /// Text placed before any generated code.
    pub fn preamble() -> (r: &'static str)
        ensures
            r@ == Seq::<char>::empty(),
    {
        proof {
            reveal_strlit("");
        }
        ""
    }

    pub fn write(&mut self, text: &str)
        ensures
            final(self).prints(*old(self), text@),
    {
        push_str(&mut self.out, text);
    }

    pub fn writeln(&mut self, text: &str)
        ensures
            final(self).prints(*old(self), text@ + "\n"@),
    {
        self.write(text);
        push_str(&mut self.out, "\n");
        assert(self.text() =~= old(self).text() + (text@ + "\n"@));
    }

    /// Write `text` after three spaces for each level of indentation.
    pub fn indent(&mut self, text: &str)
        ensures
            final(self).prints(*old(self), spaces(old(self).depth()) + text@),
    {
        let ghost start = self.out@;
        proof {
            reveal_strlit("   ");
        }
        let mut i: usize = 0;
        while i < self.indent
            invariant
                i <= self.indent,
                self.out@ == start + spaces(i as nat),
                self.heap == old(self).heap,
                self.indent == old(self).indent,
                start == old(self).out@,
            decreases self.indent - i,
        {
            push_str(&mut self.out, "   ");
            i += 1;
            assert(self.out@ =~= start + spaces(i as nat));
        }
        self.write(text);
        assert(self.text() =~= old(self).text() + (spaces(old(self).depth()) + text@));
    }

    /// The printed text.
    pub fn done(self) -> (r: String)
        ensures
            r@ == self.text(),
    {
        self.out
    }

    /// Print out the term at `index`; a term outside the heap prints
    /// nothing.
    pub fn generate(&mut self, index: usize)
        requires
            old(self).source().wf(),
        ensures
            index < old(self).source()@.len() && old(self).depth() + index < usize::MAX
                ==> final(self).prints(
                *old(self),
                rust_text(old(self).source()@, index as int, old(self).depth()),
            ),
            !(index < old(self).source()@.len() && old(self).depth() + index < usize::MAX)
                ==> *final(self) == *old(self),
    {
        if index >= self.heap.len() || self.indent >= usize::MAX - index {
            return;
        }
        self.gen_term(index);
    }

    fn gen_term(&mut self, index: usize)
        requires
            old(self).heap.wf(),
            index < old(self).heap@.len(),
            old(self).indent + index < usize::MAX,
        ensures
            final(self).prints(*old(self), rust_text(old(self).heap@, index as int, old(self).depth())),
        decreases index, 2nat,
    {
        let term = self.heap.get(index);
        proof {
            assert(refs_below(self.heap@[index as int], index as int));
        }
        match term {
            // Declarations
            Term::Function(fun) => self.gen_function(index, fun),
            // Statements
            Term::Assert(src) => {
                assert(refs(*term)[0] == *src);
                self.gen_assert(index, *src)
            },
            Term::Assume(src) => {
                assert(refs(*term)[0] == *src);
                self.gen_assert(index, *src)
            },
            Term::Block(terms) => self.gen_block(index, terms),
            // Expressions
            Term::ArrayAccess { src, index: i } => {
                assert(refs(*term)[0] == *src);
                assert(refs(*term)[1] == *i);
                self.gen_array_access(index, *src, *i)
            },
            Term::ArrayGenerator(item, len) => {
                assert(refs(*term)[0] == *item);
                assert(refs(*term)[1] == *len);
                self.gen_array_generator(index, *item, *len)
            },
            Term::ArraySlice { src, start, end } => {
                assert(refs(*term)[0] == *src);
                assert(refs(*term)[1] == *start);
                assert(refs(*term)[2] == *end);
                self.gen_array_slice(index, *src, *start, *end)
            },
            Term::ArrayLength(src) => {
                assert(refs(*term)[0] == *src);
                self.gen_array_length(index, *src)
            },
            Term::ArrayConstructor(vs) => self.gen_list(index, vs, "vec![", "]"),
            Term::Binary(bop, l, r) => {
                assert(refs(*term)[0] == *l);
                assert(refs(*term)[1] == *r);
                self.gen_binary(index, *bop, *l, *r)
            },
            Term::BoolLiteral(v) => self.gen_bool_literal(*v),
            Term::Braced(v) => {
                assert(refs(*term)[0] == *v);
                self.gen_braced(index, *v)
            },
            Term::IfElse { cond, tt, ff } => {
                assert(refs(*term)[0] == *cond);
                assert(refs(*term)[1] == *tt);
                assert(refs(*term)[2] == *ff);
                self.gen_if(index, *cond, *tt, *ff)
            },
            Term::IntLiteral(v) => self.gen_int_literal(*v),
            Term::StaticInvoke(name, args) => self.gen_static_invoke(index, name, args),
            Term::TupleAccess(src, i) => {
                assert(refs(*term)[0] == *src);
                self.gen_tuple_access(index, *src, *i)
            },
            Term::TupleConstructor(vs) => self.gen_list(index, vs, "(", ")"),
            Term::VarAccess(v) => self.gen_var_access(v.as_str()),
            // Types
            Term::ArrayType(src) => {
                assert(refs(*term)[0] == *src);
                self.gen_array_type(index, *src)
            },
            Term::TupleType(types) => self.gen_list(index, types, "(", ")"),
            Term::IntType(s) => self.gen_int_type(*s),
            Term::BoolType => self.gen_bool_type(),
        }
    }

    // ===============================================================
    // Declarations
    // ===============================================================
    /// Print a list of named bindings, `name: type`, separated by commas.
    fn gen_bindings(&mut self, index: usize, bs: &Vec<(usize, String)>)
        requires
            old(self).heap.wf(),
            index < old(self).heap@.len(),
            old(self).indent + index < usize::MAX,
            forall|k: int| 0 <= k < bs@.len() ==> #[trigger] bs@[k].0 < index,
        ensures
            final(self).prints(
                *old(self),
                bindings_text(old(self).heap@, bs@, index as int, old(self).depth()),
            ),
        decreases index, 0nat,
    {
        let ghost start = self.text();
        let ghost d = self.depth();
        assert(bs@.subrange(0, 0) =~= seq![]);
        assert(start + seq![] =~= start);
        let mut i: usize = 0;
        while i < bs.len()
            invariant
                self.heap.wf(),
                index < self.heap@.len(),
                self.heap == old(self).heap,
                self.indent == old(self).indent,
                self.indent + index < usize::MAX,
                d == old(self).depth(),
                start == old(self).text(),
                i <= bs@.len(),
                forall|k: int| 0 <= k < bs@.len() ==> #[trigger] bs@[k].0 < index,
                self.text() == start + bindings_text(self.heap@, bs@.subrange(0, i as int), index as int, d),
            decreases bs@.len() - i,
        {
            let ghost sub = bs@.subrange(0, i + 1);
            assert(sub.drop_last() =~= bs@.subrange(0, i as int));
            assert(sub.last() == bs@[i as int]);
            let ghost prev = self.text();
            let ghost sep: Seq<char> = if i != 0 {
                ", "@
            } else {
                seq![]
            };
            if i != 0 {
                self.write(", ");
            }
            self.write(bs[i].1.as_str());
            self.write(": ");
            self.gen_term(bs[i].0);
            let ghost item = rust_text(self.heap@, bs@[i as int].0 as int, d);
            assert(self.text() =~= prev + (sep + bs@[i as int].1@ + ": "@ + item));
            assert(child_text(self.heap@, bs@[i as int].0 as int, index as int, d) == item);
            assert(bindings_text(self.heap@, sub, index as int, d) == bindings_text(
                self.heap@,
                sub.drop_last(),
                index as int,
                d,
            ) + sep + sub.last().1@ + ": "@ + child_text(self.heap@, sub.last().0 as int, index as int, d));
            i += 1;
            assert(self.text() =~= start + bindings_text(self.heap@, bs@.subrange(0, i as int), index as int, d));
        }
        assert(bs@.subrange(0, i as int) =~= bs@);
    }

    fn gen_function(&mut self, index: usize, fun: &Function)
        requires
            old(self).heap.wf(),
            index < old(self).heap@.len(),
            old(self).heap@[index as int] == Term::Function(*fun),
            old(self).indent + index < usize::MAX,
        ensures
            final(self).prints(*old(self), rust_text(old(self).heap@, index as int, old(self).depth())),
        decreases index, 1nat,
    {
        proof {
            let rs = refs(self.heap@[index as int]);
            assert(refs_below(self.heap@[index as int], index as int));
            let a = binding_types(fun.params@);
            let b = binding_types(fun.rets@);
            assert forall|k: int| 0 <= k < fun.params@.len() implies #[trigger] fun.params@[k].0 < index by {
                assert(rs[k] == a[k]);
            }
            assert forall|k: int| 0 <= k < fun.rets@.len() implies #[trigger] fun.rets@[k].0 < index by {
                assert(rs[a.len() + k] == b[k]);
            }
            assert(rs[rs.len() - 1] == fun.body);
        }
        let ghost d = self.depth();
        let ghost heap = self.heap@;
        proof {
            reveal_strlit("");
        }
        self.write("fn ");
        self.write(fun.name.as_str());
        self.write("(");
        self.gen_bindings(index, &fun.params);
        self.write(")");
        let ghost t1 = self.text();
        assert(t1 =~= old(self).text() + ("fn "@ + fun.name@ + "("@ + bindings_text(
            heap,
            fun.params@,
            index as int,
            d,
        ) + ")"@));
        let ghost rets: Seq<char> = if fun.rets@.len() != 0 {
            " -> ("@ + bindings_text(heap, fun.rets@, index as int, d) + ")"@
        } else {
            seq![]
        };
        if fun.rets.len() != 0 {
            self.write(" -> (");
            self.gen_bindings(index, &fun.rets);
            self.write(")");
        }
        assert(self.text() =~= t1 + rets);
        let ghost t2 = self.text();
        self.gen_term(fun.body);
        self.writeln("");
        assert(child_text(heap, fun.body as int, index as int, d) == rust_text(heap, fun.body as int, d));
        assert(self.text() =~= t2 + (rust_text(heap, fun.body as int, d) + "\n"@));
        assert(rust_text(heap, index as int, d) == "fn "@ + fun.name@ + "("@ + bindings_text(
            heap,
            fun.params@,
            index as int,
            d,
        ) + ")"@ + rets + child_text(heap, fun.body as int, index as int, d) + "\n"@);
        assert(self.text() =~= old(self).text() + rust_text(self.heap@, index as int, old(self).depth()));
    }

    // ===============================================================
    // Statements
    // ===============================================================
    fn gen_assert(&mut self, index: usize, src: usize)
        requires
            old(self).heap.wf(),
            index < old(self).heap@.len(),
            old(self).heap@[index as int] == Term::Assert(src) || old(self).heap@[index as int]
                == Term::Assume(src),
            old(self).indent + index < usize::MAX,
            src < index,
        ensures
            final(self).prints(*old(self), rust_text(old(self).heap@, index as int, old(self).depth())),
        decreases index, 1nat,
    {
        self.write("assert!(");
        self.gen_term(src);
        self.write(")");
        assert(self.text() =~= old(self).text() + rust_text(self.heap@, index as int, old(self).depth()));
    }

    fn gen_block(&mut self, index: usize, terms: &Vec<usize>)
        requires
            old(self).heap.wf(),
            index < old(self).heap@.len(),
            old(self).heap@[index as int] == Term::Block(*terms),
            old(self).indent + index < usize::MAX,
        ensures
            final(self).prints(*old(self), rust_text(old(self).heap@, index as int, old(self).depth())),
        decreases index, 1nat,
    {
        proof {
            assert(refs_below(self.heap@[index as int], index as int));
            assert(refs(self.heap@[index as int]) == terms@);
        }
        let ghost d = self.depth();
        proof {
            reveal_strlit("");
            reveal_strlit(" {");
            reveal_strlit("\n");
            reveal_strlit(" {\n");
            reveal_strlit("; ");
            reveal_strlit("; \n");
            reveal_strlit("}");
        }
        self.writeln(" {");
        self.indent += 1;
        self.indent("");
        let ghost start = self.text();
        assert(terms@.subrange(0, 0) =~= seq![]);
        assert(start + seq![] =~= start);
        let mut i: usize = 0;
        while i < terms.len()
            invariant
                self.heap.wf(),
                index < self.heap@.len(),
                self.heap == old(self).heap,
                self.indent == old(self).indent + 1,
                self.indent + index <= usize::MAX,
                d == old(self).depth(),
                i <= terms@.len(),
                forall|k: int| 0 <= k < terms@.len() ==> #[trigger] terms@[k] < index,
                self.text() == start + block_text(self.heap@, terms@.subrange(0, i as int), index as int, d + 1),
            decreases terms@.len() - i,
        {
            let ghost sub = terms@.subrange(0, i + 1);
            assert(sub.drop_last() =~= terms@.subrange(0, i as int));
            assert(sub.last() == terms@[i as int]);
            proof {
                reveal_strlit("");
                reveal_strlit("; ");
                reveal_strlit("\n");
                reveal_strlit("; \n");
            }
            let ghost prev = self.text();
            let ghost sep: Seq<char> = if i > 0 {
                "; \n"@ + spaces(d + 1)
            } else {
                seq![]
            };
            if i > 0 {
                self.writeln("; ");
                self.indent("");
            }
            assert(terms@[i as int] < index);
            self.gen_term(terms[i]);
            let ghost item = rust_text(self.heap@, terms@[i as int] as int, d + 1);
            assert(self.text() =~= prev + (sep + item));
            assert(child_text(self.heap@, terms@[i as int] as int, index as int, d + 1) == item);
            assert(block_text(self.heap@, sub, index as int, d + 1) == block_text(
                self.heap@,
                sub.drop_last(),
                index as int,
                d + 1,
            ) + sep + child_text(self.heap@, sub.last() as int, index as int, d + 1));
            i += 1;
            assert(self.text() =~= start + block_text(self.heap@, terms@.subrange(0, i as int), index as int, d + 1));
        }
        assert(terms@.subrange(0, i as int) =~= terms@);
        let ghost body = block_text(self.heap@, terms@, index as int, d + 1);
        assert(start == old(self).text() + " {\n"@ + spaces(d + 1));
        self.writeln("");
        self.indent -= 1;
        self.indent("}");
        assert(rust_text(self.heap@, index as int, d) == " {\n"@ + spaces(d + 1) + body + "\n"@
            + spaces(d) + "}"@);
        assert(self.text() =~= old(self).text() + rust_text(self.heap@, index as int, d));
    }

    // ===============================================================
    // Expressions
    // ===============================================================
    fn gen_array_access(&mut self, index: usize, src: usize, i: usize)
        requires
            old(self).heap.wf(),
            index < old(self).heap@.len(),
            old(self).heap@[index as int] == (Term::ArrayAccess { src, index: i }),
            old(self).indent + index < usize::MAX,
            src < index,
            i < index,
        ensures
            final(self).prints(*old(self), rust_text(old(self).heap@, index as int, old(self).depth())),
        decreases index, 1nat,
    {
        self.gen_term(src);
        self.write("[");
        self.gen_term(i);
        self.write("]");
        assert(self.text() =~= old(self).text() + rust_text(self.heap@, index as int, old(self).depth()));
    }

    /// Print terms separated by commas between `open` and `close`.
    fn gen_list(&mut self, index: usize, terms: &Vec<usize>, open: &str, close: &str)
        requires
            old(self).heap.wf(),
            index < old(self).heap@.len(),
            old(self).indent + index < usize::MAX,
            refs_below(old(self).heap@[index as int], index as int),
            refs(old(self).heap@[index as int]) == terms@,
        ensures
            final(self).prints(
                *old(self),
                open@ + list_text(old(self).heap@, terms@, index as int, old(self).depth()) + close@,
            ),
        decreases index, 0nat,
    {
        let ghost d = self.depth();
        self.write(open);
        let ghost start = self.text();
        assert(terms@.subrange(0, 0) =~= seq![]);
        assert(start + seq![] =~= start);
        let mut i: usize = 0;
        while i < terms.len()
            invariant
                self.heap.wf(),
                index < self.heap@.len(),
                self.heap == old(self).heap,
                self.indent == old(self).indent,
                self.indent + index < usize::MAX,
                d == old(self).depth(),
                i <= terms@.len(),
                refs_below(self.heap@[index as int], index as int),
                refs(self.heap@[index as int]) == terms@,
                self.text() == start + list_text(self.heap@, terms@.subrange(0, i as int), index as int, d),
            decreases terms@.len() - i,
        {
            let ghost sub = terms@.subrange(0, i + 1);
            assert(sub.drop_last() =~= terms@.subrange(0, i as int));
            assert(sub.last() == terms@[i as int]);
            let ghost prev = self.text();
            let ghost sep: Seq<char> = if i != 0 {
                ","@
            } else {
                seq![]
            };
            if i != 0 {
                self.write(",");
            }
            assert(terms@[i as int] < index);
            self.gen_term(terms[i]);
            let ghost item = rust_text(self.heap@, terms@[i as int] as int, d);
            assert(self.text() =~= prev + (sep + item));
            assert(child_text(self.heap@, terms@[i as int] as int, index as int, d) == item);
            assert(list_text(self.heap@, sub, index as int, d) == list_text(
                self.heap@,
                sub.drop_last(),
                index as int,
                d,
            ) + sep + child_text(self.heap@, sub.last() as int, index as int, d));
            i += 1;
            assert(self.text() =~= start + list_text(self.heap@, terms@.subrange(0, i as int), index as int, d));
        }
        assert(terms@.subrange(0, i as int) =~= terms@);
        self.write(close);
        assert(self.text() =~= old(self).text() + (open@ + list_text(self.heap@, terms@, index as int, d) + close@));
    }

    fn gen_array_generator(&mut self, index: usize, item: usize, len: usize)
        requires
            old(self).heap.wf(),
            index < old(self).heap@.len(),
            old(self).heap@[index as int] == Term::ArrayGenerator(item, len),
            old(self).indent + index < usize::MAX,
            item < index,
            len < index,
        ensures
            final(self).prints(*old(self), rust_text(old(self).heap@, index as int, old(self).depth())),
        decreases index, 1nat,
    {
        self.write("vec![");
        self.gen_term(item);
        self.write(";");
        self.gen_term(len);
        self.write("]");
        assert(self.text() =~= old(self).text() + rust_text(self.heap@, index as int, old(self).depth()));
    }

    fn gen_array_length(&mut self, index: usize, src: usize)
        requires
            old(self).heap.wf(),
            index < old(self).heap@.len(),
            old(self).heap@[index as int] == Term::ArrayLength(src),
            old(self).indent + index < usize::MAX,
            src < index,
        ensures
            final(self).prints(*old(self), rust_text(old(self).heap@, index as int, old(self).depth())),
        decreases index, 1nat,
    {
        self.gen_term(src);
        self.write(".len()");
        assert(self.text() =~= old(self).text() + rust_text(self.heap@, index as int, old(self).depth()));
    }

    fn gen_array_slice(&mut self, index: usize, src: usize, start: usize, end: usize)
        requires
            old(self).heap.wf(),
            index < old(self).heap@.len(),
            old(self).heap@[index as int] == (Term::ArraySlice { src, start, end }),
            old(self).indent + index < usize::MAX,
            src < index,
            start < index,
            end < index,
        ensures
            final(self).prints(*old(self), rust_text(old(self).heap@, index as int, old(self).depth())),
        decreases index, 1nat,
    {
        self.gen_term(src);
        self.write("[");
        self.gen_term(start);
        self.write("..");
        self.gen_term(end);
        self.write("].to_vec()");
        assert(self.text() =~= old(self).text() + rust_text(self.heap@, index as int, old(self).depth()));
    }

    fn gen_binary(&mut self, index: usize, bop: BinOp, lhs: usize, rhs: usize)
        requires
            old(self).heap.wf(),
            index < old(self).heap@.len(),
            old(self).heap@[index as int] == Term::Binary(bop, lhs, rhs),
            old(self).indent + index < usize::MAX,
            lhs < index,
            rhs < index,
        ensures
            final(self).prints(*old(self), rust_text(old(self).heap@, index as int, old(self).depth())),
        decreases index, 1nat,
    {
        self.gen_term(lhs);
        self.write(Self::bop_to_str(bop));
        self.gen_term(rhs);
        assert(self.text() =~= old(self).text() + rust_text(self.heap@, index as int, old(self).depth()));
    }

    fn gen_braced(&mut self, index: usize, src: usize)
        requires
            old(self).heap.wf(),
            index < old(self).heap@.len(),
            old(self).heap@[index as int] == Term::Braced(src),
            old(self).indent + index < usize::MAX,
            src < index,
        ensures
            final(self).prints(*old(self), rust_text(old(self).heap@, index as int, old(self).depth())),
        decreases index, 1nat,
    {
        self.write("(");
        self.gen_term(src);
        self.write(")");
        assert(self.text() =~= old(self).text() + rust_text(self.heap@, index as int, old(self).depth()));
    }

    fn gen_if(&mut self, index: usize, cond: usize, tt: usize, ff: usize)
        requires
            old(self).heap.wf(),
            index < old(self).heap@.len(),
            old(self).heap@[index as int] == (Term::IfElse { cond, tt, ff }),
            old(self).indent + index < usize::MAX,
            cond < index,
            tt < index,
            ff < index,
        ensures
            final(self).prints(*old(self), rust_text(old(self).heap@, index as int, old(self).depth())),
        decreases index, 1nat,
    {
        self.write("if ");
        self.gen_term(cond);
        self.gen_term(tt);
        self.write(" else");
        self.gen_term(ff);
        assert(self.text() =~= old(self).text() + rust_text(self.heap@, index as int, old(self).depth()));
    }

    fn gen_var_access(&mut self, var: &str)
        ensures
            final(self).prints(*old(self), var@),
    {
        self.write(var)
    }

    fn gen_static_invoke(&mut self, index: usize, name: &String, args: &Vec<usize>)
        requires
            old(self).heap.wf(),
            index < old(self).heap@.len(),
            old(self).heap@[index as int] == Term::StaticInvoke(*name, *args),
            old(self).indent + index < usize::MAX,
        ensures
            final(self).prints(*old(self), rust_text(old(self).heap@, index as int, old(self).depth())),
        decreases index, 1nat,
    {
        proof {
            assert(refs_below(self.heap@[index as int], index as int));
        }
        self.write(name.as_str());
        self.gen_list(index, args, "(", ")");
        assert(self.text() =~= old(self).text() + rust_text(self.heap@, index as int, old(self).depth()));
    }

    fn gen_tuple_access(&mut self, index: usize, src: usize, i: usize)
        requires
            old(self).heap.wf(),
            index < old(self).heap@.len(),
            old(self).heap@[index as int] == Term::TupleAccess(src, i),
            old(self).indent + index < usize::MAX,
            src < index,
        ensures
            final(self).prints(*old(self), rust_text(old(self).heap@, index as int, old(self).depth())),
        decreases index, 1nat,
    {
        self.gen_term(src);
        self.write(".");
        push_decimal(&mut self.out, i);
        assert(self.text() =~= old(self).text() + rust_text(self.heap@, index as int, old(self).depth()));
    }

    // ===============================================================
    // Literals
    // ===============================================================
    fn gen_bool_literal(&mut self, val: bool)
        ensures
            final(self).prints(
                *old(self),
                if val {
                    "true"@
                } else {
                    "false"@
                },
            ),
    {
        if val {
            self.write("true");
        } else {
            self.write("false");
        }
    }

    fn gen_int_literal(&mut self, val: usize)
        ensures
            final(self).prints(*old(self), decimal(val as nat)),
    {
        push_decimal(&mut self.out, val);
    }

    // ===============================================================
    // Types
    // ===============================================================
    fn gen_array_type(&mut self, index: usize, src: usize)
        requires
            old(self).heap.wf(),
            index < old(self).heap@.len(),
            old(self).heap@[index as int] == Term::ArrayType(src),
            old(self).indent + index < usize::MAX,
            src < index,
        ensures
            final(self).prints(*old(self), rust_text(old(self).heap@, index as int, old(self).depth())),
        decreases index, 1nat,
    {
        self.write("Vec<");
        self.gen_term(src);
        self.write(">");
        assert(self.text() =~= old(self).text() + rust_text(self.heap@, index as int, old(self).depth()));
    }

    fn gen_bool_type(&mut self)
        ensures
            final(self).prints(*old(self), "bool"@),
    {
        self.write("bool");
    }

    fn gen_int_type(&mut self, signed: bool)
        ensures
            final(self).prints(
                *old(self),
                if signed {
                    "isize"@
                } else {
                    "usize"@
                },
            ),
    {
        if signed {
            self.write("isize");
        } else {
            self.write("usize");
        }
    }

    // Misc
    /// The Rust spelling of each binary operator. Rust has no implication;
    /// on booleans `a <= b` holds exactly when `!a || b` does.
    fn bop_to_str(bop: BinOp) -> (r: &'static str)
        ensures
            r@ == bop_text(bop),
    {
        match bop {
            // Arithmetic
            BinOp::Add => "+",
            BinOp::Subtract => "-",
            BinOp::Divide => "/",
            BinOp::Multiply => "*",
            BinOp::Remainder => "%",
            // Comparators
            BinOp::Equals => "==",
            BinOp::NotEquals => "!=",
            BinOp::LessThan => "<",
            BinOp::LessThanOrEquals => "<=",
            BinOp::GreaterThan => ">",
            BinOp::GreaterThanOrEquals => ">=",
            // Logical
            BinOp::LogicalAnd => "&&",
            BinOp::LogicalImplies => "<=",
            BinOp::LogicalOr => "||",
        }
    }
}

/// The text a term prints as, nested `d` levels deep.
pub open spec fn rust_text(heap: Seq<Term>, i: int, d: nat) -> Seq<char>
    decreases i, 1nat, 0nat,
{
    if !(0 <= i < heap.len()) {
        seq![]
    } else {
        match heap[i] {
            Term::Function(f) => "fn "@ + f.name@ + "("@ + bindings_text(heap, f.params@, i, d) + ")"@
                + (if f.rets@.len() != 0 {
                " -> ("@ + bindings_text(heap, f.rets@, i, d) + ")"@
            } else {
                seq![]
            }) + child_text(heap, f.body as int, i, d) + "\n"@,
            Term::Assert(src) => "assert!("@ + child_text(heap, src as int, i, d) + ")"@,
            Term::Assume(src) => "assert!("@ + child_text(heap, src as int, i, d) + ")"@,
            Term::Block(ts) => " {\n"@ + spaces(d + 1) + block_text(heap, ts@, i, d + 1) + "\n"@
                + spaces(d) + "}"@,
            Term::ArrayAccess { src, index } => child_text(heap, src as int, i, d) + "["@
                + child_text(heap, index as int, i, d) + "]"@,
            Term::ArrayGenerator(item, len) => "vec!["@ + child_text(heap, item as int, i, d) + ";"@
                + child_text(heap, len as int, i, d) + "]"@,
            Term::ArraySlice { src, start, end } => child_text(heap, src as int, i, d) + "["@
                + child_text(heap, start as int, i, d) + ".."@ + child_text(heap, end as int, i, d)
                + "].to_vec()"@,
            Term::ArrayLength(src) => child_text(heap, src as int, i, d) + ".len()"@,
            Term::ArrayConstructor(vs) => "vec!["@ + list_text(heap, vs@, i, d) + "]"@,
            Term::Binary(op, l, r) => child_text(heap, l as int, i, d) + bop_text(op) + child_text(
                heap,
                r as int,
                i,
                d,
            ),
            Term::BoolLiteral(v) => if v {
                "true"@
            } else {
                "false"@
            },
            Term::Braced(v) => "("@ + child_text(heap, v as int, i, d) + ")"@,
            Term::IfElse { cond, tt, ff } => "if "@ + child_text(heap, cond as int, i, d) + child_text(
                heap,
                tt as int,
                i,
                d,
            ) + " else"@ + child_text(heap, ff as int, i, d),
            Term::IntLiteral(v) => decimal(v as nat),
            Term::StaticInvoke(name, args) => name@ + "("@ + list_text(heap, args@, i, d) + ")"@,
            Term::TupleAccess(src, index) => child_text(heap, src as int, i, d) + "."@ + decimal(
                index as nat,
            ),
            Term::TupleConstructor(vs) => "("@ + list_text(heap, vs@, i, d) + ")"@,
            Term::VarAccess(v) => v@,
            Term::ArrayType(src) => "Vec<"@ + child_text(heap, src as int, i, d) + ">"@,
            Term::TupleType(ts) => "("@ + list_text(heap, ts@, i, d) + ")"@,
            Term::IntType(s) => if s {
                "isize"@
            } else {
                "usize"@
            },
            Term::BoolType => "bool"@,
        }
    }
}

/// The text of a term referred to from a term at `bound`.
pub open spec fn child_text(heap: Seq<Term>, j: int, bound: int, d: nat) -> Seq<char>
    decreases bound, 0nat, 0nat,
{
    if 0 <= j < bound {
        rust_text(heap, j, d)
    } else {
        seq![]
    }
}

/// Terms separated by commas.
pub open spec fn list_text(heap: Seq<Term>, ts: Seq<usize>, bound: int, d: nat) -> Seq<char>
    decreases bound, 0nat, ts.len(),
{
    if ts.len() == 0 {
        seq![]
    } else {
        list_text(heap, ts.drop_last(), bound, d) + (if ts.len() > 1 {
            ","@
        } else {
            seq![]
        }) + child_text(heap, ts.last() as int, bound, d)
    }
}

/// The statements of a block, each on a line of its own.
pub open spec fn block_text(heap: Seq<Term>, ts: Seq<usize>, bound: int, d: nat) -> Seq<char>
    decreases bound, 0nat, ts.len(),
{
    if ts.len() == 0 {
        seq![]
    } else {
        block_text(heap, ts.drop_last(), bound, d) + (if ts.len() > 1 {
            "; \n"@ + spaces(d)
        } else {
            seq![]
        }) + child_text(heap, ts.last() as int, bound, d)
    }
}

/// Named bindings, `name: type`, separated by commas.
pub open spec fn bindings_text(heap: Seq<Term>, bs: Seq<(usize, String)>, bound: int, d: nat) -> Seq<
    char,
>
    decreases bound, 0nat, bs.len(),
{
    if bs.len() == 0 {
        seq![]
    } else {
        bindings_text(heap, bs.drop_last(), bound, d) + (if bs.len() > 1 {
            ", "@
        } else {
            seq![]
        }) + bs.last().1@ + ": "@ + child_text(heap, bs.last().0 as int, bound, d)
    }
}

/// Three spaces for each of `n` levels of indentation.
pub open spec fn spaces(n: nat) -> Seq<char>
    decreases n,
{
    if n == 0 {
        seq![]
    } else {
        spaces((n - 1) as nat) + "   "@
    }
}

/// The Rust spelling of a binary operator.
pub open spec fn bop_text(bop: BinOp) -> Seq<char> {
    match bop {
        BinOp::Add => "+"@,
        BinOp::Subtract => "-"@,
        BinOp::Divide => "/"@,
        BinOp::Multiply => "*"@,
        BinOp::Remainder => "%"@,
        BinOp::Equals => "=="@,
        BinOp::NotEquals => "!="@,
        BinOp::LessThan => "<"@,
        BinOp::LessThanOrEquals => "<="@,
        BinOp::GreaterThan => ">"@,
        BinOp::GreaterThanOrEquals => ">="@,
        BinOp::LogicalAnd => "&&"@,
        BinOp::LogicalImplies => "<="@,
        BinOp::LogicalOr => "||"@,
    }
}

} // verus!
