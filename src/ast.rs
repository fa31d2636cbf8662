use vstd::prelude::*;

verus! {

// ===================================================================
// Binary Operators
// ===================================================================

#[derive(Clone, Copy, Debug, PartialEq, Eq, Structural)]
pub enum BinOp {
    // Arithmetic
    Add,
    Subtract,
    Divide,
    Multiply,
    Remainder,
    // Comparators
    Equals,
    NotEquals,
    LessThan,
    LessThanOrEquals,
    GreaterThan,
    GreaterThanOrEquals,
    // Logical
    LogicalAnd,
    LogicalImplies,
    LogicalOr,
}

// ===================================================================
// Term
// ===================================================================

#[derive(Clone, Debug)]
pub enum Term {
    // Declarations
    Function(Function),
    // Statements
    Assert(usize),
    Assume(usize),
    Block(Vec<usize>),
    // Expressions
    ArrayAccess { src: usize, index: usize },
    ArrayGenerator(usize, usize),
    ArraySlice { src: usize, start: usize, end: usize },
    ArrayLength(usize),
    ArrayConstructor(Vec<usize>),
    Binary(BinOp, usize, usize),
    BoolLiteral(bool),
    Braced(usize),
    IntLiteral(usize),
    IfElse { cond: usize, tt: usize, ff: usize },
    VarAccess(String),
    StaticInvoke(String, Vec<usize>),
    TupleAccess(usize, usize),
    TupleConstructor(Vec<usize>),
    // Types
    ArrayType(usize),
    BoolType,
    IntType(bool),
    TupleType(Vec<usize>),
}

// ===================================================================
// Function
// ===================================================================

#[derive(Debug, Clone)]
pub struct Function {
    pub name: String,
    pub params: Vec<(usize, String)>,
    pub rets: Vec<(usize, String)>,
    pub requires: Vec<usize>,
    pub ensures: Vec<usize>,
    pub body: usize,
}

/// The type indices of a sequence of named bindings.
pub open spec fn binding_types(bs: Seq<(usize, String)>) -> Seq<usize> {
    bs.map_values(|b: (usize, String)| b.0)
}

/// Every arena index that a term holds, in the order its fields list them.
pub open spec fn refs(t: Term) -> Seq<usize> {
    match t {
        Term::Function(f) => binding_types(f.params@) + binding_types(f.rets@) + f.requires@
            + f.ensures@ + seq![f.body],
        Term::Assert(e) => seq![e],
        Term::Assume(e) => seq![e],
        Term::Block(ts) => ts@,
        Term::ArrayAccess { src, index } => seq![src, index],
        Term::ArrayGenerator(item, len) => seq![item, len],
        Term::ArraySlice { src, start, end } => seq![src, start, end],
        Term::ArrayLength(src) => seq![src],
        Term::ArrayConstructor(ts) => ts@,
        Term::Binary(_, l, r) => seq![l, r],
        Term::BoolLiteral(_) => seq![],
        Term::Braced(e) => seq![e],
        Term::IntLiteral(_) => seq![],
        Term::IfElse { cond, tt, ff } => seq![cond, tt, ff],
        Term::VarAccess(_) => seq![],
        Term::StaticInvoke(_, args) => args@,
        Term::TupleAccess(src, _) => seq![src],
        Term::TupleConstructor(ts) => ts@,
        Term::ArrayType(e) => seq![e],
        Term::BoolType => seq![],
        Term::IntType(_) => seq![],
        Term::TupleType(ts) => ts@,
    }
}

/// A term may be stored at position `n` when everything it refers to was
/// stored before it.
pub open spec fn refs_below(t: Term, n: int) -> bool {
    forall|k: int| 0 <= k < refs(t).len() ==> #[trigger] refs(t)[k] < n
}

// ===================================================================
// SyntacticHeap
// ===================================================================

/// Simplest possible implementation of a syntactic heap: an append-only
/// table of terms in which every term refers only to earlier ones.
pub struct SyntacticHeap {
    nodes: Vec<Term>,
}

impl View for SyntacticHeap {
    type V = Seq<Term>;

    closed spec fn view(&self) -> Seq<Term> {
        self.nodes@
    }
}

/// The arena invariant on a plain sequence of terms.
pub open spec fn acyclic(nodes: Seq<Term>) -> bool {
    forall|i: int| 0 <= i < nodes.len() ==> #[trigger] refs_below(nodes[i], i)
}

impl SyntacticHeap {
    /// The arena invariant: indices strictly decrease along every edge.
    pub open spec fn wf(&self) -> bool {
        acyclic(self@)
    }

    pub fn new() -> (r: Self)
        ensures
            r@ == Seq::<Term>::empty(),
            r.wf(),
    {
        SyntacticHeap { nodes: Vec::new() }
    }

    pub fn len(&self) -> (r: usize)
        ensures
            r == self@.len(),
    {
        self.nodes.len()
    }

    pub fn get(&self, index: usize) -> (r: &Term)
        requires
            index < self@.len(),
        ensures
            *r == self@[index as int],
    {
        &self.nodes[index]
    }

    /// Allocate a new term into this heap
    pub fn allocate(&mut self, term: Term) -> (r: usize)
        requires
            old(self).wf(),
            refs_below(term, old(self)@.len() as int),
        ensures
            final(self).wf(),
            final(self)@ == old(self)@.push(term),
            r == old(self)@.len(),
    {
        let index = self.len();
        self.nodes.push(term);
        assert(forall|i: int| 0 <= i < index ==> self@[i] == old(self)@[i]);
        index
    }

    pub fn to_ref<'a>(&'a self, index: usize) -> (r: SyntacticRef<'a>)
        ensures
            *r.heap == *self,
            r.index == index,
    {
        SyntacticRef { heap: self, index }
    }
}

/// Every index stored in the term at position `i` of a well-formed heap lies
/// strictly below `i`: the arena is a DAG without forward references.
pub proof fn lemma_arena_acyclic(heap: &SyntacticHeap, i: int, j: usize)
    requires
        heap.wf(),
        0 <= i < heap@.len(),
        refs(heap@[i]).contains(j),
    ensures
        j < i,
{
    let k = choose|k: int| 0 <= k < refs(heap@[i]).len() && refs(heap@[i])[k] == j;
    assert(refs_below(heap@[i], i));
    assert(refs(heap@[i])[k] < i);
}

// ===================================================================
// SyntacticRef
// ===================================================================

pub struct SyntacticRef<'a> {
    pub heap: &'a SyntacticHeap,
    pub index: usize,
}

} // verus!
