use vstd::prelude::*;
use crate::circuit::{Formula, LogicOp};
use crate::text::{decimal, digit_char, digit_of, digits_value, is_digit};
use super::ast::{Expr, Op, expr_formula, exprs_formula, lemma_exprs_formula, logic_op, op_text};
use super::printer::{args_text, expr_text};

verus! {

/// A character that can stand inside an atom of the printed syntax.
pub open spec fn atom_char(c: char) -> bool {
    c != ' ' && c != '(' && c != ')'
}

/// The length of the atom starting at `i`.
pub open spec fn atom_len(s: Seq<char>, i: int) -> nat
    decreases s.len() - i,
{
    if 0 <= i < s.len() && atom_char(s[i]) {
        1 + atom_len(s, i + 1)
    } else {
        0
    }
}

/// The operator an atom spells, if any.
pub open spec fn op_of_text(t: Seq<char>) -> Option<Op> {
    if t.len() == 1 {
        if t[0] == '=' {
            Some(Op::Eq)
        } else if t[0] == '+' {
            Some(Op::Add)
        } else if t[0] == '-' {
            Some(Op::Sub)
        } else if t[0] == '*' {
            Some(Op::Mul)
        } else if t[0] == '>' {
            Some(Op::Gt)
        } else if t[0] == '<' {
            Some(Op::Lt)
        } else {
            None
        }
    } else if t.len() == 2 {
        if t[0] == '>' && t[1] == '=' {
            Some(Op::GtEq)
        } else if t[0] == '<' && t[1] == '=' {
            Some(Op::LtEq)
        } else if t[0] == 'o' && t[1] == 'r' {
            Some(Op::Or)
        } else if t[0] == '=' && t[1] == '>' {
            Some(Op::Implies)
        } else {
            None
        }
    } else if t.len() == 3 {
        if t[0] == 'd' && t[1] == 'i' && t[2] == 'v' {
            Some(Op::Div)
        } else if t[0] == 'm' && t[1] == 'o' && t[2] == 'd' {
            Some(Op::Mod)
        } else if t[0] == 'a' && t[1] == 'n' && t[2] == 'd' {
            Some(Op::And)
        } else if t[0] == 'n' && t[1] == 'o' && t[2] == 't' {
            Some(Op::Not)
        } else if t[0] == 'i' && t[1] == 't' && t[2] == 'e' {
            Some(Op::IfThenElse)
        } else {
            None
        }
    } else if t == "distinct"@ {
        Some(Op::Neq)
    } else {
        None
    }
}

pub open spec fn all_digits(t: Seq<char>) -> bool {
    forall|k: int| 0 <= k < t.len() ==> is_digit(#[trigger] t[k])
}

/// The formula an atom denotes: a number, a boolean, or a variable.
pub open spec fn atom_formula(t: Seq<char>) -> Formula {
    if all_digits(t) {
        Formula::IntLit(digits_value(t))
    } else if t == "true"@ {
        Formula::BoolLit(true)
    } else if t == "false"@ {
        Formula::BoolLit(false)
    } else {
        Formula::Var(t)
    }
}

/// Read one expression of the printed syntax starting at `i`: its formula
/// and the position after it.
pub open spec fn read_expr(s: Seq<char>, i: int) -> Option<(Formula, int)>
    decreases s.len() - i, 1nat,
{
    if !(0 <= i < s.len()) {
        None
    } else if s[i] == '(' {
        let n = atom_len(s, i + 1);
        let head = s.subrange(i + 1, i + 1 + n);
        if n == 0 || i + 1 + n > s.len() {
            None
        } else {
            match read_args(s, i + 1 + n) {
                Some((args, j)) => match op_of_text(head) {
                    Some(op) => Some((Formula::App(logic_op(op), args), j)),
                    None => Some((Formula::Call(head, args), j)),
                },
                None => None,
            }
        }
    } else {
        let n = atom_len(s, i);
        if n == 0 || i + n > s.len() {
            None
        } else {
            Some((atom_formula(s.subrange(i, i + n)), i + n))
        }
    }
}

/// Read space-separated arguments up to and including a closing parenthesis.
pub open spec fn read_args(s: Seq<char>, i: int) -> Option<(Seq<Formula>, int)>
    decreases s.len() - i, 0nat,
{
    if !(0 <= i < s.len()) {
        None
    } else if s[i] == ')' {
        Some((seq![], i + 1))
    } else if s[i] == ' ' {
        match read_expr(s, i + 1) {
            Some((e, j)) => if i + 1 < j <= s.len() {
                match read_args(s, j) {
                    Some((rest, k)) => Some((seq![e].add(rest), k)),
                    None => None,
                }
            } else {
                None
            },
            None => None,
        }
    } else {
        None
    }
}

/// A name that prints as an atom and reads back as the same name: not empty,
/// no spaces or parentheses, not a number, a boolean or an operator.
pub open spec fn name_ok(n: Seq<char>) -> bool {
    &&& n.len() > 0
    &&& forall|k: int| 0 <= k < n.len() ==> atom_char(#[trigger] n[k])
    &&& !is_digit(n[0])
    &&& n != "true"@
    &&& n != "false"@
    &&& op_of_text(n) is None
}

/// Expressions whose names are all `name_ok`, and whose invocations have
/// arguments (an invocation without them prints as a variable).
pub open spec fn expr_ok(e: Expr) -> bool
    decreases e,
{
    match e {
        Expr::Integer(_) => true,
        Expr::Boolean(_) => true,
        Expr::VarAccess(n) => name_ok(n@),
        Expr::Operator(_, args) => exprs_ok(args@),
        Expr::Invoke(n, args) => name_ok(n@) && args@.len() > 0 && exprs_ok(args@),
    }
}

pub open spec fn exprs_ok(es: Seq<Expr>) -> bool
    decreases es,
{
    if es.len() == 0 {
        true
    } else {
        exprs_ok(es.drop_last()) && expr_ok(es.last())
    }
}

proof fn lemma_atom_len(s: Seq<char>, i: int, n: int)
    requires
        0 <= i,
        0 <= n,
        i + n <= s.len(),
        forall|k: int| i <= k < i + n ==> atom_char(#[trigger] s[k]),
        i + n == s.len() || !atom_char(s[i + n]),
    ensures
        atom_len(s, i) == n,
    decreases n,
{
    if n > 0 {
        lemma_atom_len(s, i + 1, n - 1);
    }
}

proof fn lemma_digit(d: nat)
    requires
        d < 10,
    ensures
        is_digit(digit_char(d)),
        digit_of(digit_char(d)) == d,
        atom_char(digit_char(d)),
{
    let ds = seq!['0', '1', '2', '3', '4', '5', '6', '7', '8', '9'];
    assert(digit_char(d) == ds[d as int]);
    if d == 0 {
        assert(ds[0] == '0');
    } else if d == 1 {
        assert(ds[1] == '1');
    } else if d == 2 {
        assert(ds[2] == '2');
    } else if d == 3 {
        assert(ds[3] == '3');
    } else if d == 4 {
        assert(ds[4] == '4');
    } else if d == 5 {
        assert(ds[5] == '5');
    } else if d == 6 {
        assert(ds[6] == '6');
    } else if d == 7 {
        assert(ds[7] == '7');
    } else if d == 8 {
        assert(ds[8] == '8');
    } else {
        assert(ds[9] == '9');
    }
}

proof fn lemma_decimal(n: nat)
    ensures
        decimal(n).len() > 0,
        all_digits(decimal(n)),
        digits_value(decimal(n)) == n,
        forall|k: int| 0 <= k < decimal(n).len() ==> atom_char(#[trigger] decimal(n)[k]),
    decreases n,
{
    let d = decimal(n);
    if n < 10 {
        lemma_digit(n);
        assert(d.drop_last() =~= seq![]);
        assert(digits_value(d.drop_last()) == 0);
    } else {
        lemma_decimal(n / 10);
        lemma_digit(n % 10);
        let h = decimal(n / 10);
        assert(d.drop_last() =~= h);
        assert(d.last() == digit_char(n % 10));
        assert(n == (n / 10) * 10 + n % 10);
        assert forall|k: int| 0 <= k < d.len() implies is_digit(#[trigger] d[k]) && atom_char(d[k]) by {
            if k < h.len() {
                assert(d[k] == h[k]);
            }
        }
    }
}

proof fn lemma_op_text(op: Op)
    ensures
        op_of_text(op_text(op)) == Some(op),
        op_text(op).len() > 0,
        forall|k: int| 0 <= k < op_text(op).len() ==> atom_char(#[trigger] op_text(op)[k]),
{
    reveal_strlit("=");
    reveal_strlit("distinct");
    reveal_strlit("+");
    reveal_strlit("-");
    reveal_strlit("*");
    reveal_strlit("div");
    reveal_strlit("mod");
    reveal_strlit(">");
    reveal_strlit(">=");
    reveal_strlit("<");
    reveal_strlit("<=");
    reveal_strlit("or");
    reveal_strlit("and");
    reveal_strlit("=>");
    reveal_strlit("not");
    reveal_strlit("ite");
}

proof fn lemma_expr_text_nonempty(e: Expr)
    requires
        expr_ok(e),
    ensures
        expr_text(e).len() > 0,
{
    reveal_strlit("true");
    reveal_strlit("false");
    reveal_strlit("(");
    match e {
        Expr::Integer(i) => lemma_decimal(i as nat),
        _ => {},
    }
}

proof fn lemma_args_text_front(es: Seq<Expr>)
    requires
        es.len() > 0,
    ensures
        args_text(es) == " "@ + expr_text(es[0]) + args_text(es.drop_first()),
    decreases es.len(),
{
    if es.len() == 1 {
        assert(es.drop_last() =~= seq![]);
        assert(es.drop_first() =~= seq![]);
        assert(args_text(es) =~= " "@ + expr_text(es[0]) + args_text(es.drop_first()));
    } else {
        lemma_args_text_front(es.drop_last());
        assert(es.drop_last().drop_first() =~= es.drop_first().drop_last());
        assert(es.drop_first().last() == es.last());
        assert(es.drop_last()[0] == es[0]);
        assert(args_text(es) =~= " "@ + expr_text(es[0]) + args_text(es.drop_first()));
    }
}

proof fn lemma_exprs_front(es: Seq<Expr>)
    requires
        es.len() > 0,
    ensures
        exprs_formula(es) == seq![expr_formula(es[0])].add(exprs_formula(es.drop_first())),
        exprs_ok(es) ==> expr_ok(es[0]) && exprs_ok(es.drop_first()),
    decreases es.len(),
{
    lemma_exprs_formula(es);
    lemma_exprs_formula(es.drop_first());
    assert(exprs_formula(es) =~= seq![expr_formula(es[0])].add(exprs_formula(es.drop_first())));
    if exprs_ok(es) {
        lemma_exprs_ok_all(es);
        lemma_exprs_ok_from_all(es.drop_first());
    }
}

proof fn lemma_exprs_ok_all(es: Seq<Expr>)
    requires
        exprs_ok(es),
    ensures
        forall|k: int| 0 <= k < es.len() ==> expr_ok(#[trigger] es[k]),
    decreases es.len(),
{
    if es.len() > 0 {
        lemma_exprs_ok_all(es.drop_last());
        assert forall|k: int| 0 <= k < es.len() implies expr_ok(#[trigger] es[k]) by {
            if k < es.len() - 1 {
                assert(es.drop_last()[k] == es[k]);
            }
        }
    }
}

proof fn lemma_exprs_ok_from_all(es: Seq<Expr>)
    requires
        forall|k: int| 0 <= k < es.len() ==> expr_ok(#[trigger] es[k]),
    ensures
        exprs_ok(es),
    decreases es.len(),
{
    if es.len() > 0 {
        let d = es.drop_last();
        assert forall|k: int| 0 <= k < d.len() implies expr_ok(#[trigger] d[k]) by {
            assert(d[k] == es[k]);
        }
        lemma_exprs_ok_from_all(d);
    }
}

/// The text of an expression, read back from where it starts, gives the
/// expression's formula and ends where the text ends, whatever stands
/// before it and whatever follows that cannot continue an atom.
proof fn lemma_read_expr(e: Expr, p: Seq<char>, rest: Seq<char>)
    requires
        expr_ok(e),
        rest.len() == 0 || !atom_char(rest[0]),
    ensures
        read_expr(p + expr_text(e) + rest, p.len() as int) == Some(
            (expr_formula(e), p.len() + expr_text(e).len() as int),
        ),
    decreases e, 1nat,
{
    match e {
        Expr::Operator(_, _) => lemma_read_application(e, p, rest),
        Expr::Invoke(_, _) => lemma_read_application(e, p, rest),
        _ => lemma_read_atom(e, p, rest),
    }
}

proof fn lemma_read_atom(e: Expr, p: Seq<char>, rest: Seq<char>)
    requires
        expr_ok(e),
        e is Integer || e is Boolean || e is VarAccess,
        rest.len() == 0 || !atom_char(rest[0]),
    ensures
        read_expr(p + expr_text(e) + rest, p.len() as int) == Some(
            (expr_formula(e), p.len() + expr_text(e).len() as int),
        ),
{
    let t = expr_text(e);
    let s = p + t + rest;
    let i = p.len() as int;
    lemma_expr_text_nonempty(e);
    assert(forall|k: int| 0 <= k < t.len() ==> s[i + k] == t[k]);
    if t.len() + i < s.len() {
        assert(s[i + t.len()] == rest[0]);
    }
    assert(s.subrange(i, i + t.len()) =~= t);
    match e {
        Expr::Integer(v) => {
            lemma_decimal(v as nat);
            lemma_atom_len(s, i, t.len() as int);
        },
        Expr::Boolean(b) => {
            reveal_strlit("true");
            reveal_strlit("false");
            lemma_atom_len(s, i, t.len() as int);
            assert(!is_digit(t[0]));
        },
        _ => {
            lemma_atom_len(s, i, t.len() as int);
        },
    }
}

/// An operator or an invocation: a parenthesis, the head atom, then the
/// arguments.
proof fn lemma_read_application(e: Expr, p: Seq<char>, rest: Seq<char>)
    requires
        expr_ok(e),
        e is Operator || e is Invoke,
        rest.len() == 0 || !atom_char(rest[0]),
    ensures
        read_expr(p + expr_text(e) + rest, p.len() as int) == Some(
            (expr_formula(e), p.len() + expr_text(e).len() as int),
        ),
    decreases e, 0nat,
{
    reveal_strlit("(");
    reveal_strlit(")");
    reveal_strlit(" ");
    let t = expr_text(e);
    let s = p + t + rest;
    let i = p.len() as int;
    let (o, args): (Seq<char>, Seq<Expr>) = match e {
        Expr::Operator(op, args) => {
            lemma_op_text(op);
            (op_text(op), args@)
        },
        Expr::Invoke(n, args) => (n@, args@),
        _ => (seq![], seq![]),
    };
    let a = args_text(args);
    assert(t =~= "("@ + o + a + ")"@);
    assert(s[i] == '(');
    if args.len() > 0 {
        lemma_args_text_front(args);
        assert(a[0] == ' ');
        assert(s[i + 1 + o.len()] == ' ');
    } else {
        assert(s[i + 1 + o.len()] == ')');
    }
    assert(forall|k: int| 0 <= k < o.len() ==> s[i + 1 + k] == o[k]);
    lemma_atom_len(s, i + 1, o.len() as int);
    assert(s.subrange(i + 1, i + 1 + o.len()) =~= o);
    let p2 = p + "("@ + o;
    assert(s =~= p2 + a + ")"@ + rest);
    lemma_read_args(args, p2, rest);
}

/// The same for the arguments of an operator, with the closing parenthesis.
proof fn lemma_read_args(es: Seq<Expr>, p: Seq<char>, rest: Seq<char>)
    requires
        exprs_ok(es),
    ensures
        read_args(p + args_text(es) + ")"@ + rest, p.len() as int) == Some(
            (exprs_formula(es), p.len() + args_text(es).len() as int + 1),
        ),
    decreases es,
{
    reveal_strlit(")");
    reveal_strlit(" ");
    let s = p + args_text(es) + ")"@ + rest;
    let i = p.len() as int;
    if es.len() == 0 {
        assert(s[i] == ')');
    } else {
        lemma_args_text_front(es);
        lemma_exprs_front(es);
        let e0 = es[0];
        let tail = es.drop_first();
        let t0 = expr_text(e0);
        let at = args_text(tail);
        assert(s[i] == ' ');
        let rest2 = at + ")"@ + rest;
        if tail.len() > 0 {
            lemma_args_text_front(tail);
            assert(rest2[0] == ' ');
        } else {
            assert(rest2[0] == ')');
        }
        let p2 = p + " "@;
        assert(s =~= p2 + t0 + rest2);
        lemma_read_expr(e0, p2, rest2);
        lemma_expr_text_nonempty(e0);
        let p3 = p + " "@ + t0;
        assert(s =~= p3 + at + ")"@ + rest);
        lemma_read_args(tail, p3, rest);
    }
}

/// Printing an expression and reading the text back with `read_expr` gives
/// the same expression tree, as long as its names print as plain atoms.
pub proof fn lemma_smtlib_round_trip(e: Expr)
    requires
        expr_ok(e),
    ensures
        read_expr(expr_text(e), 0) == Some((expr_formula(e), expr_text(e).len() as int)),
{
    lemma_read_expr(e, seq![], seq![]);
    assert(Seq::<char>::empty() + expr_text(e) + Seq::<char>::empty() =~= expr_text(e));
}

} // verus!
