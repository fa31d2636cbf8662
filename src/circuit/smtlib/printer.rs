use vstd::prelude::*;
use crate::text::{decimal, push_decimal, push_str};
use super::ast::{Command, Expr, Op, Sort, op_text};

verus! {

pub open spec fn sort_text(s: Sort) -> Seq<char> {
    match s {
        Sort::Bool => "Bool"@,
        Sort::Int => "Int"@,
    }
}

/// Sorts separated by single spaces.
pub open spec fn sorts_text(s: Seq<Sort>) -> Seq<char>
    decreases s.len(),
{
    if s.len() == 0 {
        seq![]
    } else if s.len() == 1 {
        sort_text(s[0])
    } else {
        sorts_text(s.drop_last()) + " "@ + sort_text(s.last())
    }
}

/// The prefix, parenthesized SMT-LIB form of an expression.
pub open spec fn expr_text(e: Expr) -> Seq<char>
    decreases e,
{
    match e {
        Expr::Integer(i) => decimal(i as nat),
        Expr::Boolean(b) => if b {
            "true"@
        } else {
            "false"@
        },
        Expr::VarAccess(n) => n@,
        Expr::Operator(op, args) => "("@ + op_text(op) + args_text(args@) + ")"@,
        Expr::Invoke(n, args) => if args@.len() == 0 {
            n@
        } else {
            "("@ + n@ + args_text(args@) + ")"@
        },
    }
}

/// Each argument preceded by a space.
pub open spec fn args_text(es: Seq<Expr>) -> Seq<char>
    decreases es,
{
    if es.len() == 0 {
        seq![]
    } else {
        args_text(es.drop_last()) + " "@ + expr_text(es.last())
    }
}

/// One command in SMT-LIB surface syntax, on a line of its own.
pub open spec fn command_text(c: Command) -> Seq<char> {
    match c {
        Command::DeclareVar(n, s) => "(declare-const "@ + n@ + " "@ + sort_text(s) + ")\n"@,
        Command::DeclareFun(n, ps, r) => "(declare-fun "@ + n@ + " ("@ + sorts_text(ps@) + ") "@
            + sort_text(r) + ")\n"@,
        Command::Assert(e) => "(assert "@ + expr_text(e) + ")\n"@,
        Command::CheckSat => "(check-sat)\n"@,
    }
}

pub open spec fn commands_text(cs: Seq<Command>) -> Seq<char>
    decreases cs.len(),
{
    if cs.len() == 0 {
        seq![]
    } else {
        commands_text(cs.drop_last()) + command_text(cs.last())
    }
}

pub proof fn lemma_commands_text_push(cs: Seq<Command>, c: Command)
    ensures
        commands_text(cs.push(c)) == commands_text(cs) + command_text(c),
{
    assert(cs.push(c).drop_last() =~= cs);
}

/// Writes SMT-LIB commands into a string.
pub struct SmtLibWriter {
    /// Output text
    out: String,
}

impl View for SmtLibWriter {
    type V = Seq<char>;

    closed spec fn view(&self) -> Seq<char> {
        self.out@
    }
}

impl SmtLibWriter {
    pub fn new() -> (r: Self)
        ensures
            r@ == Seq::<char>::empty(),
    {
        Self { out: String::new() }
    }

    /// The text written so far.
    pub fn done(self) -> (r: String)
        ensures
            r@ == self@,
    {
        self.out
    }

    /// Write every command, in order, and hand back the text.
    pub fn write(self, commands: &[Command]) -> (r: String)
        ensures
            r@ == self@ + commands_text(commands@),
    {
        let mut w = self;
        let ghost start = w@;
        let mut i: usize = 0;
        while i < commands.len()
            invariant
                i <= commands@.len(),
                w@ == start + commands_text(commands@.subrange(0, i as int)),
            decreases commands@.len() - i,
        {
            proof {
                assert(commands@.subrange(0, i + 1) =~= commands@.subrange(0, i as int).push(
                    commands@[i as int],
                ));
                lemma_commands_text_push(commands@.subrange(0, i as int), commands@[i as int]);
            }
            w.write_command(&commands[i]);
            i += 1;
        }
        assert(commands@.subrange(0, i as int) =~= commands@);
        w.out
    }

    pub fn write_command(&mut self, cmd: &Command)
        ensures
            final(self)@ == old(self)@ + command_text(*cmd),
    {
        match cmd {
            Command::Assert(expr) => self.write_assert(expr),
            Command::DeclareVar(name, typ) => self.write_declarevar(name.as_str(), typ),
            Command::DeclareFun(name, params, ret) => self.write_declarefun(
                name.as_str(),
                params.as_slice(),
                ret,
            ),
            Command::CheckSat => self.write_checksat(),
        }
    }

    fn write_sort(&mut self, typ: &Sort)
        ensures
            final(self)@ == old(self)@ + sort_text(*typ),
    {
        match typ {
            Sort::Bool => push_str(&mut self.out, "Bool"),
            Sort::Int => push_str(&mut self.out, "Int"),
        }
    }

    fn write_declarevar(&mut self, name: &str, typ: &Sort)
        ensures
            final(self)@ == old(self)@ + "(declare-const "@ + name@ + " "@ + sort_text(*typ)
                + ")\n"@,
    {
        push_str(&mut self.out, "(declare-const ");
        push_str(&mut self.out, name);
        push_str(&mut self.out, " ");
        self.write_sort(typ);
        push_str(&mut self.out, ")\n");
        assert(self@ =~= old(self)@ + "(declare-const "@ + name@ + " "@ + sort_text(*typ)
            + ")\n"@);
    }

    fn write_declarefun(&mut self, name: &str, params: &[Sort], ret: &Sort)
        ensures
            final(self)@ == old(self)@ + "(declare-fun "@ + name@ + " ("@ + sorts_text(params@)
                + ") "@ + sort_text(*ret) + ")\n"@,
    {
        push_str(&mut self.out, "(declare-fun ");
        push_str(&mut self.out, name);
        push_str(&mut self.out, " (");
        let ghost mid = self@;
        let mut i: usize = 0;
        while i < params.len()
            invariant
                i <= params@.len(),
                self@ == mid + sorts_text(params@.subrange(0, i as int)),
            decreases params@.len() - i,
        {
            let ghost pre = params@.subrange(0, i as int);
            assert(params@.subrange(0, i + 1).drop_last() =~= pre);
            if i != 0 {
                push_str(&mut self.out, " ");
            }
            self.write_sort(&params[i]);
            i += 1;
            assert(self@ =~= mid + sorts_text(params@.subrange(0, i as int)));
        }
        assert(params@.subrange(0, i as int) =~= params@);
        push_str(&mut self.out, ") ");
        self.write_sort(ret);
        push_str(&mut self.out, ")\n");
        assert(self@ =~= old(self)@ + "(declare-fun "@ + name@ + " ("@ + sorts_text(params@)
            + ") "@ + sort_text(*ret) + ")\n"@);
    }

    fn write_checksat(&mut self)
        ensures
            final(self)@ == old(self)@ + "(check-sat)\n"@,
    {
        push_str(&mut self.out, "(check-sat)\n");
    }

    fn write_assert(&mut self, expr: &Expr)
        ensures
            final(self)@ == old(self)@ + "(assert "@ + expr_text(*expr) + ")\n"@,
    {
        push_str(&mut self.out, "(assert ");
        self.write_expr(expr);
        push_str(&mut self.out, ")\n");
        assert(self@ =~= old(self)@ + "(assert "@ + expr_text(*expr) + ")\n"@);
    }

    pub fn write_expr(&mut self, expr: &Expr)
        ensures
            final(self)@ == old(self)@ + expr_text(*expr),
        decreases *expr,
    {
        match expr {
            Expr::Integer(i) => push_decimal(&mut self.out, *i),
            Expr::Boolean(b) => {
                if *b {
                    push_str(&mut self.out, "true")
                } else {
                    push_str(&mut self.out, "false")
                }
            },
            Expr::VarAccess(n) => push_str(&mut self.out, n.as_str()),
            Expr::Operator(op, args) => {
                push_str(&mut self.out, "(");
                push_str(&mut self.out, op.as_str());
                self.write_args(args);
                push_str(&mut self.out, ")");
                assert(self@ =~= old(self)@ + expr_text(*expr));
            },
            Expr::Invoke(n, args) => {
                if args.len() == 0 {
                    push_str(&mut self.out, n.as_str());
                } else {
                    push_str(&mut self.out, "(");
                    push_str(&mut self.out, n.as_str());
                    self.write_args(args);
                    push_str(&mut self.out, ")");
                    assert(self@ =~= old(self)@ + expr_text(*expr));
                }
            },
        }
    }

    fn write_args(&mut self, args: &Vec<Expr>)
        ensures
            final(self)@ == old(self)@ + args_text(args@),
        decreases args,
    {
        let mut i: usize = 0;
        while i < args.len()
            invariant
                i <= args@.len(),
                self@ == old(self)@ + args_text(args@.subrange(0, i as int)),
            decreases args@.len() - i,
        {
            let ghost pre = args@.subrange(0, i as int);
            assert(args@.subrange(0, i + 1).drop_last() =~= pre);
            assert(decreases_to!(args => args@[i as int]));
            push_str(&mut self.out, " ");
            self.write_expr(&args[i]);
            i += 1;
            assert(self@ =~= old(self)@ + args_text(args@.subrange(0, i as int)));
        }
        assert(args@.subrange(0, i as int) =~= args@);
    }
}

} // verus!
