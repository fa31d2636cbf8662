use vstd::prelude::*;
use crate::text::str_equals;

verus! {

/// An answer of the solver to `(check-sat)`.
#[derive(Clone, Copy, Debug, PartialEq, Eq, Structural)]
pub enum SmtOutcome {
    Sat,
    Unsat,
    Maybe,
}

/// The answer that a line of solver output gives, if it is one.
pub open spec fn answer_spec(line: Seq<char>) -> Option<SmtOutcome> {
    if line == "sat"@ {
        Some(SmtOutcome::Sat)
    } else if line == "unsat"@ {
        Some(SmtOutcome::Unsat)
    } else if line == "unknown"@ {
        Some(SmtOutcome::Maybe)
    } else {
        None
    }
}

/// The first answer among the lines of solver output; `Maybe` when no line
/// is one.
pub open spec fn first_answer_spec(lines: Seq<Seq<char>>) -> SmtOutcome
    decreases lines.len(),
{
    if lines.len() == 0 {
        SmtOutcome::Maybe
    } else if answer_spec(lines[0]) is Some {
        answer_spec(lines[0])->0
    } else {
        first_answer_spec(lines.drop_first())
    }
}

/// Read one line of solver output: `sat`, `unsat` and `unknown` are
/// answers, anything else is ignored.
pub fn answer_of(line: &str) -> (r: Option<SmtOutcome>)
    ensures
        r == answer_spec(line@),
{
    if str_equals(line, "sat") {
        Some(SmtOutcome::Sat)
    } else if str_equals(line, "unsat") {
        Some(SmtOutcome::Unsat)
    } else if str_equals(line, "unknown") {
        Some(SmtOutcome::Maybe)
    } else {
        None
    }
}

/// The answer that the output of one solver run gives: its first answer
/// line, or `Maybe` where the solver stopped before giving one.
pub fn first_answer(lines: &Vec<String>) -> (r: SmtOutcome)
    ensures
        r == first_answer_spec(lines@.map_values(|l: String| l@)),
{
    let ghost ls = lines@.map_values(|l: String| l@);
    let mut i: usize = 0;
    assert(ls.subrange(0, ls.len() as int) =~= ls);
    while i < lines.len()
        invariant
            i <= lines@.len(),
            ls == lines@.map_values(|l: String| l@),
            first_answer_spec(ls) == first_answer_spec(ls.subrange(i as int, ls.len() as int)),
        decreases lines@.len() - i,
    {
        let ghost rest = ls.subrange(i as int, ls.len() as int);
        assert(rest.drop_first() =~= ls.subrange(i + 1, ls.len() as int));
        assert(rest[0] == lines@[i as int]@);
        if let Some(o) = answer_of(lines[i].as_str()) {
            return o;
        }
        i += 1;
    }
    SmtOutcome::Maybe
}

} // verus!
