use tiny_fl::circuit::smtlib::{Command, Expr, Op, Sort};
use tiny_fl::circuit::{tally, Circuit, Int, Kind, Outcome, SmtLibCircuit, SmtLibWriter, SmtOutcome};
use tiny_fl::{Environment, Parser, Translator, Verifier};

/// Parse a program and generate its verification conditions.
fn circuit_of(src: &str) -> SmtLibCircuit {
    let mut parser = Parser::new(src);
    let terms = parser.parse().expect("program should parse");
    Verifier::new(&parser.heap, SmtLibCircuit::new())
        .to_circuit(&terms)
        .expect("verification conditions should generate")
}

#[test]
fn scenario_ensures_holds() {
    let c = circuit_of("function f(uint x) ensures x >= 0 { x }");
    assert_eq!(c.len(), 1);
    assert_eq!(
        c.transcript(0),
        "(declare-const x Int)\n(assert (not (=> (and true (>= x 0)) (>= x 0))))\n(check-sat)\n"
    );
}

#[test]
fn scenario_division_without_hypothesis() {
    let c = circuit_of("function g(uint x, uint y) { assert x / y == x / y }");
    // One divisor check for each division, then the assertion itself.
    assert_eq!(c.len(), 3);
    let decls = "(declare-const x Int)\n(declare-const y Int)\n";
    assert_eq!(
        c.transcript(0),
        format!("{decls}(assert (not (=> (and (and true (>= x 0)) (>= y 0)) (distinct y 0))))\n(check-sat)\n")
    );
    assert_eq!(c.transcript(1), c.transcript(0));
    assert_eq!(
        c.transcript(2),
        format!("{decls}(assert (not (=> (and (and true (>= x 0)) (>= y 0)) (= (div x y) (div x y)))))\n(check-sat)\n")
    );
}

#[test]
fn scenario_division_with_precondition() {
    let c = circuit_of("function g2(uint x, uint y) requires y != 0 { assert x / y == x / y }");
    assert_eq!(c.len(), 3);
    assert_eq!(
        c.transcript(0),
        "(declare-const x Int)\n(declare-const y Int)\n(assert (not (=> (and (and (and true (>= x 0)) (>= y 0)) (distinct y 0)) (distinct y 0))))\n(check-sat)\n"
    );
}

#[test]
fn scenario_division_under_implication() {
    let c = circuit_of("function h(uint x, uint y) { assert (y != 0) ==> (x / y == x / y) }");
    assert_eq!(c.len(), 3);
    // The divisions are checked under the left-hand side of the implication.
    assert_eq!(
        c.transcript(0),
        "(declare-const x Int)\n(declare-const y Int)\n(assert (not (=> (and (and (and true (>= x 0)) (>= y 0)) (distinct y 0)) (distinct y 0))))\n(check-sat)\n"
    );
    assert_eq!(
        c.transcript(2),
        "(declare-const x Int)\n(declare-const y Int)\n(assert (not (=> (and (and true (>= x 0)) (>= y 0)) (=> (distinct y 0) (= (div x y) (div x y))))))\n(check-sat)\n"
    );
}

#[test]
fn scenario_unsigned_subtraction() {
    let c = circuit_of("function s(uint x, uint y) { assert x - y == x - y }");
    assert_eq!(c.len(), 3);
    assert_eq!(
        c.transcript(0),
        "(declare-const x Int)\n(declare-const y Int)\n(assert (not (=> (and (and true (>= x 0)) (>= y 0)) (>= x y))))\n(check-sat)\n"
    );
}

#[test]
fn scenario_conditional_branches() {
    let c = circuit_of("function c(bool b, uint x) { assert if b { x } else { x } == x }");
    assert_eq!(c.len(), 1);
    assert_eq!(
        c.transcript(0),
        "(declare-const b Bool)\n(declare-const x Int)\n(assert (not (=> (and true (>= x 0)) (= (ite b x x) x))))\n(check-sat)\n"
    );
}

#[test]
fn assertion_is_assumed_afterwards() {
    let c = circuit_of("function p(uint x) { assume x > 1; assert x > 0; assert x >= 0 }");
    assert_eq!(c.len(), 2);
    let decls = "(declare-const x Int)\n";
    assert_eq!(
        c.transcript(0),
        format!("{decls}(assert (not (=> (and (and true (>= x 0)) (> x 1)) (> x 0))))\n(check-sat)\n")
    );
    assert_eq!(
        c.transcript(1),
        format!(
            "{decls}(assert (not (=> (and (and (and true (>= x 0)) (> x 1)) (> x 0)) (>= x 0))))\n(check-sat)\n"
        )
    );
}

#[test]
fn conjunction_guards_right_operand() {
    let c = circuit_of("function q(uint x, uint y) { assert (y != 0) && (x / y > 0) }");
    assert_eq!(c.len(), 2);
    assert_eq!(
        c.transcript(0),
        "(declare-const x Int)\n(declare-const y Int)\n(assert (not (=> (and (and (and true (>= x 0)) (>= y 0)) (distinct y 0)) (distinct y 0))))\n(check-sat)\n"
    );
}

#[test]
fn disjunction_negates_guard() {
    let c = circuit_of("function o(uint x, uint y) { assert (y == 0) || (x % y >= 0) }");
    assert_eq!(c.len(), 2);
    assert_eq!(
        c.transcript(0),
        "(declare-const x Int)\n(declare-const y Int)\n(assert (not (=> (and (and (and true (>= x 0)) (>= y 0)) (not (= y 0))) (distinct y 0))))\n(check-sat)\n"
    );
}

#[test]
fn single_return_is_bound_to_body() {
    let c = circuit_of("function inc(uint x) -> (uint r) ensures r > x { x + 1 }");
    assert_eq!(c.len(), 1);
    assert_eq!(
        c.transcript(0),
        "(declare-const x Int)\n(declare-const r Int)\n(assert (not (=> (and (and (and true (>= x 0)) (= r (+ x 1))) (>= r 0)) (> r x))))\n(check-sat)\n"
    );
}

#[test]
fn later_functions_invoke_earlier_ones() {
    let src = "function inc(uint x) -> (uint r) { x + 1 } function use(uint y) { assert inc(y) > y }";
    let c = circuit_of(src);
    assert_eq!(c.len(), 1);
    assert_eq!(
        c.transcript(0),
        "(declare-const x Int)\n(declare-const r Int)\n(declare-fun inc (Int) Int)\n(declare-const y Int)\n(assert (not (=> (and true (>= y 0)) (> (inc y) y))))\n(check-sat)\n"
    );
}

#[test]
fn unbound_variable_is_an_error() {
    let mut parser = Parser::new("function f(uint x) { assert y > 0 }");
    let terms = parser.parse().unwrap();
    let r = Verifier::new(&parser.heap, SmtLibCircuit::new()).to_circuit(&terms);
    assert!(r.is_err());
}

#[test]
fn ill_sorted_assertion_is_an_error() {
    let mut parser = Parser::new("function f(uint x) { assert x + 1 }");
    let terms = parser.parse().unwrap();
    let r = Verifier::new(&parser.heap, SmtLibCircuit::new()).to_circuit(&terms);
    assert!(r.is_err());
}

#[test]
fn multi_statement_body_with_return_is_an_error() {
    let mut parser = Parser::new("function f(uint x) -> (uint r) { assert x >= 0; x }");
    let terms = parser.parse().unwrap();
    let r = Verifier::new(&parser.heap, SmtLibCircuit::new()).to_circuit(&terms);
    assert!(r.is_err());
}

#[test]
fn one_outcome_per_obligation() {
    let c = circuit_of("function g(uint x, uint y) { assert x / y == x / y }");
    let outcomes = c.outcomes(&vec![SmtOutcome::Sat, SmtOutcome::Unsat, SmtOutcome::Maybe]);
    assert_eq!(outcomes, vec![Outcome::Invalid, Outcome::Valid, Outcome::Unknown]);
    // A solver that stopped early leaves the rest unknown.
    let outcomes = c.outcomes(&vec![SmtOutcome::Unsat]);
    assert_eq!(outcomes, vec![Outcome::Valid, Outcome::Unknown, Outcome::Unknown]);
    let outcomes = c.outcomes(&vec![]);
    assert_eq!(outcomes.len(), 3);
}

#[test]
fn empty_circuit_has_no_outcomes() {
    let c = SmtLibCircuit::new();
    assert_eq!(c.len(), 0);
    assert!(c.outcomes(&vec![SmtOutcome::Sat]).is_empty());
    assert_eq!(c.transcript(0), "(check-sat)\n");
}

#[test]
fn discharge_asserts_negation() {
    let mut c = SmtLibCircuit::new();
    c.discharge(Expr::Boolean(true));
    assert_eq!(c.len(), 1);
    assert_eq!(c.transcript(0), "(assert (not true))\n(check-sat)\n");
}

#[test]
fn writer_prints_commands() {
    let w = tiny_fl::circuit::SmtLibWriter::new();
    let cmds = vec![
        Command::DeclareVar("a".to_string(), Sort::Bool),
        Command::DeclareFun("f".to_string(), vec![Sort::Int, Sort::Bool], Sort::Int),
        Command::Assert(Expr::Operator(
            Op::Lt,
            vec![Expr::Integer(120), Expr::VarAccess("n".to_string())],
        )),
        Command::CheckSat,
    ];
    assert_eq!(
        w.write(&cmds),
        "(declare-const a Bool)\n(declare-fun f (Int Bool) Int)\n(assert (< 120 n))\n(check-sat)\n"
    );
}

#[test]
fn operator_spellings() {
    assert_eq!(Op::Neq.as_str(), "distinct");
    assert_eq!(Op::Implies.as_str(), "=>");
    assert_eq!(Op::Mod.as_str(), "mod");
    assert_eq!(Op::IfThenElse.arity(), 3);
    assert_eq!(Op::Not.arity(), 1);
    assert_eq!(Op::Add.arity(), usize::MAX);
}

#[test]
fn translator_checks_sorts() {
    let mut parser = Parser::new("x + 1 < 2");
    let e = parser.parse_expr().unwrap();
    let mut circuit = SmtLibCircuit::new();
    let x = circuit.declare_int("x");
    let mut env: Environment<SmtLibCircuit> = Environment::new();
    env.allocate("x", Int::to_any(&x), Kind::Int);
    assert!(env.contains("x"));
    assert!(!env.contains("y"));
    assert!(!env.contains_fn("x"));
    assert_eq!(env.lookup("x").2, Kind::Int);
    let t = Translator::new(&parser.heap, &circuit, &env);
    let b = t.translate_bool(e);
    let mut w = SmtLibWriter::new();
    w.write_expr(&b);
    assert_eq!(w.done(), "(< (+ x 1) 2)");
    let mut w = SmtLibWriter::new();
    w.write_expr(&t.translate(e));
    assert_eq!(w.done(), "(< (+ x 1) 2)");
}

#[test]
fn translator_types() {
    let mut parser = Parser::new("function f(uint x, bool b) { x }");
    let _ = parser.parse().unwrap();
    let circuit = SmtLibCircuit::new();
    let env: Environment<SmtLibCircuit> = Environment::new();
    let t = Translator::new(&parser.heap, &circuit, &env);
    // The uint type is stored first, then bool.
    assert_eq!(t.translate_type(0), Sort::Int);
    assert_eq!(t.translate_type(1), Sort::Bool);
}

#[test]
fn tally_counts_each_outcome() {
    let os = vec![Outcome::Valid, Outcome::Invalid, Outcome::Valid, Outcome::Unknown];
    assert_eq!(tally(&os), (2, 1, 1));
    assert_eq!(tally(&vec![]), (0, 0, 0));
}

#[test]
fn declared_function_has_arity() {
    let mut c = SmtLibCircuit::new();
    let f = c.declare_fn("f", &[Sort::Int, Sort::Bool], &[Sort::Int]);
    assert_eq!(f.arity, 2);
    assert_eq!(f.name, "f");
    let e = Expr::Operator(Op::Add, vec![Expr::Integer(1), Expr::VarAccess("x".to_string())]);
    assert_eq!(e.clone(), e);
}
