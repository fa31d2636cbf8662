use tiny_fl::circuit::smtlib::solver::{answer_of, first_answer};
use tiny_fl::circuit::SmtOutcome;
use tiny_fl::text::parse_decimal;
use tiny_fl::{BinOp, Lexer, Parser, RustPrinter, SyntacticHeap, Term, Token, TokenType};

#[test]
fn arena_hands_out_increasing_indices() {
    let mut heap = SyntacticHeap::new();
    assert_eq!(heap.len(), 0);
    let a = heap.allocate(Term::IntLiteral(1));
    let b = heap.allocate(Term::IntLiteral(2));
    let c = heap.allocate(Term::Binary(BinOp::Add, a, b));
    assert_eq!((a, b, c), (0, 1, 2));
    assert_eq!(heap.len(), 3);
    match heap.get(c) {
        Term::Binary(BinOp::Add, l, r) => assert!(*l < c && *r < c),
        _ => panic!("wrong term"),
    }
    let r = heap.to_ref(c);
    assert_eq!(r.index, 2);
    assert_eq!(r.heap.len(), 3);
}

#[test]
fn parsed_arena_refers_only_backwards() {
    let mut parser = Parser::new("function f(uint x, bool b) requires b ensures x >= 0 { assert if b { x } else { 0 } >= 0; x }");
    let terms = parser.parse().unwrap();
    assert_eq!(terms.len(), 1);
    let heap = &parser.heap;
    for i in 0..heap.len() {
        let refs: Vec<usize> = match heap.get(i) {
            Term::Function(f) => {
                let mut v: Vec<usize> = f.params.iter().map(|p| p.0).collect();
                v.extend(f.rets.iter().map(|p| p.0));
                v.extend(f.requires.iter().copied());
                v.extend(f.ensures.iter().copied());
                v.push(f.body);
                v
            }
            Term::Assert(e) | Term::Assume(e) | Term::Braced(e) => vec![*e],
            Term::Block(v) => v.clone(),
            Term::Binary(_, l, r) => vec![*l, *r],
            Term::IfElse { cond, tt, ff } => vec![*cond, *tt, *ff],
            _ => vec![],
        };
        for j in refs {
            assert!(j < i, "term {i} refers forward to {j}");
        }
    }
}

#[test]
fn lexer_skips_whitespace() {
    let mut lexer = Lexer::new("  x >= 10");
    let t = lexer.lookahead(0).unwrap();
    assert_eq!(t, Token { kind: TokenType::Identifier, offset: 2, len: 1 });
    assert_eq!(lexer.to_string(&t), "x");
    assert_eq!(lexer.lookahead(1).unwrap().kind, TokenType::RightAngleEquals);
    assert!(lexer.expect(TokenType::Identifier).is_ok());
    assert!(lexer.matches(TokenType::RightAngleEquals));
    assert!(!lexer.matches(TokenType::Comma));
    let n = lexer.match_any(&[TokenType::Plus, TokenType::IntLiteral]).unwrap();
    assert_eq!(n, Token { kind: TokenType::IntLiteral, offset: 7, len: 2 });
    assert_eq!(lexer.lookahead(0).unwrap().kind, TokenType::EOF);
}

#[test]
fn lexer_keywords_and_operators() {
    let mut lexer = Lexer::new("function true ==> != requires uint_ || assert");
    let kinds = [
        TokenType::Function,
        TokenType::BoolLiteral(true),
        TokenType::EqualsEqualsRightAngle,
        TokenType::ShreakEquals,
        TokenType::Requires,
        TokenType::Identifier,
        TokenType::BarBar,
        TokenType::Assert,
        TokenType::EOF,
    ];
    for k in kinds {
        let t = lexer.lookahead(0).unwrap();
        assert_eq!(t.kind, k);
        if k != TokenType::EOF {
            lexer.accept(&t);
        }
    }
}

#[test]
fn lexer_rejects_unknown_character() {
    let mut lexer = Lexer::new("x # y");
    assert!(lexer.expect(TokenType::Identifier).is_ok());
    assert!(lexer.lookahead(0).is_err());
    assert!(lexer.expect(TokenType::Identifier).is_err());
}

#[test]
fn token_relocates() {
    let mut t = Token { kind: TokenType::Dot, offset: 0, len: 1 };
    t.relocate(9);
    assert_eq!(t.offset, 9);
    assert_eq!(t.len, 1);
}

#[test]
fn parser_rejects_malformed_input() {
    assert!(Parser::new("function f(uint x { x }").parse().is_err());
    assert!(Parser::new("x + 1").parse().is_err());
    assert!(Parser::new("function f() { 99999999999999999999999999 }").parse().is_err());
    assert!(Parser::new("").parse().unwrap().is_empty());
}

#[test]
fn parse_expr_builds_binary_terms() {
    let mut parser = Parser::new("x + 2 < y");
    let e = parser.parse_expr().unwrap();
    match parser.heap.get(e) {
        Term::Binary(BinOp::LessThan, l, r) => {
            match parser.heap.get(*l) {
                Term::Binary(BinOp::Add, a, b) => {
                    assert!(matches!(parser.heap.get(*a), Term::VarAccess(n) if n.as_str() == "x"));
                    assert!(matches!(parser.heap.get(*b), Term::IntLiteral(2)));
                }
                _ => panic!("expected addition"),
            }
            assert!(matches!(parser.heap.get(*r), Term::VarAccess(n) if n.as_str() == "y"));
        }
        _ => panic!("expected comparison"),
    }
}

#[test]
fn printer_emits_rust() {
    let mut parser = Parser::new("function f(uint x, bool b) -> (uint r) { if b { x } else { 1 } }");
    let terms = parser.parse().unwrap();
    let mut rp = RustPrinter::new(&parser.heap);
    for t in terms {
        rp.generate(t);
    }
    assert_eq!(
        rp.done(),
        "fn f(x: usize, b: bool) -> (r: usize) {\n   if b {\n      x\n   } else {\n      1\n   }\n}\n"
    );
}

#[test]
fn printer_basic_writes() {
    let heap = SyntacticHeap::new();
    let mut rp = RustPrinter::new(&heap);
    assert_eq!(RustPrinter::preamble(), "");
    rp.write("a");
    rp.writeln("b");
    rp.indent("c");
    assert_eq!(rp.done(), "ab\nc");
}

#[test]
fn decimal_parsing() {
    assert_eq!(parse_decimal("0"), Ok(0));
    assert_eq!(parse_decimal("1234"), Ok(1234));
    assert_eq!(parse_decimal("18446744073709551615"), Ok(usize::MAX));
    assert!(parse_decimal("18446744073709551616").is_err());
    assert!(parse_decimal("").is_err());
    assert!(parse_decimal("12a").is_err());
}

#[test]
fn solver_answers() {
    assert_eq!(answer_of("sat"), Some(SmtOutcome::Sat));
    assert_eq!(answer_of("unsat"), Some(SmtOutcome::Unsat));
    assert_eq!(answer_of("unknown"), Some(SmtOutcome::Maybe));
    assert_eq!(answer_of("(error \"x\")"), None);
    let lines = vec!["(error \"line 1\")".to_string(), "unsat".to_string(), "sat".to_string()];
    assert_eq!(first_answer(&lines), SmtOutcome::Unsat);
    assert_eq!(first_answer(&vec![]), SmtOutcome::Maybe);
}

#[test]
fn parse_expr_respects_precedence() {
    let mut parser = Parser::new("x / y == x / y");
    let e = parser.parse_expr().unwrap();
    assert_eq!(e, 6);
    assert_eq!(parser.heap.len(), 7);
    assert!(matches!(parser.heap.get(0), Term::VarAccess(n) if n.as_str() == "x"));
    assert!(matches!(parser.heap.get(1), Term::VarAccess(n) if n.as_str() == "y"));
    assert!(matches!(parser.heap.get(2), Term::Binary(BinOp::Divide, 0, 1)));
    assert!(matches!(parser.heap.get(3), Term::VarAccess(n) if n.as_str() == "x"));
    assert!(matches!(parser.heap.get(4), Term::VarAccess(n) if n.as_str() == "y"));
    assert!(matches!(parser.heap.get(5), Term::Binary(BinOp::Divide, 3, 4)));
    assert!(matches!(parser.heap.get(6), Term::Binary(BinOp::Equals, 2, 5)));
}

#[test]
fn parse_returns_function_declarations() {
    let mut parser = Parser::new("function f(uint x) { x } function g() { true }");
    let ds = parser.parse().unwrap();
    assert_eq!(ds.len(), 2);
    for d in ds {
        assert!(matches!(parser.heap.get(d), Term::Function(_)));
    }
    assert!(Parser::new("function f() { true } x").parse().is_err());
}
