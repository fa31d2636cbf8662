use vstd::prelude::*;
use crate::ast::{BinOp, Term};
use crate::lexer::{TokenType, next_token, nth_token};
use crate::text::{digits_value, is_digit};

verus! {

/// A term with its names as character sequences: what the parser stores,
/// as the grammar below describes it.
pub enum Shape {
    Function {
        name: Seq<char>,
        params: Seq<(usize, Seq<char>)>,
        rets: Seq<(usize, Seq<char>)>,
        pres: Seq<usize>,
        posts: Seq<usize>,
        body: usize,
    },
    Assert(usize),
    Assume(usize),
    Block(Seq<usize>),
    ArrayAccess(usize, usize),
    ArrayGenerator(usize, usize),
    ArraySlice(usize, usize, usize),
    ArrayLength(usize),
    ArrayConstructor(Seq<usize>),
    Binary(BinOp, usize, usize),
    BoolLiteral(bool),
    Braced(usize),
    IntLiteral(usize),
    IfElse(usize, usize, usize),
    VarAccess(Seq<char>),
    StaticInvoke(Seq<char>, Seq<usize>),
    TupleAccess(usize, usize),
    TupleConstructor(Seq<usize>),
    ArrayType(usize),
    BoolType,
    IntType(bool),
    TupleType(Seq<usize>),
}

pub open spec fn bindings_view(bs: Seq<(usize, String)>) -> Seq<(usize, Seq<char>)> {
    bs.map_values(|b: (usize, String)| (b.0, b.1@))
}

/// The shape of a term.
pub open spec fn shape(t: Term) -> Shape {
    match t {
        Term::Function(f) => Shape::Function {
            name: f.name@,
            params: bindings_view(f.params@),
            rets: bindings_view(f.rets@),
            pres: f.requires@,
            posts: f.ensures@,
            body: f.body,
        },
        Term::Assert(e) => Shape::Assert(e),
        Term::Assume(e) => Shape::Assume(e),
        Term::Block(ts) => Shape::Block(ts@),
        Term::ArrayAccess { src, index } => Shape::ArrayAccess(src, index),
        Term::ArrayGenerator(a, b) => Shape::ArrayGenerator(a, b),
        Term::ArraySlice { src, start, end } => Shape::ArraySlice(src, start, end),
        Term::ArrayLength(e) => Shape::ArrayLength(e),
        Term::ArrayConstructor(ts) => Shape::ArrayConstructor(ts@),
        Term::Binary(op, l, r) => Shape::Binary(op, l, r),
        Term::BoolLiteral(b) => Shape::BoolLiteral(b),
        Term::Braced(e) => Shape::Braced(e),
        Term::IntLiteral(n) => Shape::IntLiteral(n),
        Term::IfElse { cond, tt, ff } => Shape::IfElse(cond, tt, ff),
        Term::VarAccess(n) => Shape::VarAccess(n@),
        Term::StaticInvoke(n, args) => Shape::StaticInvoke(n@, args@),
        Term::TupleAccess(e, i) => Shape::TupleAccess(e, i),
        Term::TupleConstructor(ts) => Shape::TupleConstructor(ts@),
        Term::ArrayType(e) => Shape::ArrayType(e),
        Term::BoolType => Shape::BoolType,
        Term::IntType(s) => Shape::IntType(s),
        Term::TupleType(ts) => Shape::TupleType(ts@),
    }
}

/// The shapes of an arena, one for one.
pub open spec fn shapes(h: Seq<Term>) -> Seq<Shape> {
    h.map_values(|t: Term| shape(t))
}

/// What a parsing step gives: the position after it, the arena's shapes
/// after it, and the index of the term it stored.
pub type Step = Option<(int, Seq<Shape>, usize)>;

/// Store a shape: the arena grows by one and the new index is returned.
pub open spec fn stored(p: int, h: Seq<Shape>, x: Shape) -> Step {
    Some((p, h.push(x), h.len() as usize))
}

/// The position after the next token, where it has kind `k`.
pub open spec fn consume(s: Seq<char>, p: int, k: TokenType) -> Option<int> {
    match next_token(s, p) {
        Some(t) => if t.kind == k {
            Some(t.offset + t.len)
        } else {
            None
        },
        None => None,
    }
}

/// Whether `q` lies after `p` and within the text.
pub open spec fn ahead(s: Seq<char>, p: int, q: int) -> bool {
    p < q <= s.len()
}

/// The binary operator a token stands for.
pub open spec fn binop_of(k: TokenType) -> Option<BinOp> {
    match k {
        TokenType::EqualsEquals => Some(BinOp::Equals),
        TokenType::ShreakEquals => Some(BinOp::NotEquals),
        TokenType::LeftAngle => Some(BinOp::LessThan),
        TokenType::LeftAngleEquals => Some(BinOp::LessThanOrEquals),
        TokenType::RightAngle => Some(BinOp::GreaterThan),
        TokenType::RightAngleEquals => Some(BinOp::GreaterThanOrEquals),
        TokenType::Minus => Some(BinOp::Subtract),
        TokenType::Percent => Some(BinOp::Remainder),
        TokenType::Plus => Some(BinOp::Add),
        TokenType::RightSlash => Some(BinOp::Divide),
        TokenType::Star => Some(BinOp::Multiply),
        TokenType::AmpersandAmpersand => Some(BinOp::LogicalAnd),
        TokenType::BarBar => Some(BinOp::LogicalOr),
        TokenType::EqualsEqualsRightAngle => Some(BinOp::LogicalImplies),
        _ => None,
    }
}

/// The precedence level of a binary operator: arithmetic binds tightest,
/// then comparisons, then the logical connectives.
pub open spec fn level_of(b: BinOp) -> nat {
    match b {
        BinOp::Add | BinOp::Subtract | BinOp::Divide | BinOp::Multiply | BinOp::Remainder => 1,
        BinOp::LogicalAnd | BinOp::LogicalOr | BinOp::LogicalImplies => 3,
        _ => 2,
    }
}

/// The value of a decimal literal, where it fits in a `usize`.
pub open spec fn literal_value(t: Seq<char>) -> Option<usize> {
    if t.len() > 0 && (forall|k: int| 0 <= k < t.len() ==> is_digit(#[trigger] t[k])) && digits_value(
        t,
    ) <= usize::MAX {
        Some(digits_value(t) as usize)
    } else {
        None
    }
}

/// An identifier: the position after it and its text.
pub open spec fn g_ident(s: Seq<char>, p: int) -> Option<(int, Seq<char>)> {
    match next_token(s, p) {
        Some(t) => if t.kind == TokenType::Identifier {
            Some((t.offset + t.len, s.subrange(t.offset as int, t.offset + t.len)))
        } else {
            None
        },
        None => None,
    }
}

// ===================================================================
// Types
// ===================================================================

/// type := unit-type ('[' ']')*
pub open spec fn g_type(s: Seq<char>, p: int, h: Seq<Shape>) -> Step
    decreases s.len() - p, 5nat,
{
    match g_unit_type(s, p, h) {
        Some((p1, h1, t)) => g_array_suffix(s, p1, h1, t),
        None => None,
    }
}

pub open spec fn g_array_suffix(s: Seq<char>, p: int, h: Seq<Shape>, t: usize) -> Step
    decreases s.len() - p,
{
    match consume(s, p, TokenType::LeftSquare) {
        Some(p1) => match consume(s, p1, TokenType::RightSquare) {
            Some(p2) => if ahead(s, p, p2) {
                g_array_suffix(s, p2, h.push(Shape::ArrayType(t)), h.len() as usize)
            } else {
                None
            },
            None => None,
        },
        None => Some((p, h, t)),
    }
}

/// unit-type := 'uint' | 'bool' | '(' types ')'
pub open spec fn g_unit_type(s: Seq<char>, p: int, h: Seq<Shape>) -> Step
    decreases s.len() - p, 4nat,
{
    match next_token(s, p) {
        Some(t) => if t.kind == TokenType::Uint {
            stored(t.offset + t.len, h, Shape::IntType(false))
        } else if t.kind == TokenType::Bool {
            stored(t.offset + t.len, h, Shape::BoolType)
        } else if t.kind == TokenType::LeftBrace {
            g_tuple_type(s, p, h)
        } else {
            None
        },
        None => None,
    }
}

pub open spec fn g_tuple_type(s: Seq<char>, p: int, h: Seq<Shape>) -> Step
    decreases s.len() - p, 3nat,
{
    match consume(s, p, TokenType::LeftBrace) {
        Some(p1) => if ahead(s, p, p1) {
            g_tuple_rest(s, p1, h, seq![])
        } else {
            None
        },
        None => None,
    }
}

/// The rest of a tuple type: comma-separated types, then ')'.
pub open spec fn g_tuple_rest(s: Seq<char>, p: int, h: Seq<Shape>, acc: Seq<usize>) -> Step
    decreases s.len() - p, 6nat,
{
    match next_token(s, p) {
        Some(t) => if t.kind == TokenType::RightBrace {
            stored(t.offset + t.len, h, Shape::TupleType(acc))
        } else {
            match (if acc.len() > 0 {
                consume(s, p, TokenType::Comma)
            } else {
                Some(p)
            }) {
                Some(q) => if p <= q <= s.len() {
                    match g_type(s, q, h) {
                        Some((q1, h1, x)) => if ahead(s, p, q1) {
                            g_tuple_rest(s, q1, h1, acc.push(x))
                        } else {
                            None
                        },
                        None => None,
                    }
                } else {
                    None
                },
                None => None,
            }
        },
        None => None,
    }
}

// ===================================================================
// Expressions
// ===================================================================

/// expr := binary expression at the loosest level
pub open spec fn g_expr(s: Seq<char>, p: int, h: Seq<Shape>) -> Step
    decreases s.len() - p, 30nat,
{
    g_binary(s, p, h, 3)
}

/// A binary expression at `level`: an operand one level down, optionally
/// followed by one operator of this level and a second such operand.
pub open spec fn g_binary(s: Seq<char>, p: int, h: Seq<Shape>, level: nat) -> Step
    decreases s.len() - p, 20 + level,
{
    if level == 0 {
        g_postfix(s, p, h)
    } else {
        match g_binary(s, p, h, (level - 1) as nat) {
            Some((p1, h1, l)) => match next_token(s, p1) {
                Some(t) => match binop_of(t.kind) {
                    Some(op) => if level_of(op) == level {
                        let p2 = t.offset + t.len;
                        if ahead(s, p, p2) {
                            match g_binary(s, p2, h1, (level - 1) as nat) {
                                Some((p3, h3, r)) => stored(p3, h3, Shape::Binary(op, l, r)),
                                None => None,
                            }
                        } else {
                            None
                        }
                    } else {
                        Some((p1, h1, l))
                    },
                    None => Some((p1, h1, l)),
                },
                None => Some((p1, h1, l)),
            },
            None => None,
        }
    }
}

/// postfix := unit ('[' ... ']' | '.' int)*
pub open spec fn g_postfix(s: Seq<char>, p: int, h: Seq<Shape>) -> Step
    decreases s.len() - p, 19nat,
{
    match g_unit(s, p, h) {
        Some((p1, h1, u)) => if ahead(s, p, p1) {
            g_postfix_rest(s, p1, h1, u)
        } else {
            None
        },
        None => None,
    }
}

pub open spec fn g_postfix_rest(s: Seq<char>, p: int, h: Seq<Shape>, src: usize) -> Step
    decreases s.len() - p, 18nat,
{
    match next_token(s, p) {
        Some(t) => if t.kind == TokenType::LeftSquare || t.kind == TokenType::Dot {
            match (if t.kind == TokenType::LeftSquare {
                g_array_access(s, p, h, src)
            } else {
                g_tuple_access(s, p, h, src)
            }) {
                Some((p1, h1, x)) => if ahead(s, p, p1) {
                    g_postfix_rest(s, p1, h1, x)
                } else {
                    None
                },
                None => None,
            }
        } else {
            Some((p, h, src))
        },
        None => Some((p, h, src)),
    }
}

/// unit := '|' expr '|' | bool | '(' exprs ')' | '[' ... ']' | name '(' exprs ')'
///       | name | int | 'if' expr block 'else' block
pub open spec fn g_unit(s: Seq<char>, p: int, h: Seq<Shape>) -> Step
    decreases s.len() - p, 17nat,
{
    match next_token(s, p) {
        Some(t) => match t.kind {
            TokenType::Bar => g_array_length(s, p, h),
            TokenType::BoolLiteral(v) => stored(t.offset + t.len, h, Shape::BoolLiteral(v)),
            TokenType::LeftBrace => g_braced(s, p, h),
            TokenType::LeftSquare => g_array_constructor(s, p, h),
            TokenType::Identifier => match nth_token(s, p, 1) {
                Some(t2) => if t2.kind == TokenType::LeftBrace {
                    g_invoke(s, p, h)
                } else {
                    stored(t.offset + t.len, h, Shape::VarAccess(s.subrange(t.offset as int, t.offset + t.len)))
                },
                None => stored(t.offset + t.len, h, Shape::VarAccess(s.subrange(t.offset as int, t.offset + t.len))),
            },
            TokenType::IntLiteral => match literal_value(s.subrange(t.offset as int, t.offset + t.len)) {
                Some(v) => stored(t.offset + t.len, h, Shape::IntLiteral(v)),
                None => None,
            },
            TokenType::If => g_ifelse(s, p, h),
            _ => None,
        },
        None => None,
    }
}

pub open spec fn g_array_access(s: Seq<char>, p: int, h: Seq<Shape>, src: usize) -> Step
    decreases s.len() - p, 16nat,
{
    match consume(s, p, TokenType::LeftSquare) {
        Some(p1) => if ahead(s, p, p1) {
            match g_unit(s, p1, h) {
                Some((p2, h2, i)) => match consume(s, p2, TokenType::DotDot) {
                    Some(p3) => if ahead(s, p, p3) {
                        match g_unit(s, p3, h2) {
                            Some((p4, h4, e)) => match consume(s, p4, TokenType::RightSquare) {
                                Some(p5) => stored(p5, h4, Shape::ArraySlice(src, i, e)),
                                None => None,
                            },
                            None => None,
                        }
                    } else {
                        None
                    },
                    None => match consume(s, p2, TokenType::RightSquare) {
                        Some(p3) => stored(p3, h2, Shape::ArrayAccess(src, i)),
                        None => None,
                    },
                },
                None => None,
            }
        } else {
            None
        },
        None => None,
    }
}

pub open spec fn g_tuple_access(s: Seq<char>, p: int, h: Seq<Shape>, src: usize) -> Step
    decreases s.len() - p, 16nat,
{
    match consume(s, p, TokenType::Dot) {
        Some(p1) => match next_token(s, p1) {
            Some(t) => if t.kind == TokenType::IntLiteral {
                match literal_value(s.subrange(t.offset as int, t.offset + t.len)) {
                    Some(v) => stored(t.offset + t.len, h, Shape::TupleAccess(src, v)),
                    None => None,
                }
            } else {
                None
            },
            None => None,
        },
        None => None,
    }
}

pub open spec fn g_array_constructor(s: Seq<char>, p: int, h: Seq<Shape>) -> Step
    decreases s.len() - p, 16nat,
{
    match consume(s, p, TokenType::LeftSquare) {
        Some(p1) => match next_token(s, p1) {
            Some(t) => if t.kind == TokenType::RightSquare {
                stored(t.offset + t.len, h, Shape::ArrayConstructor(seq![]))
            } else if ahead(s, p, p1) {
                g_array_items(s, p1, h)
            } else {
                None
            },
            None => None,
        },
        None => None,
    }
}

/// The inside of a non-empty array literal and its closing ']':
/// `expr ';' expr` (a generator) or `expr (',' expr)*`.
pub open spec fn g_array_items(s: Seq<char>, p: int, h: Seq<Shape>) -> Step
    decreases s.len() - p, 32nat,
{
    match g_expr(s, p, h) {
        Some((p2, h2, e1)) => match consume(s, p2, TokenType::SemiColon) {
            Some(p3) => if ahead(s, p, p3) {
                match g_expr(s, p3, h2) {
                    Some((p4, h4, e2)) => match consume(s, p4, TokenType::RightSquare) {
                        Some(p5) => stored(p5, h4, Shape::ArrayGenerator(e1, e2)),
                        None => None,
                    },
                    None => None,
                }
            } else {
                None
            },
            None => if ahead(s, p, p2) {
                g_elements(s, p2, h2, seq![e1])
            } else {
                None
            },
        },
        None => None,
    }
}

/// The rest of an array literal: (',' expr)* ']'
pub open spec fn g_elements(s: Seq<char>, p: int, h: Seq<Shape>, acc: Seq<usize>) -> Step
    decreases s.len() - p, 16nat,
{
    match next_token(s, p) {
        Some(t) => if t.kind == TokenType::RightSquare {
            stored(t.offset + t.len, h, Shape::ArrayConstructor(acc))
        } else {
            match consume(s, p, TokenType::Comma) {
                Some(q) => if ahead(s, p, q) {
                    match g_expr(s, q, h) {
                        Some((q1, h1, e)) => if ahead(s, p, q1) {
                            g_elements(s, q1, h1, acc.push(e))
                        } else {
                            None
                        },
                        None => None,
                    }
                } else {
                    None
                },
                None => None,
            }
        },
        None => None,
    }
}

pub open spec fn g_array_length(s: Seq<char>, p: int, h: Seq<Shape>) -> Step
    decreases s.len() - p, 16nat,
{
    match consume(s, p, TokenType::Bar) {
        Some(p1) => if ahead(s, p, p1) {
            match g_expr(s, p1, h) {
                Some((p2, h2, e)) => match consume(s, p2, TokenType::Bar) {
                    Some(p3) => stored(p3, h2, Shape::ArrayLength(e)),
                    None => None,
                },
                None => None,
            }
        } else {
            None
        },
        None => None,
    }
}

/// '(' exprs ')': one expression is braced, any other number a tuple.
pub open spec fn g_braced(s: Seq<char>, p: int, h: Seq<Shape>) -> Step
    decreases s.len() - p, 16nat,
{
    match consume(s, p, TokenType::LeftBrace) {
        Some(p1) => if ahead(s, p, p1) {
            match g_exprs(s, p1, h, TokenType::RightBrace, seq![]) {
                Some((p2, h2, es)) => match consume(s, p2, TokenType::RightBrace) {
                    Some(p3) => if es.len() == 1 {
                        stored(p3, h2, Shape::Braced(es[0]))
                    } else {
                        stored(p3, h2, Shape::TupleConstructor(es))
                    },
                    None => None,
                },
                None => None,
            }
        } else {
            None
        },
        None => None,
    }
}

pub open spec fn g_ifelse(s: Seq<char>, p: int, h: Seq<Shape>) -> Step
    decreases s.len() - p, 16nat,
{
    match consume(s, p, TokenType::If) {
        Some(p1) => if ahead(s, p, p1) {
            match g_expr(s, p1, h) {
                Some((p2, h2, c)) => if ahead(s, p, p2) {
                    match g_block(s, p2, h2) {
                        Some((p3, h3, tt)) => match consume(s, p3, TokenType::Else) {
                            Some(p4) => if ahead(s, p, p4) {
                                match g_block(s, p4, h3) {
                                    Some((p5, h5, ff)) => stored(p5, h5, Shape::IfElse(c, tt, ff)),
                                    None => None,
                                }
                            } else {
                                None
                            },
                            None => None,
                        },
                        None => None,
                    }
                } else {
                    None
                },
                None => None,
            }
        } else {
            None
        },
        None => None,
    }
}

pub open spec fn g_invoke(s: Seq<char>, p: int, h: Seq<Shape>) -> Step
    decreases s.len() - p, 16nat,
{
    match g_ident(s, p) {
        Some((p1, name)) => match consume(s, p1, TokenType::LeftBrace) {
            Some(p2) => if ahead(s, p, p2) {
                match g_exprs(s, p2, h, TokenType::RightBrace, seq![]) {
                    Some((p3, h3, es)) => match consume(s, p3, TokenType::RightBrace) {
                        Some(p4) => stored(p4, h3, Shape::StaticInvoke(name, es)),
                        None => None,
                    },
                    None => None,
                }
            } else {
                None
            },
            None => None,
        },
        None => None,
    }
}

/// Comma-separated expressions up to (not including) a token of kind `end`.
pub open spec fn g_exprs(s: Seq<char>, p: int, h: Seq<Shape>, end: TokenType, acc: Seq<usize>) -> Option<
    (int, Seq<Shape>, Seq<usize>),
>
    decreases s.len() - p, 31nat,
{
    match next_token(s, p) {
        Some(t) => if t.kind == end {
            Some((p, h, acc))
        } else {
            match (if acc.len() > 0 {
                consume(s, p, TokenType::Comma)
            } else {
                Some(p)
            }) {
                Some(q) => if p <= q <= s.len() {
                    match g_expr(s, q, h) {
                        Some((q1, h1, e)) => if ahead(s, p, q1) {
                            g_exprs(s, q1, h1, end, acc.push(e))
                        } else {
                            None
                        },
                        None => None,
                    }
                } else {
                    None
                },
                None => None,
            }
        },
        None => None,
    }
}

// ===================================================================
// Statements and blocks
// ===================================================================

/// block := '{' (stmt (';' stmt)*)? '}' where a statement is an assertion,
/// an assumption or an expression.
pub open spec fn g_block(s: Seq<char>, p: int, h: Seq<Shape>) -> Step
    decreases s.len() - p, 42nat,
{
    match consume(s, p, TokenType::LeftCurly) {
        Some(p1) => if ahead(s, p, p1) {
            g_block_rest(s, p1, h, seq![])
        } else {
            None
        },
        None => None,
    }
}

pub open spec fn g_block_rest(s: Seq<char>, p: int, h: Seq<Shape>, acc: Seq<usize>) -> Step
    decreases s.len() - p, 41nat,
{
    match next_token(s, p) {
        Some(t) => if t.kind == TokenType::RightCurly {
            stored(t.offset + t.len, h, Shape::Block(acc))
        } else {
            match (if acc.len() > 0 {
                consume(s, p, TokenType::SemiColon)
            } else {
                Some(p)
            }) {
                Some(q) => if p <= q <= s.len() {
                    match next_token(s, q) {
                        Some(t2) => if t2.kind == TokenType::RightCurly {
                            if ahead(s, p, q) {
                                g_block_rest(s, q, h, acc)
                            } else {
                                None
                            }
                        } else {
                            match (if t2.kind == TokenType::Assert {
                                g_stmt(s, q, h, TokenType::Assert)
                            } else if t2.kind == TokenType::Assume {
                                g_stmt(s, q, h, TokenType::Assume)
                            } else {
                                g_expr(s, q, h)
                            }) {
                                Some((q1, h1, x)) => if ahead(s, p, q1) {
                                    g_block_rest(s, q1, h1, acc.push(x))
                                } else {
                                    None
                                },
                                None => None,
                            }
                        },
                        None => None,
                    }
                } else {
                    None
                },
                None => None,
            }
        },
        None => None,
    }
}

/// 'assert' expr or 'assume' expr, as `kw` says.
pub open spec fn g_stmt(s: Seq<char>, p: int, h: Seq<Shape>, kw: TokenType) -> Step
    decreases s.len() - p, 35nat,
{
    match consume(s, p, kw) {
        Some(p1) => if ahead(s, p, p1) {
            match g_expr(s, p1, h) {
                Some((p2, h2, e)) => stored(
                    p2,
                    h2,
                    if kw == TokenType::Assert {
                        Shape::Assert(e)
                    } else {
                        Shape::Assume(e)
                    },
                ),
                None => None,
            }
        } else {
            None
        },
        None => None,
    }
}

// ===================================================================
// Declarations
// ===================================================================

/// params := '(' (type name (',' type name)*)? ')'
pub open spec fn g_params(s: Seq<char>, p: int, h: Seq<Shape>) -> Option<
    (int, Seq<Shape>, Seq<(usize, Seq<char>)>),
> {
    match consume(s, p, TokenType::LeftBrace) {
        Some(p1) => g_params_rest(s, p1, h, seq![]),
        None => None,
    }
}

pub open spec fn g_params_rest(s: Seq<char>, p: int, h: Seq<Shape>, acc: Seq<(usize, Seq<char>)>) -> Option<
    (int, Seq<Shape>, Seq<(usize, Seq<char>)>),
>
    decreases s.len() - p,
{
    match next_token(s, p) {
        Some(t) => if t.kind == TokenType::RightBrace {
            Some((t.offset + t.len, h, acc))
        } else {
            match (if acc.len() > 0 {
                consume(s, p, TokenType::Comma)
            } else {
                Some(p)
            }) {
                Some(q) => match g_type(s, q, h) {
                    Some((q1, h1, ty)) => match g_ident(s, q1) {
                        Some((q2, name)) => if ahead(s, p, q2) {
                            g_params_rest(s, q2, h1, acc.push((ty, name)))
                        } else {
                            None
                        },
                        None => None,
                    },
                    None => None,
                },
                None => None,
            }
        },
        None => None,
    }
}

/// Zero or more clauses `kw expr`.
pub open spec fn g_clauses(s: Seq<char>, p: int, h: Seq<Shape>, kw: TokenType, acc: Seq<usize>) -> Option<
    (int, Seq<Shape>, Seq<usize>),
>
    decreases s.len() - p,
{
    match consume(s, p, kw) {
        Some(p1) => match g_expr(s, p1, h) {
            Some((p2, h2, e)) => if ahead(s, p, p2) {
                g_clauses(s, p2, h2, kw, acc.push(e))
            } else {
                None
            },
            None => None,
        },
        None => Some((p, h, acc)),
    }
}

/// An optional return list: '->' params.
pub open spec fn g_rets(s: Seq<char>, p: int, h: Seq<Shape>) -> Option<
    (int, Seq<Shape>, Seq<(usize, Seq<char>)>),
> {
    match consume(s, p, TokenType::RightArrow) {
        Some(q) => g_params(s, q, h),
        None => Some((p, h, seq![])),
    }
}

/// function := 'function' name params ('->' params)? ('requires' expr)*
///             ('ensures' expr)* block
pub open spec fn g_function(s: Seq<char>, p: int, h: Seq<Shape>) -> Step {
    match consume(s, p, TokenType::Function) {
        Some(p1) => match g_ident(s, p1) {
            Some((p2, name)) => match g_params(s, p2, h) {
                Some((p3, h3, params)) => match g_rets(s, p3, h3) {
                    Some((p4, h4, rets)) => match g_clauses(s, p4, h4, TokenType::Requires, seq![]) {
                        Some((p5, h5, pres)) => match g_clauses(s, p5, h5, TokenType::Ensures, seq![]) {
                            Some((p6, h6, posts)) => match g_block(s, p6, h6) {
                                Some((p7, h7, body)) => stored(
                                    p7,
                                    h7,
                                    Shape::Function { name, params, rets, pres, posts, body },
                                ),
                                None => None,
                            },
                            None => None,
                        },
                        None => None,
                    },
                    None => None,
                },
                None => None,
            },
            None => None,
        },
        None => None,
    }
}

/// program := function* end-of-input
pub open spec fn g_program(s: Seq<char>, p: int, h: Seq<Shape>, ds: Seq<usize>) -> Option<
    (int, Seq<Shape>, Seq<usize>),
>
    decreases s.len() - p,
{
    match next_token(s, p) {
        Some(t) => if t.kind == TokenType::EOF {
            Some((p, h, ds))
        } else if t.kind == TokenType::Function {
            match g_function(s, p, h) {
                Some((p1, h1, d)) => if ahead(s, p, p1) {
                    g_program(s, p1, h1, ds.push(d))
                } else {
                    None
                },
                None => None,
            }
        } else {
            None
        },
        None => None,
    }
}

} // verus!
