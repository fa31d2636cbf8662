use vstd::prelude::*;
use crate::text::push_char;

verus! {

// ===================================================================
// Token
// ===================================================================

#[derive(Clone, Copy, Debug, PartialEq, Eq, Structural)]
pub enum TokenType {
    AmpersandAmpersand,
    Assert,
    Assume,
    Bar,
    BarBar,
    Bool,
    BoolLiteral(bool),
    Comma,
    Dot,
    DotDot,
    EqualsEquals,
    EqualsEqualsRightAngle,
    Else,
    EOF,
    Ensures,
    Function,
    Identifier,
    If,
    IntLiteral,
    LeftAngle,
    LeftAngleEquals,
    LeftBrace,
    LeftCurly,
    LeftSquare,
    Minus,
    Percent,
    Plus,
    PlusPlus,
    Requires,
    RightAngle,
    RightAngleEquals,
    RightArrow,
    RightBrace,
    RightCurly,
    RightSlash,
    RightSquare,
    SemiColon,
    ShreakEquals,
    Star,
    Uint,
    WhiteSpace,
}

/// Represents a single token generated from a character sequence.  This
/// identifies where the token starts and ends in the input.
#[derive(Clone, Copy, Debug, PartialEq, Eq, Structural)]
pub struct Token {
    /// Type of the token
    pub kind: TokenType,
    pub offset: usize,
    pub len: usize,
}

impl Token {
    pub fn relocate(&mut self, offset: usize)
        ensures
            *final(self) == (Token { offset, ..*old(self) }),
    {
        self.offset = offset;
    }
}

/// Represents the end of the input stream.
pub open spec fn eof_token() -> Token {
    Token { kind: TokenType::EOF, offset: 0, len: 0 }
}

// ===================================================================
// Character classes
// ===================================================================

pub open spec fn is_whitespace_spec(c: char) -> bool {
    c == ' ' || c == '\t' || c == '\n'
}

pub open spec fn is_digit_spec(c: char) -> bool {
    '0' <= c && c <= '9'
}

pub open spec fn is_identifier_start_spec(c: char) -> bool {
    ('a' <= c && c <= 'z') || ('A' <= c && c <= 'Z') || c == '_'
}

pub open spec fn is_identifier_middle_spec(c: char) -> bool {
    is_digit_spec(c) || is_identifier_start_spec(c)
}

/// Character classes that a token may run over.
pub enum Class {
    Space,
    Digit,
    Ident,
}

pub open spec fn in_class(c: char, k: Class) -> bool {
    match k {
        Class::Space => is_whitespace_spec(c),
        Class::Digit => is_digit_spec(c),
        Class::Ident => is_identifier_middle_spec(c),
    }
}

/// The length of the longest run of characters of class `k` starting at `i`.
pub open spec fn run_len(chars: Seq<char>, i: int, k: Class) -> nat
    decreases chars.len() - i,
{
    if 0 <= i < chars.len() && in_class(chars[i], k) {
        1 + run_len(chars, i + 1, k)
    } else {
        0
    }
}

pub open spec fn single_op_kind(c: char) -> Option<TokenType> {
    if c == '|' {
        Some(TokenType::Bar)
    } else if c == ',' {
        Some(TokenType::Comma)
    } else if c == '.' {
        Some(TokenType::Dot)
    } else if c == '<' {
        Some(TokenType::LeftAngle)
    } else if c == '(' {
        Some(TokenType::LeftBrace)
    } else if c == '{' {
        Some(TokenType::LeftCurly)
    } else if c == '[' {
        Some(TokenType::LeftSquare)
    } else if c == '-' {
        Some(TokenType::Minus)
    } else if c == '%' {
        Some(TokenType::Percent)
    } else if c == '+' {
        Some(TokenType::Plus)
    } else if c == '>' {
        Some(TokenType::RightAngle)
    } else if c == ')' {
        Some(TokenType::RightBrace)
    } else if c == '}' {
        Some(TokenType::RightCurly)
    } else if c == '/' {
        Some(TokenType::RightSlash)
    } else if c == ']' {
        Some(TokenType::RightSquare)
    } else if c == '*' {
        Some(TokenType::Star)
    } else if c == ';' {
        Some(TokenType::SemiColon)
    } else {
        None
    }
}

pub open spec fn double_op_kind(a: char, b: char) -> Option<TokenType> {
    if a == '&' && b == '&' {
        Some(TokenType::AmpersandAmpersand)
    } else if a == '|' && b == '|' {
        Some(TokenType::BarBar)
    } else if a == '=' && b == '=' {
        Some(TokenType::EqualsEquals)
    } else if a == '.' && b == '.' {
        Some(TokenType::DotDot)
    } else if a == '<' && b == '=' {
        Some(TokenType::LeftAngleEquals)
    } else if a == '+' && b == '+' {
        Some(TokenType::PlusPlus)
    } else if a == '-' && b == '>' {
        Some(TokenType::RightArrow)
    } else if a == '>' && b == '=' {
        Some(TokenType::RightAngleEquals)
    } else if a == '!' && b == '=' {
        Some(TokenType::ShreakEquals)
    } else {
        None
    }
}

pub open spec fn keyword_kind(s: Seq<char>) -> Option<TokenType> {
    if s == "assert"@ {
        Some(TokenType::Assert)
    } else if s == "assume"@ {
        Some(TokenType::Assume)
    } else if s == "bool"@ {
        Some(TokenType::Bool)
    } else if s == "else"@ {
        Some(TokenType::Else)
    } else if s == "ensures"@ {
        Some(TokenType::Ensures)
    } else if s == "false"@ {
        Some(TokenType::BoolLiteral(false))
    } else if s == "if"@ {
        Some(TokenType::If)
    } else if s == "function"@ {
        Some(TokenType::Function)
    } else if s == "requires"@ {
        Some(TokenType::Requires)
    } else if s == "true"@ {
        Some(TokenType::BoolLiteral(true))
    } else if s == "uint"@ {
        Some(TokenType::Uint)
    } else {
        None
    }
}

/// The token that starts at `i`, whitespace included, or `None` where no
/// token does.
pub open spec fn scan_spec(chars: Seq<char>, i: int) -> Option<Token> {
    if !(0 <= i < chars.len()) {
        None
    } else if run_len(chars, i, Class::Space) > 0 {
        Some(Token { kind: TokenType::WhiteSpace, offset: i as usize, len: run_len(chars, i, Class::Space) as usize })
    } else if i + 2 < chars.len() && chars[i] == '=' && chars[i + 1] == '=' && chars[i + 2] == '>' {
        Some(Token { kind: TokenType::EqualsEqualsRightAngle, offset: i as usize, len: 3 })
    } else if i + 1 < chars.len() && double_op_kind(chars[i], chars[i + 1]) is Some {
        Some(Token { kind: double_op_kind(chars[i], chars[i + 1])->0, offset: i as usize, len: 2 })
    } else if single_op_kind(chars[i]) is Some {
        Some(Token { kind: single_op_kind(chars[i])->0, offset: i as usize, len: 1 })
    } else if run_len(chars, i, Class::Digit) > 0 {
        Some(Token { kind: TokenType::IntLiteral, offset: i as usize, len: run_len(chars, i, Class::Digit) as usize })
    } else if is_identifier_start_spec(chars[i]) {
        let n = run_len(chars, i, Class::Ident);
        match keyword_kind(chars.subrange(i, i + n)) {
            Some(k) => Some(Token { kind: k, offset: i as usize, len: n as usize }),
            None => Some(Token { kind: TokenType::Identifier, offset: i as usize, len: n as usize }),
        }
    } else {
        None
    }
}

/// The next token at or after `i` that is not whitespace: the end-of-input
/// token past the last character, `None` where the input cannot be scanned.
pub open spec fn next_token(chars: Seq<char>, i: int) -> Option<Token>
    decreases chars.len() - i,
{
    if i >= chars.len() {
        Some(eof_token())
    } else {
        match scan_spec(chars, i) {
            Some(t) => if t.kind == TokenType::WhiteSpace && t.len > 0 && i + t.len <= chars.len() {
                next_token(chars, i + t.len)
            } else {
                Some(t)
            },
            None => None,
        }
    }
}

/// The token `n` places after the next one, counting from `i`; past the
/// end of input it stays the end-of-input token.
pub open spec fn nth_token(chars: Seq<char>, i: int, n: nat) -> Option<Token>
    decreases n,
{
    match next_token(chars, i) {
        Some(t) => if n == 0 || t.kind == TokenType::EOF {
            Some(t)
        } else {
            nth_token(chars, t.offset + t.len, (n - 1) as nat)
        },
        None => None,
    }
}

// ===================================================================
// Scanners
// ===================================================================

proof fn lemma_run_len_bound(chars: Seq<char>, i: int, k: Class)
    requires
        0 <= i,
    ensures
        i + run_len(chars, i, k) <= chars.len() || run_len(chars, i, k) == 0,
        forall|j: int| i <= j < i + run_len(chars, i, k) ==> in_class(#[trigger] chars[j], k),
    decreases chars.len() - i,
{
    if 0 <= i < chars.len() && in_class(chars[i], k) {
        lemma_run_len_bound(chars, i + 1, k);
    }
}

/// Length of the run of characters of class `k` starting at `offset`.
fn scan_run(chars: &Vec<char>, offset: usize, k: Class) -> (r: usize)
    requires
        offset <= chars@.len(),
    ensures
        r == run_len(chars@, offset as int, k),
        offset + r <= chars@.len(),
{
    let mut i = offset;
    while i < chars.len() && class_contains(chars[i], &k)
        invariant
            offset <= i <= chars@.len(),
            run_len(chars@, offset as int, k) == (i - offset) + run_len(chars@, i as int, k),
        decreases chars@.len() - i,
    {
        i += 1;
    }
    i - offset
}

fn class_contains(c: char, k: &Class) -> (r: bool)
    ensures
        r == in_class(c, *k),
{
    match k {
        Class::Space => is_whitespace(c),
        Class::Digit => is_digit(c),
        Class::Ident => is_identifier_middle(c),
    }
}

/// Scan for the token starting at `offset`.
fn scan(chars: &Vec<char>, offset: usize) -> (r: Result<Token, ()>)
    requires
        offset < chars@.len(),
    ensures
        match scan_spec(chars@, offset as int) {
            Some(t) => r == Ok::<Token, ()>(t),
            None => r is Err,
        },
{
    if let Ok(tok) = scan_whitespace(chars, offset) {
        return Ok(tok);
    }
    if let Ok(tok) = scan_triple_operators(chars, offset) {
        return Ok(tok);
    }
    if let Ok(tok) = scan_double_operators(chars, offset) {
        return Ok(tok);
    }
    if let Ok(tok) = scan_single_operators(chars, offset) {
        return Ok(tok);
    }
    if let Ok(tok) = scan_int_literal(chars, offset) {
        return Ok(tok);
    }
    if let Ok(tok) = scan_keyword(chars, offset) {
        return Ok(tok);
    }
    scan_identifier(chars, offset)
}

/// Scan the implication operator `==>`.
fn scan_triple_operators(chars: &Vec<char>, offset: usize) -> (r: Result<Token, ()>)
    requires
        offset < chars@.len(),
    ensures
        offset + 2 < chars@.len() && chars@[offset as int] == '=' && chars@[offset + 1] == '='
            && chars@[offset + 2] == '>' ==> r == Ok::<Token, ()>(
            Token { kind: TokenType::EqualsEqualsRightAngle, offset, len: 3 },
        ),
        !(offset + 2 < chars@.len() && chars@[offset as int] == '=' && chars@[offset + 1] == '='
            && chars@[offset + 2] == '>') ==> r is Err,
{
    if chars.len() - offset > 2 && chars[offset] == '=' && chars[offset + 1] == '=' && chars[offset
        + 2] == '>' {
        Ok(Token { kind: TokenType::EqualsEqualsRightAngle, offset, len: 3 })
    } else {
        Err(())
    }
}

/// Scan an integer literal, which is a sequence of one or more digits.
fn scan_int_literal(chars: &Vec<char>, offset: usize) -> (r: Result<Token, ()>)
    requires
        offset < chars@.len(),
    ensures
        run_len(chars@, offset as int, Class::Digit) > 0 ==> r == Ok::<Token, ()>(
            Token {
                kind: TokenType::IntLiteral,
                offset,
                len: run_len(chars@, offset as int, Class::Digit) as usize,
            },
        ),
        run_len(chars@, offset as int, Class::Digit) == 0 ==> r is Err,
{
    let n = scan_run(chars, offset, Class::Digit);
    if n != 0 {
        Ok(Token { kind: TokenType::IntLiteral, offset, len: n })
    } else {
        Err(())
    }
}

/// Scan an identifier, which starts with an alphabetic character or an
/// underscore and continues with alphanumeric characters or underscores.
fn scan_identifier(chars: &Vec<char>, offset: usize) -> (r: Result<Token, ()>)
    requires
        offset < chars@.len(),
    ensures
        is_identifier_start_spec(chars@[offset as int]) ==> r == Ok::<Token, ()>(
            Token {
                kind: TokenType::Identifier,
                offset,
                len: run_len(chars@, offset as int, Class::Ident) as usize,
            },
        ),
        !is_identifier_start_spec(chars@[offset as int]) ==> r is Err,
        r is Ok ==> r->Ok_0.len == run_len(chars@, offset as int, Class::Ident),
        r is Ok ==> offset + r->Ok_0.len <= chars@.len(),
{
    if is_identifier_start(chars[offset]) {
        let n = scan_run(chars, offset, Class::Ident);
        Ok(Token { kind: TokenType::Identifier, offset, len: n })
    } else {
        Err(())
    }
}

/// Scan a keyword, which is a special form of identifier.
fn scan_keyword(chars: &Vec<char>, offset: usize) -> (r: Result<Token, ()>)
    requires
        offset < chars@.len(),
    ensures
        ({
            let n = run_len(chars@, offset as int, Class::Ident);
            if is_identifier_start_spec(chars@[offset as int]) && keyword_kind(
                chars@.subrange(offset as int, offset + n),
            ) is Some {
                r == Ok::<Token, ()>(
                    Token {
                        kind: keyword_kind(chars@.subrange(offset as int, offset + n))->0,
                        offset,
                        len: n as usize,
                    },
                )
            } else {
                r is Err
            }
        }),
{
    // Attempt to scan identifier
    let ident = scan_identifier(chars, offset)?;
    proof {
        lemma_run_len_bound(chars@, offset as int, Class::Ident);
    }
    // Check whether matches a keyword
    match keyword_of(chars, offset, ident.len) {
        Some(k) => Ok(Token { kind: k, offset, len: ident.len }),
        None => Err(()),
    }
}

/// Scan a run of whitespace.
fn scan_whitespace(chars: &Vec<char>, offset: usize) -> (r: Result<Token, ()>)
    requires
        offset < chars@.len(),
    ensures
        run_len(chars@, offset as int, Class::Space) > 0 ==> r == Ok::<Token, ()>(
            Token {
                kind: TokenType::WhiteSpace,
                offset,
                len: run_len(chars@, offset as int, Class::Space) as usize,
            },
        ),
        run_len(chars@, offset as int, Class::Space) == 0 ==> r is Err,
{
    let n = scan_run(chars, offset, Class::Space);
    if n >= 1 {
        Ok(Token { kind: TokenType::WhiteSpace, offset, len: n })
    } else {
        Err(())
    }
}

/// Scan all single-character operators.
fn scan_single_operators(chars: &Vec<char>, offset: usize) -> (r: Result<Token, ()>)
    requires
        offset < chars@.len(),
    ensures
        match single_op_kind(chars@[offset as int]) {
            Some(k) => r == Ok::<Token, ()>(Token { kind: k, offset, len: 1 }),
            None => r is Err,
        },
{
    let t = match chars[offset] {
        '|' => TokenType::Bar,
        ',' => TokenType::Comma,
        '.' => TokenType::Dot,
        '<' => TokenType::LeftAngle,
        '(' => TokenType::LeftBrace,
        '{' => TokenType::LeftCurly,
        '[' => TokenType::LeftSquare,
        '-' => TokenType::Minus,
        '%' => TokenType::Percent,
        '+' => TokenType::Plus,
        '>' => TokenType::RightAngle,
        ')' => TokenType::RightBrace,
        '}' => TokenType::RightCurly,
        '/' => TokenType::RightSlash,
        ']' => TokenType::RightSquare,
        '*' => TokenType::Star,
        ';' => TokenType::SemiColon,
        _ => {
            return Err(());
        },
    };
    Ok(Token { kind: t, offset, len: 1 })
}

/// Scan all double-character operators.
fn scan_double_operators(chars: &Vec<char>, offset: usize) -> (r: Result<Token, ()>)
    requires
        offset < chars@.len(),
    ensures
        offset + 1 < chars@.len() && double_op_kind(chars@[offset as int], chars@[offset + 1]) is Some
            ==> r == Ok::<Token, ()>(
            Token { kind: double_op_kind(chars@[offset as int], chars@[offset + 1])->0, offset, len: 2 },
        ),
        !(offset + 1 < chars@.len() && double_op_kind(chars@[offset as int], chars@[offset + 1]) is Some)
            ==> r is Err,
{
    if chars.len() - offset < 2 {
        return Err(());
    }
    let t = match (chars[offset], chars[offset + 1]) {
        ('&', '&') => TokenType::AmpersandAmpersand,
        ('|', '|') => TokenType::BarBar,
        ('=', '=') => TokenType::EqualsEquals,
        ('.', '.') => TokenType::DotDot,
        ('<', '=') => TokenType::LeftAngleEquals,
        ('+', '+') => TokenType::PlusPlus,
        ('-', '>') => TokenType::RightArrow,
        ('>', '=') => TokenType::RightAngleEquals,
        ('!', '=') => TokenType::ShreakEquals,
        _ => {
            return Err(());
        },
    };
    Ok(Token { kind: t, offset, len: 2 })
}

/// Whether the `n` characters at `offset` spell `word`.
fn spells(chars: &Vec<char>, offset: usize, n: usize, word: &str) -> (r: bool)
    requires
        offset + n <= chars@.len(),
    ensures
        r == (chars@.subrange(offset as int, offset + n) == word@),
{
    let len = word.unicode_len();
    if len != n {
        return false;
    }
    let total = chars.len();
    let mut i: usize = 0;
    while i < n
        invariant
            offset + n <= chars@.len(),
            total == chars@.len(),
            len == n,
            len == word@.len(),
            i <= n,
            forall|k: int| 0 <= k < i ==> chars@[offset + k] == word@[k],
        decreases n - i,
    {
        if chars[offset + i] != word.get_char(i) {
            assert(chars@.subrange(offset as int, offset + n)[i as int] != word@[i as int]);
            return false;
        }
        i += 1;
    }
    assert(chars@.subrange(offset as int, offset + n) =~= word@);
    true
}

/// The keyword that the `n` characters at `offset` spell, if any.
fn keyword_of(chars: &Vec<char>, offset: usize, n: usize) -> (r: Option<TokenType>)
    requires
        offset + n <= chars@.len(),
    ensures
        r == keyword_kind(chars@.subrange(offset as int, offset + n)),
{
    if spells(chars, offset, n, "assert") {
        Some(TokenType::Assert)
    } else if spells(chars, offset, n, "assume") {
        Some(TokenType::Assume)
    } else if spells(chars, offset, n, "bool") {
        Some(TokenType::Bool)
    } else if spells(chars, offset, n, "else") {
        Some(TokenType::Else)
    } else if spells(chars, offset, n, "ensures") {
        Some(TokenType::Ensures)
    } else if spells(chars, offset, n, "false") {
        Some(TokenType::BoolLiteral(false))
    } else if spells(chars, offset, n, "if") {
        Some(TokenType::If)
    } else if spells(chars, offset, n, "function") {
        Some(TokenType::Function)
    } else if spells(chars, offset, n, "requires") {
        Some(TokenType::Requires)
    } else if spells(chars, offset, n, "true") {
        Some(TokenType::BoolLiteral(true))
    } else if spells(chars, offset, n, "uint") {
        Some(TokenType::Uint)
    } else {
        None
    }
}

/// Determine whether a given character is the start of an identifier.
fn is_identifier_start(c: char) -> (r: bool)
    ensures
        r == is_identifier_start_spec(c),
{
    ('a' <= c && c <= 'z') || ('A' <= c && c <= 'Z') || c == '_'
}

/// Determine whether a given character can occur in the middle of an
/// identifier
fn is_identifier_middle(c: char) -> (r: bool)
    ensures
        r == is_identifier_middle_spec(c),
{
    is_digit(c) || is_identifier_start(c)
}

fn is_digit(c: char) -> (r: bool)
    ensures
        r == is_digit_spec(c),
{
    '0' <= c && c <= '9'
}

/// Determine whether a given character is considered _whitespace_ or
/// not.
fn is_whitespace(c: char) -> (r: bool)
    ensures
        r == is_whitespace_spec(c),
{
    c == ' ' || c == '\t' || c == '\n'
}

/// A token found by `next_token` lies within the input, after `i`, and is
/// not empty unless it is the end of input.
pub proof fn lemma_next_token(chars: Seq<char>, i: int)
    requires
        0 <= i,
        chars.len() <= usize::MAX,
        next_token(chars, i) is Some,
    ensures
        next_token(chars, i)->0.kind != TokenType::WhiteSpace,
        next_token(chars, i)->0.kind == TokenType::EOF ==> next_token(chars, i)->0 == eof_token(),
        next_token(chars, i)->0.kind != TokenType::EOF ==> {
            let t = next_token(chars, i)->0;
            &&& i <= t.offset
            &&& 1 <= t.len
            &&& t.offset + t.len <= chars.len()
        },
    decreases chars.len() - i,
{
    if i < chars.len() {
        let t = scan_spec(chars, i)->0;
        lemma_run_len_bound(chars, i, Class::Space);
        lemma_run_len_bound(chars, i, Class::Digit);
        lemma_run_len_bound(chars, i, Class::Ident);
        if t.kind == TokenType::WhiteSpace && t.len > 0 && i + t.len <= chars.len() {
            lemma_next_token(chars, i + t.len);
        } else {
            if is_identifier_start_spec(chars[i]) {
                assert(run_len(chars, i, Class::Ident) > 0);
            }
            assert(t.kind != TokenType::EOF);
        }
    }
}

// ===================================================================
// Lexer
// ===================================================================

pub struct Lexer {
    /// Character sequence being parsed
    chars: Vec<char>,
    /// Index into char sequence.
    offset: usize,
}

impl Lexer {
    /// The characters being lexed.
    pub closed spec fn input(&self) -> Seq<char> {
        self.chars@
    }

    /// The position of the next unread character.
    pub closed spec fn position(&self) -> int {
        self.offset as int
    }

    pub open spec fn wf(&self) -> bool {
        &&& 0 <= self.position() <= self.input().len()
        &&& self.input().len() <= usize::MAX
    }

    /// How many characters are left to read.
    pub open spec fn remaining(&self) -> nat {
        (self.input().len() - self.position()) as nat
    }

    /// The token that comes next.
    pub open spec fn peek(&self) -> Option<Token> {
        next_token(self.input(), self.position())
    }

    /// Construct a lexer from a string slice.
    pub fn new(content: &str) -> (r: Self)
        ensures
            r.input() == content@,
            r.position() == 0,
            r.wf(),
    {
        // Convert string slice into Vec<char>
        let n = content.unicode_len();
        let mut chars: Vec<char> = Vec::new();
        let mut i: usize = 0;
        while i < n
            invariant
                n == content@.len(),
                i <= n,
                chars@ == content@.subrange(0, i as int),
            decreases n - i,
        {
            chars.push(content.get_char(i));
            i += 1;
        }
        assert(chars@ =~= content@);
        let _ = chars.len();
        Self { chars, offset: 0 }
    }

    /// The `n`th token from here (the end-of-input token once input runs
    /// out).
    pub fn lookahead(&self, n: usize) -> (r: Result<Token, ()>)
        requires
            self.wf(),
        ensures
            match nth_token(self.input(), self.position(), n as nat) {
                Some(t) => r == Ok::<Token, ()>(t),
                None => r is Err,
            },
    {
        let mut pos = self.offset;
        let mut k: usize = n;
        loop
            invariant
                self.wf(),
                pos <= self.chars@.len(),
                nth_token(self.chars@, self.offset as int, n as nat) == nth_token(
                    self.chars@,
                    pos as int,
                    k as nat,
                ),
            decreases k,
        {
            let tok = Self::lookahead_from(&self.chars, pos)?;
            if k == 0 || tok.kind == TokenType::EOF {
                return Ok(tok);
            }
            proof {
                lemma_next_token(self.chars@, pos as int);
            }
            pos = tok.offset + tok.len;
            k -= 1;
        }
    }

    /// Consume the next token if it has the given kind.
    pub fn matches(&mut self, kind: TokenType) -> (r: bool)
        requires
            old(self).wf(),
        ensures
            final(self).wf(),
            final(self).input() == old(self).input(),
            r == (old(self).peek() is Some && old(self).peek()->0.kind == kind),
            r && kind != TokenType::EOF ==> final(self).remaining() < old(self).remaining(),
            r && kind != TokenType::EOF ==> final(self).position() == old(self).peek()->0.offset
                + old(self).peek()->0.len,
            !r ==> final(self).position() == old(self).position(),
    {
        match self.lookahead(0) {
            Ok(lookahead) => {
                if lookahead.kind == kind {
                    self.accept(&lookahead);
                    true
                } else {
                    false
                }
            },
            Err(_) => false,
        }
    }

    /// Consume the next token if its kind is any of the given kinds.
    pub fn match_any(&mut self, tokens: &[TokenType]) -> (r: Option<Token>)
        requires
            old(self).wf(),
        ensures
            final(self).wf(),
            final(self).input() == old(self).input(),
            r is Some ==> old(self).peek() == Some(r->0) && tokens@.contains(r->0.kind),
            r is Some && r->0.kind != TokenType::EOF ==> final(self).remaining() < old(self).remaining(),
            r is None ==> final(self).position() == old(self).position(),
            r is None && old(self).peek() is Some ==> !tokens@.contains(old(self).peek()->0.kind),
    {
        let lookahead = match self.lookahead(0) {
            Ok(t) => t,
            Err(_) => {
                return None;
            },
        };
        let mut i: usize = 0;
        while i < tokens.len()
            invariant
                self.wf(),
                self.input() == old(self).input(),
                self.position() == old(self).position(),
                old(self).peek() == Some(lookahead),
                i <= tokens@.len(),
                forall|k: int| 0 <= k < i ==> tokens@[k] != lookahead.kind,
            decreases tokens@.len() - i,
        {
            if lookahead.kind == tokens[i] {
                self.accept(&lookahead);
                return Some(lookahead);
            }
            i += 1;
        }
        None
    }

    /// Construct a string from a span of the character array
    /// determined by a token.
    pub fn to_string(&self, token: &Token) -> (r: String)
        requires
            token.offset + token.len <= self.input().len(),
        ensures
            r@ == self.input().subrange(token.offset as int, token.offset + token.len),
    {
        let mut s = String::new();
        let total = self.chars.len();
        let mut i: usize = 0;
        while i < token.len
            invariant
                token.offset + token.len <= self.chars@.len(),
                total == self.chars@.len(),
                i <= token.len,
                s@ == self.chars@.subrange(token.offset as int, token.offset + i),
            decreases token.len - i,
        {
            push_char(&mut s, self.chars[token.offset + i]);
            i += 1;
            assert(s@ =~= self.chars@.subrange(token.offset as int, token.offset + i));
        }
        s
    }

    /// Consume `token`, which must be the next one.
    pub fn accept(&mut self, token: &Token)
        requires
            old(self).wf(),
            old(self).peek() == Some(*token),
        ensures
            final(self).wf(),
            final(self).input() == old(self).input(),
            token.kind != TokenType::EOF ==> final(self).position() == token.offset + token.len,
            token.kind != TokenType::EOF ==> final(self).remaining() < old(self).remaining(),
            token.kind == TokenType::EOF ==> final(self).position() == old(self).position(),
    {
        proof {
            lemma_next_token(self.chars@, self.offset as int);
        }
        if token.kind != TokenType::EOF {
            self.offset = token.offset + token.len;
        }
    }

    /// Consume the next token, which must have the given kind.
    pub fn expect(&mut self, kind: TokenType) -> (r: Result<Token, ()>)
        requires
            old(self).wf(),
        ensures
            final(self).wf(),
            final(self).input() == old(self).input(),
            r is Ok <==> (old(self).peek() is Some && old(self).peek()->0.kind == kind),
            r is Ok ==> r->Ok_0 == old(self).peek()->0 && r->Ok_0.kind == kind,
            r is Ok && kind != TokenType::EOF ==> final(self).remaining() < old(self).remaining(),
            r is Ok && kind != TokenType::EOF ==> r->Ok_0.offset + r->Ok_0.len <= final(self).input().len(),
            r is Ok && kind != TokenType::EOF ==> final(self).position() == r->Ok_0.offset + r->Ok_0.len,
            r is Ok && kind == TokenType::EOF ==> final(self).position() == old(self).position(),
            r is Err ==> final(self).position() == old(self).position(),
    {
        let tok = self.lookahead(0)?;
        if tok.kind != kind {
            return Err(());
        }
        proof {
            lemma_next_token(self.chars@, self.offset as int);
        }
        self.accept(&tok);
        Ok(tok)
    }

    // ===============================================================
    fn lookahead_from(chars: &Vec<char>, offset: usize) -> (r: Result<Token, ()>)
        ensures
            match next_token(chars@, offset as int) {
                Some(t) => r == Ok::<Token, ()>(t),
                None => r is Err,
            },
        decreases chars@.len() - offset,
    {
        if offset >= chars.len() {
            Ok(Token { kind: TokenType::EOF, offset: 0, len: 0 })
        } else {
            // Scan operators
            let mut tok = scan(chars, offset)?;
            if tok.kind == TokenType::WhiteSpace && tok.len > 0 {
                proof {
                    lemma_run_len_bound(chars@, offset as int, Class::Space);
                }
                // Continue
                Self::lookahead_from(chars, offset + tok.len)
            } else {
                // Set its offset
                tok.relocate(offset);
                // Done
                Ok(tok)
            }
        }
    }
}

} // verus!
