//! The parser: eagerly tokenizes the whole input (the first lexer error is
//! fatal), appends a synthetic `Eof` token carrying the last real token's
//! position, and parses expressions by precedence climbing and statements by
//! predictive dispatch on the leading token.
//!
//! The grammar is specified by `spec_prefix` / `spec_tail` / `spec_expr`
//! (precedence climbing over the binding-power table `spec_infix_bp`) and
//! `spec_statement`; the exec parser is proved to return exactly what the
//! specification does, cursor position included.

use vstd::prelude::*;

use crate::ast::{ExprV, ExpressionStmt, PrintStmt, Statement, StmtV};
use crate::error::{Error, ErrorV};
use crate::lex::{
    lemma_scan_digits_is, spec_lex_views, spec_scan_digits, Lexer, Token, TokenKind, TokenV,
};
use crate::text::{chars_vec, is_digit, spec_is_digit};

verus! {

// ---------------------------------------------------------------------------
// Binding powers
// ---------------------------------------------------------------------------

/// The binding-power table: how tightly each infix operator binds on its
/// left and right. Higher binds tighter; a left number below a right one
/// makes the operator left-associative.
pub open spec fn spec_infix_bp(kind: TokenKind) -> Option<(u8, u8)> {
    match kind {
        TokenKind::Equal => Some((2u8, 1u8)),
        TokenKind::Or | TokenKind::And => Some((3u8, 4u8)),
        TokenKind::EqualEqual | TokenKind::BangEqual => Some((5u8, 6u8)),
        TokenKind::Greater | TokenKind::Less | TokenKind::LessEqual | TokenKind::GreaterEqual => {
            Some((7u8, 8u8))
        },
        TokenKind::Plus | TokenKind::Minus => Some((9u8, 10u8)),
        TokenKind::Star | TokenKind::Slash => Some((11u8, 12u8)),
        _ => None,
    }
}

/// The binding powers of an infix operator.
fn infix_binding_power(kind: TokenKind) -> (r: Option<(u8, u8)>)
    ensures
        r == spec_infix_bp(kind),
{
    match kind {
        TokenKind::Equal => Some((2, 1)),
        TokenKind::Or | TokenKind::And => Some((3, 4)),
        TokenKind::EqualEqual | TokenKind::BangEqual => Some((5, 6)),
        TokenKind::Greater | TokenKind::Less | TokenKind::LessEqual | TokenKind::GreaterEqual => {
            Some((7, 8))
        },
        TokenKind::Plus | TokenKind::Minus => Some((9, 10)),
        TokenKind::Star | TokenKind::Slash => Some((11, 12)),
        _ => None,
    }
}

/// The binding power of a prefix operator: unary `+` and `-` bind at 51.
fn prefix_binding_power(kind: TokenKind) -> (r: u8)
    requires
        kind == TokenKind::Plus || kind == TokenKind::Minus,
    ensures
        r == 51,
{
    51
}

// ---------------------------------------------------------------------------
// Number validity
// ---------------------------------------------------------------------------

/// A well-formed number literal: one or more digits, then at most one
/// embedded decimal point followed by one or more digits.
pub open spec fn spec_valid_number(t: Seq<char>) -> bool {
    let d = spec_scan_digits(t, 0);
    if d == t.len() {
        d > 0
    } else {
        d > 0 && t[d] == '.' && d + 1 < t.len() && spec_scan_digits(t, d + 1) == t.len()
    }
}

/// Whether `v` is a well-formed number literal.
fn valid_number_chars(v: &Vec<char>) -> (r: bool)
    ensures
        r == spec_valid_number(v@),
{
    let n = v.len();
    let mut d: usize = 0;
    while d < n && is_digit(v[d])
        invariant
            d <= n == v@.len(),
            forall|m: int| 0 <= m < d ==> spec_is_digit(v@[m]),
        decreases n - d,
    {
        d = d + 1;
    }
    proof {
        lemma_scan_digits_is(v@, 0, d as int);
    }
    if d == 0 {
        return false;
    }
    if d == n {
        return true;
    }
    if !(v[d] == '.' && d + 1 < n) {
        return false;
    }
    let mut f = d + 1;
    while f < n && is_digit(v[f])
        invariant
            d + 1 <= f <= n == v@.len(),
            forall|m: int| d + 1 <= m < f ==> spec_is_digit(v@[m]),
        decreases n - f,
    {
        f = f + 1;
    }
    proof {
        lemma_scan_digits_is(v@, d + 1, f as int);
    }
    f == n
}

// ---------------------------------------------------------------------------
// The grammar, as a specification
// ---------------------------------------------------------------------------

/// The kind at `i`, with the sticky end: past the last token it is `Eof`.
pub open spec fn kind_at(toks: Seq<TokenV>, i: int) -> TokenKind {
    if 0 <= i < toks.len() {
        toks[i].kind
    } else {
        TokenKind::Eof
    }
}

/// A cursor returned by a sub-parse, kept inside `[lo, len]` so that the
/// grammar's recursion is visibly well founded (the parser always advances,
/// so the bound never actually binds: see [`lemma_parse_progress`]).
pub open spec fn clamp_cursor(len: int, lo: int, j: int) -> int {
    if j < lo {
        lo
    } else if j > len {
        len
    } else {
        j
    }
}

/// The prefix term at `i`: a number literal (well-formed, else
/// `InvalidNumber`), an identifier, a unary `+`/`-` applied at binding power
/// 51, or a parenthesized expression demanding its `)`. Anything else fails
/// with `UnexpectedToken`.
pub open spec fn spec_prefix(toks: Seq<TokenV>, i: int) -> Result<(ExprV, int), ErrorV>
    decreases toks.len() - i, 1int,
        when 0 <= i <= toks.len()
{
    if i >= toks.len() {
        Err(ErrorV::UnexpectedToken { expected: None, found: TokenKind::Eof, line: 0, column: 0 })
    } else {
        let t = toks[i];
        if t.kind == TokenKind::Number {
            if spec_valid_number(t.lexeme) {
                Ok((ExprV::Number(t.lexeme), i + 1))
            } else {
                Err(ErrorV::InvalidNumber { lexeme: t.lexeme, line: t.line, column: t.column })
            }
        } else if t.kind == TokenKind::Ident {
            Ok((ExprV::Identifier(t.lexeme), i + 1))
        } else if t.kind == TokenKind::Plus || t.kind == TokenKind::Minus {
            match spec_expr(toks, i + 1, 51) {
                Ok(p) => Ok((ExprV::Unary(t.lexeme, Box::new(p.0)), p.1)),
                Err(e) => Err(e),
            }
        } else if t.kind == TokenKind::LeftParen {
            match spec_expr(toks, i + 1, 0) {
                Ok(p) => {
                    if kind_at(toks, p.1) == TokenKind::RightParen {
                        Ok((p.0, p.1 + 1))
                    } else {
                        Err(
                            ErrorV::UnexpectedToken {
                                expected: Some(TokenKind::RightParen),
                                found: kind_at(toks, p.1),
                                line: toks[p.1].line,
                                column: toks[p.1].column,
                            },
                        )
                    }
                },
                Err(e) => Err(e),
            }
        } else {
            Err(
                ErrorV::UnexpectedToken {
                    expected: None,
                    found: t.kind,
                    line: t.line,
                    column: t.column,
                },
            )
        }
    }
}

/// The infix tail: starting from `lhs`, fold in every following arithmetic
/// operator whose left binding power reaches `min_bp`, recursing on the
/// right side at the operator's right binding power. `Eof`, `)` and `;`
/// close the expression; any other token fails with `UnexpectedToken`.
pub open spec fn spec_tail(toks: Seq<TokenV>, j: int, lhs: ExprV, min_bp: u8) -> Result<
    (ExprV, int),
    ErrorV,
>
    decreases toks.len() - j, 0int,
        when 0 <= j <= toks.len()
{
    let k = kind_at(toks, j);
    if k == TokenKind::Eof || k == TokenKind::RightParen || k == TokenKind::Semicolon {
        Ok((lhs, j))
    } else if k == TokenKind::Plus || k == TokenKind::Minus || k == TokenKind::Star || k
        == TokenKind::Slash {
        let bp = spec_infix_bp(k)->Some_0;
        if bp.0 < min_bp {
            Ok((lhs, j))
        } else {
            match spec_expr(toks, j + 1, bp.1) {
                Ok(p) => spec_tail(
                    toks,
                    clamp_cursor(toks.len() as int, j + 1, p.1),
                    ExprV::Binary(toks[j].lexeme, Box::new(lhs), Box::new(p.0)),
                    min_bp,
                ),
                Err(e) => Err(e),
            }
        }
    } else {
        Err(
            ErrorV::UnexpectedToken {
                expected: None,
                found: k,
                line: toks[j].line,
                column: toks[j].column,
            },
        )
    }
}

/// A whole expression at binding power `min_bp`: a prefix term, then its
/// infix tail.
pub open spec fn spec_expr(toks: Seq<TokenV>, i: int, min_bp: u8) -> Result<
    (ExprV, int),
    ErrorV,
>
    decreases toks.len() - i, 2int,
        when 0 <= i <= toks.len()
{
    if i >= toks.len() {
        spec_prefix(toks, i)
    } else {
        match spec_prefix(toks, i) {
            Ok(p) => spec_tail(toks, clamp_cursor(toks.len() as int, i + 1, p.1), p.0, min_bp),
            Err(e) => Err(e),
        }
    }
}

/// The parser always advances: a successful sub-parse ends strictly past
/// where it began, and never past the end.
pub proof fn lemma_prefix_progress(toks: Seq<TokenV>, i: int)
    requires
        0 <= i <= toks.len(),
    ensures
        spec_prefix(toks, i) matches Ok(p) ==> i < p.1 <= toks.len(),
    decreases toks.len() - i, 1int,
{
    if i < toks.len() {
        let t = toks[i];
        if t.kind == TokenKind::Plus || t.kind == TokenKind::Minus {
            lemma_parse_progress(toks, i + 1, 51);
        } else if t.kind == TokenKind::LeftParen {
            lemma_parse_progress(toks, i + 1, 0);
        }
    }
}

/// See [`lemma_prefix_progress`]: the infix tail never retreats.
pub proof fn lemma_tail_progress(toks: Seq<TokenV>, j: int, lhs: ExprV, min_bp: u8)
    requires
        0 <= j <= toks.len(),
    ensures
        spec_tail(toks, j, lhs, min_bp) matches Ok(p) ==> j <= p.1 <= toks.len(),
    decreases toks.len() - j, 0int,
{
    let k = kind_at(toks, j);
    if k == TokenKind::Plus || k == TokenKind::Minus || k == TokenKind::Star || k
        == TokenKind::Slash {
        let bp = spec_infix_bp(k)->Some_0;
        if bp.0 >= min_bp {
            match spec_expr(toks, j + 1, bp.1) {
                Ok(p) => {
                    lemma_parse_progress(toks, j + 1, bp.1);
                    lemma_tail_progress(
                        toks,
                        clamp_cursor(toks.len() as int, j + 1, p.1),
                        ExprV::Binary(toks[j].lexeme, Box::new(lhs), Box::new(p.0)),
                        min_bp,
                    );
                },
                Err(_) => {},
            }
        }
    }
}

/// See [`lemma_prefix_progress`]: a successful expression parse advances.
pub proof fn lemma_parse_progress(toks: Seq<TokenV>, i: int, min_bp: u8)
    requires
        0 <= i <= toks.len(),
    ensures
        spec_expr(toks, i, min_bp) matches Ok(p) ==> i < p.1 <= toks.len(),
    decreases toks.len() - i, 2int,
{
    lemma_prefix_progress(toks, i);
    if i < toks.len() {
        match spec_prefix(toks, i) {
            Ok(p) => {
                lemma_tail_progress(
                    toks,
                    clamp_cursor(toks.len() as int, i + 1, p.1),
                    p.0,
                    min_bp,
                );
            },
            Err(_) => {},
        }
    }
}

/// The statement kinds whose parsing is reserved and not implemented:
/// dispatching into them is excluded by [`Parser::statement`]'s requires.
pub open spec fn spec_reserved(kind: TokenKind) -> bool {
    ||| kind == TokenKind::If
    ||| kind == TokenKind::For
    ||| kind == TokenKind::While
    ||| kind == TokenKind::LeftBrace
    ||| kind == TokenKind::Return
}

/// The statement at `i`: `var IDENT [= expr] ;`, `print expr ;`, or an
/// expression statement `expr ;`, each terminator enforced.
pub open spec fn spec_statement(toks: Seq<TokenV>, i: int) -> Result<(StmtV, int), ErrorV>
    recommends
        0 <= i < toks.len(),
{
    let k = kind_at(toks, i);
    if k == TokenKind::Var {
        if kind_at(toks, i + 1) != TokenKind::Ident {
            Err(
                ErrorV::UnexpectedToken {
                    expected: Some(TokenKind::Ident),
                    found: kind_at(toks, i + 1),
                    line: toks[i + 1].line,
                    column: toks[i + 1].column,
                },
            )
        } else {
            let name = toks[i + 1].lexeme;
            if kind_at(toks, i + 2) == TokenKind::Equal {
                match spec_expr(toks, i + 3, 0) {
                    Ok(p) => {
                        if kind_at(toks, p.1) == TokenKind::Semicolon {
                            Ok((StmtV::VarDeclaration(name, Some(p.0)), p.1 + 1))
                        } else {
                            Err(
                                ErrorV::UnexpectedToken {
                                    expected: Some(TokenKind::Semicolon),
                                    found: kind_at(toks, p.1),
                                    line: toks[p.1].line,
                                    column: toks[p.1].column,
                                },
                            )
                        }
                    },
                    Err(e) => Err(e),
                }
            } else if kind_at(toks, i + 2) == TokenKind::Semicolon {
                Ok((StmtV::VarDeclaration(name, None), i + 3))
            } else {
                Err(
                    ErrorV::UnexpectedToken {
                        expected: Some(TokenKind::Semicolon),
                        found: kind_at(toks, i + 2),
                        line: toks[i + 2].line,
                        column: toks[i + 2].column,
                    },
                )
            }
        }
    } else if k == TokenKind::Print {
        match spec_expr(toks, i + 1, 0) {
            Ok(p) => {
                if kind_at(toks, p.1) == TokenKind::Semicolon {
                    Ok((StmtV::Print(p.0), p.1 + 1))
                } else {
                    Err(
                        ErrorV::UnexpectedToken {
                            expected: Some(TokenKind::Semicolon),
                            found: kind_at(toks, p.1),
                            line: toks[p.1].line,
                            column: toks[p.1].column,
                        },
                    )
                }
            },
            Err(e) => Err(e),
        }
    } else if spec_reserved(k) {
        Err(
            ErrorV::UnexpectedToken {
                expected: None,
                found: k,
                line: toks[i].line,
                column: toks[i].column,
            },
        )
    } else {
        match spec_expr(toks, i, 0) {
            Ok(p) => {
                if kind_at(toks, p.1) == TokenKind::Semicolon {
                    Ok((StmtV::Expression(p.0), p.1 + 1))
                } else {
                    Err(
                        ErrorV::UnexpectedToken {
                            expected: Some(TokenKind::Semicolon),
                            found: kind_at(toks, p.1),
                            line: toks[p.1].line,
                            column: toks[p.1].column,
                        },
                    )
                }
            },
            Err(e) => Err(e),
        }
    }
}

// ---------------------------------------------------------------------------
// The parser
// ---------------------------------------------------------------------------

/// The parser: the fully tokenized input (ending in the synthetic `Eof`
/// token) and a cursor that never moves past that `Eof`.
pub struct Parser {
    pub tokens: Vec<Token>,
    pub current: usize,
}

/// The mathematical shape of a [`Parser`].
pub struct ParserV {
    pub tokens: Seq<TokenV>,
    pub current: nat,
}

impl View for Parser {
    type V = ParserV;

    open spec fn view(&self) -> ParserV {
        ParserV {
            tokens: self.tokens@.map_values(|t: Token| t@),
            current: self.current as nat,
        }
    }
}

/// The parser's well-formedness: the token buffer ends in `Eof` and the
/// cursor stays on a token (the sticky `Eof` keeps it there).
pub open spec fn parser_wf(p: ParserV) -> bool {
    &&& p.tokens.len() >= 1
    &&& p.tokens.last().kind == TokenKind::Eof
    &&& p.current < p.tokens.len()
}

/// The views of a token buffer.
pub open spec fn token_views(ts: Seq<Token>) -> Seq<TokenV> {
    ts.map_values(|t: Token| t@)
}

/// The synthetic `Eof` token appended after the real tokens: it carries the
/// last real token's position, or line 0, column 0 on empty input.
pub open spec fn spec_eof_token(tvs: Seq<TokenV>) -> TokenV {
    TokenV {
        kind: TokenKind::Eof,
        lexeme: Seq::empty(),
        line: if tvs.len() > 0 {
            tvs.last().line
        } else {
            0
        },
        column: if tvs.len() > 0 {
            tvs.last().column
        } else {
            0
        },
    }
}

/// An identical copy of a token.
fn copy_token(t: &Token) -> (r: Token)
    ensures
        r@ == t@,
{
    Token { kind: t.kind, lexeme: t.lexeme.clone(), line: t.line, column: t.column }
}

impl Parser {
    /// Tokenizes the whole input. The first lexer error is fatal: it is
    /// returned and no parser is built. On success the token buffer is the
    /// lexer's output plus the synthetic `Eof`.
    pub fn new(input: &str) -> (r: Result<Parser, Error>)
        ensures
            ({
                match r {
                    Ok(p) => {
                        &&& parser_wf(p@)
                        &&& p@.current == 0
                        &&& spec_lex_views(input@, 0, 1, 1) matches Ok(tvs) && p@.tokens
                            == tvs.push(spec_eof_token(tvs))
                    },
                    Err(e) => spec_lex_views(input@, 0, 1, 1) matches Err(ev) && e@ == ev,
                }
            }),
    {
        let mut lexer = Lexer::new(input);
        let ghost s = input@;
        let mut tokens: Vec<Token> = Vec::new();
        loop
            invariant
                lexer.wf(),
                s == input@,
                lexer@.input == s,
                0 <= lexer@.pos <= s.len(),
                ({
                    match spec_lex_views(s, lexer@.pos as int, lexer@.line, lexer@.column) {
                        Ok(rest) => spec_lex_views(s, 0, 1, 1) == Ok::<Seq<TokenV>, ErrorV>(
                            token_views(tokens@) + rest,
                        ),
                        Err(e) => spec_lex_views(s, 0, 1, 1) == Err::<Seq<TokenV>, ErrorV>(e),
                    }
                }),
            ensures
                spec_lex_views(s, 0, 1, 1) == Ok::<Seq<TokenV>, ErrorV>(token_views(tokens@)),
            decreases s.len() - lexer@.pos + 1,
        {
            let ghost pre = lexer@;
            proof {
                crate::lex::lemma_lex_views_step(pre);
            }
            match lexer.next_token() {
                None => {
                    proof {
                        assert(token_views(tokens@) + Seq::<TokenV>::empty() =~= token_views(
                            tokens@,
                        ));
                    }
                    break ;
                },
                Some(Ok(t)) => {
                    let ghost pre_tokens_view = token_views(tokens@);
                    tokens.push(t);
                    proof {
                        assert(token_views(tokens@) =~= pre_tokens_view + seq![t@]);
                        match spec_lex_views(s, lexer@.pos as int, lexer@.line, lexer@.column) {
                            Ok(rest) => {
                                assert(pre_tokens_view + (seq![t@] + rest) =~= token_views(
                                    tokens@,
                                ) + rest);
                            },
                            Err(e) => {},
                        }
                    }
                },
                Some(Err(e)) => {
                    return Err(e);
                },
            }
        }
        let eof_line: usize = if tokens.len() > 0 {
            tokens[tokens.len() - 1].line
        } else {
            0
        };
        let eof_column: usize = if tokens.len() > 0 {
            tokens[tokens.len() - 1].column
        } else {
            0
        };
        let ghost tvs = token_views(tokens@);
        tokens.push(
            Token { kind: TokenKind::Eof, lexeme: String::new(), line: eof_line, column: eof_column },
        );
        let p = Parser { tokens, current: 0 };
        proof {
            assert(p@.tokens =~= tvs.push(spec_eof_token(tvs)));
        }
        Ok(p)
    }

    /// The token under the cursor.
    fn peek(&self) -> (t: &Token)
        requires
            parser_wf(self@),
        ensures
            t@ == self@.tokens[self@.current as int],
    {
        &self.tokens[self.current]
    }

    /// Moves the cursor forward one token; at `Eof` it stays (the terminal
    /// token is sticky).
    fn advance(&mut self)
        requires
            parser_wf(old(self)@),
        ensures
            parser_wf(final(self)@),
            final(self)@.tokens == old(self)@.tokens,
            final(self)@.current == if old(self)@.tokens[old(self)@.current as int].kind
                != TokenKind::Eof {
                old(self)@.current + 1
            } else {
                old(self)@.current
            },
    {
        let n = self.tokens.len();
        proof {
            assert(self.current < n);
        }
        if !matches!(self.tokens[self.current].kind, TokenKind::Eof) {
            self.current = self.current + 1;
        }
    }

    /// Advances and returns the token the cursor stood on.
    fn next(&mut self) -> (t: Token)
        requires
            parser_wf(old(self)@),
        ensures
            parser_wf(final(self)@),
            final(self)@.tokens == old(self)@.tokens,
            t@ == old(self)@.tokens[old(self)@.current as int],
            final(self)@.current == if t@.kind != TokenKind::Eof {
                old(self)@.current + 1
            } else {
                old(self)@.current
            },
    {
        let t = copy_token(&self.tokens[self.current]);
        self.advance();
        t
    }

    /// Whether the cursor stands on a token of this kind.
    fn check(&self, kind: TokenKind) -> (r: bool)
        requires
            parser_wf(self@),
        ensures
            r == (self@.tokens[self@.current as int].kind == kind),
    {
        self.peek().kind == kind
    }

    /// Consumes the token under the cursor only on an exact kind match.
    fn expect(&mut self, kind: TokenKind) -> (r: Option<Token>)
        requires
            parser_wf(old(self)@),
        ensures
            parser_wf(final(self)@),
            final(self)@.tokens == old(self)@.tokens,
            ({
                let cur = old(self)@.tokens[old(self)@.current as int];
                if cur.kind == kind {
                    &&& r matches Some(t) && t@ == cur
                    &&& final(self)@.current == if kind != TokenKind::Eof {
                        old(self)@.current + 1
                    } else {
                        old(self)@.current
                    }
                } else {
                    r is None && final(self)@.current == old(self)@.current
                }
            }),
    {
        if self.check(kind) {
            Some(self.next())
        } else {
            None
        }
    }

    /// Parses one expression at the lowest binding power.
    pub fn expression(&mut self) -> (r: Result<ExpressionStmt, Error>)
        requires
            parser_wf(old(self)@),
        ensures
            parser_wf(final(self)@),
            final(self)@.tokens == old(self)@.tokens,
            ({
                let res = spec_expr(old(self)@.tokens, old(self)@.current as int, 0);
                match r {
                    Ok(e) => res matches Ok(p) && p.0 == e@ && final(self)@.current == p.1,
                    Err(er) => res matches Err(ev) && er@ == ev,
                }
            }),
    {
        self.expr_with_binding_power(0)
    }

    /// Precedence climbing: parse a prefix term, then fold in infix
    /// operators binding at least `min_bp`.
    fn expr_with_binding_power(&mut self, min_bp: u8) -> (r: Result<ExpressionStmt, Error>)
        requires
            parser_wf(old(self)@),
        ensures
            parser_wf(final(self)@),
            final(self)@.tokens == old(self)@.tokens,
            ({
                let res = spec_expr(old(self)@.tokens, old(self)@.current as int, min_bp);
                match r {
                    Ok(e) => res matches Ok(p) && p.0 == e@ && final(self)@.current == p.1,
                    Err(er) => res matches Err(ev) && er@ == ev,
                }
            }),
        decreases old(self)@.tokens.len() - old(self)@.current,
    {
        let ghost toks = self@.tokens;
        let ghost i0 = self@.current as int;
        proof {
            lemma_prefix_progress(toks, i0);
        }
        let peeked_kind = self.peek().kind;
        let mut lhs: ExpressionStmt;
        if peeked_kind == TokenKind::Number {
            let tok = self.next();
            let cs = chars_vec(tok.lexeme.as_str());
            if valid_number_chars(&cs) {
                lhs = ExpressionStmt::Number(tok.lexeme);
            } else {
                return Err(Error::invalid_number(&tok));
            }
        } else if peeked_kind == TokenKind::Ident {
            let tok = self.next();
            lhs = ExpressionStmt::Identifier(tok.lexeme);
        } else if peeked_kind == TokenKind::Plus || peeked_kind == TokenKind::Minus {
            let tok = self.next();
            let bp = prefix_binding_power(tok.kind);
            let operand = match self.expr_with_binding_power(bp) {
                Ok(e) => e,
                Err(e) => {
                    return Err(e);
                },
            };
            lhs = ExpressionStmt::Unary(tok.lexeme, Box::new(operand));
        } else if peeked_kind == TokenKind::LeftParen {
            self.advance();
            let inner = match self.expr_with_binding_power(0) {
                Ok(e) => e,
                Err(e) => {
                    return Err(e);
                },
            };
            proof {
                lemma_parse_progress(toks, i0 + 1, 0);
            }
            if self.expect(TokenKind::RightParen).is_none() {
                return Err(Error::unexpected_token(Some(TokenKind::RightParen), self.peek()));
            }
            lhs = inner;
        } else {
            return Err(Error::unexpected_token(None, self.peek()));
        }
        proof {
            lemma_prefix_progress(toks, i0);
            assert(spec_prefix(toks, i0) matches Ok(p) && p.0 == lhs@ && p.1 == self@.current
                as int);
        }
        // fold in infix operators
        loop
            invariant
                parser_wf(self@),
                self@.tokens == toks,
                toks == old(self)@.tokens,
                i0 == old(self)@.current as int,
                0 <= i0 < self@.current as int,
                i0 <= toks.len(),
                spec_expr(toks, i0, min_bp) == spec_tail(
                    toks,
                    self@.current as int,
                    lhs@,
                    min_bp,
                ),
            ensures
                spec_expr(toks, i0, min_bp) == Ok::<(ExprV, int), ErrorV>(
                    (lhs@, self@.current as int),
                ),
            decreases toks.len() - self@.current,
        {
            let k = self.peek().kind;
            if k == TokenKind::Eof || k == TokenKind::RightParen || k == TokenKind::Semicolon {
                break ;
            }
            if !(k == TokenKind::Plus || k == TokenKind::Minus || k == TokenKind::Star || k
                == TokenKind::Slash) {
                return Err(Error::unexpected_token(None, self.peek()));
            }
            let (l_bp, r_bp) = match infix_binding_power(k) {
                Some(p) => p,
                None => {
                    proof {
                        assert(false);
                    }
                    (0, 0)
                },
            };
            if l_bp < min_bp {
                break ;
            }
            let ghost j = self@.current as int;
            let op_tok = self.next();
            let rhs = match self.expr_with_binding_power(r_bp) {
                Ok(e) => e,
                Err(e) => {
                    return Err(e);
                },
            };
            proof {
                lemma_parse_progress(toks, j + 1, r_bp);
            }
            lhs = ExpressionStmt::Binary(op_tok.lexeme, Box::new((lhs, rhs)));
        }
        Ok(lhs)
    }

    /// Parses one statement by the leading token: `var` and `print` have
    /// their own grammar, anything else is an expression statement. The
    /// reserved statement kinds (`if`, `for`, `while`, `return`, a block)
    /// have no parse yet and are excluded by the requires.
    pub fn statement(&mut self) -> (r: Result<Statement, Error>)
        requires
            parser_wf(old(self)@),
            !spec_reserved(old(self)@.tokens[old(self)@.current as int].kind),
        ensures
            parser_wf(final(self)@),
            final(self)@.tokens == old(self)@.tokens,
            ({
                let res = spec_statement(old(self)@.tokens, old(self)@.current as int);
                match r {
                    Ok(st) => res matches Ok(p) && p.0 == st@ && final(self)@.current == p.1,
                    Err(er) => res matches Err(ev) && er@ == ev,
                }
            }),
    {
        let ghost toks = self@.tokens;
        let ghost i0 = self@.current as int;
        let k = self.peek().kind;
        if k == TokenKind::Var {
            self.advance();
            let name_tok = match self.expect(TokenKind::Ident) {
                Some(t) => t,
                None => {
                    return Err(Error::unexpected_token(Some(TokenKind::Ident), self.peek()));
                },
            };
            if self.check(TokenKind::Equal) {
                self.advance();
                let init = match self.expr_with_binding_power(0) {
                    Ok(e) => e,
                    Err(e) => {
                        return Err(e);
                    },
                };
                proof {
                    lemma_parse_progress(toks, i0 + 3, 0);
                }
                if self.expect(TokenKind::Semicolon).is_none() {
                    return Err(Error::unexpected_token(Some(TokenKind::Semicolon), self.peek()));
                }
                Ok(Statement::VarDeclaration(name_tok.lexeme, Some(init)))
            } else {
                if self.expect(TokenKind::Semicolon).is_none() {
                    return Err(Error::unexpected_token(Some(TokenKind::Semicolon), self.peek()));
                }
                Ok(Statement::VarDeclaration(name_tok.lexeme, None))
            }
        } else if k == TokenKind::Print {
            self.advance();
            let e = match self.expr_with_binding_power(0) {
                Ok(e) => e,
                Err(e) => {
                    return Err(e);
                },
            };
            proof {
                lemma_parse_progress(toks, i0 + 1, 0);
            }
            if self.expect(TokenKind::Semicolon).is_none() {
                return Err(Error::unexpected_token(Some(TokenKind::Semicolon), self.peek()));
            }
            Ok(Statement::Print(PrintStmt { expr: e }))
        } else {
            let e = match self.expr_with_binding_power(0) {
                Ok(e) => e,
                Err(e) => {
                    return Err(e);
                },
            };
            proof {
                lemma_parse_progress(toks, i0, 0);
            }
            if self.expect(TokenKind::Semicolon).is_none() {
                return Err(Error::unexpected_token(Some(TokenKind::Semicolon), self.peek()));
            }
            Ok(Statement::Expression(e))
        }
    }
}

} // verus!
