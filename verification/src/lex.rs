//! The lexer: turns a source string into a sequence of tokens carrying kind,
//! lexeme and 1-based line/column. Scanning is a single pass; malformed input
//! yields an `Err` item and scanning can continue afterwards.
//!
//! The scanner is specified by a small mathematical model: `spec_skip_end`
//! and `spec_skip_pos` describe how whitespace and `//` comments are skipped,
//! `spec_token` describes the token found at a skipped position, and
//! `spec_next` ties both into the transition that [`Lexer::next_token`]
//! performs. Lexer totality — skipped text plus lexemes reconstruct the
//! input — is proved in [`lemma_lexer_totality`].

use vstd::prelude::*;

use crate::error::{Error, ErrorV};
use crate::text::{
    byte_len_of, chars_vec, is_alnum, is_alpha, is_digit, is_space, lemma_byte_len_concat,
    lemma_byte_len_take, spec_byte_len, spec_is_alnum, spec_is_alpha, spec_is_digit,
    spec_is_space, spec_utf8_len, string_from_chars, str_eq, subvec, utf8_len,
};

verus! {

// ---------------------------------------------------------------------------
// Token kinds and tokens
// ---------------------------------------------------------------------------

/// The closed set of token kinds: punctuation, one- and two-character
/// operators, literal kinds, the fixed keywords, and `Eof`.
#[derive(Debug, Clone, Copy, PartialEq, Eq, Structural)]
pub enum TokenKind {
    LeftParen,
    RightParen,
    LeftBrace,
    RightBrace,
    Comma,
    Dot,
    Minus,
    Plus,
    Semicolon,
    Star,
    BangEqual,
    EqualEqual,
    LessEqual,
    GreaterEqual,
    Less,
    Greater,
    Slash,
    Bang,
    Equal,
    String,
    Ident,
    Number,
    And,
    Class,
    Else,
    False,
    For,
    Fun,
    If,
    Nil,
    Or,
    Print,
    Return,
    Super,
    This,
    True,
    Var,
    While,
    Eof,
}

/// One token: kind, the literal text it was scanned from, and its 1-based
/// source position.
#[derive(Debug, Clone)]
pub struct Token {
    pub kind: TokenKind,
    pub lexeme: String,
    pub line: usize,
    pub column: usize,
}

/// The mathematical shape of a [`Token`].
pub struct TokenV {
    pub kind: TokenKind,
    pub lexeme: Seq<char>,
    pub line: nat,
    pub column: nat,
}

impl View for Token {
    type V = TokenV;

    open spec fn view(&self) -> TokenV {
        TokenV {
            kind: self.kind,
            lexeme: self.lexeme@,
            line: self.line as nat,
            column: self.column as nat,
        }
    }
}

/// The display name of a kind, in upper snake case.
pub open spec fn spec_kind_name(k: TokenKind) -> Seq<char> {
    match k {
        TokenKind::LeftParen => "LEFT_PAREN"@,
        TokenKind::RightParen => "RIGHT_PAREN"@,
        TokenKind::LeftBrace => "LEFT_BRACE"@,
        TokenKind::RightBrace => "RIGHT_BRACE"@,
        TokenKind::Comma => "COMMA"@,
        TokenKind::Dot => "DOT"@,
        TokenKind::Minus => "MINUS"@,
        TokenKind::Plus => "PLUS"@,
        TokenKind::Semicolon => "SEMICOLON"@,
        TokenKind::Star => "STAR"@,
        TokenKind::BangEqual => "BANG_EQUAL"@,
        TokenKind::EqualEqual => "EQUAL_EQUAL"@,
        TokenKind::LessEqual => "LESS_EQUAL"@,
        TokenKind::GreaterEqual => "GREATER_EQUAL"@,
        TokenKind::Less => "LESS"@,
        TokenKind::Greater => "GREATER"@,
        TokenKind::Slash => "SLASH"@,
        TokenKind::Bang => "BANG"@,
        TokenKind::Equal => "EQUAL"@,
        TokenKind::String => "STRING"@,
        TokenKind::Ident => "IDENTIFIER"@,
        TokenKind::Number => "NUMBER"@,
        TokenKind::And => "AND"@,
        TokenKind::Class => "CLASS"@,
        TokenKind::Else => "ELSE"@,
        TokenKind::False => "FALSE"@,
        TokenKind::For => "FOR"@,
        TokenKind::Fun => "FUN"@,
        TokenKind::If => "IF"@,
        TokenKind::Nil => "NIL"@,
        TokenKind::Or => "OR"@,
        TokenKind::Print => "PRINT"@,
        TokenKind::Return => "RETURN"@,
        TokenKind::Super => "SUPER"@,
        TokenKind::This => "THIS"@,
        TokenKind::True => "TRUE"@,
        TokenKind::Var => "VAR"@,
        TokenKind::While => "WHILE"@,
        TokenKind::Eof => "EOF"@,
    }
}

/// The variant name of a kind, as error messages quote it.
pub open spec fn spec_kind_debug(k: TokenKind) -> Seq<char> {
    match k {
        TokenKind::LeftParen => "LeftParen"@,
        TokenKind::RightParen => "RightParen"@,
        TokenKind::LeftBrace => "LeftBrace"@,
        TokenKind::RightBrace => "RightBrace"@,
        TokenKind::Comma => "Comma"@,
        TokenKind::Dot => "Dot"@,
        TokenKind::Minus => "Minus"@,
        TokenKind::Plus => "Plus"@,
        TokenKind::Semicolon => "Semicolon"@,
        TokenKind::Star => "Star"@,
        TokenKind::BangEqual => "BangEqual"@,
        TokenKind::EqualEqual => "EqualEqual"@,
        TokenKind::LessEqual => "LessEqual"@,
        TokenKind::GreaterEqual => "GreaterEqual"@,
        TokenKind::Less => "Less"@,
        TokenKind::Greater => "Greater"@,
        TokenKind::Slash => "Slash"@,
        TokenKind::Bang => "Bang"@,
        TokenKind::Equal => "Equal"@,
        TokenKind::String => "String"@,
        TokenKind::Ident => "Ident"@,
        TokenKind::Number => "Number"@,
        TokenKind::And => "And"@,
        TokenKind::Class => "Class"@,
        TokenKind::Else => "Else"@,
        TokenKind::False => "False"@,
        TokenKind::For => "For"@,
        TokenKind::Fun => "Fun"@,
        TokenKind::If => "If"@,
        TokenKind::Nil => "Nil"@,
        TokenKind::Or => "Or"@,
        TokenKind::Print => "Print"@,
        TokenKind::Return => "Return"@,
        TokenKind::Super => "Super"@,
        TokenKind::This => "This"@,
        TokenKind::True => "True"@,
        TokenKind::Var => "Var"@,
        TokenKind::While => "While"@,
        TokenKind::Eof => "Eof"@,
    }
}

/// The display name of a kind as characters.
pub fn kind_name_chars(k: TokenKind) -> (r: Vec<char>)
    ensures
        r@ == spec_kind_name(k),
{
    match k {
        TokenKind::LeftParen => chars_vec("LEFT_PAREN"),
        TokenKind::RightParen => chars_vec("RIGHT_PAREN"),
        TokenKind::LeftBrace => chars_vec("LEFT_BRACE"),
        TokenKind::RightBrace => chars_vec("RIGHT_BRACE"),
        TokenKind::Comma => chars_vec("COMMA"),
        TokenKind::Dot => chars_vec("DOT"),
        TokenKind::Minus => chars_vec("MINUS"),
        TokenKind::Plus => chars_vec("PLUS"),
        TokenKind::Semicolon => chars_vec("SEMICOLON"),
        TokenKind::Star => chars_vec("STAR"),
        TokenKind::BangEqual => chars_vec("BANG_EQUAL"),
        TokenKind::EqualEqual => chars_vec("EQUAL_EQUAL"),
        TokenKind::LessEqual => chars_vec("LESS_EQUAL"),
        TokenKind::GreaterEqual => chars_vec("GREATER_EQUAL"),
        TokenKind::Less => chars_vec("LESS"),
        TokenKind::Greater => chars_vec("GREATER"),
        TokenKind::Slash => chars_vec("SLASH"),
        TokenKind::Bang => chars_vec("BANG"),
        TokenKind::Equal => chars_vec("EQUAL"),
        TokenKind::String => chars_vec("STRING"),
        TokenKind::Ident => chars_vec("IDENTIFIER"),
        TokenKind::Number => chars_vec("NUMBER"),
        TokenKind::And => chars_vec("AND"),
        TokenKind::Class => chars_vec("CLASS"),
        TokenKind::Else => chars_vec("ELSE"),
        TokenKind::False => chars_vec("FALSE"),
        TokenKind::For => chars_vec("FOR"),
        TokenKind::Fun => chars_vec("FUN"),
        TokenKind::If => chars_vec("IF"),
        TokenKind::Nil => chars_vec("NIL"),
        TokenKind::Or => chars_vec("OR"),
        TokenKind::Print => chars_vec("PRINT"),
        TokenKind::Return => chars_vec("RETURN"),
        TokenKind::Super => chars_vec("SUPER"),
        TokenKind::This => chars_vec("THIS"),
        TokenKind::True => chars_vec("TRUE"),
        TokenKind::Var => chars_vec("VAR"),
        TokenKind::While => chars_vec("WHILE"),
        TokenKind::Eof => chars_vec("EOF"),
    }
}

/// The variant name of a kind as characters.
pub fn kind_debug_chars(k: TokenKind) -> (r: Vec<char>)
    ensures
        r@ == spec_kind_debug(k),
{
    match k {
        TokenKind::LeftParen => chars_vec("LeftParen"),
        TokenKind::RightParen => chars_vec("RightParen"),
        TokenKind::LeftBrace => chars_vec("LeftBrace"),
        TokenKind::RightBrace => chars_vec("RightBrace"),
        TokenKind::Comma => chars_vec("Comma"),
        TokenKind::Dot => chars_vec("Dot"),
        TokenKind::Minus => chars_vec("Minus"),
        TokenKind::Plus => chars_vec("Plus"),
        TokenKind::Semicolon => chars_vec("Semicolon"),
        TokenKind::Star => chars_vec("Star"),
        TokenKind::BangEqual => chars_vec("BangEqual"),
        TokenKind::EqualEqual => chars_vec("EqualEqual"),
        TokenKind::LessEqual => chars_vec("LessEqual"),
        TokenKind::GreaterEqual => chars_vec("GreaterEqual"),
        TokenKind::Less => chars_vec("Less"),
        TokenKind::Greater => chars_vec("Greater"),
        TokenKind::Slash => chars_vec("Slash"),
        TokenKind::Bang => chars_vec("Bang"),
        TokenKind::Equal => chars_vec("Equal"),
        TokenKind::String => chars_vec("String"),
        TokenKind::Ident => chars_vec("Ident"),
        TokenKind::Number => chars_vec("Number"),
        TokenKind::And => chars_vec("And"),
        TokenKind::Class => chars_vec("Class"),
        TokenKind::Else => chars_vec("Else"),
        TokenKind::False => chars_vec("False"),
        TokenKind::For => chars_vec("For"),
        TokenKind::Fun => chars_vec("Fun"),
        TokenKind::If => chars_vec("If"),
        TokenKind::Nil => chars_vec("Nil"),
        TokenKind::Or => chars_vec("Or"),
        TokenKind::Print => chars_vec("Print"),
        TokenKind::Return => chars_vec("Return"),
        TokenKind::Super => chars_vec("Super"),
        TokenKind::This => chars_vec("This"),
        TokenKind::True => chars_vec("True"),
        TokenKind::Var => chars_vec("Var"),
        TokenKind::While => chars_vec("While"),
        TokenKind::Eof => chars_vec("Eof"),
    }
}

/// A token's display form: `KIND <line, column> lexeme`.
pub open spec fn spec_token_render(t: TokenV) -> Seq<char> {
    spec_kind_name(t.kind) + " <"@ + crate::text::spec_dec(t.line) + ", "@ + crate::text::spec_dec(
        t.column,
    ) + "> "@ + t.lexeme
}

impl Token {
    /// The display form of this token.
    pub fn render(&self) -> (s: String)
        ensures
            s@ == spec_token_render(self@),
    {
        let mut out = kind_name_chars(self.kind);
        crate::text::append_str(&mut out, " <");
        let d = crate::text::dec_chars(self.line as u64);
        crate::text::append_chars(&mut out, d.as_slice());
        crate::text::append_str(&mut out, ", ");
        let d = crate::text::dec_chars(self.column as u64);
        crate::text::append_chars(&mut out, d.as_slice());
        crate::text::append_str(&mut out, "> ");
        crate::text::append_str(&mut out, self.lexeme.as_str());
        proof {
            assert(out@ =~= spec_token_render(self@));
        }
        string_from_chars(out.as_slice())
    }
}

// ---------------------------------------------------------------------------
// The scanner's specification
// ---------------------------------------------------------------------------

/// The first position at or after `i` holding `c`, or the end of `s`.
pub open spec fn spec_find(s: Seq<char>, c: char, i: int) -> int
    decreases s.len() - i when 0 <= i <= s.len()
{
    if i >= s.len() {
        s.len() as int
    } else if s[i] == c {
        i
    } else {
        spec_find(s, c, i + 1)
    }
}

pub proof fn lemma_find_range(s: Seq<char>, c: char, i: int)
    requires
        0 <= i <= s.len(),
    ensures
        i <= spec_find(s, c, i) <= s.len(),
        spec_find(s, c, i) < s.len() ==> s[spec_find(s, c, i)] == c,
        forall|m: int| i <= m < spec_find(s, c, i) ==> s[m] != c,
    decreases s.len() - i,
{
    if i < s.len() && s[i] != c {
        lemma_find_range(s, c, i + 1);
    }
}

/// `spec_find` is pinned down by its characterisation.
pub proof fn lemma_find_is(s: Seq<char>, c: char, i: int, j: int)
    requires
        0 <= i <= j <= s.len(),
        forall|m: int| i <= m < j ==> s[m] != c,
        j < s.len() ==> s[j] == c,
    ensures
        spec_find(s, c, i) == j,
    decreases j - i,
{
    if i < j {
        lemma_find_is(s, c, i + 1, j);
    }
}

/// The first position at or after `i` that does not continue an identifier.
pub open spec fn spec_scan_alnum(s: Seq<char>, i: int) -> int
    decreases s.len() - i when 0 <= i <= s.len()
{
    if i >= s.len() {
        i
    } else if spec_is_alnum(s[i]) {
        spec_scan_alnum(s, i + 1)
    } else {
        i
    }
}

/// The first position at or after `i` that is not a digit.
pub open spec fn spec_scan_digits(s: Seq<char>, i: int) -> int
    decreases s.len() - i when 0 <= i <= s.len()
{
    if i >= s.len() {
        i
    } else if spec_is_digit(s[i]) {
        spec_scan_digits(s, i + 1)
    } else {
        i
    }
}

pub proof fn lemma_scan_alnum_range(s: Seq<char>, i: int)
    requires
        0 <= i <= s.len(),
    ensures
        i <= spec_scan_alnum(s, i) <= s.len(),
    decreases s.len() - i,
{
    if i < s.len() && spec_is_alnum(s[i]) {
        lemma_scan_alnum_range(s, i + 1);
    }
}

pub proof fn lemma_scan_digits_range(s: Seq<char>, i: int)
    requires
        0 <= i <= s.len(),
    ensures
        i <= spec_scan_digits(s, i) <= s.len(),
    decreases s.len() - i,
{
    if i < s.len() && spec_is_digit(s[i]) {
        lemma_scan_digits_range(s, i + 1);
    }
}

pub proof fn lemma_scan_alnum_is(s: Seq<char>, i: int, j: int)
    requires
        0 <= i <= j <= s.len(),
        forall|m: int| i <= m < j ==> spec_is_alnum(s[m]),
        j < s.len() ==> !spec_is_alnum(s[j]),
    ensures
        spec_scan_alnum(s, i) == j,
    decreases j - i,
{
    if i < j {
        lemma_scan_alnum_is(s, i + 1, j);
    }
}

pub proof fn lemma_scan_digits_is(s: Seq<char>, i: int, j: int)
    requires
        0 <= i <= j <= s.len(),
        forall|m: int| i <= m < j ==> spec_is_digit(s[m]),
        j < s.len() ==> !spec_is_digit(s[j]),
    ensures
        spec_scan_digits(s, i) == j,
    decreases j - i,
{
    if i < j {
        lemma_scan_digits_is(s, i + 1, j);
    }
}

/// Where a number literal starting at `i` ends: a run of digits, then at most
/// one embedded decimal point followed by at least one more digit.
pub open spec fn spec_number_end(s: Seq<char>, i: int) -> int
    recommends
        0 <= i <= s.len(),
{
    let d = spec_scan_digits(s, i);
    if d < s.len() && s[d] == '.' && d + 1 < s.len() && spec_is_digit(s[d + 1]) {
        spec_scan_digits(s, d + 1)
    } else {
        d
    }
}

/// The kind an identifier lexeme resolves to: a keyword, or `Ident`.
pub open spec fn spec_keyword(lex: Seq<char>) -> TokenKind {
    if lex == "and"@ {
        TokenKind::And
    } else if lex == "class"@ {
        TokenKind::Class
    } else if lex == "else"@ {
        TokenKind::Else
    } else if lex == "false"@ {
        TokenKind::False
    } else if lex == "for"@ {
        TokenKind::For
    } else if lex == "fun"@ {
        TokenKind::Fun
    } else if lex == "if"@ {
        TokenKind::If
    } else if lex == "nil"@ {
        TokenKind::Nil
    } else if lex == "or"@ {
        TokenKind::Or
    } else if lex == "print"@ {
        TokenKind::Print
    } else if lex == "return"@ {
        TokenKind::Return
    } else if lex == "super"@ {
        TokenKind::Super
    } else if lex == "this"@ {
        TokenKind::This
    } else if lex == "true"@ {
        TokenKind::True
    } else if lex == "var"@ {
        TokenKind::Var
    } else if lex == "while"@ {
        TokenKind::While
    } else {
        TokenKind::Ident
    }
}

/// The kind the identifier text `s` resolves to.
pub fn keyword_kind(s: &str) -> (k: TokenKind)
    ensures
        k == spec_keyword(s@),
{
    if str_eq(s, "and") {
        TokenKind::And
    } else if str_eq(s, "class") {
        TokenKind::Class
    } else if str_eq(s, "else") {
        TokenKind::Else
    } else if str_eq(s, "false") {
        TokenKind::False
    } else if str_eq(s, "for") {
        TokenKind::For
    } else if str_eq(s, "fun") {
        TokenKind::Fun
    } else if str_eq(s, "if") {
        TokenKind::If
    } else if str_eq(s, "nil") {
        TokenKind::Nil
    } else if str_eq(s, "or") {
        TokenKind::Or
    } else if str_eq(s, "print") {
        TokenKind::Print
    } else if str_eq(s, "return") {
        TokenKind::Return
    } else if str_eq(s, "super") {
        TokenKind::Super
    } else if str_eq(s, "this") {
        TokenKind::This
    } else if str_eq(s, "true") {
        TokenKind::True
    } else if str_eq(s, "var") {
        TokenKind::Var
    } else if str_eq(s, "while") {
        TokenKind::While
    } else {
        TokenKind::Ident
    }
}

/// Where skipping whitespace and `//` comments from `i` stops.
pub open spec fn spec_skip_end(s: Seq<char>, i: int) -> int
    decreases s.len() - i when 0 <= i <= s.len() via spec_skip_end_dec
{
    if i >= s.len() {
        i
    } else if spec_is_space(s[i]) {
        spec_skip_end(s, i + 1)
    } else if i + 1 < s.len() && s[i] == '/' && s[i + 1] == '/' {
        let e = spec_find(s, '\n', i + 2);
        if e < s.len() {
            spec_skip_end(s, e + 1)
        } else {
            s.len() as int
        }
    } else {
        i
    }
}

#[via_fn]
proof fn spec_skip_end_dec(s: Seq<char>, i: int) {
    if 0 <= i <= s.len() && i < s.len() && !spec_is_space(s[i]) && i + 1 < s.len() && s[i] == '/'
        && s[i + 1] == '/' {
        lemma_find_range(s, '\n', i + 2);
    }
}

/// The line and column after skipping whitespace and comments from `i`:
/// a newline resets the column and advances the line, other whitespace
/// advances the column by its byte length, and a comment consumes through
/// the next newline.
pub open spec fn spec_skip_pos(s: Seq<char>, i: int, line: nat, col: nat) -> (nat, nat)
    decreases s.len() - i when 0 <= i <= s.len() via spec_skip_pos_dec
{
    if i >= s.len() {
        (line, col)
    } else if s[i] == '\n' {
        spec_skip_pos(s, i + 1, line + 1, 1)
    } else if spec_is_space(s[i]) {
        spec_skip_pos(s, i + 1, line, col + spec_utf8_len(s[i]))
    } else if i + 1 < s.len() && s[i] == '/' && s[i + 1] == '/' {
        let e = spec_find(s, '\n', i + 2);
        if e < s.len() {
            spec_skip_pos(s, e + 1, line + 1, 1)
        } else {
            (line + 1, 1)
        }
    } else {
        (line, col)
    }
}

#[via_fn]
proof fn spec_skip_pos_dec(s: Seq<char>, i: int, line: nat, col: nat) {
    if 0 <= i <= s.len() && i < s.len() && s[i] != '\n' && !spec_is_space(s[i]) && i + 1 < s.len()
        && s[i] == '/' && s[i + 1] == '/' {
        lemma_find_range(s, '\n', i + 2);
    }
}

pub proof fn lemma_skip_end_range(s: Seq<char>, i: int)
    requires
        0 <= i <= s.len(),
    ensures
        i <= spec_skip_end(s, i) <= s.len(),
    decreases s.len() - i,
{
    if i < s.len() {
        if spec_is_space(s[i]) {
            lemma_skip_end_range(s, i + 1);
        } else if i + 1 < s.len() && s[i] == '/' && s[i + 1] == '/' {
            lemma_find_range(s, '\n', i + 2);
            let e = spec_find(s, '\n', i + 2);
            if e < s.len() {
                lemma_skip_end_range(s, e + 1);
            }
        }
    }
}

/// What stands at position `i` of the input, where `i` is a position that
/// skipping has stopped at.
pub enum TokOut {
    /// The input is exhausted.
    End,
    /// A token of this kind, whose lexeme runs from `i` up to `end`.
    Tok { kind: TokenKind, end: int },
    /// A character no token can start with.
    BadChar { ch: char },
    /// A string literal with no closing quote before the end of input.
    NoClose,
}

/// The token (or failure) found at position `i` of `s`.
pub open spec fn spec_token(s: Seq<char>, i: int) -> TokOut
    recommends
        0 <= i <= s.len(),
{
    if i >= s.len() {
        TokOut::End
    } else {
        let c = s[i];
        if c == '(' {
            TokOut::Tok { kind: TokenKind::LeftParen, end: i + 1 }
        } else if c == ')' {
            TokOut::Tok { kind: TokenKind::RightParen, end: i + 1 }
        } else if c == '{' {
            TokOut::Tok { kind: TokenKind::LeftBrace, end: i + 1 }
        } else if c == '}' {
            TokOut::Tok { kind: TokenKind::RightBrace, end: i + 1 }
        } else if c == ',' {
            TokOut::Tok { kind: TokenKind::Comma, end: i + 1 }
        } else if c == '.' {
            TokOut::Tok { kind: TokenKind::Dot, end: i + 1 }
        } else if c == '-' {
            TokOut::Tok { kind: TokenKind::Minus, end: i + 1 }
        } else if c == '+' {
            TokOut::Tok { kind: TokenKind::Plus, end: i + 1 }
        } else if c == ';' {
            TokOut::Tok { kind: TokenKind::Semicolon, end: i + 1 }
        } else if c == '*' {
            TokOut::Tok { kind: TokenKind::Star, end: i + 1 }
        } else if c == '/' {
            TokOut::Tok { kind: TokenKind::Slash, end: i + 1 }
        } else if c == '<' {
            if i + 1 < s.len() && s[i + 1] == '=' {
                TokOut::Tok { kind: TokenKind::LessEqual, end: i + 2 }
            } else {
                TokOut::Tok { kind: TokenKind::Less, end: i + 1 }
            }
        } else if c == '>' {
            if i + 1 < s.len() && s[i + 1] == '=' {
                TokOut::Tok { kind: TokenKind::GreaterEqual, end: i + 2 }
            } else {
                TokOut::Tok { kind: TokenKind::Greater, end: i + 1 }
            }
        } else if c == '!' {
            if i + 1 < s.len() && s[i + 1] == '=' {
                TokOut::Tok { kind: TokenKind::BangEqual, end: i + 2 }
            } else {
                TokOut::Tok { kind: TokenKind::Bang, end: i + 1 }
            }
        } else if c == '=' {
            if i + 1 < s.len() && s[i + 1] == '=' {
                TokOut::Tok { kind: TokenKind::EqualEqual, end: i + 2 }
            } else {
                TokOut::Tok { kind: TokenKind::Equal, end: i + 1 }
            }
        } else if c == '"' {
            let q = spec_find(s, '"', i + 1);
            if q < s.len() {
                TokOut::Tok { kind: TokenKind::String, end: q + 1 }
            } else {
                TokOut::NoClose
            }
        } else if spec_is_digit(c) {
            TokOut::Tok { kind: TokenKind::Number, end: spec_number_end(s, i) }
        } else if spec_is_alpha(c) {
            let e = spec_scan_alnum(s, i);
            TokOut::Tok { kind: spec_keyword(s.subrange(i, e)), end: e }
        } else {
            TokOut::BadChar { ch: c }
        }
    }
}

/// A token's lexeme is non-empty and lies inside the input.
pub proof fn lemma_token_range(s: Seq<char>, i: int)
    requires
        0 <= i <= s.len(),
    ensures
        spec_token(s, i) matches TokOut::Tok { end, .. } ==> i < end <= s.len(),
{
    if i < s.len() {
        let c = s[i];
        if c == '"' {
            lemma_find_range(s, '"', i + 1);
        } else if spec_is_digit(c) {
            assert(spec_scan_digits(s, i) == spec_scan_digits(s, i + 1));
            lemma_scan_digits_range(s, i + 1);
            let d = spec_scan_digits(s, i);
            if d < s.len() && s[d] == '.' && d + 1 < s.len() && spec_is_digit(s[d + 1]) {
                lemma_scan_digits_range(s, d + 1);
            }
        } else if spec_is_alpha(c) {
            assert(spec_scan_alnum(s, i) == spec_scan_alnum(s, i + 1));
            lemma_scan_alnum_range(s, i + 1);
        }
    }
}

// ---------------------------------------------------------------------------
// The lexer
// ---------------------------------------------------------------------------

/// The single-pass scanner over a source string.
pub struct Lexer {
    pub chars: Vec<char>,
    pub pos: usize,
    pub line: usize,
    pub column: usize,
}

/// The mathematical shape of a [`Lexer`].
pub struct LexerV {
    pub input: Seq<char>,
    pub pos: nat,
    pub line: nat,
    pub column: nat,
}

impl View for Lexer {
    type V = LexerV;

    open spec fn view(&self) -> LexerV {
        LexerV {
            input: self.chars@,
            pos: self.pos as nat,
            line: self.line as nat,
            column: self.column as nat,
        }
    }
}

/// What one scanning step produces.
pub enum LexOutV {
    End,
    Tok(TokenV),
    Fail(ErrorV),
}

/// The transition [`Lexer::next_token`] performs: skip whitespace and
/// comments, then emit the token, the failure, or the end of input found
/// there.
pub open spec fn spec_next(lx: LexerV) -> (LexerV, LexOutV) {
    let s = lx.input;
    let k = spec_skip_end(s, lx.pos as int);
    let pos = spec_skip_pos(s, lx.pos as int, lx.line, lx.column);
    let l = pos.0;
    let c = pos.1;
    match spec_token(s, k) {
        TokOut::End => (
            LexerV { input: s, pos: s.len(), line: l, column: c },
            LexOutV::End,
        ),
        TokOut::Tok { kind, end } => {
            let lexeme = s.subrange(k, end);
            (
                LexerV {
                    input: s,
                    pos: end as nat,
                    line: l,
                    column: (c + spec_byte_len(lexeme)) as nat,
                },
                LexOutV::Tok(TokenV { kind, lexeme, line: l, column: c }),
            )
        },
        TokOut::BadChar { ch } => (
            LexerV {
                input: s,
                pos: (k + 1) as nat,
                line: l,
                column: (c + spec_utf8_len(ch)) as nat,
            },
            LexOutV::Fail(ErrorV::UnexpectedChar { ch, line: l, column: c }),
        ),
        TokOut::NoClose => (
            LexerV { input: s, pos: s.len(), line: l, column: c },
            LexOutV::Fail(ErrorV::UnterminatedString { line: l, column: c }),
        ),
    }
}

/// How an exec result corresponds to a spec outcome.
pub open spec fn out_matches(r: Option<Result<Token, Error>>, out: LexOutV) -> bool {
    match out {
        LexOutV::End => r is None,
        LexOutV::Tok(tv) => r matches Some(Ok(t)) && t@ == tv,
        LexOutV::Fail(ev) => r matches Some(Err(e)) && e@ == ev,
    }
}

impl Lexer {
    /// The lexer's well-formedness: the cursor is inside the input, the
    /// input is small enough that positions cannot overflow, and line and
    /// column stay bounded by what has been consumed.
    pub open spec fn wf(self) -> bool {
        &&& self.pos <= self.chars@.len()
        &&& spec_byte_len(self.chars@) <= usize::MAX / 2
        &&& self.line <= 1 + self.pos
        &&& self.column <= 1 + spec_byte_len(self.chars@.take(self.pos as int))
    }

    /// A fresh lexer over `input`, at line 1, column 1.
    pub fn new(input: &str) -> (lx: Lexer)
        ensures
            lx.wf(),
            lx@ == (LexerV { input: input@, pos: 0, line: 1, column: 1 }),
    {
        let chars = chars_vec(input);
        let lx = Lexer { chars, pos: 0, line: 1, column: 1 };
        proof {
            assert(lx.chars@.take(0) =~= Seq::<char>::empty());
        }
        lx
    }

    /// Emits a token of `kind` whose lexeme runs from the cursor up to `end`,
    /// advancing the cursor and the column past it.
    fn emit_token(&mut self, end: usize, kind: TokenKind) -> (t: Token)
        requires
            old(self).pos < end <= old(self).chars@.len(),
            spec_byte_len(old(self).chars@) <= usize::MAX / 2,
            old(self).line <= 1 + old(self).pos,
            old(self).column <= 1 + spec_byte_len(old(self).chars@.take(old(self).pos as int)),
        ensures
            final(self).wf(),
            final(self).chars@ == old(self).chars@,
            final(self).pos == end,
            final(self).line == old(self).line,
            final(self).column == old(self).column + spec_byte_len(
                old(self).chars@.subrange(old(self).pos as int, end as int),
            ),
            t@ == (TokenV {
                kind,
                lexeme: old(self).chars@.subrange(old(self).pos as int, end as int),
                line: old(self).line as nat,
                column: old(self).column as nat,
            }),
    {
        let ghost s = self.chars@;
        let ghost start = self.pos as int;
        proof {
            assert(s.take(end as int) =~= s.take(start) + s.subrange(start, end as int));
            lemma_byte_len_concat(s.take(start), s.subrange(start, end as int));
            lemma_byte_len_take(s, end as int);
        }
        let sub = subvec(&self.chars, self.pos, end);
        let blen = byte_len_of(sub.as_slice());
        let lexeme = string_from_chars(sub.as_slice());
        let t = Token { kind, lexeme, line: self.line, column: self.column };
        self.pos = end;
        self.column = self.column + blen;
        t
    }

    /// Scans the next token. `None` means the input is exhausted (after any
    /// trailing whitespace or comment); a malformed piece of input yields
    /// `Some(Err(..))` and scanning can continue on the next call.
    pub fn next_token(&mut self) -> (r: Option<Result<Token, Error>>)
        requires
            old(self).wf(),
        ensures
            final(self).wf(),
            ({
                let (post, out) = spec_next(old(self)@);
                final(self)@ == post && out_matches(r, out)
            }),
    {
        let ghost s = old(self).chars@;
        let ghost k0 = spec_skip_end(s, old(self).pos as int);
        let ghost p0 = spec_skip_pos(s, old(self).pos as int, old(self).line as nat, old(
            self,
        ).column as nat);
        let len = self.chars.len();
        proof {
            crate::text::lemma_byte_len_lower(s);
        }
        // Skip whitespace and comments.
        loop
            invariant
                self.chars@ == s,
                self.chars@.len() == len,
                len <= usize::MAX / 2,
                self.pos <= len,
                spec_byte_len(s) <= usize::MAX / 2,
                self.line <= 1 + self.pos,
                self.column <= 1 + spec_byte_len(s.take(self.pos as int)),
                spec_skip_end(s, self.pos as int) == k0,
                spec_skip_pos(s, self.pos as int, self.line as nat, self.column as nat) == p0,
            ensures
                spec_skip_end(s, self.pos as int) == self.pos as int,
                spec_skip_pos(s, self.pos as int, self.line as nat, self.column as nat) == (
                    self.line as nat,
                    self.column as nat,
                ),
            decreases len - self.pos,
        {
            if self.pos == len {
                break ;
            }
            let c = self.chars[self.pos];
            proof {
                assert(s.take(self.pos + 1) =~= s.take(self.pos as int).push(c));
                crate::text::lemma_byte_len_push(s.take(self.pos as int), c);
                lemma_byte_len_take(s, self.pos + 1);
            }
            if c == '\n' {
                self.line = self.line + 1;
                self.column = 1;
                self.pos = self.pos + 1;
            } else if is_space(c) {
                self.column = self.column + utf8_len(c);
                self.pos = self.pos + 1;
            } else if c == '/' && self.pos + 1 < len {
                let c2 = self.chars[self.pos + 1];
                if c2 == '/' {
                    // a comment: consume through the next newline
                    let mut j = self.pos + 2;
                    while j < len && self.chars[j] != '\n'
                        invariant
                            self.chars@ == s,
                            self.chars@.len() == len,
                            self.pos + 2 <= j <= len,
                            forall|m: int| self.pos + 2 <= m < j ==> s[m] != '\n',
                        decreases len - j,
                    {
                        j = j + 1;
                    }
                    proof {
                        lemma_find_is(s, '\n', self.pos + 2, j as int);
                    }
                    if j < len {
                        self.pos = j + 1;
                    } else {
                        self.pos = len;
                    }
                    self.line = self.line + 1;
                    self.column = 1;
                } else {
                    break ;
                }
            } else {
                break ;
            }
        }
        proof {
            assert(spec_skip_end(s, self.pos as int) == self.pos as int);
            assert(spec_skip_pos(s, self.pos as int, self.line as nat, self.column as nat) == (
                self.line as nat,
                self.column as nat,
            ));
        }
        // The cursor now stands where the token (or the end of input) begins.
        if self.pos == len {
            return None;
        }
        let c0 = self.chars[self.pos];
        if c0 == '(' {
            return Some(Ok(self.emit_token(self.pos + 1, TokenKind::LeftParen)));
        }
        if c0 == ')' {
            return Some(Ok(self.emit_token(self.pos + 1, TokenKind::RightParen)));
        }
        if c0 == '{' {
            return Some(Ok(self.emit_token(self.pos + 1, TokenKind::LeftBrace)));
        }
        if c0 == '}' {
            return Some(Ok(self.emit_token(self.pos + 1, TokenKind::RightBrace)));
        }
        if c0 == ',' {
            return Some(Ok(self.emit_token(self.pos + 1, TokenKind::Comma)));
        }
        if c0 == '.' {
            return Some(Ok(self.emit_token(self.pos + 1, TokenKind::Dot)));
        }
        if c0 == '-' {
            return Some(Ok(self.emit_token(self.pos + 1, TokenKind::Minus)));
        }
        if c0 == '+' {
            return Some(Ok(self.emit_token(self.pos + 1, TokenKind::Plus)));
        }
        if c0 == ';' {
            return Some(Ok(self.emit_token(self.pos + 1, TokenKind::Semicolon)));
        }
        if c0 == '*' {
            return Some(Ok(self.emit_token(self.pos + 1, TokenKind::Star)));
        }
        if c0 == '/' {
            // a second slash would have been skipped as a comment
            return Some(Ok(self.emit_token(self.pos + 1, TokenKind::Slash)));
        }
        if c0 == '<' {
            if self.pos + 1 < len && self.chars[self.pos + 1] == '=' {
                return Some(Ok(self.emit_token(self.pos + 2, TokenKind::LessEqual)));
            }
            return Some(Ok(self.emit_token(self.pos + 1, TokenKind::Less)));
        }
        if c0 == '>' {
            if self.pos + 1 < len && self.chars[self.pos + 1] == '=' {
                return Some(Ok(self.emit_token(self.pos + 2, TokenKind::GreaterEqual)));
            }
            return Some(Ok(self.emit_token(self.pos + 1, TokenKind::Greater)));
        }
        if c0 == '!' {
            if self.pos + 1 < len && self.chars[self.pos + 1] == '=' {
                return Some(Ok(self.emit_token(self.pos + 2, TokenKind::BangEqual)));
            }
            return Some(Ok(self.emit_token(self.pos + 1, TokenKind::Bang)));
        }
        if c0 == '=' {
            if self.pos + 1 < len && self.chars[self.pos + 1] == '=' {
                return Some(Ok(self.emit_token(self.pos + 2, TokenKind::EqualEqual)));
            }
            return Some(Ok(self.emit_token(self.pos + 1, TokenKind::Equal)));
        }
        if c0 == '"' {
            // a string literal: consume through the closing quote
            let mut q = self.pos + 1;
            while q < len && self.chars[q] != '"'
                invariant
                    self.chars@ == s,
                    self.chars@.len() == len,
                    self.pos + 1 <= q <= len,
                    forall|m: int| self.pos + 1 <= m < q ==> s[m] != '"',
                decreases len - q,
            {
                q = q + 1;
            }
            proof {
                lemma_find_is(s, '"', self.pos + 1, q as int);
            }
            if q < len {
                return Some(Ok(self.emit_token(q + 1, TokenKind::String)));
            }
            let e = Error::unterminated_string(self.line, self.column);
            proof {
                lemma_byte_len_take(s, self.pos as int);
                assert(s.take(len as int) =~= s);
            }
            self.pos = len;
            return Some(Err(e));
        }
        if is_digit(c0) {
            // a number literal: digits, then at most one embedded decimal point
            let mut d = self.pos + 1;
            while d < len && is_digit(self.chars[d])
                invariant
                    self.chars@ == s,
                    self.chars@.len() == len,
                    self.pos + 1 <= d <= len,
                    forall|m: int| self.pos + 1 <= m < d ==> spec_is_digit(s[m]),
                decreases len - d,
            {
                d = d + 1;
            }
            proof {
                lemma_scan_digits_is(s, self.pos as int, d as int);
            }
            let mut end = d;
            if d + 1 < len && self.chars[d] == '.' && is_digit(self.chars[d + 1]) {
                let mut f = d + 2;
                while f < len && is_digit(self.chars[f])
                    invariant
                        self.chars@ == s,
                        self.chars@.len() == len,
                        d + 2 <= f <= len,
                        spec_is_digit(s[d + 1]),
                        forall|m: int| d + 2 <= m < f ==> spec_is_digit(s[m]),
                    decreases len - f,
                {
                    f = f + 1;
                }
                proof {
                    lemma_scan_digits_is(s, d + 1, f as int);
                }
                end = f;
            }
            return Some(Ok(self.emit_token(end, TokenKind::Number)));
        }
        if is_alpha(c0) {
            // an identifier or keyword
            let mut e = self.pos + 1;
            while e < len && is_alnum(self.chars[e])
                invariant
                    self.chars@ == s,
                    self.chars@.len() == len,
                    self.pos + 1 <= e <= len,
                    forall|m: int| self.pos + 1 <= m < e ==> spec_is_alnum(s[m]),
                decreases len - e,
            {
                e = e + 1;
            }
            proof {
                lemma_scan_alnum_is(s, self.pos as int, e as int);
            }
            let sub = subvec(&self.chars, self.pos, e);
            let name = string_from_chars(sub.as_slice());
            let kind = keyword_kind(name.as_str());
            return Some(Ok(self.emit_token(e, kind)));
        }
        // no token can start here
        let e = Error::unexpected_char(c0, self.line, self.column);
        proof {
            assert(s.take(self.pos + 1) =~= s.take(self.pos as int).push(c0));
            crate::text::lemma_byte_len_push(s.take(self.pos as int), c0);
            lemma_byte_len_take(s, self.pos + 1);
        }
        self.column = self.column + utf8_len(c0);
        self.pos = self.pos + 1;
        Some(Err(e))
    }
}

// ---------------------------------------------------------------------------
// Lexer totality
// ---------------------------------------------------------------------------

/// Whether scanning from `i` reaches the end of input without a failure.
pub open spec fn spec_lex_clean(s: Seq<char>, i: int) -> bool
    decreases s.len() - i when 0 <= i <= s.len() via spec_lex_clean_dec
{
    let k = spec_skip_end(s, i);
    match spec_token(s, k) {
        TokOut::End => true,
        TokOut::Tok { kind, end } => spec_lex_clean(s, end),
        TokOut::BadChar { ch } => false,
        TokOut::NoClose => false,
    }
}

#[via_fn]
proof fn spec_lex_clean_dec(s: Seq<char>, i: int) {
    if 0 <= i <= s.len() {
        lemma_skip_end_range(s, i);
        lemma_token_range(s, spec_skip_end(s, i));
    }
}

/// The text scanning walks over, re-assembled: for each step, the skipped
/// whitespace and comments, then the token's lexeme.
pub open spec fn spec_lex_rebuild(s: Seq<char>, i: int) -> Seq<char>
    decreases s.len() - i when 0 <= i <= s.len() via spec_lex_rebuild_dec
{
    let k = spec_skip_end(s, i);
    match spec_token(s, k) {
        TokOut::Tok { kind, end } => s.subrange(i, k) + s.subrange(k, end) + spec_lex_rebuild(
            s,
            end,
        ),
        _ => s.subrange(i, s.len() as int),
    }
}

#[via_fn]
proof fn spec_lex_rebuild_dec(s: Seq<char>, i: int) {
    if 0 <= i <= s.len() {
        lemma_skip_end_range(s, i);
        lemma_token_range(s, spec_skip_end(s, i));
    }
}

/// Lexer totality: on input whose characters all scan (no failure), the
/// skipped whitespace and comments plus the token lexemes, concatenated in
/// order, reconstruct the input exactly.
pub proof fn lemma_lexer_totality(s: Seq<char>, i: int)
    requires
        0 <= i <= s.len(),
        spec_lex_clean(s, i),
    ensures
        spec_lex_rebuild(s, i) == s.skip(i),
    decreases s.len() - i,
{
    let k = spec_skip_end(s, i);
    lemma_skip_end_range(s, i);
    lemma_token_range(s, k);
    match spec_token(s, k) {
        TokOut::Tok { kind, end } => {
            lemma_lexer_totality(s, end);
            assert(s.subrange(i, k) + s.subrange(k, end) + s.skip(end) =~= s.skip(i));
        },
        _ => {
            assert(s.subrange(i, s.len() as int) =~= s.skip(i));
        },
    }
}

/// The tokens that scanning from `i` produces, or the first failure.
pub open spec fn spec_lex_views(s: Seq<char>, i: int, line: nat, col: nat) -> Result<
    Seq<TokenV>,
    ErrorV,
>
    decreases s.len() - i when 0 <= i <= s.len() via spec_lex_views_dec
{
    let k = spec_skip_end(s, i);
    let pos = spec_skip_pos(s, i, line, col);
    let l = pos.0;
    let c = pos.1;
    match spec_token(s, k) {
        TokOut::End => Ok(Seq::empty()),
        TokOut::Tok { kind, end } => {
            let lexeme = s.subrange(k, end);
            let t = TokenV { kind, lexeme, line: l, column: c };
            match spec_lex_views(s, end, l, (c + spec_byte_len(lexeme)) as nat) {
                Ok(rest) => Ok(seq![t] + rest),
                Err(e) => Err(e),
            }
        },
        TokOut::BadChar { ch } => Err(ErrorV::UnexpectedChar { ch, line: l, column: c }),
        TokOut::NoClose => Err(ErrorV::UnterminatedString { line: l, column: c }),
    }
}

#[via_fn]
proof fn spec_lex_views_dec(s: Seq<char>, i: int, line: nat, col: nat) {
    if 0 <= i <= s.len() {
        lemma_skip_end_range(s, i);
        lemma_token_range(s, spec_skip_end(s, i));
    }
}

/// One [`spec_next`] transition is one unfolding of [`spec_lex_views`]: the
/// token stream from a state is the scanned token followed by the stream
/// from the successor state, the end of input closes it, and a failure is
/// the stream's error.
pub proof fn lemma_lex_views_step(lx: LexerV)
    requires
        0 <= lx.pos <= lx.input.len(),
    ensures
        ({
            let (post, out) = spec_next(lx);
            &&& lx.pos <= post.pos <= lx.input.len()
            &&& match out {
                LexOutV::End => spec_lex_views(lx.input, lx.pos as int, lx.line, lx.column)
                    == Ok::<Seq<TokenV>, ErrorV>(Seq::empty()),
                LexOutV::Tok(tv) => {
                    &&& lx.pos < post.pos
                    &&& match spec_lex_views(lx.input, post.pos as int, post.line, post.column) {
                        Ok(rest) => spec_lex_views(lx.input, lx.pos as int, lx.line, lx.column)
                            == Ok::<Seq<TokenV>, ErrorV>(seq![tv] + rest),
                        Err(e) => spec_lex_views(lx.input, lx.pos as int, lx.line, lx.column)
                            == Err::<Seq<TokenV>, ErrorV>(e),
                    }
                },
                LexOutV::Fail(ev) => spec_lex_views(lx.input, lx.pos as int, lx.line, lx.column)
                    == Err::<Seq<TokenV>, ErrorV>(ev),
            }
        }),
{
    let s = lx.input;
    let i = lx.pos as int;
    let k = spec_skip_end(s, i);
    lemma_skip_end_range(s, i);
    lemma_token_range(s, k);
    match spec_token(s, k) {
        TokOut::End => {
        },
        TokOut::Tok { kind, end } => {
        },
        TokOut::BadChar { ch } => {
        },
        TokOut::NoClose => {
        },
    }
}

} // verus!
