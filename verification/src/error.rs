//! The error taxonomy: one sum type spanning lexer, parser and runtime
//! failure kinds, carrying source position where one is available.

use vstd::prelude::*;

use crate::lex::{spec_kind_debug, Token, TokenKind};
use crate::text::{
    append_chars, append_str, dec_chars, hex_chars, spec_dec, spec_hex, string_from_chars,
};

verus! {

/// What can go wrong in the pipeline. No variant crosses stage boundaries:
/// the lexer, the parser and the virtual machine each produce only their own
/// kinds, but all flow through the same propagation channel.
#[derive(Debug)]
pub enum Error {
    UnexpectedChar { ch: char, line: usize, column: usize },
    UnterminatedString { line: usize, column: usize },
    InvalidNumber { lexeme: String, line: usize, column: usize },
    UnexpectedToken { expected: Option<TokenKind>, found: TokenKind, line: usize, column: usize },
    InvalidInstruction { opcode: u8, offset: usize },
    StackUnderflow { operation: String },
    TypeError { operation: String, operand_type: String },
    DivisionByZero { line: usize },
}

/// The mathematical shape of an [`Error`].
pub enum ErrorV {
    UnexpectedChar { ch: char, line: nat, column: nat },
    UnterminatedString { line: nat, column: nat },
    InvalidNumber { lexeme: Seq<char>, line: nat, column: nat },
    UnexpectedToken { expected: Option<TokenKind>, found: TokenKind, line: nat, column: nat },
    InvalidInstruction { opcode: u8, offset: nat },
    StackUnderflow { operation: Seq<char> },
    TypeError { operation: Seq<char>, operand_type: Seq<char> },
    DivisionByZero { line: nat },
}

impl View for Error {
    type V = ErrorV;

    open spec fn view(&self) -> ErrorV {
        match self {
            Error::UnexpectedChar { ch, line, column } => ErrorV::UnexpectedChar {
                ch: *ch,
                line: *line as nat,
                column: *column as nat,
            },
            Error::UnterminatedString { line, column } => ErrorV::UnterminatedString {
                line: *line as nat,
                column: *column as nat,
            },
            Error::InvalidNumber { lexeme, line, column } => ErrorV::InvalidNumber {
                lexeme: lexeme@,
                line: *line as nat,
                column: *column as nat,
            },
            Error::UnexpectedToken { expected, found, line, column } => ErrorV::UnexpectedToken {
                expected: *expected,
                found: *found,
                line: *line as nat,
                column: *column as nat,
            },
            Error::InvalidInstruction { opcode, offset } => ErrorV::InvalidInstruction {
                opcode: *opcode,
                offset: *offset as nat,
            },
            Error::StackUnderflow { operation } => ErrorV::StackUnderflow { operation: operation@ },
            Error::TypeError { operation, operand_type } => ErrorV::TypeError {
                operation: operation@,
                operand_type: operand_type@,
            },
            Error::DivisionByZero { line } => ErrorV::DivisionByZero { line: *line as nat },
        }
    }
}

impl Error {
    pub fn unexpected_char(ch: char, line: usize, column: usize) -> (e: Self)
        ensures
            e@ == (ErrorV::UnexpectedChar { ch, line: line as nat, column: column as nat }),
    {
        Self::UnexpectedChar { ch, line, column }
    }

    pub fn unterminated_string(line: usize, column: usize) -> (e: Self)
        ensures
            e@ == (ErrorV::UnterminatedString { line: line as nat, column: column as nat }),
    {
        Self::UnterminatedString { line, column }
    }

    pub fn invalid_number(token: &Token) -> (e: Self)
        ensures
            e@ == (ErrorV::InvalidNumber {
                lexeme: token.lexeme@,
                line: token.line as nat,
                column: token.column as nat,
            }),
    {
        Self::InvalidNumber {
            lexeme: token.lexeme.clone(),
            line: token.line,
            column: token.column,
        }
    }

    pub fn unexpected_token(expected: Option<TokenKind>, token: &Token) -> (e: Self)
        ensures
            e@ == (ErrorV::UnexpectedToken {
                expected,
                found: token.kind,
                line: token.line as nat,
                column: token.column as nat,
            }),
    {
        Self::UnexpectedToken {
            expected,
            found: token.kind,
            line: token.line,
            column: token.column,
        }
    }

    pub fn invalid_instruction(opcode: u8, offset: usize) -> (e: Self)
        ensures
            e@ == (ErrorV::InvalidInstruction { opcode, offset: offset as nat }),
    {
        Self::InvalidInstruction { opcode, offset }
    }

    pub fn stack_underflow(operation: &str) -> (e: Self)
        ensures
            e@ == (ErrorV::StackUnderflow { operation: operation@ }),
    {
        Self::StackUnderflow { operation: operation.to_owned() }
    }

    pub fn type_error(operation: &str, operand_type: &str) -> (e: Self)
        ensures
            e@ == (ErrorV::TypeError { operation: operation@, operand_type: operand_type@ }),
    {
        Self::TypeError { operation: operation.to_owned(), operand_type: operand_type.to_owned() }
    }

    pub fn division_by_zero(line: usize) -> (e: Self)
        ensures
            e@ == (ErrorV::DivisionByZero { line: line as nat }),
    {
        Self::DivisionByZero { line }
    }
}

/// The user-facing text of an error, with source position where available.
pub open spec fn spec_error_render(e: ErrorV) -> Seq<char> {
    match e {
        ErrorV::UnexpectedChar { ch, line, column } => seq!['['] + spec_dec(line) + seq![':']
            + spec_dec(column) + "] Unexpected character '"@ + seq![ch] + seq!['\''],
        ErrorV::UnterminatedString { line, column } => seq!['['] + spec_dec(line) + seq![':']
            + spec_dec(column) + "] Unterminated string literal"@,
        ErrorV::InvalidNumber { lexeme, line, column } => seq!['['] + spec_dec(line) + seq![':']
            + spec_dec(column) + "] Invalid number: '"@ + lexeme + seq!['\''],
        ErrorV::UnexpectedToken { expected, found, line, column } => {
            let head = seq!['['] + spec_dec(line) + seq![':'] + spec_dec(column) + seq![']'];
            match expected {
                Option::Some(k) => head + " Expected "@ + spec_kind_debug(k) + ", found "@
                    + spec_kind_debug(found),
                Option::None => head + " Unexpected token: "@ + spec_kind_debug(found),
            }
        },
        ErrorV::InvalidInstruction { opcode, offset } => "Invalid instruction 0x"@ + spec_hex(
            opcode as nat,
        ) + " at offset "@ + spec_dec(offset),
        ErrorV::StackUnderflow { operation } => "Stack underflow during "@ + operation,
        ErrorV::TypeError { operation, operand_type } => "Type error: cannot "@ + operation + " on "@
            + operand_type,
        ErrorV::DivisionByZero { line } => seq!['['] + spec_dec(line) + "] Division by zero"@,
    }
}

impl Error {
    /// The user-facing text of this error.
    pub fn render(&self) -> (s: String)
        ensures
            s@ == spec_error_render(self@),
    {
        let mut out: Vec<char> = Vec::new();
        match self {
            Error::UnexpectedChar { ch, line, column } => {
                out.push('[');
                let d = dec_chars(*line as u64);
                append_chars(&mut out, d.as_slice());
                out.push(':');
                let d = dec_chars(*column as u64);
                append_chars(&mut out, d.as_slice());
                append_str(&mut out, "] Unexpected character '");
                out.push(*ch);
                out.push('\'');
            },
            Error::UnterminatedString { line, column } => {
                out.push('[');
                let d = dec_chars(*line as u64);
                append_chars(&mut out, d.as_slice());
                out.push(':');
                let d = dec_chars(*column as u64);
                append_chars(&mut out, d.as_slice());
                append_str(&mut out, "] Unterminated string literal");
            },
            Error::InvalidNumber { lexeme, line, column } => {
                out.push('[');
                let d = dec_chars(*line as u64);
                append_chars(&mut out, d.as_slice());
                out.push(':');
                let d = dec_chars(*column as u64);
                append_chars(&mut out, d.as_slice());
                append_str(&mut out, "] Invalid number: '");
                append_str(&mut out, lexeme.as_str());
                out.push('\'');
            },
            Error::UnexpectedToken { expected, found, line, column } => {
                out.push('[');
                let d = dec_chars(*line as u64);
                append_chars(&mut out, d.as_slice());
                out.push(':');
                let d = dec_chars(*column as u64);
                append_chars(&mut out, d.as_slice());
                out.push(']');
                match expected {
                    Option::Some(k) => {
                        append_str(&mut out, " Expected ");
                        let n = crate::lex::kind_debug_chars(*k);
                        append_chars(&mut out, n.as_slice());
                        append_str(&mut out, ", found ");
                        let n = crate::lex::kind_debug_chars(*found);
                        append_chars(&mut out, n.as_slice());
                    },
                    Option::None => {
                        append_str(&mut out, " Unexpected token: ");
                        let n = crate::lex::kind_debug_chars(*found);
                        append_chars(&mut out, n.as_slice());
                    },
                }
            },
            Error::InvalidInstruction { opcode, offset } => {
                append_str(&mut out, "Invalid instruction 0x");
                let h = hex_chars(*opcode as u64);
                append_chars(&mut out, h.as_slice());
                append_str(&mut out, " at offset ");
                let d = dec_chars(*offset as u64);
                append_chars(&mut out, d.as_slice());
            },
            Error::StackUnderflow { operation } => {
                append_str(&mut out, "Stack underflow during ");
                append_str(&mut out, operation.as_str());
            },
            Error::TypeError { operation, operand_type } => {
                append_str(&mut out, "Type error: cannot ");
                append_str(&mut out, operation.as_str());
                append_str(&mut out, " on ");
                append_str(&mut out, operand_type.as_str());
            },
            Error::DivisionByZero { line } => {
                out.push('[');
                let d = dec_chars(*line as u64);
                append_chars(&mut out, d.as_slice());
                append_str(&mut out, "] Division by zero");
            },
        }
        string_from_chars(out.as_slice())
    }
}

} // verus!
