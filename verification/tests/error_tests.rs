use loxemu::lex::{Token, TokenKind};
use loxemu::Error;

#[test]
fn error_messages() {
    assert_eq!(
        Error::unexpected_char('@', 3, 7).render(),
        "[3:7] Unexpected character '@'"
    );
    assert_eq!(
        Error::unterminated_string(2, 10).render(),
        "[2:10] Unterminated string literal"
    );
    let tok = Token { kind: TokenKind::Number, lexeme: "1.2.3".to_string(), line: 4, column: 9 };
    assert_eq!(
        Error::invalid_number(&tok).render(),
        "[4:9] Invalid number: '1.2.3'"
    );
    let tok = Token { kind: TokenKind::Eof, lexeme: String::new(), line: 1, column: 5 };
    assert_eq!(
        Error::unexpected_token(Some(TokenKind::RightParen), &tok).render(),
        "[1:5] Expected RightParen, found Eof"
    );
    assert_eq!(
        Error::unexpected_token(None, &tok).render(),
        "[1:5] Unexpected token: Eof"
    );
    assert_eq!(
        Error::invalid_instruction(42, 7).render(),
        "Invalid instruction 0x2a at offset 7"
    );
    assert_eq!(
        Error::invalid_instruction(9, 0).render(),
        "Invalid instruction 0x9 at offset 0"
    );
    assert_eq!(
        Error::stack_underflow("No value to pop").render(),
        "Stack underflow during No value to pop"
    );
    assert_eq!(
        Error::type_error("addition", "mix of number ans string").render(),
        "Type error: cannot addition on mix of number ans string"
    );
    assert_eq!(Error::division_by_zero(12).render(), "[12] Division by zero");
}

#[test]
fn token_rendering() {
    let tok = Token { kind: TokenKind::LeftParen, lexeme: "(".to_string(), line: 1, column: 1 };
    assert_eq!(tok.render(), "LEFT_PAREN <1, 1> (");
    let tok = Token { kind: TokenKind::Ident, lexeme: "while1".to_string(), line: 12, column: 34 };
    assert_eq!(tok.render(), "IDENTIFIER <12, 34> while1");
}
