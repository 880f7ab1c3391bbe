use loxemu::lex::Lexer;
use loxemu::lex::TokenKind;
use loxemu::Error;

#[test]
fn test_lexer() {
    let test_input = "// how many nodes\nvar count = 0;\nclass Tree {}\nfun main() {\n  print count + 1.5;\n}\n";
    let test_output = "VAR <2, 1> var\nIDENTIFIER <2, 5> count\nEQUAL <2, 11> =\nNUMBER <2, 13> 0\nSEMICOLON <2, 14> ;\nCLASS <3, 1> class\nIDENTIFIER <3, 7> Tree\nLEFT_BRACE <3, 12> {\nRIGHT_BRACE <3, 13> }\nFUN <4, 1> fun\nIDENTIFIER <4, 5> main\nLEFT_PAREN <4, 9> (\nRIGHT_PAREN <4, 10> )\nLEFT_BRACE <4, 12> {\nPRINT <5, 3> print\nIDENTIFIER <5, 9> count\nPLUS <5, 15> +\nNUMBER <5, 17> 1.5\nSEMICOLON <5, 20> ;\nRIGHT_BRACE <6, 1> }";
    let mut expected_lins = test_output.lines();

    let mut lexer = Lexer::new(test_input);
    let mut tokens: Vec<loxemu::lex::Token> = Vec::new();
    let all_ok: Result<(), Error> = loop {
        match lexer.next_token() {
            None => break Ok(()),
            Some(Ok(token)) => tokens.push(token),
            Some(Err(e)) => break Err(e),
        }
    };
    assert!(all_ok.is_ok());
    for token in tokens {
        assert_eq!(Some(token.render().as_str()), expected_lins.next());
    }
    assert!(expected_lins.next().is_none());
}

#[test]
fn lexer_two_character_operators() {
    let mut lexer = Lexer::new("<= >= == != < > ! =");
    let mut kinds = Vec::new();
    while let Some(r) = lexer.next_token() {
        kinds.push(r.unwrap().kind);
    }
    assert_eq!(
        kinds,
        vec![
            TokenKind::LessEqual,
            TokenKind::GreaterEqual,
            TokenKind::EqualEqual,
            TokenKind::BangEqual,
            TokenKind::Less,
            TokenKind::Greater,
            TokenKind::Bang,
            TokenKind::Equal,
        ]
    );
}

#[test]
fn lexer_string_literals() {
    let mut lexer = Lexer::new("\"hello there\" tail");
    let t = lexer.next_token().unwrap().unwrap();
    assert_eq!(t.kind, loxemu::lex::TokenKind::String);
    assert_eq!(t.lexeme, "\"hello there\"");
    assert_eq!((t.line, t.column), (1, 1));
    let t = lexer.next_token().unwrap().unwrap();
    assert_eq!(t.lexeme, "tail");
    assert_eq!((t.line, t.column), (1, 15));
    assert!(lexer.next_token().is_none());
}

#[test]
fn lexer_unterminated_string() {
    let mut lexer = Lexer::new("  \"never closed");
    match lexer.next_token() {
        Some(Err(Error::UnterminatedString { line, column })) => {
            assert_eq!((line, column), (1, 3));
        }
        _ => panic!("expected an unterminated-string error"),
    }
    // the malformed literal was consumed; scanning can continue
    assert!(lexer.next_token().is_none());
}

#[test]
fn lexer_unexpected_character() {
    let mut lexer = Lexer::new("1 # 2");
    assert_eq!(lexer.next_token().unwrap().unwrap().lexeme, "1");
    match lexer.next_token() {
        Some(Err(Error::UnexpectedChar { ch, line, column })) => {
            assert_eq!(ch, '#');
            assert_eq!((line, column), (1, 3));
        }
        _ => panic!("expected an unexpected-character error"),
    }
    // the character was consumed; scanning continues
    assert_eq!(lexer.next_token().unwrap().unwrap().lexeme, "2");
    assert!(lexer.next_token().is_none());
}

#[test]
fn lexer_totality_on_clean_input() {
    // the concatenated lexemes plus skipped whitespace and comments
    // reconstruct the input exactly; here the skipped text is one comment
    // (with its newline) and the blanks between tokens
    let input = "// note\n1 + 23 * foo;\n";
    let mut lexer = Lexer::new(input);
    let mut lexemes = String::new();
    while let Some(r) = lexer.next_token() {
        lexemes.push_str(&r.unwrap().lexeme);
    }
    assert_eq!(lexemes, "1+23*foo;");
    let skipped: String = {
        let mut rest = input.to_string();
        for piece in ["1", "+", "23", "*", "foo", ";"] {
            rest = rest.replacen(piece, "", 1);
        }
        rest
    };
    assert_eq!(skipped, "// note\n    \n");
    assert_eq!(skipped.len() + lexemes.len(), input.len());
}

#[test]
fn lexer_number_with_trailing_dot() {
    // the decimal point is consumed only when embedded between digits
    let mut lexer = Lexer::new("12. 3.5.6");
    let t = lexer.next_token().unwrap().unwrap();
    assert_eq!((t.kind, t.lexeme.as_str()), (loxemu::lex::TokenKind::Number, "12"));
    let t = lexer.next_token().unwrap().unwrap();
    assert_eq!(t.kind, loxemu::lex::TokenKind::Dot);
    let t = lexer.next_token().unwrap().unwrap();
    assert_eq!((t.kind, t.lexeme.as_str()), (loxemu::lex::TokenKind::Number, "3.5"));
    let t = lexer.next_token().unwrap().unwrap();
    assert_eq!(t.kind, loxemu::lex::TokenKind::Dot);
    let t = lexer.next_token().unwrap().unwrap();
    assert_eq!((t.kind, t.lexeme.as_str()), (loxemu::lex::TokenKind::Number, "6"));
    assert!(lexer.next_token().is_none());
}
