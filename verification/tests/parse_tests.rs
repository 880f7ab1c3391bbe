use loxemu::ast::ExpressionStmt;
use loxemu::Parser;

fn parse_expr(s: &str) -> ExpressionStmt {
    let mut parser = Parser::new(s).expect("failed to lex input");
    parser.expression().expect("failed to parse input")
}

#[test]
fn parse_tests() {
    let s = parse_expr("1");
    assert_eq!(s.render(), "1");

    let s = parse_expr("1 + 2 * 3");
    assert_eq!(s.render(), "(+ 1 (* 2 3))");

    let s = parse_expr("a + Bar * cloc * de12 + ebin");
    assert_eq!(s.render(), "(+ (+ a (* (* Bar cloc) de12)) ebin)");

    let s = parse_expr("--1 * 2");
    assert_eq!(s.render(), "(* (- (- 1)) 2)");

    let s = parse_expr("+--foo");
    assert_eq!(s.render(), "(+ (- (- foo)))");

    let s = parse_expr("(((0)))");
    assert_eq!(s.render(), "0");
}

#[test]
fn parse_statement_kinds() {
    let mut parser = Parser::new("var answer = 6 * 7;").unwrap();
    match parser.statement().unwrap() {
        loxemu::ast::Statement::VarDeclaration(name, Some(init)) => {
            assert_eq!(name, "answer");
            assert_eq!(init.render(), "(* 6 7)");
        }
        _ => panic!("expected a var declaration"),
    }

    let mut parser = Parser::new("var empty;").unwrap();
    match parser.statement().unwrap() {
        loxemu::ast::Statement::VarDeclaration(name, None) => assert_eq!(name, "empty"),
        _ => panic!("expected a var declaration without initializer"),
    }

    let mut parser = Parser::new("print 1 + 2;").unwrap();
    match parser.statement().unwrap() {
        loxemu::ast::Statement::Print(p) => assert_eq!(p.render(), "(print (+ 1 2))"),
        _ => panic!("expected a print statement"),
    }

    let mut parser = Parser::new("1.25;").unwrap();
    match parser.statement().unwrap() {
        loxemu::ast::Statement::Expression(e) => assert_eq!(e.render(), "1.25"),
        _ => panic!("expected an expression statement"),
    }
}

#[test]
fn parse_empty_input() {
    // empty input tokenizes to the synthetic Eof alone, at line 0, column 0
    let mut parser = Parser::new("").unwrap();
    match parser.expression() {
        Err(loxemu::Error::UnexpectedToken { expected: None, found, line, column }) => {
            assert_eq!(found, loxemu::lex::TokenKind::Eof);
            assert_eq!((line, column), (0, 0));
        }
        _ => panic!("expected an unexpected-token error"),
    }

    let mut lexer = loxemu::Lexer::new("");
    assert!(lexer.next_token().is_none());

    let mut lexer = loxemu::Lexer::new("   // just a comment");
    assert!(lexer.next_token().is_none());
}

#[test]
fn parse_error_positions() {
    // a parenthesized expression demands its closing parenthesis
    let mut parser = Parser::new("(1 + 2").unwrap();
    match parser.expression() {
        Err(loxemu::Error::UnexpectedToken { expected, found, .. }) => {
            assert_eq!(expected, Some(loxemu::lex::TokenKind::RightParen));
            assert_eq!(found, loxemu::lex::TokenKind::Eof);
        }
        _ => panic!("expected an unexpected-token error"),
    }

    // a statement demands its terminating semicolon
    let mut parser = Parser::new("1.25").unwrap();
    match parser.statement() {
        Err(loxemu::Error::UnexpectedToken { expected, found, line, column }) => {
            assert_eq!(expected, Some(loxemu::lex::TokenKind::Semicolon));
            assert_eq!(found, loxemu::lex::TokenKind::Eof);
            assert_eq!((line, column), (1, 1));
        }
        _ => panic!("expected an unexpected-token error"),
    }

    // a token that can neither start nor continue an expression
    let mut parser = Parser::new("1 + ;").unwrap();
    match parser.expression() {
        Err(loxemu::Error::UnexpectedToken { expected: None, found, line, column }) => {
            assert_eq!(found, loxemu::lex::TokenKind::Semicolon);
            assert_eq!((line, column), (1, 5));
        }
        _ => panic!("expected an unexpected-token error"),
    }

    // the first lexer error is fatal for parser construction
    match Parser::new("1 + @") {
        Err(loxemu::Error::UnexpectedChar { ch, line, column }) => {
            assert_eq!(ch, '@');
            assert_eq!((line, column), (1, 5));
        }
        _ => panic!("expected the lexer's error"),
    }
}
