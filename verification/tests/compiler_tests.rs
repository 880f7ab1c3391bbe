use loxemu::compiler::compile;
use loxemu::Parser;

#[test]
fn compiler_tests() {
    {
        let input = "1.25;";
        let mut parser = Parser::new(input).unwrap();
        let stmt = parser.statement().unwrap();
        let chunk = compile(&stmt);

        assert!(chunk.check_code());
        let output = chunk.disassemble();
        let mut dissassembled = output.lines();
        assert_eq!(dissassembled.next(), Some("=== main ==="));
        assert_eq!(dissassembled.next(), Some("0001 - Const 0 (1.25)"));
    }
    {
        let input = "-((1.25 + 3.5) / 5.75);";
        let mut parser = Parser::new(input).unwrap();
        let stmt = parser.statement().unwrap();
        let chunk = compile(&stmt);

        assert!(chunk.check_code());
        let output = chunk.disassemble();
        let mut dissassembled = output.lines();
        assert_eq!(dissassembled.next(), Some("=== main ==="));
        assert_eq!(dissassembled.next(), Some("0001 - Const 0 (1.25)"));
        assert_eq!(dissassembled.next(), Some("0003 - Const 1 (3.5)"));
        assert_eq!(dissassembled.next(), Some("0005 - Add"));
        assert_eq!(dissassembled.next(), Some("0006 - Const 2 (5.75)"));
        assert_eq!(dissassembled.next(), Some("0008 - Div"));
        assert_eq!(dissassembled.next(), Some("0009 - Neg"));
    }
}

#[test]
fn compile_print_statement() {
    let mut parser = Parser::new("print 2 + 3;").unwrap();
    let stmt = parser.statement().unwrap();
    let chunk = compile(&stmt);

    assert!(chunk.check_code());
    let output = chunk.disassemble();
    let mut lines = output.lines();
    assert_eq!(lines.next(), Some("=== main ==="));
    assert_eq!(lines.next(), Some("0001 - Const 0 (2)"));
    assert_eq!(lines.next(), Some("0003 - Const 1 (3)"));
    assert_eq!(lines.next(), Some("0005 - Add"));
    assert_eq!(lines.next(), Some("0006 - Print"));
    assert_eq!(lines.next(), None);
}

#[test]
fn compile_constant_pool_index_wraps_at_256() {
    // the pool index is one byte; past 255 constants it wraps silently, an
    // unchecked limitation of the format
    let mut source = String::from("0");
    for _ in 0..256 {
        source.push_str(" + 0");
    }
    source.push(';');
    let mut parser = Parser::new(&source).unwrap();
    let stmt = parser.statement().unwrap();
    let chunk = compile(&stmt);
    assert_eq!(chunk.constants.len(), 257);
    // constant k (for k >= 1) is loaded at byte 2 + (k - 1) * 3, so its
    // operand byte sits at 3 * k; the 257th wrapped back to zero
    assert_eq!(chunk.code[3 * 255], 255);
    assert_eq!(chunk.code[3 * 256], 0);
    assert!(chunk.check_code());
}

#[test]
fn compile_unary_plus_emits_add() {
    // a unary `+` lowers to `OpAdd`, as the format defines it
    let mut parser = Parser::new("+8;").unwrap();
    let stmt = parser.statement().unwrap();
    let chunk = compile(&stmt);

    let output = chunk.disassemble();
    let mut lines = output.lines();
    assert_eq!(lines.next(), Some("=== main ==="));
    assert_eq!(lines.next(), Some("0001 - Const 0 (8)"));
    assert_eq!(lines.next(), Some("0003 - Add"));
    assert_eq!(lines.next(), None);
}
