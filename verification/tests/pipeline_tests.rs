use loxemu::compiler::compile;
use loxemu::vm::{ArithKind, Effect, OpCode, VM};
use loxemu::{Parser, Value};

/// Drives the machine to completion, supplying native floating-point
/// arithmetic for the effects it hands out.
fn drive(vm: &mut VM) {
    loop {
        assert!(vm.ip < vm.chunk.code.len(), "ran off the end of the chunk");
        if vm.chunk.code[vm.ip] == OpCode::Constant.to_byte() {
            assert!(vm.ip + 1 < vm.chunk.code.len());
            assert!((vm.chunk.code[vm.ip + 1] as usize) < vm.chunk.constants.len());
        }
        match vm.step().expect("execution failed") {
            Effect::Done => return,
            Effect::Proceed => {}
            Effect::Arith { op, lhs, rhs } => {
                let a: f64 = lhs.parse().unwrap();
                let b: f64 = rhs.parse().unwrap();
                let r = match op {
                    ArithKind::Add => a + b,
                    ArithKind::Sub => a - b,
                    ArithKind::Mul => a * b,
                    ArithKind::Div => a / b,
                };
                vm.push_number(format!("{}", r));
            }
            Effect::Negate { operand } => {
                let a: f64 = operand.parse().unwrap();
                vm.push_number(format!("{}", -a));
            }
            Effect::Output { value } => {
                println!("> {}", value.render());
            }
        }
    }
}

#[test]
fn end_to_end_single_constant() {
    let mut parser = Parser::new("1.25;").unwrap();
    let stmt = parser.statement().unwrap();
    let chunk = compile(&stmt);
    assert_eq!(chunk.disassemble(), "=== main ===\n0001 - Const 0 (1.25)\n");
}

#[test]
fn end_to_end_compile_and_run() {
    let mut parser = Parser::new("-((1.25 + 3.5) / 5.75);").unwrap();
    let stmt = parser.statement().unwrap();
    let mut chunk = compile(&stmt);

    let output = chunk.disassemble();
    let mut lines = output.lines();
    assert_eq!(lines.next(), Some("=== main ==="));
    assert_eq!(lines.next(), Some("0001 - Const 0 (1.25)"));
    assert_eq!(lines.next(), Some("0003 - Const 1 (3.5)"));
    assert_eq!(lines.next(), Some("0005 - Add"));
    assert_eq!(lines.next(), Some("0006 - Const 2 (5.75)"));
    assert_eq!(lines.next(), Some("0008 - Div"));
    assert_eq!(lines.next(), Some("0009 - Neg"));
    assert_eq!(lines.next(), None);

    chunk.emit_op(OpCode::Return);
    let mut vm = VM::new(chunk);
    drive(&mut vm);
    assert_eq!(vm.stack.len(), 1);
    // -((1.25 + 3.5) / 5.75) under native double-precision arithmetic
    assert_eq!(
        vm.stack.first(),
        Some(&Value::Number("-0.8260869565217391".to_string()))
    );
}

#[test]
fn end_to_end_print_program() {
    let mut parser = Parser::new("print (1 + 2) * 3;").unwrap();
    let stmt = parser.statement().unwrap();
    let mut chunk = compile(&stmt);
    chunk.emit_op(OpCode::Return);
    let mut vm = VM::new(chunk);

    let mut printed: Vec<String> = Vec::new();
    loop {
        match vm.step().expect("execution failed") {
            Effect::Done => break,
            Effect::Proceed => {}
            Effect::Arith { op, lhs, rhs } => {
                let a: f64 = lhs.parse().unwrap();
                let b: f64 = rhs.parse().unwrap();
                let r = match op {
                    ArithKind::Add => a + b,
                    ArithKind::Sub => a - b,
                    ArithKind::Mul => a * b,
                    ArithKind::Div => a / b,
                };
                vm.push_number(format!("{}", r));
            }
            Effect::Negate { operand } => {
                let a: f64 = operand.parse().unwrap();
                vm.push_number(format!("{}", -a));
            }
            Effect::Output { value } => printed.push(value.render()),
        }
    }
    assert_eq!(printed, vec!["9".to_string()]);
    assert!(vm.stack.is_empty());
}

#[test]
fn disassembly_format_is_stable() {
    // rendering then reading the text back must reproduce the byte stream;
    // here the re-parse is done by hand against the documented line shape
    let mut parser = Parser::new("1 + 2 * 3;").unwrap();
    let stmt = parser.statement().unwrap();
    let chunk = compile(&stmt);
    let text = chunk.disassemble();

    let mut bytes: Vec<u8> = Vec::new();
    for line in text.lines().skip(1) {
        let after_offset = line.splitn(2, " - ").nth(1).expect("line has a mnemonic");
        if let Some(rest) = after_offset.strip_prefix("Const ") {
            let id: u8 = rest.split(' ').next().unwrap().parse().unwrap();
            bytes.push(OpCode::Constant.to_byte());
            bytes.push(id);
        } else {
            let op = match after_offset {
                "Add" => OpCode::OpAdd,
                "Sub" => OpCode::OpSubtract,
                "Mul" => OpCode::OpMultiply,
                "Div" => OpCode::OpDivide,
                "Neg" => OpCode::OpNegate,
                "Pop" => OpCode::OpPop,
                "Print" => OpCode::Print,
                "Return" => OpCode::Return,
                _ => panic!("unknown mnemonic"),
            };
            bytes.push(op.to_byte());
        }
    }
    assert_eq!(bytes, chunk.code);
}
