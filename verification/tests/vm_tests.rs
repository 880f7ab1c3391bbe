use loxemu::vm::{ArithKind, Chunk, Effect, OpCode, VM};
use loxemu::{Error, Value};

/// Drives the machine to completion, supplying native floating-point
/// arithmetic for the effects it hands out.
fn run_vm(vm: &mut VM) -> Result<(), Error> {
    loop {
        assert!(vm.ip < vm.chunk.code.len(), "ran off the end of the chunk");
        if vm.chunk.code[vm.ip] == OpCode::Constant.to_byte() {
            assert!(vm.ip + 1 < vm.chunk.code.len());
            assert!((vm.chunk.code[vm.ip + 1] as usize) < vm.chunk.constants.len());
        }
        match vm.step()? {
            Effect::Done => return Ok(()),
            Effect::Proceed => {}
            Effect::Arith { op, lhs, rhs } => {
                let a: f64 = lhs.parse().expect("operand text is a number");
                let b: f64 = rhs.parse().expect("operand text is a number");
                let r = match op {
                    ArithKind::Add => a + b,
                    ArithKind::Sub => a - b,
                    ArithKind::Mul => a * b,
                    ArithKind::Div => a / b,
                };
                vm.push_number(format!("{}", r));
            }
            Effect::Negate { operand } => {
                let a: f64 = operand.parse().expect("operand text is a number");
                vm.push_number(format!("{}", -a));
            }
            Effect::Output { value } => {
                println!("> {}", value.render());
            }
        }
    }
}

#[test]
fn vm_tests() {
    {
        let mut chunk = Chunk::new("test bytes 1");

        let id = chunk.write_constant(Value::Number("1.25".to_string()));
        chunk.emit_op(OpCode::Constant);
        chunk.emit(id as u8);
        chunk.emit_op(OpCode::Return);

        assert!(chunk.check_code());
        let output = chunk.disassemble();
        let mut dissassembled = output.lines();
        assert_eq!(dissassembled.next(), Some("=== test bytes 1 ==="));
        assert_eq!(dissassembled.next(), Some("0001 - Const 0 (1.25)"));
        assert_eq!(dissassembled.next(), Some("0003 - Return"));

        let mut vm = VM::new(chunk);
        run_vm(&mut vm).unwrap();
        assert_eq!(vm.stack.len(), 1);
        assert_eq!(vm.stack.first(), Some(&Value::Number("1.25".to_string())));
    }
    {
        let mut chunk = Chunk::new("test bytes 2");

        // - ((1.25 + 3.5) / 4.75)
        let id = chunk.write_constant(Value::Number("1.25".to_string()));
        chunk.emit_op(OpCode::Constant);
        chunk.emit(id as u8);
        let id = chunk.write_constant(Value::Number("3.5".to_string()));
        chunk.emit_op(OpCode::Constant);
        chunk.emit(id as u8);
        chunk.emit_op(OpCode::OpAdd);
        let id = chunk.write_constant(Value::Number("4.75".to_string()));
        chunk.emit_op(OpCode::Constant);
        chunk.emit(id as u8);
        chunk.emit_op(OpCode::OpDivide);
        chunk.emit_op(OpCode::OpNegate);
        chunk.emit_op(OpCode::Return);

        assert!(chunk.check_code());
        let output = chunk.disassemble();
        let mut dissassembled = output.lines();
        assert_eq!(dissassembled.next(), Some("=== test bytes 2 ==="));
        assert_eq!(dissassembled.next(), Some("0001 - Const 0 (1.25)"));
        assert_eq!(dissassembled.next(), Some("0003 - Const 1 (3.5)"));
        assert_eq!(dissassembled.next(), Some("0005 - Add"));
        assert_eq!(dissassembled.next(), Some("0006 - Const 2 (4.75)"));
        assert_eq!(dissassembled.next(), Some("0008 - Div"));
        assert_eq!(dissassembled.next(), Some("0009 - Neg"));
        assert_eq!(dissassembled.next(), Some("0010 - Return"));

        let mut vm = VM::new(chunk);
        run_vm(&mut vm).unwrap();
        assert_eq!(vm.stack.len(), 1);
        assert_eq!(vm.stack.first(), Some(&Value::Number("-1".to_string())));
    }
}

#[test]
fn vm_type_error_on_mixed_addition() {
    // executing OpAdd over one Bool and one Number operand fails with a
    // TypeError naming addition
    let mut chunk = Chunk::new("mixed");
    chunk.emit_op(OpCode::OpAdd);
    chunk.emit_op(OpCode::Return);
    let mut vm = VM::new(chunk);
    vm.stack.push(Value::Bool(true));
    vm.stack.push(Value::Number("1".to_string()));
    match vm.step() {
        Err(Error::TypeError { operation, operand_type }) => {
            assert_eq!(operation, "addition");
            assert_eq!(operand_type, "mix of number ans string");
        }
        _ => panic!("expected a type error"),
    }
}

#[test]
fn vm_stack_underflow_on_empty_stack() {
    // popping from an empty stack on any arithmetic opcode fails with
    // StackUnderflow, never a panic or an out-of-bounds read
    for op in [OpCode::OpAdd, OpCode::OpSubtract, OpCode::OpMultiply, OpCode::OpDivide] {
        let mut chunk = Chunk::new("empty");
        chunk.emit_op(op);
        let mut vm = VM::new(chunk);
        match vm.step() {
            Err(Error::StackUnderflow { operation }) => {
                assert_eq!(operation, "Corruption while doing binary operator");
            }
            _ => panic!("expected a stack underflow"),
        }
        assert!(vm.stack.is_empty());
    }
    let mut chunk = Chunk::new("empty");
    chunk.emit_op(OpCode::OpNegate);
    let mut vm = VM::new(chunk);
    match vm.step() {
        Err(Error::StackUnderflow { operation }) => {
            assert_eq!(operation, "Corruption while doing unary operator");
        }
        _ => panic!("expected a stack underflow"),
    }
}

#[test]
fn vm_invalid_opcode() {
    // a byte outside the opcode range fails with InvalidInstruction
    // carrying the exact byte and its offset
    let mut chunk = Chunk::new("bad");
    chunk.emit_op(OpCode::Return);
    chunk.emit(42);
    let mut vm = VM::new(chunk);
    vm.ip = 1;
    match vm.step() {
        Err(Error::InvalidInstruction { opcode, offset }) => {
            assert_eq!(opcode, 42);
            assert_eq!(offset, 1);
        }
        _ => panic!("expected an invalid-instruction error"),
    }
    assert!(!vm.chunk.check_code());
}

#[test]
fn vm_string_concatenation() {
    let mut chunk = Chunk::new("concat");
    let a = chunk.write_constant(Value::String("foo".to_string()));
    chunk.emit_op(OpCode::Constant);
    chunk.emit(a as u8);
    let b = chunk.write_constant(Value::String("bar".to_string()));
    chunk.emit_op(OpCode::Constant);
    chunk.emit(b as u8);
    chunk.emit_op(OpCode::OpAdd);
    chunk.emit_op(OpCode::Return);
    let mut vm = VM::new(chunk);
    run_vm(&mut vm).unwrap();
    assert_eq!(vm.stack.len(), 1);
    assert_eq!(vm.stack.first(), Some(&Value::String("foobar".to_string())));
}

#[test]
fn vm_pop_and_print() {
    let mut chunk = Chunk::new("popping");
    let id = chunk.write_constant(Value::Number("7".to_string()));
    chunk.emit_op(OpCode::Constant);
    chunk.emit(id as u8);
    chunk.emit_op(OpCode::OpPop);
    chunk.emit_op(OpCode::Return);
    let mut vm = VM::new(chunk);
    run_vm(&mut vm).unwrap();
    assert!(vm.stack.is_empty());

    let mut chunk = Chunk::new("printing");
    chunk.emit_op(OpCode::Print);
    let mut vm = VM::new(chunk);
    match vm.step() {
        Err(Error::StackUnderflow { operation }) => assert_eq!(operation, "No value to print"),
        _ => panic!("expected a stack underflow"),
    }

    let mut chunk = Chunk::new("printing");
    let id = chunk.write_constant(Value::Number("9".to_string()));
    chunk.emit_op(OpCode::Constant);
    chunk.emit(id as u8);
    chunk.emit_op(OpCode::Print);
    chunk.emit_op(OpCode::Return);
    let mut vm = VM::new(chunk);
    run_vm(&mut vm).unwrap();
    assert!(vm.stack.is_empty());
}

#[test]
fn opcode_bytes_round_trip() {
    let all = [
        OpCode::Constant,
        OpCode::OpAdd,
        OpCode::OpSubtract,
        OpCode::OpMultiply,
        OpCode::OpDivide,
        OpCode::OpNegate,
        OpCode::OpPop,
        OpCode::Print,
        OpCode::Return,
    ];
    for (i, op) in all.iter().enumerate() {
        assert_eq!(op.to_byte() as usize, i);
        assert_eq!(OpCode::from_byte(op.to_byte()), Some(*op));
    }
    for b in 9u8..=255 {
        assert_eq!(OpCode::from_byte(b), None);
    }
}
