//! Lowering one statement tree into a chunk: post-order over the expression,
//! emitting `Constant` for each number literal (appending it to the constant
//! pool) and the matching opcode for each operator. The left operand of a
//! binary node is emitted first, which fixes the evaluation order.

use vstd::prelude::*;

use crate::ast::{spec_lowerable, ExprV, ExpressionStmt, PrintStmt, Statement, StmtV};
use crate::text::str_eq;
use crate::value::{Value, ValueV};
use crate::vm::{spec_opcode_byte, Chunk, ChunkV, OpCode};

verus! {

/// The bytes and constants that lowering `e` appends after `code` and
/// `consts`. A number emits `Constant` with the pool index truncated to one
/// byte (an index past 255 wraps: an unchecked limitation of the format).
pub open spec fn spec_compile_expr(e: ExprV, code: Seq<u8>, consts: Seq<ValueV>) -> (
    Seq<u8>,
    Seq<ValueV>,
)
    decreases e,
{
    match e {
        ExprV::Number(t) => (
            code.push(spec_opcode_byte(OpCode::Constant)).push((consts.len() % 256) as u8),
            consts.push(ValueV::Number(t)),
        ),
        ExprV::Identifier(_) => (code, consts),
        ExprV::Unary(op, operand) => {
            let r = spec_compile_expr(*operand, code, consts);
            if op == "+"@ {
                (r.0.push(spec_opcode_byte(OpCode::OpAdd)), r.1)
            } else {
                (r.0.push(spec_opcode_byte(OpCode::OpNegate)), r.1)
            }
        },
        ExprV::Binary(op, lhs, rhs) => {
            let l = spec_compile_expr(*lhs, code, consts);
            let r = spec_compile_expr(*rhs, l.0, l.1);
            let b = if op == "+"@ {
                OpCode::OpAdd
            } else if op == "-"@ {
                OpCode::OpSubtract
            } else if op == "/"@ {
                OpCode::OpDivide
            } else {
                OpCode::OpMultiply
            };
            (r.0.push(spec_opcode_byte(b)), r.1)
        },
    }
}

/// What [`compile`] can lower: an expression statement or a print statement
/// over a lowerable expression. Lowering for the other statement kinds is
/// not part of this design.
pub open spec fn spec_stmt_lowerable(s: StmtV) -> bool {
    match s {
        StmtV::Expression(e) => spec_lowerable(e),
        StmtV::Print(e) => spec_lowerable(e),
        _ => false,
    }
}

/// The code and constants of the chunk that compiling `s` produces.
pub open spec fn spec_compile_stmt(s: StmtV) -> (Seq<u8>, Seq<ValueV>) {
    match s {
        StmtV::Expression(e) => spec_compile_expr(e, Seq::empty(), Seq::empty()),
        StmtV::Print(e) => {
            let r = spec_compile_expr(e, Seq::empty(), Seq::empty());
            (r.0.push(spec_opcode_byte(OpCode::Print)), r.1)
        },
        _ => (Seq::empty(), Seq::empty()),
    }
}

/// Compiles one statement into a fresh chunk named `main`. An expression
/// statement leaves its one value on the stack (no `Print` or `Pop` is
/// emitted); a print statement emits `Print` after its expression.
pub fn compile(statement: &Statement) -> (chunk: Chunk)
    requires
        spec_stmt_lowerable(statement@),
    ensures
        ({
            let r = spec_compile_stmt(statement@);
            chunk@ == (ChunkV {
                name: "main"@,
                code: r.0,
                constants: r.1,
                variables: Seq::<ValueV>::empty(),
            })
        }),
{
    let mut chunk = Chunk::new("main");
    match statement {
        Statement::Expression(expr) => compile_expression(&mut chunk, expr),
        Statement::Print(print_stmt) => compile_print_expression(&mut chunk, print_stmt),
        _ => {
            proof {
                assert(false);
            }
        },
    }
    chunk
}

/// Lowers `expr`, appending its bytes and constants to `chunk`.
pub fn compile_expression(chunk: &mut Chunk, expr: &ExpressionStmt)
    requires
        spec_lowerable(expr@),
    ensures
        ({
            let r = spec_compile_expr(expr@, old(chunk)@.code, old(chunk)@.constants);
            final(chunk)@ == (ChunkV { code: r.0, constants: r.1, ..old(chunk)@ })
        }),
    decreases expr, 0int,
{
    match expr {
        ExpressionStmt::Number(t) => compile_number(chunk, t),
        ExpressionStmt::Identifier(_) => {
            // identifier lowering has no bytecode yet; ruled out by the caller
            proof {
                assert(false);
            }
        },
        ExpressionStmt::Unary(op, operand) => compile_unary(chunk, op, operand),
        ExpressionStmt::Binary(op, operands) => compile_binary(chunk, op, operands),
    }
}

/// Lowers a number literal: the constant, then `Constant` with its index.
fn compile_number(chunk: &mut Chunk, text: &String)
    ensures
        final(chunk)@ == (ChunkV {
            code: old(chunk)@.code.push(spec_opcode_byte(OpCode::Constant)).push(
                (old(chunk)@.constants.len() % 256) as u8,
            ),
            constants: old(chunk)@.constants.push(ValueV::Number(text@)),
            ..old(chunk)@
        }),
{
    let id = chunk.write_constant(Value::Number(text.clone()));
    chunk.emit_op(OpCode::Constant);
    chunk.emit((id % 256) as u8);
}

/// Lowers a unary application: the operand, then `OpAdd` for `+` and
/// `OpNegate` for `-`.
fn compile_unary(chunk: &mut Chunk, op: &String, expr: &ExpressionStmt)
    requires
        op@ == "+"@ || op@ == "-"@,
        spec_lowerable(expr@),
    ensures
        ({
            let r = spec_compile_expr(expr@, old(chunk)@.code, old(chunk)@.constants);
            final(chunk)@ == (ChunkV {
                code: if op@ == "+"@ {
                    r.0.push(spec_opcode_byte(OpCode::OpAdd))
                } else {
                    r.0.push(spec_opcode_byte(OpCode::OpNegate))
                },
                constants: r.1,
                ..old(chunk)@
            })
        }),
    decreases expr, 1int,
{
    compile_expression(chunk, expr);
    if str_eq(op.as_str(), "+") {
        chunk.emit_op(OpCode::OpAdd);
    } else {
        chunk.emit_op(OpCode::OpNegate);
    }
}

/// Lowers a binary application: left operand, right operand, then the opcode
/// of the operator.
fn compile_binary(chunk: &mut Chunk, op: &String, expr_pair: &(ExpressionStmt, ExpressionStmt))
    requires
        op@ == "+"@ || op@ == "-"@ || op@ == "*"@ || op@ == "/"@,
        spec_lowerable(expr_pair.0@),
        spec_lowerable(expr_pair.1@),
    ensures
        ({
            let l = spec_compile_expr(expr_pair.0@, old(chunk)@.code, old(chunk)@.constants);
            let r = spec_compile_expr(expr_pair.1@, l.0, l.1);
            let b = if op@ == "+"@ {
                OpCode::OpAdd
            } else if op@ == "-"@ {
                OpCode::OpSubtract
            } else if op@ == "/"@ {
                OpCode::OpDivide
            } else {
                OpCode::OpMultiply
            };
            final(chunk)@ == (ChunkV {
                code: r.0.push(spec_opcode_byte(b)),
                constants: r.1,
                ..old(chunk)@
            })
        }),
    decreases expr_pair, 1int,
{
    compile_expression(chunk, &expr_pair.0);
    compile_expression(chunk, &expr_pair.1);
    if str_eq(op.as_str(), "+") {
        chunk.emit_op(OpCode::OpAdd);
    } else if str_eq(op.as_str(), "-") {
        chunk.emit_op(OpCode::OpSubtract);
    } else if str_eq(op.as_str(), "/") {
        chunk.emit_op(OpCode::OpDivide);
    } else {
        chunk.emit_op(OpCode::OpMultiply);
    }
}

/// Lowers a print statement: its expression, then `Print`.
fn compile_print_expression(chunk: &mut Chunk, print_stmt: &PrintStmt)
    requires
        spec_lowerable(print_stmt@),
    ensures
        ({
            let r = spec_compile_expr(print_stmt@, old(chunk)@.code, old(chunk)@.constants);
            final(chunk)@ == (ChunkV {
                code: r.0.push(spec_opcode_byte(OpCode::Print)),
                constants: r.1,
                ..old(chunk)@
            })
        }),
{
    compile_expression(chunk, &print_stmt.expr);
    chunk.emit_op(OpCode::Print);
}

} // verus!
