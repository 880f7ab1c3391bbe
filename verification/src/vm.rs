//! The bytecode chunk, its disassembler, and the virtual machine.
//!
//! A chunk is a flat instruction stream — one opcode byte, for `Constant`
//! followed by one constant-pool index byte — beside an append-only constant
//! pool. The machine fetches, decodes and executes one instruction per
//! [`VM::step`]; combining two numbers (or negating one) needs the host's
//! native floating-point arithmetic, so such a step returns an [`Effect`]
//! carrying the numeric texts, and the host pushes the computed result back
//! with [`VM::push_number`].

use vstd::prelude::*;

use crate::error::{Error, ErrorV};
use crate::text::{
    append_chars, append_dec4, append_str, chars_vec, dec_chars, spec_dec, spec_dec4,
    string_from_chars,
};
use crate::value::{
    spec_checked_add, spec_checked_div, spec_checked_mul, spec_checked_sub, spec_value_render,
    Checked, CheckedV, Value, ValueV,
};

verus! {

// ---------------------------------------------------------------------------
// Opcodes
// ---------------------------------------------------------------------------

/// One instruction's tag byte, selecting behaviour and operand width:
/// `Constant` is two bytes (opcode plus pool index), all others one.
#[derive(Debug, Clone, Copy, PartialEq, Eq, Structural)]
pub enum OpCode {
    Constant,
    OpAdd,
    OpSubtract,
    OpMultiply,
    OpDivide,
    OpNegate,
    OpPop,
    Print,
    Return,
}

/// The byte an opcode is encoded as.
pub open spec fn spec_opcode_byte(op: OpCode) -> u8 {
    match op {
        OpCode::Constant => 0,
        OpCode::OpAdd => 1,
        OpCode::OpSubtract => 2,
        OpCode::OpMultiply => 3,
        OpCode::OpDivide => 4,
        OpCode::OpNegate => 5,
        OpCode::OpPop => 6,
        OpCode::Print => 7,
        OpCode::Return => 8,
    }
}

/// The opcode a byte decodes to, if any.
pub open spec fn spec_decode(b: u8) -> Option<OpCode> {
    if b == 0 {
        Some(OpCode::Constant)
    } else if b == 1 {
        Some(OpCode::OpAdd)
    } else if b == 2 {
        Some(OpCode::OpSubtract)
    } else if b == 3 {
        Some(OpCode::OpMultiply)
    } else if b == 4 {
        Some(OpCode::OpDivide)
    } else if b == 5 {
        Some(OpCode::OpNegate)
    } else if b == 6 {
        Some(OpCode::OpPop)
    } else if b == 7 {
        Some(OpCode::Print)
    } else if b == 8 {
        Some(OpCode::Return)
    } else {
        None
    }
}

/// Decoding inverts encoding.
pub proof fn lemma_decode_encode(op: OpCode)
    ensures
        spec_decode(spec_opcode_byte(op)) == Some(op),
{
}

/// Encoding inverts decoding.
pub proof fn lemma_encode_decode(b: u8)
    ensures
        spec_decode(b) matches Some(op) ==> spec_opcode_byte(op) == b,
{
}

/// The mnemonic an instruction is rendered as.
pub open spec fn spec_mnemonic(op: OpCode) -> Seq<char> {
    match op {
        OpCode::Constant => "Const"@,
        OpCode::OpAdd => "Add"@,
        OpCode::OpSubtract => "Sub"@,
        OpCode::OpMultiply => "Mul"@,
        OpCode::OpDivide => "Div"@,
        OpCode::OpNegate => "Neg"@,
        OpCode::OpPop => "Pop"@,
        OpCode::Print => "Print"@,
        OpCode::Return => "Return"@,
    }
}

impl OpCode {
    /// The byte this opcode is encoded as.
    pub fn to_byte(self) -> (b: u8)
        ensures
            b == spec_opcode_byte(self),
    {
        match self {
            OpCode::Constant => 0,
            OpCode::OpAdd => 1,
            OpCode::OpSubtract => 2,
            OpCode::OpMultiply => 3,
            OpCode::OpDivide => 4,
            OpCode::OpNegate => 5,
            OpCode::OpPop => 6,
            OpCode::Print => 7,
            OpCode::Return => 8,
        }
    }

    /// The opcode `b` decodes to, if it is in range.
    pub fn from_byte(b: u8) -> (r: Option<OpCode>)
        ensures
            r == spec_decode(b),
    {
        if b == 0 {
            Some(OpCode::Constant)
        } else if b == 1 {
            Some(OpCode::OpAdd)
        } else if b == 2 {
            Some(OpCode::OpSubtract)
        } else if b == 3 {
            Some(OpCode::OpMultiply)
        } else if b == 4 {
            Some(OpCode::OpDivide)
        } else if b == 5 {
            Some(OpCode::OpNegate)
        } else if b == 6 {
            Some(OpCode::OpPop)
        } else if b == 7 {
            Some(OpCode::Print)
        } else if b == 8 {
            Some(OpCode::Return)
        } else {
            None
        }
    }

    /// The mnemonic of this opcode as characters.
    pub fn mnemonic_chars(self) -> (r: Vec<char>)
        ensures
            r@ == spec_mnemonic(self),
    {
        match self {
            OpCode::Constant => chars_vec("Const"),
            OpCode::OpAdd => chars_vec("Add"),
            OpCode::OpSubtract => chars_vec("Sub"),
            OpCode::OpMultiply => chars_vec("Mul"),
            OpCode::OpDivide => chars_vec("Div"),
            OpCode::OpNegate => chars_vec("Neg"),
            OpCode::OpPop => chars_vec("Pop"),
            OpCode::Print => chars_vec("Print"),
            OpCode::Return => chars_vec("Return"),
        }
    }
}

// ---------------------------------------------------------------------------
// Chunks
// ---------------------------------------------------------------------------

/// A compiled unit: a name, the instruction bytes, the constant pool, and a
/// reserved (not yet wired) variable slot table.
pub struct Chunk {
    pub name: String,
    pub code: Vec<u8>,
    pub constants: Vec<Value>,
    pub variables: Vec<Value>,
}

/// The mathematical shape of a [`Chunk`].
pub struct ChunkV {
    pub name: Seq<char>,
    pub code: Seq<u8>,
    pub constants: Seq<ValueV>,
    pub variables: Seq<ValueV>,
}

impl View for Chunk {
    type V = ChunkV;

    open spec fn view(&self) -> ChunkV {
        ChunkV {
            name: self.name@,
            code: self.code@,
            constants: self.constants@.map_values(|v: Value| v@),
            variables: self.variables@.map_values(|v: Value| v@),
        }
    }
}

/// The instruction stream is well formed from `i` on: every opcode byte
/// decodes, and each `Constant` has its index byte, pointing into the pool.
pub open spec fn spec_code_wf(code: Seq<u8>, constants: Seq<ValueV>, i: int) -> bool
    decreases code.len() - i when 0 <= i <= code.len()
{
    if i >= code.len() {
        true
    } else {
        match spec_decode(code[i]) {
            None => false,
            Some(op) => if op is Constant {
                if i + 1 < code.len() && (code[i + 1] as int) < constants.len() {
                    spec_code_wf(code, constants, i + 2)
                } else {
                    false
                }
            } else {
                spec_code_wf(code, constants, i + 1)
            },
        }
    }
}

/// A chunk whose whole instruction stream is well formed.
pub open spec fn spec_chunk_wf(c: ChunkV) -> bool {
    spec_code_wf(c.code, c.constants, 0)
}

/// The rendered line of the instruction at `i`, without its newline:
/// `{offset+1:04} - {mnemonic}`, and for `Constant` ` {index} ({value})`.
pub open spec fn spec_instr_line(code: Seq<u8>, constants: Seq<ValueV>, i: int) -> Seq<char> {
    match spec_decode(code[i]) {
        Some(op) => {
            let head = spec_dec4((i + 1) as nat) + " - "@ + spec_mnemonic(op);
            if op is Constant {
                head + " "@ + spec_dec(code[i + 1] as nat) + " ("@ + spec_value_render(
                    constants[code[i + 1] as int],
                ) + ")"@
            } else {
                head
            }
        },
        None => Seq::empty(),
    }
}

/// How many bytes the instruction at `i` occupies.
pub open spec fn spec_instr_size(code: Seq<u8>, i: int) -> int {
    if spec_decode(code[i]) == Some(OpCode::Constant) {
        2
    } else {
        1
    }
}

/// The rendered instruction lines from `i` on, one per instruction, each
/// ending in a newline.
pub open spec fn spec_render_code(code: Seq<u8>, constants: Seq<ValueV>, i: int) -> Seq<char>
    decreases code.len() - i when 0 <= i <= code.len()
{
    if i >= code.len() {
        Seq::empty()
    } else {
        match spec_decode(code[i]) {
            None => Seq::empty(),
            Some(op) => {
                let step = spec_instr_size(code, i);
                let j = if i + step <= code.len() {
                    i + step
                } else {
                    code.len() as int
                };
                spec_instr_line(code, constants, i) + seq!['\n'] + spec_render_code(
                    code,
                    constants,
                    j,
                )
            },
        }
    }
}

/// A chunk's disassembly: the header line `=== {name} ===`, then one line
/// per instruction.
pub open spec fn spec_disassemble(c: ChunkV) -> Seq<char> {
    "=== "@ + c.name + " ==="@ + seq!['\n'] + spec_render_code(c.code, c.constants, 0)
}

impl Chunk {
    /// A fresh, empty chunk with this name.
    pub fn new(name: &str) -> (c: Chunk)
        ensures
            c@ == (ChunkV {
                name: name@,
                code: Seq::<u8>::empty(),
                constants: Seq::<ValueV>::empty(),
                variables: Seq::<ValueV>::empty(),
            }),
    {
        let c = Chunk {
            name: name.to_owned(),
            code: Vec::new(),
            constants: Vec::new(),
            variables: Vec::new(),
        };
        proof {
            assert(c.constants@.map_values(|v: Value| v@) =~= Seq::<ValueV>::empty());
            assert(c.variables@.map_values(|v: Value| v@) =~= Seq::<ValueV>::empty());
        }
        c
    }

    /// Appends one byte to the instruction stream.
    pub fn emit(&mut self, byte: u8)
        ensures
            final(self)@ == (ChunkV { code: old(self)@.code.push(byte), ..old(self)@ }),
    {
        self.code.push(byte);
    }

    /// Appends one opcode byte to the instruction stream.
    pub fn emit_op(&mut self, op: OpCode)
        ensures
            final(self)@ == (ChunkV {
                code: old(self)@.code.push(spec_opcode_byte(op)),
                ..old(self)@
            }),
    {
        let b = op.to_byte();
        self.code.push(b);
    }

    /// Appends a value to the constant pool and returns its index.
    pub fn write_constant(&mut self, val: Value) -> (id: usize)
        ensures
            final(self)@ == (ChunkV {
                constants: old(self)@.constants.push(val@),
                ..old(self)@
            }),
            id == old(self)@.constants.len(),
    {
        let ghost pre = self.constants@;
        self.constants.push(val);
        proof {
            assert(self.constants@.map_values(|v: Value| v@) =~= pre.map_values(|v: Value| v@)
                .push(self.constants@.last()@));
        }
        self.constants.len() - 1
    }

    /// Appends a value to the variable slot table and returns its index.
    pub fn write_variable(&mut self, val: Value) -> (id: usize)
        ensures
            final(self)@ == (ChunkV {
                variables: old(self)@.variables.push(val@),
                ..old(self)@
            }),
            id == old(self)@.variables.len(),
    {
        let ghost pre = self.variables@;
        self.variables.push(val);
        proof {
            assert(self.variables@.map_values(|v: Value| v@) =~= pre.map_values(|v: Value| v@)
                .push(self.variables@.last()@));
        }
        self.variables.len() - 1
    }

    /// Whether the whole instruction stream is well formed.
    pub fn check_code(&self) -> (b: bool)
        ensures
            b == spec_chunk_wf(self@),
    {
        let mut i: usize = 0;
        loop
            invariant
                i <= self.code.len(),
                spec_chunk_wf(self@) == spec_code_wf(self@.code, self@.constants, i as int),
            ensures
                spec_chunk_wf(self@),
            decreases self.code.len() - i,
        {
            if i == self.code.len() {
                break ;
            }
            match OpCode::from_byte(self.code[i]) {
                None => {
                    return false;
                },
                Some(OpCode::Constant) => {
                    if i + 1 < self.code.len() && (self.code[i + 1] as usize)
                        < self.constants.len() {
                        i = i + 2;
                    } else {
                        return false;
                    }
                },
                Some(_) => {
                    i = i + 1;
                },
            }
        }
        true
    }

    /// The disassembly of a well-formed chunk: byte-exact, one header line
    /// and one line per instruction.
    pub fn disassemble(&self) -> (s: String)
        requires
            spec_chunk_wf(self@),
        ensures
            s@ == spec_disassemble(self@),
    {
        let ghost cv = self@;
        let mut out: Vec<char> = Vec::new();
        append_str(&mut out, "=== ");
        append_str(&mut out, self.name.as_str());
        append_str(&mut out, " ===");
        out.push('\n');
        let mut i: usize = 0;
        proof {
            assert(out@ =~= "=== "@ + cv.name + " ==="@ + seq!['\n']);
        }
        loop
            invariant
                i <= self.code.len(),
                self@ == cv,
                spec_code_wf(cv.code, cv.constants, i as int),
                out@ + spec_render_code(cv.code, cv.constants, i as int) == spec_disassemble(cv),
            ensures
                out@ == spec_disassemble(cv),
            decreases self.code.len() - i,
        {
            if i == self.code.len() {
                proof {
                    assert(out@ + spec_render_code(cv.code, cv.constants, i as int) =~= out@);
                }
                break ;
            }
            let ghost pre_out = out@;
            append_dec4(&mut out, (i + 1) as u64);
            append_str(&mut out, " - ");
            let op = match OpCode::from_byte(self.code[i]) {
                Some(op) => op,
                None => {
                    // the stream is well formed: every byte decodes
                    proof {
                        assert(false);
                    }
                    OpCode::Return
                },
            };
            let m = op.mnemonic_chars();
            append_chars(&mut out, m.as_slice());
            let next = match op {
                OpCode::Constant => {
                    let id = self.code[i + 1];
                    append_str(&mut out, " ");
                    let d = dec_chars(id as u64);
                    append_chars(&mut out, d.as_slice());
                    append_str(&mut out, " (");
                    let vtext = self.constants[id as usize].render();
                    append_str(&mut out, vtext.as_str());
                    append_str(&mut out, ")");
                    proof {
                        assert(self.constants@.map_values(|v: Value| v@)[self.code@[i as int
                            + 1] as int] == self.constants@[self.code@[i as int + 1] as int]@);
                    }
                    i + 2
                },
                _ => { i + 1 },
            };
            out.push('\n');
            proof {
                assert(out@ =~= pre_out + spec_instr_line(cv.code, cv.constants, i as int) + seq![
                    '\n',
                ]);
                assert(out@ + spec_render_code(cv.code, cv.constants, next as int)
                    =~= pre_out + spec_render_code(cv.code, cv.constants, i as int));
            }
            i = next;
        }
        string_from_chars(out.as_slice())
    }
}

// ---------------------------------------------------------------------------
// Round-trip stability of the disassembly format
// ---------------------------------------------------------------------------

/// No newline occurs in `s`.
pub open spec fn spec_no_newline(s: Seq<char>) -> bool {
    forall|i: int| 0 <= i < s.len() ==> s[i] != '\n'
}

/// Reads one disassembly line (without its newline) back into the bytes of
/// its instruction: the offset digits and ` - ` are skipped, the mnemonic
/// selects the opcode, and a `Const` line also yields its index byte.
pub open spec fn spec_parse_line(line: Seq<char>) -> Option<Seq<u8>> {
    let d = crate::lex::spec_scan_digits(line, 0);
    if !(d > 0 && d + 3 <= line.len() && line.subrange(d, d + 3) == " - "@) {
        None
    } else {
        let rest = line.skip(d + 3);
        if rest == "Add"@ {
            Some(seq![spec_opcode_byte(OpCode::OpAdd)])
        } else if rest == "Sub"@ {
            Some(seq![spec_opcode_byte(OpCode::OpSubtract)])
        } else if rest == "Mul"@ {
            Some(seq![spec_opcode_byte(OpCode::OpMultiply)])
        } else if rest == "Div"@ {
            Some(seq![spec_opcode_byte(OpCode::OpDivide)])
        } else if rest == "Neg"@ {
            Some(seq![spec_opcode_byte(OpCode::OpNegate)])
        } else if rest == "Pop"@ {
            Some(seq![spec_opcode_byte(OpCode::OpPop)])
        } else if rest == "Print"@ {
            Some(seq![spec_opcode_byte(OpCode::Print)])
        } else if rest == "Return"@ {
            Some(seq![spec_opcode_byte(OpCode::Return)])
        } else if rest.len() >= 6 && rest.take(6) == "Const "@ {
            let r2 = rest.skip(6);
            let dd = crate::lex::spec_scan_digits(r2, 0);
            let id = crate::text::spec_dec_value(r2.take(dd));
            if dd > 0 && id < 256 && dd + 2 <= r2.len() && r2.subrange(dd, dd + 2) == " ("@
                && r2.len() > 0 && r2.last() == ')' {
                Some(seq![spec_opcode_byte(OpCode::Constant), id as u8])
            } else {
                None
            }
        } else {
            None
        }
    }
}

/// Reads a sequence of newline-terminated disassembly lines back into
/// their instruction bytes.
pub open spec fn spec_parse_lines(s: Seq<char>) -> Option<Seq<u8>>
    decreases s.len() via spec_parse_lines_dec
{
    if s.len() == 0 {
        Some(Seq::empty())
    } else {
        let nl = crate::lex::spec_find(s, '\n', 0);
        if nl >= s.len() {
            None
        } else {
            match spec_parse_line(s.take(nl)) {
                None => None,
                Some(bs) => match spec_parse_lines(s.skip(nl + 1)) {
                    None => None,
                    Some(rest) => Some(bs + rest),
                },
            }
        }
    }
}

#[via_fn]
proof fn spec_parse_lines_dec(s: Seq<char>) {
    if s.len() > 0 {
        crate::lex::lemma_find_range(s, '\n', 0);
    }
}

/// Reads a whole disassembly back: past the header line, the instruction
/// lines.
pub open spec fn spec_parse_disassembly(s: Seq<char>) -> Option<Seq<u8>> {
    let nl = crate::lex::spec_find(s, '\n', 0);
    if nl >= s.len() {
        None
    } else {
        spec_parse_lines(s.skip(nl + 1))
    }
}

/// The decimal numeral of `n` holds digits only, and at least one.
proof fn lemma_dec_all_digits(n: nat)
    ensures
        spec_dec(n).len() >= 1,
        forall|i: int| 0 <= i < spec_dec(n).len() ==> crate::text::spec_is_digit(
            #[trigger] spec_dec(n)[i],
        ) && spec_dec(n)[i] != '\n',
{
    crate::text::lemma_dec_digits(n);
    assert forall|i: int| 0 <= i < spec_dec(n).len() implies crate::text::spec_is_digit(
        spec_dec(n)[i],
    ) && spec_dec(n)[i] != '\n' by {
        assert(crate::text::spec_is_digit(spec_dec(n)[i]));
        assert((spec_dec(n)[i] as u32) >= 48);
        assert(('\n' as u32) == 10);
    }
}

/// The padded offset numeral holds digits only, at least four of them.
proof fn lemma_dec4_all_digits(n: nat)
    ensures
        spec_dec4(n).len() >= 4,
        forall|i: int| 0 <= i < spec_dec4(n).len() ==> crate::text::spec_is_digit(
            #[trigger] spec_dec4(n)[i],
        ) && spec_dec4(n)[i] != '\n',
{
    lemma_dec_all_digits(n);
    assert(('0' as u32) == 48);
    assert(('\n' as u32) == 10);
}

/// The mnemonics hold no newline, and reveals them all for comparison.
proof fn lemma_mnemonics()
    ensures
        spec_mnemonic(OpCode::Constant) == "Const"@,
        "Const"@.len() == 5,
        "Add"@.len() == 3,
        "Sub"@.len() == 3,
        "Mul"@.len() == 3,
        "Div"@.len() == 3,
        "Neg"@.len() == 3,
        "Pop"@.len() == 3,
        "Print"@.len() == 5,
        "Return"@.len() == 6,
        " - "@.len() == 3,
        " ("@.len() == 2,
        " "@.len() == 1,
        ")"@.len() == 1,
        "Const "@.len() == 6,
        "Const "@ == "Const"@ + " "@,
        forall|op: OpCode| #![auto] spec_no_newline(spec_mnemonic(op)),
        "Add"@[0] == 'A' && "Sub"@[0] == 'S' && "Mul"@[0] == 'M' && "Div"@[0] == 'D' && "Neg"@[0]
            == 'N' && "Pop"@[0] == 'P' && "Print"@[0] == 'P' && "Print"@[1] == 'r' && "Pop"@[1]
            == 'o' && "Const"@[0] == 'C' && "Return"@[0] == 'R',
        " - "@[0] == ' ' && " - "@[1] == '-' && " - "@[2] == ' ',
        " ("@[0] == ' ' && " ("@[1] == '(',
        ")"@[0] == ')',
        " "@[0] == ' ',
        !crate::text::spec_is_digit(' '),
        spec_no_newline(" - "@),
        spec_no_newline(" ("@),
        spec_no_newline(")"@),
        spec_no_newline(" "@),
{
    reveal_strlit("Const");
    reveal_strlit("Add");
    reveal_strlit("Sub");
    reveal_strlit("Mul");
    reveal_strlit("Div");
    reveal_strlit("Neg");
    reveal_strlit("Pop");
    reveal_strlit("Print");
    reveal_strlit("Return");
    reveal_strlit(" - ");
    reveal_strlit(" (");
    reveal_strlit(" ");
    reveal_strlit(")");
    reveal_strlit("Const ");
    assert("Const "@ =~= "Const"@ + " "@);
    assert forall|op: OpCode| spec_no_newline(#[trigger] spec_mnemonic(op)) by {
        match op {
            OpCode::Constant => assert(spec_no_newline("Const"@)),
            OpCode::OpAdd => assert(spec_no_newline("Add"@)),
            OpCode::OpSubtract => assert(spec_no_newline("Sub"@)),
            OpCode::OpMultiply => assert(spec_no_newline("Mul"@)),
            OpCode::OpDivide => assert(spec_no_newline("Div"@)),
            OpCode::OpNegate => assert(spec_no_newline("Neg"@)),
            OpCode::OpPop => assert(spec_no_newline("Pop"@)),
            OpCode::Print => assert(spec_no_newline("Print"@)),
            OpCode::Return => assert(spec_no_newline("Return"@)),
        }
    }
}

/// One rendered instruction line holds no newline and parses back to
/// exactly the instruction's bytes.
proof fn lemma_instr_line_parse(code: Seq<u8>, constants: Seq<ValueV>, i: int)
    requires
        0 <= i < code.len(),
        spec_decode(code[i]) is Some,
        spec_decode(code[i]) == Some(OpCode::Constant) ==> i + 1 < code.len() && (code[i
            + 1] as int) < constants.len() && spec_no_newline(
            spec_value_render(constants[code[i + 1] as int]),
        ),
    ensures
        spec_no_newline(spec_instr_line(code, constants, i)),
        spec_parse_line(spec_instr_line(code, constants, i)) == Some(
            code.subrange(i, i + spec_instr_size(code, i)),
        ),
{
    lemma_mnemonics();
    let op = spec_decode(code[i])->Some_0;
    let pad = spec_dec4((i + 1) as nat);
    lemma_dec4_all_digits((i + 1) as nat);
    let line = spec_instr_line(code, constants, i);
    let head = pad + " - "@ + spec_mnemonic(op);
    // the offset digits end exactly at the padding's end
    if op is Constant {
        let id = code[i + 1];
        let vtext = spec_value_render(constants[id as int]);
        let numeral = spec_dec(id as nat);
        lemma_dec_all_digits(id as nat);
        assert(line =~= pad + " - "@ + "Const"@ + " "@ + numeral + " ("@ + vtext + ")"@);
        assert(spec_no_newline(line));
        assert forall|m: int| 0 <= m < pad.len() implies crate::text::spec_is_digit(
            #[trigger] line[m],
        ) by {
            assert(line[m] == pad[m]);
        }
        assert(line[pad.len() as int] == ' ');
        crate::lex::lemma_scan_digits_is(line, 0, pad.len() as int);
        let d = pad.len() as int;
        assert(line.subrange(d, d + 3) =~= " - "@);
        let rest = line.skip(d + 3);
        assert(rest =~= "Const"@ + " "@ + numeral + " ("@ + vtext + ")"@);
        assert(rest.len() >= 9);
        assert(rest != "Add"@ && rest != "Sub"@ && rest != "Mul"@ && rest != "Div"@ && rest
            != "Neg"@ && rest != "Pop"@ && rest != "Print"@ && rest != "Return"@);
        assert(rest.take(6) =~= "Const "@);
        let r2 = rest.skip(6);
        assert(r2 =~= numeral + " ("@ + vtext + ")"@);
        assert forall|m: int| 0 <= m < numeral.len() implies crate::text::spec_is_digit(
            #[trigger] r2[m],
        ) by {
            assert(r2[m] == numeral[m]);
        }
        assert(r2[numeral.len() as int] == ' ');
        crate::lex::lemma_scan_digits_is(r2, 0, numeral.len() as int);
        assert(r2.take(numeral.len() as int) =~= numeral);
        crate::text::lemma_dec_round_trip(id as nat);
        assert(r2.subrange(numeral.len() as int, numeral.len() as int + 2) =~= " ("@);
        assert(r2.last() == ')');
        assert(spec_parse_line(line) == Some(seq![0u8, id]));
        assert(code[i] == 0);
        assert(seq![0u8, id] =~= code.subrange(i, i + 2));
    } else {
        assert(line =~= pad + " - "@ + spec_mnemonic(op));
        assert(spec_no_newline(line));
        assert forall|m: int| 0 <= m < pad.len() implies crate::text::spec_is_digit(
            #[trigger] line[m],
        ) by {
            assert(line[m] == pad[m]);
        }
        assert(line[pad.len() as int] == ' ');
        crate::lex::lemma_scan_digits_is(line, 0, pad.len() as int);
        let d = pad.len() as int;
        assert(line.subrange(d, d + 3) =~= " - "@);
        let rest = line.skip(d + 3);
        assert(rest =~= spec_mnemonic(op));
        match op {
            OpCode::OpAdd => {},
            OpCode::OpSubtract => {
                assert(rest[0] == 'S');
            },
            OpCode::OpMultiply => {
                assert(rest[0] == 'M');
            },
            OpCode::OpDivide => {
                assert(rest[0] == 'D');
            },
            OpCode::OpNegate => {
                assert(rest[0] == 'N');
            },
            OpCode::OpPop => {
                assert(rest[0] == 'P' && rest[1] == 'o');
            },
            OpCode::Print => {
                assert(rest.len() == 5 && rest[0] == 'P');
            },
            OpCode::Return => {
                assert(rest.len() == 6 && rest[0] == 'R');
            },
            OpCode::Constant => {
                assert(false);
            },
        }
        assert(spec_parse_line(line) == Some(seq![spec_opcode_byte(op)]));
        assert(spec_opcode_byte(op) == code[i]);
        assert(seq![code[i]] =~= code.subrange(i, i + 1));
    }
}

/// The instruction lines from `i` on parse back to the code bytes from `i`
/// on.
proof fn lemma_render_code_parse(code: Seq<u8>, constants: Seq<ValueV>, i: int)
    requires
        0 <= i <= code.len(),
        spec_code_wf(code, constants, i),
        forall|j: int| 0 <= j < constants.len() ==> spec_no_newline(
            #[trigger] spec_value_render(constants[j]),
        ),
    ensures
        spec_parse_lines(spec_render_code(code, constants, i)) == Some(code.skip(i)),
    decreases code.len() - i,
{
    if i >= code.len() {
        assert(code.skip(i) =~= Seq::<u8>::empty());
        assert(spec_render_code(code, constants, i) =~= Seq::<char>::empty());
    } else {
        let op = spec_decode(code[i])->Some_0;
        let step = spec_instr_size(code, i);
        let next = i + step;
        assert(next <= code.len());
        lemma_instr_line_parse(code, constants, i);
        let line = spec_instr_line(code, constants, i);
        let s = spec_render_code(code, constants, i);
        assert(s =~= line + seq!['\n'] + spec_render_code(code, constants, next));
        assert(s.len() > 0);
        assert(s[line.len() as int] == '\n');
        crate::lex::lemma_find_is(s, '\n', 0, line.len() as int);
        assert(s.take(line.len() as int) =~= line);
        assert(s.skip(line.len() as int + 1) =~= spec_render_code(code, constants, next));
        lemma_render_code_parse(code, constants, next);
        assert(code.subrange(i, next) + code.skip(next) =~= code.skip(i));
    }
}

/// Round-trip stability of the disassembly: for a well-formed chunk whose
/// name and rendered constants hold no newline, reading the disassembly
/// text back reproduces the chunk's opcode and operand bytes exactly.
pub proof fn lemma_disassembly_round_trip(c: ChunkV)
    requires
        spec_chunk_wf(c),
        spec_no_newline(c.name),
        forall|j: int| 0 <= j < c.constants.len() ==> spec_no_newline(
            #[trigger] spec_value_render(c.constants[j]),
        ),
    ensures
        spec_parse_disassembly(spec_disassemble(c)) == Some(c.code),
{
    reveal_strlit("=== ");
    reveal_strlit(" ===");
    let header = "=== "@ + c.name + " ==="@;
    let s = spec_disassemble(c);
    assert(s =~= header + seq!['\n'] + spec_render_code(c.code, c.constants, 0));
    assert(spec_no_newline(header)) by {
        assert forall|m: int| 0 <= m < header.len() implies header[m] != '\n' by {
            if m < 4 {
                assert(header[m] == "=== "@[m]);
            } else if m < 4 + c.name.len() {
                assert(header[m] == c.name[m - 4]);
            } else {
                assert(header[m] == " ==="@[m - 4 - c.name.len()]);
            }
        }
    }
    assert(s[header.len() as int] == '\n');
    crate::lex::lemma_find_is(s, '\n', 0, header.len() as int);
    assert(s.skip(header.len() as int + 1) =~= spec_render_code(c.code, c.constants, 0));
    lemma_render_code_parse(c.code, c.constants, 0);
    assert(c.code.skip(0) =~= c.code);
}

// ---------------------------------------------------------------------------
// The virtual machine
// ---------------------------------------------------------------------------

/// Which arithmetic instruction handed work to the host.
#[derive(Debug, Clone, Copy, PartialEq, Eq, Structural)]
pub enum ArithKind {
    Add,
    Sub,
    Mul,
    Div,
}

/// What one executed instruction asks of the host. `Proceed` and `Done`
/// need nothing; the others carry work only the host's floating-point
/// arithmetic or output channel can do.
pub enum Effect {
    /// `Return` was executed: halt successfully.
    Done,
    /// The instruction completed by itself.
    Proceed,
    /// Two numeric operands were popped; the host computes `lhs op rhs` and
    /// hands the decimal text back through [`VM::push_number`].
    Arith { op: ArithKind, lhs: String, rhs: String },
    /// One numeric operand was popped; the host computes its negation and
    /// hands the decimal text back through [`VM::push_number`].
    Negate { operand: String },
    /// `Print` popped this value; the host emits it.
    Output { value: Value },
}

/// The mathematical shape of an [`Effect`].
pub enum EffectV {
    Done,
    Proceed,
    Arith { op: ArithKind, lhs: Seq<char>, rhs: Seq<char> },
    Negate { operand: Seq<char> },
    Output { value: ValueV },
}

impl View for Effect {
    type V = EffectV;

    open spec fn view(&self) -> EffectV {
        match self {
            Effect::Done => EffectV::Done,
            Effect::Proceed => EffectV::Proceed,
            Effect::Arith { op, lhs, rhs } => EffectV::Arith { op: *op, lhs: lhs@, rhs: rhs@ },
            Effect::Negate { operand } => EffectV::Negate { operand: operand@ },
            Effect::Output { value } => EffectV::Output { value: value@ },
        }
    }
}

/// The view of a step's result.
pub open spec fn spec_step_view(r: Result<Effect, Error>) -> Result<EffectV, ErrorV> {
    match r {
        Result::Ok(e) => Result::Ok(e@),
        Result::Err(e) => Result::Err(e@),
    }
}

/// The machine: one chunk, an instruction pointer, an operand stack.
pub struct VM {
    pub chunk: Chunk,
    pub ip: usize,
    pub stack: Vec<Value>,
}

/// The mathematical shape of a [`VM`].
pub struct VMV {
    pub chunk: ChunkV,
    pub ip: nat,
    pub stack: Seq<ValueV>,
}

impl View for VM {
    type V = VMV;

    open spec fn view(&self) -> VMV {
        VMV {
            chunk: self.chunk@,
            ip: self.ip as nat,
            stack: self.stack@.map_values(|v: Value| v@),
        }
    }
}

/// The checked operator the binary instruction `kind` applies.
pub open spec fn spec_checked_of(kind: ArithKind, a: ValueV, b: ValueV) -> Result<
    CheckedV,
    ErrorV,
> {
    match kind {
        ArithKind::Add => spec_checked_add(a, b),
        ArithKind::Sub => spec_checked_sub(a, b),
        ArithKind::Mul => spec_checked_mul(a, b),
        ArithKind::Div => spec_checked_div(a, b),
    }
}

/// A binary arithmetic instruction, after the instruction pointer has
/// advanced: the right operand pops first, then the left; missing operands
/// are a stack underflow (what was popped stays popped); the checked
/// operator then decides between a finished value, work for the host, and a
/// type error.
pub open spec fn spec_step_binary(pre: VMV, kind: ArithKind) -> (VMV, Result<EffectV, ErrorV>) {
    if pre.stack.len() < 2 {
        (
            VMV { stack: Seq::empty(), ..pre },
            Err(ErrorV::StackUnderflow { operation: "Corruption while doing binary operator"@ }),
        )
    } else {
        let b = pre.stack.last();
        let a = pre.stack[pre.stack.len() - 2];
        let rest = pre.stack.take(pre.stack.len() - 2);
        match spec_checked_of(kind, a, b) {
            Ok(CheckedV::Done(v)) => (VMV { stack: rest.push(v), ..pre }, Ok(EffectV::Proceed)),
            Ok(CheckedV::Numbers(x, y)) => (
                VMV { stack: rest, ..pre },
                Ok(EffectV::Arith { op: kind, lhs: x, rhs: y }),
            ),
            Ok(CheckedV::Number(x)) => (VMV { stack: rest, ..pre }, Ok(EffectV::Proceed)),
            Err(e) => (VMV { stack: rest, ..pre }, Err(e)),
        }
    }
}

/// Whether the machine can fetch at its instruction pointer without reading
/// outside the chunk: the pointer is inside the code, and a `Constant` there
/// has its operand byte and a pool entry for it.
pub open spec fn spec_can_step(v: VMV) -> bool {
    &&& v.ip < v.chunk.code.len()
    &&& (spec_decode(v.chunk.code[v.ip as int]) == Some(OpCode::Constant) ==> v.ip + 1
        < v.chunk.code.len() && (v.chunk.code[v.ip as int + 1] as int) < v.chunk.constants.len())
}

/// One fetch-decode-execute step of the machine.
pub open spec fn spec_step(pre: VMV) -> (VMV, Result<EffectV, ErrorV>) {
    let code = pre.chunk.code;
    let b = code[pre.ip as int];
    let at1 = VMV { ip: (pre.ip + 1) as nat, ..pre };
    match spec_decode(b) {
        None => (at1, Err(ErrorV::InvalidInstruction { opcode: b, offset: pre.ip })),
        Some(OpCode::Return) => (at1, Ok(EffectV::Done)),
        Some(OpCode::Constant) => {
            let id = code[pre.ip as int + 1] as int;
            (
                VMV {
                    ip: (pre.ip + 2) as nat,
                    stack: pre.stack.push(pre.chunk.constants[id]),
                    ..pre
                },
                Ok(EffectV::Proceed),
            )
        },
        Some(OpCode::OpAdd) => spec_step_binary(at1, ArithKind::Add),
        Some(OpCode::OpSubtract) => spec_step_binary(at1, ArithKind::Sub),
        Some(OpCode::OpMultiply) => spec_step_binary(at1, ArithKind::Mul),
        Some(OpCode::OpDivide) => spec_step_binary(at1, ArithKind::Div),
        Some(OpCode::OpNegate) => {
            if pre.stack.len() == 0 {
                (
                    at1,
                    Err(
                        ErrorV::StackUnderflow {
                            operation: "Corruption while doing unary operator"@,
                        },
                    ),
                )
            } else {
                match pre.stack.last() {
                    ValueV::Number(x) => (
                        VMV { stack: pre.stack.drop_last(), ..at1 },
                        Ok(EffectV::Negate { operand: x }),
                    ),
                    _ => (
                        at1,
                        Err(
                            ErrorV::TypeError {
                                operation: "negation"@,
                                operand_type: "non-number"@,
                            },
                        ),
                    ),
                }
            }
        },
        Some(OpCode::OpPop) => {
            if pre.stack.len() == 0 {
                (at1, Err(ErrorV::StackUnderflow { operation: "No value to pop"@ }))
            } else {
                (VMV { stack: pre.stack.drop_last(), ..at1 }, Ok(EffectV::Proceed))
            }
        },
        Some(OpCode::Print) => {
            if pre.stack.len() == 0 {
                (at1, Err(ErrorV::StackUnderflow { operation: "No value to print"@ }))
            } else {
                (
                    VMV { stack: pre.stack.drop_last(), ..at1 },
                    Ok(EffectV::Output { value: pre.stack.last() }),
                )
            }
        },
    }
}

impl VM {
    /// A fresh machine over `chunk`, with an empty stack.
    pub fn new(chunk: Chunk) -> (vm: VM)
        ensures
            vm@ == (VMV { chunk: chunk@, ip: 0, stack: Seq::<ValueV>::empty() }),
    {
        let vm = VM { chunk, ip: 0, stack: Vec::new() };
        proof {
            assert(vm.stack@.map_values(|v: Value| v@) =~= Seq::<ValueV>::empty());
        }
        vm
    }

    /// Pushes a number the host computed (the text of an [`Effect::Arith`]
    /// or [`Effect::Negate`] result) onto the operand stack.
    pub fn push_number(&mut self, text: String)
        ensures
            final(self)@ == (VMV {
                stack: old(self)@.stack.push(ValueV::Number(text@)),
                ..old(self)@
            }),
    {
        let ghost pre = self.stack@;
        self.stack.push(Value::Number(text));
        proof {
            assert(self.stack@.map_values(|v: Value| v@) =~= pre.map_values(|v: Value| v@).push(
                self.stack@.last()@,
            ));
        }
    }

    /// Pops both operands of a binary instruction (right first), applies the
    /// checked operator, and pushes or reports as the operator decides.
    fn binary_step(&mut self, kind: ArithKind) -> (r: Result<Effect, Error>)
        ensures
            ({
                let (post, out) = spec_step_binary(old(self)@, kind);
                final(self)@ == post && spec_step_view(r) == out
            }),
    {
        let ghost pre = self@;
        let b = match self.stack.pop() {
            Some(v) => v,
            None => {
                proof {
                    assert(self@.stack =~= Seq::<ValueV>::empty());
                }
                return Err(Error::stack_underflow("Corruption while doing binary operator"));
            },
        };
        let a = match self.stack.pop() {
            Some(v) => v,
            None => {
                proof {
                    assert(self@.stack =~= Seq::<ValueV>::empty());
                }
                return Err(Error::stack_underflow("Corruption while doing binary operator"));
            },
        };
        proof {
            assert(self@.stack =~= pre.stack.take(pre.stack.len() - 2));
            assert(a@ == pre.stack[pre.stack.len() - 2]);
            assert(b@ == pre.stack.last());
        }
        let ck = match kind {
            ArithKind::Add => Value::checked_add(a, b),
            ArithKind::Sub => Value::checked_sub(a, b),
            ArithKind::Mul => Value::checked_mul(a, b),
            ArithKind::Div => Value::checked_div(a, b),
        };
        match ck {
            Ok(Checked::Done(v)) => {
                let ghost rest = self@.stack;
                self.stack.push(v);
                proof {
                    assert(self.stack@.map_values(|x: Value| x@) =~= rest.push(
                        self.stack@.last()@,
                    ));
                }
                Ok(Effect::Proceed)
            },
            Ok(Checked::Numbers(x, y)) => Ok(Effect::Arith { op: kind, lhs: x, rhs: y }),
            Ok(Checked::Number(x)) => Ok(Effect::Proceed),
            Err(e) => Err(e),
        }
    }

    /// One fetch-decode-execute step: reads the opcode at the instruction
    /// pointer and executes it, per [`spec_step`]. A byte outside the opcode
    /// range fails with `InvalidInstruction` carrying that byte and its
    /// offset; missing operands fail with `StackUnderflow`; operands of the
    /// wrong type fail with `TypeError`.
    pub fn step(&mut self) -> (r: Result<Effect, Error>)
        requires
            spec_can_step(old(self)@),
        ensures
            ({
                let (post, out) = spec_step(old(self)@);
                final(self)@ == post && spec_step_view(r) == out
            }),
    {
        let n = self.chunk.code.len();
        let b = self.chunk.code[self.ip];
        self.ip = self.ip + 1;
        match OpCode::from_byte(b) {
            None => Err(Error::invalid_instruction(b, self.ip - 1)),
            Some(OpCode::Return) => Ok(Effect::Done),
            Some(OpCode::Constant) => {
                let id = self.chunk.code[self.ip] as usize;
                self.ip = self.ip + 1;
                let ghost pre_stack = self@.stack;
                let v = self.chunk.constants[id].dup();
                self.stack.push(v);
                proof {
                    assert(self.stack@.map_values(|x: Value| x@) =~= pre_stack.push(
                        self.stack@.last()@,
                    ));
                }
                Ok(Effect::Proceed)
            },
            Some(OpCode::OpAdd) => self.binary_step(ArithKind::Add),
            Some(OpCode::OpSubtract) => self.binary_step(ArithKind::Sub),
            Some(OpCode::OpMultiply) => self.binary_step(ArithKind::Mul),
            Some(OpCode::OpDivide) => self.binary_step(ArithKind::Div),
            Some(OpCode::OpNegate) => {
                proof {
                    if old(self)@.stack.len() > 0 {
                        assert(old(self)@.stack.last() == self.stack@.last()@);
                    }
                }
                match self.stack.pop() {
                    Some(Value::Number(x)) => {
                        proof {
                            assert(self.stack@.map_values(|v: Value| v@) =~= old(
                                self,
                            )@.stack.drop_last());
                        }
                        Ok(Effect::Negate { operand: x })
                    },
                    Some(other) => {
                        let ghost dropped = self@.stack;
                        self.stack.push(other);
                        proof {
                            assert(self.stack@.map_values(|v: Value| v@) =~= dropped.push(
                                self.stack@.last()@,
                            ));
                            assert(self.stack@.map_values(|v: Value| v@) =~= old(
                                self,
                            )@.stack);
                        }
                        Err(Error::type_error("negation", "non-number"))
                    },
                    None => Err(Error::stack_underflow("Corruption while doing unary operator")),
                }
            },
            Some(OpCode::OpPop) => {
                match self.stack.pop() {
                    Some(_) => {
                        proof {
                            assert(self.stack@.map_values(|v: Value| v@) =~= old(
                                self,
                            )@.stack.drop_last());
                        }
                        Ok(Effect::Proceed)
                    },
                    None => Err(Error::stack_underflow("No value to pop")),
                }
            },
            Some(OpCode::Print) => {
                proof {
                    if old(self)@.stack.len() > 0 {
                        assert(old(self)@.stack.last() == self.stack@.last()@);
                    }
                }
                match self.stack.pop() {
                    Some(v) => {
                        proof {
                            assert(self.stack@.map_values(|x: Value| x@) =~= old(
                                self,
                            )@.stack.drop_last());
                        }
                        Ok(Effect::Output { value: v })
                    },
                    None => Err(Error::stack_underflow("No value to print")),
                }
            },
        }
    }
}

} // verus!
