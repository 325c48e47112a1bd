//! The assembler: from a program text to the bytes that the machine runs.
//!
//! A text is read line by line. What follows a semicolon is a comment. The
//! first word of a line either defines a label (it ends in a colon) or
//! names an instruction, whose operands are the words after it. A first
//! pass lays the instructions out and notes where labels are defined and
//! where they are referred to; a second pass writes the offset of each
//! label into the places that refer to it.

use crate::bytes::{u16_be_bytes, u32_be_bytes, u64_be_bytes};
use crate::instruction::Operation;
use crate::text::{lines, run_length, signed_literal, unsigned_literal, words, Class};
use vstd::prelude::*;

verus! {

/// Why a text could not be assembled.
#[derive(Clone, Copy, Debug, PartialEq, Eq, Structural)]
pub enum AssembleError {
    /// An instruction has fewer operands than it takes.
    MissingOperand,
    /// A register operand does not begin with the letter `r`.
    InvalidRegister,
    /// The number of a register, or an immediate operand, is no decimal
    /// literal of its width.
    InvalidNumber,
    /// The first word of a line names no instruction.
    UnknownOperation,
    /// An instruction refers to a label that the text does not define.
    UndefinedLabel,
}

/// What one line of a text says: it may define a label, and it may hold the
/// code of one instruction. Where the instruction refers to a label, the
/// two address bytes of `code` are zero and `target` names the label.
pub struct Statement {
    pub label: Option<Seq<char>>,
    pub code: Seq<u8>,
    pub target: Option<Seq<char>>,
}

/// A label, or a reference to one, with the offset in the code at which it
/// stands.
pub type Entry = (Seq<char>, nat);

/// How an instruction with a fixed encoding is laid out: the high half of
/// its first byte, and which operands follow the mnemonic.
pub struct Shape {
    pub base: u8,
    pub register: bool,
    pub address: bool,
}

impl Statement {
    /// The statement of a line without words.
    pub open spec fn blank() -> Statement {
        Statement { label: None, code: Seq::empty(), target: None }
    }

    /// A statement that refers to a label holds three bytes of code: the
    /// first byte of the instruction and room for the address.
    pub open spec fn wf(self) -> bool {
        self.target is Some ==> self.code.len() == 3
    }
}

/// The operation that a name stands for.
pub open spec fn operation_named(name: Seq<char>) -> Option<Operation> {
    if name == "copy"@ {
        Some(Operation::Copy)
    } else if name == "not"@ {
        Some(Operation::Not)
    } else if name == "neg"@ {
        Some(Operation::Neg)
    } else if name == "reverse"@ {
        Some(Operation::Reverse)
    } else if name == "numzeros"@ {
        Some(Operation::Numzeros)
    } else if name == "numones"@ {
        Some(Operation::Numones)
    } else if name == "and"@ {
        Some(Operation::And)
    } else if name == "or"@ {
        Some(Operation::Or)
    } else if name == "xor"@ {
        Some(Operation::Xor)
    } else if name == "shl"@ {
        Some(Operation::Shl)
    } else if name == "shlm"@ {
        Some(Operation::Shlm)
    } else if name == "shr"@ {
        Some(Operation::Shr)
    } else if name == "shrm"@ {
        Some(Operation::Shrm)
    } else if name == "rotl"@ {
        Some(Operation::Rotl)
    } else if name == "rotr"@ {
        Some(Operation::Rotr)
    } else if name == "addc"@ {
        Some(Operation::Addc)
    } else if name == "addm"@ {
        Some(Operation::Addm)
    } else if name == "subc"@ {
        Some(Operation::Subc)
    } else if name == "subm"@ {
        Some(Operation::Subm)
    } else if name == "absdiff"@ {
        Some(Operation::Absdiff)
    } else if name == "mulc"@ {
        Some(Operation::Mulc)
    } else if name == "mulm"@ {
        Some(Operation::Mulm)
    } else if name == "div"@ {
        Some(Operation::Div)
    } else if name == "mod"@ {
        Some(Operation::Mod)
    } else if name == "powm"@ {
        Some(Operation::Powm)
    } else if name == "powc"@ {
        Some(Operation::Powc)
    } else if name == "gt"@ {
        Some(Operation::Gt)
    } else if name == "ge"@ {
        Some(Operation::Ge)
    } else if name == "lt"@ {
        Some(Operation::Lt)
    } else if name == "le"@ {
        Some(Operation::Le)
    } else if name == "eq"@ {
        Some(Operation::Eq)
    } else if name == "ne"@ {
        Some(Operation::Ne)
    } else {
        None
    }
}

/// The layout of the instruction that a mnemonic with a fixed encoding
/// names.
pub open spec fn fixed_shape(mnemonic: Seq<char>) -> Option<Shape> {
    if mnemonic == "output"@ {
        Some(Shape { base: 0x00, register: true, address: false })
    } else if mnemonic == "outputw"@ {
        Some(Shape { base: 0x10, register: true, address: false })
    } else if mnemonic == "loadmem"@ {
        Some(Shape { base: 0x20, register: true, address: true })
    } else if mnemonic == "loadmemw"@ {
        Some(Shape { base: 0x30, register: true, address: true })
    } else if mnemonic == "storemem"@ {
        Some(Shape { base: 0x40, register: true, address: true })
    } else if mnemonic == "storememw"@ {
        Some(Shape { base: 0x50, register: true, address: true })
    } else if mnemonic == "jmp"@ {
        Some(Shape { base: 0x60, register: false, address: true })
    } else if mnemonic == "jo"@ {
        Some(Shape { base: 0x70, register: true, address: true })
    } else {
        None
    }
}

/// The number of the register that the word at index `k` names: the
/// letter `r` and an unsigned decimal literal up to 255.
pub open spec fn register_operand(operands: Seq<Seq<char>>, k: int) -> Result<u8, AssembleError> {
    if k >= operands.len() {
        Err(AssembleError::MissingOperand)
    } else if operands[k].len() == 0 || operands[k][0] != 'r' {
        Err(AssembleError::InvalidRegister)
    } else {
        match unsigned_literal(operands[k].skip(1), 255) {
            Some(n) => Ok(n as u8),
            None => Err(AssembleError::InvalidNumber),
        }
    }
}

/// The two address bytes that an address operand gives at once: those of
/// a signed 16-bit decimal literal in two's complement, the high byte
/// first, and zeros for anything else.
pub open spec fn address_bytes(operand: Seq<char>) -> Seq<u8> {
    match signed_literal(operand, 0x7fff) {
        Some(value) => u16_be_bytes((value % 0x1_0000) as u16),
        None => seq![0u8, 0u8],
    }
}

/// The label that an address operand names: the operand itself, unless it
/// is a signed 16-bit decimal literal.
pub open spec fn address_target(operand: Seq<char>) -> Option<Seq<char>> {
    match signed_literal(operand, 0x7fff) {
        Some(_) => None,
        None => Some(operand),
    }
}

/// The statement of an instruction with a fixed encoding. The number of
/// its register, where it takes one, is merged into its first byte.
pub open spec fn fixed_statement(shape: Shape, operands: Seq<Seq<char>>) -> Result<
    Statement,
    AssembleError,
> {
    let register = if shape.register {
        register_operand(operands, 1)
    } else {
        Ok(0u8)
    };
    let k: int = if shape.register {
        2
    } else {
        1
    };
    match register {
        Err(e) => Err(e),
        Ok(r) => if !shape.address {
            Ok(Statement { label: None, code: seq![shape.base | r], target: None })
        } else if k >= operands.len() {
            Err(AssembleError::MissingOperand)
        } else {
            Ok(
                Statement {
                    label: None,
                    code: seq![shape.base | r] + address_bytes(operands[k]),
                    target: address_target(operands[k]),
                },
            )
        },
    }
}

/// Whether `s` ends in `suffix`.
pub open spec fn ends_with(s: Seq<char>, suffix: Seq<char>) -> bool {
    s.len() >= suffix.len() && s.skip(s.len() - suffix.len()) == suffix
}

/// `s` without `suffix` at its end, or `s` where it does not end in it.
pub open spec fn stripped(s: Seq<char>, suffix: Seq<char>) -> Seq<char> {
    if ends_with(s, suffix) {
        s.take(s.len() - suffix.len())
    } else {
        s
    }
}

/// The mark of wide operands in a mnemonic.
pub open spec fn wide_mark() -> Seq<char> {
    seq!['w']
}

/// The mark of an immediate operand in a mnemonic.
pub open spec fn immediate_mark() -> Seq<char> {
    seq!['i', 'm', 'm']
}

/// Whether a mnemonic asks for an immediate operand: it ends in `imm`, or
/// in `imm` and a `w` behind it.
pub open spec fn is_immediate(mnemonic: Seq<char>) -> bool {
    ends_with(stripped(mnemonic, wide_mark()), immediate_mark())
}

/// A mnemonic without `w` at its end and without `imm` before that.
pub open spec fn stem(mnemonic: Seq<char>) -> Seq<char> {
    stripped(stripped(mnemonic, wide_mark()), immediate_mark())
}

/// Whether a mnemonic asks for wide operands: it ends in `w`, or in `w`
/// and `imm` behind it.
pub open spec fn is_wide(mnemonic: Seq<char>) -> bool {
    ends_with(mnemonic, wide_mark()) || ends_with(stem(mnemonic), wide_mark())
}

/// The name of the operation in a mnemonic: what stands before the marks
/// `imm` and `w`, of which a mnemonic may have one, or both in either
/// order.
pub open spec fn operation_name(mnemonic: Seq<char>) -> Seq<char> {
    if ends_with(mnemonic, wide_mark()) {
        stem(mnemonic)
    } else {
        stripped(stem(mnemonic), wide_mark())
    }
}

/// The first byte of an instruction of the extended family.
pub open spec fn extended_opcode(op: Operation, wide: bool, immediate: bool) -> u8 {
    (0x80 + if wide {
        0x20int
    } else {
        0
    } + if immediate {
        0x40int
    } else {
        0
    } + op.code()) as u8
}

/// The bytes of an immediate operand: an unsigned decimal literal of the
/// width of the instruction, the highest byte first.
pub open spec fn immediate_bytes(operand: Seq<char>, wide: bool) -> Option<Seq<u8>> {
    if wide {
        match unsigned_literal(operand, u64::MAX as nat) {
            Some(v) => Some(u64_be_bytes(v as u64)),
            None => None,
        }
    } else {
        match unsigned_literal(operand, u32::MAX as nat) {
            Some(v) => Some(u32_be_bytes(v as u32)),
            None => None,
        }
    }
}

/// The statement of an instruction of the extended family. Its mnemonic
/// is the name of an operation, with `imm` behind it where an immediate
/// operand follows the two registers and with `w` behind it where the
/// operands are wide.
pub open spec fn extended_statement(operands: Seq<Seq<char>>) -> Result<Statement, AssembleError>
    recommends
        operands.len() > 0,
{
    let wide = is_wide(operands[0]);
    let immediate = is_immediate(operands[0]);
    match operation_named(operation_name(operands[0])) {
        None => Err(AssembleError::UnknownOperation),
        Some(op) => match register_operand(operands, 1) {
            Err(e) => Err(e),
            Ok(a) => match register_operand(operands, 2) {
                Err(e) => Err(e),
                Ok(b) => {
                    let head = seq![extended_opcode(op, wide, immediate), (a << 4u8) | b];
                    if !immediate {
                        Ok(Statement { label: None, code: head, target: None })
                    } else if 3 >= operands.len() {
                        Err(AssembleError::MissingOperand)
                    } else {
                        match immediate_bytes(operands[3], wide) {
                            None => Err(AssembleError::InvalidNumber),
                            Some(bytes) => Ok(
                                Statement { label: None, code: head + bytes, target: None },
                            ),
                        }
                    }
                },
            },
        },
    }
}

/// What the words of one line say. A line without words says nothing. A
/// first word that ends in a colon defines the label before the colon.
/// Any other first word is the mnemonic of an instruction; words after the
/// last operand are not looked at.
pub open spec fn statement(operands: Seq<Seq<char>>) -> Result<Statement, AssembleError> {
    if operands.len() == 0 {
        Ok(Statement::blank())
    } else if operands[0].len() > 0 && operands[0].last() == ':' {
        Ok(Statement { label: Some(operands[0].drop_last()), code: Seq::empty(), target: None })
    } else {
        match fixed_shape(operands[0]) {
            Some(shape) => fixed_statement(shape, operands),
            None => extended_statement(operands),
        }
    }
}

/// The part of a line that is not comment: what stands before the first
/// semicolon.
pub open spec fn code_part(line: Seq<char>) -> Seq<char> {
    line.take(run_length(line, Class::Except(';')) as int)
}

/// The statements of a sequence of lines, or the error of the first line
/// that has one.
pub open spec fn statements(text: Seq<Seq<char>>) -> Result<Seq<Statement>, AssembleError>
    decreases text.len(),
{
    if text.len() == 0 {
        Ok(Seq::empty())
    } else {
        match statements(text.drop_last()) {
            Err(e) => Err(e),
            Ok(before) => match statement(words(code_part(text.last()))) {
                Err(e) => Err(e),
                Ok(s) => Ok(before.push(s)),
            },
        }
    }
}

/// The number of bytes of code in a sequence of statements.
pub open spec fn size(program: Seq<Statement>) -> nat
    decreases program.len(),
{
    if program.len() == 0 {
        0
    } else {
        size(program.drop_last()) + program.last().code.len()
    }
}

/// The code of a sequence of statements as the first pass leaves it: the
/// address bytes of every reference to a label are zero.
pub open spec fn layout(program: Seq<Statement>) -> Seq<u8>
    decreases program.len(),
{
    if program.len() == 0 {
        Seq::empty()
    } else {
        layout(program.drop_last()) + program.last().code
    }
}

/// The labels that a sequence of statements defines, in order, each with
/// the offset in the code at which it stands.
pub open spec fn definitions(program: Seq<Statement>) -> Seq<Entry>
    decreases program.len(),
{
    if program.len() == 0 {
        Seq::empty()
    } else {
        let before = program.drop_last();
        match program.last().label {
            Some(name) => definitions(before).push((name, size(before))),
            None => definitions(before),
        }
    }
}

/// The references to labels in a sequence of statements, in order, each
/// with the offset in the code of its two address bytes.
pub open spec fn references(program: Seq<Statement>) -> Seq<Entry>
    decreases program.len(),
{
    if program.len() == 0 {
        Seq::empty()
    } else {
        let before = program.drop_last();
        match program.last().target {
            Some(name) => references(before).push((name, size(before) + 1)),
            None => references(before),
        }
    }
}

/// The offset of a label: that of its last definition.
pub open spec fn lookup(table: Seq<Entry>, name: Seq<char>) -> Option<nat>
    decreases table.len(),
{
    if table.len() == 0 {
        None
    } else if table.last().0 == name {
        Some(table.last().1)
    } else {
        lookup(table.drop_last(), name)
    }
}

/// The two address bytes that stand for an offset: its low 16 bits, the
/// high byte first.
pub open spec fn offset_bytes(offset: nat) -> Seq<u8> {
    u16_be_bytes((offset % 0x1_0000) as u16)
}

/// The code of a statement with the address of its label filled in.
pub open spec fn resolved(s: Statement, table: Seq<Entry>) -> Seq<u8> {
    match s.target {
        Some(name) => seq![s.code[0]] + offset_bytes(lookup(table, name).unwrap_or(0)),
        None => s.code,
    }
}

/// The code of a sequence of statements with every reference resolved
/// against `table`.
pub open spec fn image(program: Seq<Statement>, table: Seq<Entry>) -> Seq<u8>
    decreases program.len(),
{
    if program.len() == 0 {
        Seq::empty()
    } else {
        image(program.drop_last(), table) + resolved(program.last(), table)
    }
}

/// Whether some statement refers to a label that none defines.
pub open spec fn has_undefined(program: Seq<Statement>) -> bool {
    exists|i: int|
        0 <= i < references(program).len() && lookup(
            definitions(program),
            #[trigger] references(program)[i].0,
        ) is None
}

/// The code of a sequence of statements, every label replaced by its
/// offset; an error where a label is referred to and not defined.
pub open spec fn linked(program: Seq<Statement>) -> Result<Seq<u8>, AssembleError> {
    if has_undefined(program) {
        Err(AssembleError::UndefinedLabel)
    } else {
        Ok(image(program, definitions(program)))
    }
}

/// What a text assembles to. An error in a line comes before one in a
/// later line, and any error in a line before an undefined label.
pub open spec fn assembled(text: Seq<char>) -> Result<Seq<u8>, AssembleError> {
    match statements(lines(text)) {
        Err(e) => Err(e),
        Ok(program) => linked(program),
    }
}

} // verus!
