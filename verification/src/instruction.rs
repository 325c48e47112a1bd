//! The instruction set: register and address operands, the thirty-two
//! operations and the decoded form of an instruction.

use crate::assembler::{assembled, AssembleError};
use crate::linker::assemble_text;
use crate::text::characters;
use vstd::prelude::*;

verus! {

/// The value held by a narrow register.
pub type Value = u32;

/// The value held by a wide register.
pub type WideValue = u64;

/// Number of bytes in the register file.
pub const REGISTER_FILE_SIZE: usize = 256;

/// Names a narrow register: the four bytes of the register file that start
/// at four times the id.
#[derive(Clone, Copy, Debug, PartialEq, Eq, Structural)]
pub struct RegId(pub u8);

/// Names a wide register: the eight bytes of the register file that start at
/// eight times the id.
#[derive(Clone, Copy, Debug, PartialEq, Eq, Structural)]
pub struct RegWId(pub u8);

/// An immediate operand of narrow width.
#[derive(Clone, Copy, Debug, PartialEq, Eq, Structural)]
pub struct Imm(pub Value);

/// An immediate operand of wide width.
#[derive(Clone, Copy, Debug, PartialEq, Eq, Structural)]
pub struct ImmW(pub WideValue);

/// A memory address as it stands in an instruction. It is reduced modulo
/// the length of the memory before it is used.
#[derive(Clone, Copy, Debug, PartialEq, Eq, Structural)]
pub struct Addr(pub u16);

impl RegId {
    /// The register's window lies inside the register file.
    pub open spec fn in_bounds(self) -> bool {
        self.0 as int * 4 + 4 <= REGISTER_FILE_SIZE as int
    }

    /// Index in the register file of the register's first byte.
    pub open spec fn base(self) -> int {
        self.0 as int * 4
    }
}

impl RegWId {
    /// The register's window lies inside the register file.
    pub open spec fn in_bounds(self) -> bool {
        self.0 as int * 8 + 8 <= REGISTER_FILE_SIZE as int
    }

    /// Index in the register file of the register's first byte.
    pub open spec fn base(self) -> int {
        self.0 as int * 8
    }
}

/// The arithmetic and logical operations of the extended instruction
/// family. Each exists in a narrow and in a wide form.
#[derive(Clone, Copy, Debug, PartialEq, Eq, Structural)]
pub enum Operation {
    Copy,
    Not,
    Neg,
    Reverse,
    Numzeros,
    Numones,
    And,
    Or,
    Xor,
    Shl,
    Shlm,
    Shr,
    Shrm,
    Rotl,
    Rotr,
    Addc,
    Addm,
    Subc,
    Subm,
    Absdiff,
    Mulc,
    Mulm,
    Div,
    Mod,
    Powm,
    Powc,
    Gt,
    Ge,
    Lt,
    Le,
    Eq,
    Ne,
}

impl Operation {
    /// The five-bit number by which the binary encoding selects the
    /// operation.
    pub open spec fn code(self) -> u8 {
        match self {
            Operation::Copy => 0,
            Operation::Not => 1,
            Operation::Neg => 2,
            Operation::Reverse => 3,
            Operation::Numzeros => 4,
            Operation::Numones => 5,
            Operation::And => 6,
            Operation::Or => 7,
            Operation::Xor => 8,
            Operation::Shl => 9,
            Operation::Shlm => 10,
            Operation::Shr => 11,
            Operation::Shrm => 12,
            Operation::Rotl => 13,
            Operation::Rotr => 14,
            Operation::Addc => 15,
            Operation::Addm => 16,
            Operation::Subc => 17,
            Operation::Subm => 18,
            Operation::Absdiff => 19,
            Operation::Mulc => 20,
            Operation::Mulm => 21,
            Operation::Div => 22,
            Operation::Mod => 23,
            Operation::Powm => 24,
            Operation::Powc => 25,
            Operation::Gt => 26,
            Operation::Ge => 27,
            Operation::Lt => 28,
            Operation::Le => 29,
            Operation::Eq => 30,
            Operation::Ne => 31,
        }
    }

    /// The five-bit number by which the binary encoding selects the
    /// operation.
    pub fn to_code(self) -> (n: u8)
        ensures
            n == self.code(),
    {
        match self {
            Operation::Copy => 0,
            Operation::Not => 1,
            Operation::Neg => 2,
            Operation::Reverse => 3,
            Operation::Numzeros => 4,
            Operation::Numones => 5,
            Operation::And => 6,
            Operation::Or => 7,
            Operation::Xor => 8,
            Operation::Shl => 9,
            Operation::Shlm => 10,
            Operation::Shr => 11,
            Operation::Shrm => 12,
            Operation::Rotl => 13,
            Operation::Rotr => 14,
            Operation::Addc => 15,
            Operation::Addm => 16,
            Operation::Subc => 17,
            Operation::Subm => 18,
            Operation::Absdiff => 19,
            Operation::Mulc => 20,
            Operation::Mulm => 21,
            Operation::Div => 22,
            Operation::Mod => 23,
            Operation::Powm => 24,
            Operation::Powc => 25,
            Operation::Gt => 26,
            Operation::Ge => 27,
            Operation::Lt => 28,
            Operation::Le => 29,
            Operation::Eq => 30,
            Operation::Ne => 31,
        }
    }

    /// The operation that a five-bit number selects.
    pub open spec fn from_code(n: u8) -> Operation
        recommends
            n < 32,
    {
        if n == 0 {
            Operation::Copy
        } else if n == 1 {
            Operation::Not
        } else if n == 2 {
            Operation::Neg
        } else if n == 3 {
            Operation::Reverse
        } else if n == 4 {
            Operation::Numzeros
        } else if n == 5 {
            Operation::Numones
        } else if n == 6 {
            Operation::And
        } else if n == 7 {
            Operation::Or
        } else if n == 8 {
            Operation::Xor
        } else if n == 9 {
            Operation::Shl
        } else if n == 10 {
            Operation::Shlm
        } else if n == 11 {
            Operation::Shr
        } else if n == 12 {
            Operation::Shrm
        } else if n == 13 {
            Operation::Rotl
        } else if n == 14 {
            Operation::Rotr
        } else if n == 15 {
            Operation::Addc
        } else if n == 16 {
            Operation::Addm
        } else if n == 17 {
            Operation::Subc
        } else if n == 18 {
            Operation::Subm
        } else if n == 19 {
            Operation::Absdiff
        } else if n == 20 {
            Operation::Mulc
        } else if n == 21 {
            Operation::Mulm
        } else if n == 22 {
            Operation::Div
        } else if n == 23 {
            Operation::Mod
        } else if n == 24 {
            Operation::Powm
        } else if n == 25 {
            Operation::Powc
        } else if n == 26 {
            Operation::Gt
        } else if n == 27 {
            Operation::Ge
        } else if n == 28 {
            Operation::Lt
        } else if n == 29 {
            Operation::Le
        } else if n == 30 {
            Operation::Eq
        } else {
            Operation::Ne
        }
    }

    /// Every operation has a code below 32, and no two share one.
    pub proof fn lemma_code_is_injective(self, other: Operation)
        ensures
            self.code() < 32,
            self.code() == other.code() ==> self == other,
    {
    }

    /// Every number below 32 is the code of the operation it selects.
    pub proof fn lemma_from_code(n: u8)
        requires
            n < 32,
        ensures
            Operation::from_code(n).code() == n,
    {
    }

    /// Every operation is the one that its code selects.
    pub proof fn lemma_code_selects(self)
        ensures
            self.code() < 32,
            Operation::from_code(self.code()) == self,
    {
    }
}

/// A decoded instruction.
#[derive(Clone, Copy, Debug, PartialEq, Eq, Structural)]
pub enum Instruction {
    /// Append the low byte of a narrow register to the output.
    Output(RegId),
    /// Append the low sixteen bits of a wide register to the output, high
    /// byte first.
    OutputW(RegWId),
    /// Load a narrow register from memory.
    LoadMem(RegId, Addr),
    /// Load a wide register from memory.
    LoadMemW(RegWId, Addr),
    /// Store a narrow register to memory.
    StoreMem(RegId, Addr),
    /// Store a wide register to memory.
    StoreMemW(RegWId, Addr),
    /// Continue at the address.
    Jmp(Addr),
    /// Continue at the address if the narrow register holds an odd value.
    Jo(RegId, Addr),
    /// Apply the operation to two narrow registers; the result goes to the
    /// first.
    Op(Operation, RegId, RegId),
    /// Apply the operation to two wide registers; the result goes to the
    /// first.
    OpW(Operation, RegWId, RegWId),
    /// Apply the operation to the second narrow register and the
    /// immediate; the result goes to the first register.
    OpImm(Operation, RegId, RegId, Imm),
    /// Apply the operation to the second wide register and the immediate;
    /// the result goes to the first register.
    OpImmW(Operation, RegWId, RegWId, ImmW),
}

impl Instruction {
    /// Every register that the instruction names lies inside the register
    /// file.
    pub open spec fn in_bounds(self) -> bool {
        match self {
            Instruction::Output(a) => a.in_bounds(),
            Instruction::OutputW(a) => a.in_bounds(),
            Instruction::LoadMem(a, _) => a.in_bounds(),
            Instruction::LoadMemW(a, _) => a.in_bounds(),
            Instruction::StoreMem(a, _) => a.in_bounds(),
            Instruction::StoreMemW(a, _) => a.in_bounds(),
            Instruction::Jmp(_) => true,
            Instruction::Jo(a, _) => a.in_bounds(),
            Instruction::Op(_, a, b) => a.in_bounds() && b.in_bounds(),
            Instruction::OpW(_, a, b) => a.in_bounds() && b.in_bounds(),
            Instruction::OpImm(_, a, b, _) => a.in_bounds() && b.in_bounds(),
            Instruction::OpImmW(_, a, b, _) => a.in_bounds() && b.in_bounds(),
        }
    }
}

/// Assembles a program text into the bytes of the program. A text with an
/// error gives the error and no bytes.
pub fn assemble(text: String) -> (r: Result<Vec<u8>, AssembleError>)
    ensures
        match r {
            Ok(code) => assembled(text@) == Ok::<Seq<u8>, AssembleError>(code@),
            Err(e) => assembled(text@) == Err::<Seq<u8>, AssembleError>(e),
        },
{
    let chars = characters(text.as_str());
    assemble_text(chars.as_slice())
}

} // verus!
