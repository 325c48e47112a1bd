//! The binary form of an instruction, and that reading it gives the
//! instruction back.

use crate::bytes::{
    lemma_u16_round_trip,
    lemma_u32_round_trip,
    lemma_u64_round_trip,
    u16_be_bytes,
    u32_be_bytes,
    u64_be_bytes,
};
use crate::assembler::{extended_opcode, fixed_shape, Shape};
use crate::instruction::{Addr, Imm, ImmW, Instruction, Operation, RegId, RegWId};
use crate::state::MachineState;
use vstd::prelude::*;

verus! {

impl RegId {
    /// The id fits the four bits that the binary form has for it.
    pub open spec fn encodable(self) -> bool {
        self.0 < 16
    }
}

impl RegWId {
    /// The id fits the four bits that the binary form has for it.
    pub open spec fn encodable(self) -> bool {
        self.0 < 16
    }
}

impl Instruction {
    /// Every register id of the instruction fits the four bits that the
    /// binary form has for it.
    pub open spec fn encodable(self) -> bool {
        match self {
            Instruction::Output(a) => a.encodable(),
            Instruction::OutputW(a) => a.encodable(),
            Instruction::LoadMem(a, _) => a.encodable(),
            Instruction::LoadMemW(a, _) => a.encodable(),
            Instruction::StoreMem(a, _) => a.encodable(),
            Instruction::StoreMemW(a, _) => a.encodable(),
            Instruction::Jmp(_) => true,
            Instruction::Jo(a, _) => a.encodable(),
            Instruction::Op(_, a, b) => a.encodable() && b.encodable(),
            Instruction::OpW(_, a, b) => a.encodable() && b.encodable(),
            Instruction::OpImm(_, a, b, _) => a.encodable() && b.encodable(),
            Instruction::OpImmW(_, a, b, _) => a.encodable() && b.encodable(),
        }
    }

    /// The bytes that stand for the instruction.
    pub open spec fn encoded(self) -> Seq<u8> {
        match self {
            Instruction::Output(a) => seq![a.0],
            Instruction::OutputW(a) => seq![(0x10 + a.0) as u8],
            Instruction::LoadMem(a, m) => seq![(0x20 + a.0) as u8] + u16_be_bytes(m.0),
            Instruction::LoadMemW(a, m) => seq![(0x30 + a.0) as u8] + u16_be_bytes(m.0),
            Instruction::StoreMem(a, m) => seq![(0x40 + a.0) as u8] + u16_be_bytes(m.0),
            Instruction::StoreMemW(a, m) => seq![(0x50 + a.0) as u8] + u16_be_bytes(m.0),
            Instruction::Jmp(m) => seq![0x60u8] + u16_be_bytes(m.0),
            Instruction::Jo(a, m) => seq![(0x70 + a.0) as u8] + u16_be_bytes(m.0),
            Instruction::Op(o, a, b) => seq![(0x80 + o.code()) as u8, (a.0 * 16 + b.0) as u8],
            Instruction::OpW(o, a, b) => seq![(0xA0 + o.code()) as u8, (a.0 * 16 + b.0) as u8],
            Instruction::OpImm(o, a, b, i) => seq![
                (0xC0 + o.code()) as u8,
                (a.0 * 16 + b.0) as u8,
            ] + u32_be_bytes(i.0),
            Instruction::OpImmW(o, a, b, i) => seq![
                (0xE0 + o.code()) as u8,
                (a.0 * 16 + b.0) as u8,
            ] + u64_be_bytes(i.0),
        }
    }
}

/// Where the bytes of an instruction stand at the program counter, the
/// machine reads that instruction and takes as many bytes as it has.
pub proof fn lemma_decode_encoded(s: MachineState, i: Instruction)
    requires
        i.encodable(),
        forall|k: int| 0 <= k < i.encoded().len() ==> s.code_at(k) == #[trigger] i.encoded()[k],
    ensures
        s.decode() == i,
        s.decode_length() == i.encoded().len(),
{
    match i {
        Instruction::Op(_, _, _) | Instruction::OpW(_, _, _) => {
            lemma_decode_registers(s, i);
        },
        Instruction::OpImm(_, _, _, _) => {
            lemma_decode_immediate(s, i);
        },
        Instruction::OpImmW(_, _, _, _) => {
            lemma_decode_immediate_wide(s, i);
        },
        _ => {
            lemma_decode_fixed(s, i);
        },
    }
}

proof fn lemma_decode_fixed(s: MachineState, i: Instruction)
    requires
        i.encodable(),
        !(i is Op) && !(i is OpW) && !(i is OpImm) && !(i is OpImmW),
        forall|k: int| 0 <= k < i.encoded().len() ==> s.code_at(k) == #[trigger] i.encoded()[k],
    ensures
        s.decode() == i,
        s.decode_length() == i.encoded().len(),
{
    let bytes = i.encoded();
    assert(s.code_at(0) == bytes[0]);
    match i {
        Instruction::LoadMem(_, m)
        | Instruction::LoadMemW(_, m)
        | Instruction::StoreMem(_, m)
        | Instruction::StoreMemW(_, m)
        | Instruction::Jmp(m)
        | Instruction::Jo(_, m) => {
            assert(s.code_at(1) == bytes[1]);
            assert(s.code_at(2) == bytes[2]);
            lemma_u16_round_trip(m.0);
        },
        _ => {},
    }
}

proof fn lemma_decode_registers(s: MachineState, i: Instruction)
    requires
        i.encodable(),
        i is Op || i is OpW,
        forall|k: int| 0 <= k < i.encoded().len() ==> s.code_at(k) == #[trigger] i.encoded()[k],
    ensures
        s.decode() == i,
        s.decode_length() == i.encoded().len(),
{
    let bytes = i.encoded();
    assert(s.code_at(0) == bytes[0]);
    assert(s.code_at(1) == bytes[1]);
    match i {
        Instruction::Op(o, _, _) | Instruction::OpW(o, _, _) => {
            o.lemma_code_selects();
        },
        _ => {},
    }
}

proof fn lemma_decode_immediate(s: MachineState, i: Instruction)
    requires
        i.encodable(),
        i is OpImm,
        forall|k: int| 0 <= k < i.encoded().len() ==> s.code_at(k) == #[trigger] i.encoded()[k],
    ensures
        s.decode() == i,
        s.decode_length() == i.encoded().len(),
{
    let bytes = i.encoded();
    assert(s.code_at(0) == bytes[0]);
    assert(s.code_at(1) == bytes[1]);
    if let Instruction::OpImm(o, _, _, value) = i {
        o.lemma_code_selects();
        let window = s.window(s.program_counter as int + 2, 4);
        assert forall|k: int| 0 <= k < 4 implies window[k] == u32_be_bytes(value.0)[k] by {
            assert(s.code_at(2 + k) == bytes[2 + k]);
        }
        lemma_u32_round_trip(value.0);
    }
}

proof fn lemma_decode_immediate_wide(s: MachineState, i: Instruction)
    requires
        i.encodable(),
        i is OpImmW,
        forall|k: int| 0 <= k < i.encoded().len() ==> s.code_at(k) == #[trigger] i.encoded()[k],
    ensures
        s.decode() == i,
        s.decode_length() == i.encoded().len(),
{
    let bytes = i.encoded();
    assert(s.code_at(0) == bytes[0]);
    assert(s.code_at(1) == bytes[1]);
    if let Instruction::OpImmW(o, _, _, value) = i {
        o.lemma_code_selects();
        let window = s.window(s.program_counter as int + 2, 8);
        assert forall|k: int| 0 <= k < 8 implies window[k] == u64_be_bytes(value.0)[k] by {
            assert(s.code_at(2 + k) == bytes[2 + k]);
        }
        lemma_u64_round_trip(value.0);
    }
}

/// What the machine reads is an instruction that has a binary form: the
/// ids of its registers fit four bits.
pub proof fn lemma_decoded_is_encodable(s: MachineState)
    ensures
        s.decode().encodable(),
{
}

/// The instruction that a mnemonic with a fixed encoding names, with its
/// register and its address.
pub open spec fn fixed_instruction(shape: Shape, register: u8, address: u16) -> Instruction {
    if shape.base == 0x00 {
        Instruction::Output(RegId(register))
    } else if shape.base == 0x10 {
        Instruction::OutputW(RegWId(register))
    } else if shape.base == 0x20 {
        Instruction::LoadMem(RegId(register), Addr(address))
    } else if shape.base == 0x30 {
        Instruction::LoadMemW(RegWId(register), Addr(address))
    } else if shape.base == 0x40 {
        Instruction::StoreMem(RegId(register), Addr(address))
    } else if shape.base == 0x50 {
        Instruction::StoreMemW(RegWId(register), Addr(address))
    } else if shape.base == 0x60 {
        Instruction::Jmp(Addr(address))
    } else {
        Instruction::Jo(RegId(register), Addr(address))
    }
}

/// The instruction of the extended family that a mnemonic names, with its
/// registers and its immediate operand.
pub open spec fn extended_instruction(
    op: Operation,
    wide: bool,
    immediate: bool,
    a: u8,
    b: u8,
    value: u64,
) -> Instruction {
    if immediate {
        if wide {
            Instruction::OpImmW(op, RegWId(a), RegWId(b), ImmW(value))
        } else {
            Instruction::OpImm(op, RegId(a), RegId(b), Imm(value as u32))
        }
    } else {
        if wide {
            Instruction::OpW(op, RegWId(a), RegWId(b))
        } else {
            Instruction::Op(op, RegId(a), RegId(b))
        }
    }
}

/// The code that the assembler lays out for a mnemonic with a fixed
/// encoding is the binary form of the instruction that the mnemonic names,
/// where the number of the register is below 16.
pub proof fn lemma_fixed_code(mnemonic: Seq<char>, register: u8, address: u16)
    requires
        fixed_shape(mnemonic) is Some,
        register < 16,
        !fixed_shape(mnemonic)->0.register ==> register == 0,
    ensures
        fixed_instruction(fixed_shape(mnemonic)->0, register, address).encoded() == seq![
            fixed_shape(mnemonic)->0.base | register,
        ] + if fixed_shape(mnemonic)->0.address {
            u16_be_bytes(address)
        } else {
            Seq::<u8>::empty()
        },
        fixed_instruction(fixed_shape(mnemonic)->0, register, address).encodable(),
{
    let shape = fixed_shape(mnemonic)->0;
    let base = shape.base;
    assert(base | register == base + register) by (bit_vector)
        requires
            register < 16,
            base == 0x00 || base == 0x10 || base == 0x20 || base == 0x30 || base == 0x40 || base
                == 0x50 || base == 0x60 || base == 0x70,
    ;
}

/// The code that the assembler lays out for a mnemonic of the extended
/// family is the binary form of the instruction that the mnemonic names,
/// where the numbers of both registers are below 16.
pub proof fn lemma_extended_code(
    op: Operation,
    wide: bool,
    immediate: bool,
    a: u8,
    b: u8,
    value: u64,
)
    requires
        a < 16,
        b < 16,
        !wide ==> value <= u32::MAX,
    ensures
        extended_instruction(op, wide, immediate, a, b, value).encoded() == seq![
            extended_opcode(op, wide, immediate),
            (a << 4u8) | b,
        ] + if !immediate {
            Seq::<u8>::empty()
        } else if wide {
            u64_be_bytes(value)
        } else {
            u32_be_bytes(value as u32)
        },
        extended_instruction(op, wide, immediate, a, b, value).encodable(),
{
    assert((a << 4u8) | b == a * 16 + b) by (bit_vector)
        requires
            a < 16,
            b < 16,
    ;
    op.lemma_code_selects();
}

} // verus!
