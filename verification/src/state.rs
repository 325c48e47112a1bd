//! The machine as a mathematical object: its state, how an instruction is
//! read from memory, and what one step and a run of steps do.

use crate::alu::evaluate;
use crate::alu_wide::evaluate_wide;
use crate::bytes::{be_u16, be_u32, be_u64, u32_be_bytes, u64_be_bytes};
use crate::instruction::{Addr, Imm, ImmW, Instruction, Operation, RegId, RegWId};
use vstd::prelude::*;

verus! {

/// The state of a machine: the program memory, the program counter and the
/// register file.
pub struct MachineState {
    pub memory: Seq<u8>,
    pub program_counter: nat,
    pub registers: Seq<u8>,
}

/// `target` with the bytes of `source` written over it from index `at` on.
pub open spec fn overlay(target: Seq<u8>, at: int, source: Seq<u8>) -> Seq<u8> {
    Seq::new(
        target.len(),
        |i: int|
            if at <= i < at + source.len() {
                source[i - at]
            } else {
                target[i]
            },
    )
}

/// `memory` after the bytes of `source` were stored one by one, the first
/// at `address`, each index taken modulo the length of the memory. Where
/// the memory is shorter than `source`, later bytes replace earlier ones.
pub open spec fn store(memory: Seq<u8>, address: int, source: Seq<u8>) -> Seq<u8>
    decreases source.len(),
{
    if source.len() == 0 {
        memory
    } else {
        store(memory, address, source.drop_last()).update(
            (address + source.len() - 1) % (memory.len() as int),
            source.last(),
        )
    }
}

impl MachineState {
    /// The memory is not empty, the program counter points into it, and the
    /// register file has its full size.
    pub open spec fn wf(self) -> bool {
        &&& self.memory.len() > 0
        &&& self.program_counter < self.memory.len()
        &&& self.registers.len() == 256
    }

    /// The state in which a machine starts on `memory`.
    pub open spec fn initial(memory: Seq<u8>) -> MachineState {
        MachineState { memory, program_counter: 0, registers: Seq::new(256, |i: int| 0u8) }
    }

    /// The byte of memory at `address`, taken modulo the length of the
    /// memory.
    pub open spec fn memory_at(self, address: int) -> u8 {
        self.memory[address % (self.memory.len() as int)]
    }

    /// The `n` bytes of memory from `address` on, each index taken modulo the
    /// length of the memory.
    pub open spec fn window(self, address: int, n: nat) -> Seq<u8> {
        Seq::new(n, |i: int| self.memory_at(address + i))
    }

    /// The byte that stands `i` places after the program counter.
    pub open spec fn code_at(self, i: int) -> u8 {
        self.memory_at(self.program_counter + i)
    }

    /// The value of a narrow register.
    pub open spec fn register(self, r: RegId) -> u32 {
        be_u32(self.registers.subrange(r.base(), r.base() + 4))
    }

    /// The value of a wide register.
    pub open spec fn register_wide(self, r: RegWId) -> u64 {
        be_u64(self.registers.subrange(r.base(), r.base() + 8))
    }

    /// The value that four bytes of memory from `address` on stand for.
    pub open spec fn memory_value(self, address: Addr) -> u32 {
        be_u32(self.window(address.0 as int, 4))
    }

    /// The value that eight bytes of memory from `address` on stand for.
    pub open spec fn memory_value_wide(self, address: Addr) -> u64 {
        be_u64(self.window(address.0 as int, 8))
    }

    /// The state with `value` in a narrow register.
    pub open spec fn with_register(self, r: RegId, value: u32) -> MachineState {
        MachineState { registers: overlay(self.registers, r.base(), u32_be_bytes(value)), ..self }
    }

    /// The state with `value` in a wide register.
    pub open spec fn with_register_wide(self, r: RegWId, value: u64) -> MachineState {
        MachineState { registers: overlay(self.registers, r.base(), u64_be_bytes(value)), ..self }
    }

    /// The state with `value` stored in the four bytes of memory from
    /// `address` on.
    pub open spec fn with_memory_value(self, address: Addr, value: u32) -> MachineState {
        MachineState { memory: store(self.memory, address.0 as int, u32_be_bytes(value)), ..self }
    }

    /// The state with `value` stored in the eight bytes of memory from
    /// `address` on.
    pub open spec fn with_memory_value_wide(self, address: Addr, value: u64) -> MachineState {
        MachineState { memory: store(self.memory, address.0 as int, u64_be_bytes(value)), ..self }
    }

    /// The state with the program counter at `target`, taken modulo the
    /// length of the memory.
    pub open spec fn at(self, target: int) -> MachineState {
        MachineState {
            program_counter: (target % (self.memory.len() as int)) as nat,
            ..self
        }
    }

    /// The state with the program counter moved on by `n` bytes, back to
    /// the start of the memory where it runs off its end.
    pub open spec fn advanced(self, n: nat) -> MachineState {
        self.at((self.program_counter + n) as int)
    }

    /// The instruction that stands at the program counter. The high half
    /// of its first byte selects the family. In the extended family three
    /// bits of that half say that an immediate follows, that the operands
    /// are wide, and which half of the operation table is meant.
    pub open spec fn decode(self) -> Instruction {
        let family = self.code_at(0) / 16;
        let low = self.code_at(0) % 16;
        let address = Addr(be_u16(self.code_at(1), self.code_at(2)));
        if family == 0 {
            Instruction::Output(RegId(low))
        } else if family == 1 {
            Instruction::OutputW(RegWId(low))
        } else if family == 2 {
            Instruction::LoadMem(RegId(low), address)
        } else if family == 3 {
            Instruction::LoadMemW(RegWId(low), address)
        } else if family == 4 {
            Instruction::StoreMem(RegId(low), address)
        } else if family == 5 {
            Instruction::StoreMemW(RegWId(low), address)
        } else if family == 6 {
            Instruction::Jmp(address)
        } else if family == 7 {
            Instruction::Jo(RegId(low), address)
        } else {
            let op = Operation::from_code(((family % 2) * 16 + low) as u8);
            let a = self.code_at(1) / 16;
            let b = self.code_at(1) % 16;
            if family < 10 {
                Instruction::Op(op, RegId(a), RegId(b))
            } else if family < 12 {
                Instruction::OpW(op, RegWId(a), RegWId(b))
            } else if family < 14 {
                Instruction::OpImm(
                    op,
                    RegId(a),
                    RegId(b),
                    Imm(be_u32(self.window(self.program_counter as int + 2, 4))),
                )
            } else {
                Instruction::OpImmW(
                    op,
                    RegWId(a),
                    RegWId(b),
                    ImmW(be_u64(self.window(self.program_counter as int + 2, 8))),
                )
            }
        }
    }

    /// The number of bytes that the instruction at the program counter
    /// takes.
    pub open spec fn decode_length(self) -> nat {
        let family = self.code_at(0) / 16;
        if family < 2 {
            1
        } else if family < 8 {
            3
        } else if family < 12 {
            2
        } else if family < 14 {
            6
        } else {
            10
        }
    }

    /// The state after the instruction at the program counter was read:
    /// the program counter stands behind it.
    pub open spec fn fetched(self) -> MachineState {
        self.advanced(self.decode_length())
    }

    /// The state after `instruction` was carried out in this state.
    pub open spec fn executed(self, instruction: Instruction) -> MachineState {
        match instruction {
            Instruction::Output(_) => self,
            Instruction::OutputW(_) => self,
            Instruction::LoadMem(a, m) => self.with_register(a, self.memory_value(m)),
            Instruction::LoadMemW(a, m) => self.with_register_wide(a, self.memory_value_wide(m)),
            Instruction::StoreMem(a, m) => self.with_memory_value(m, self.register(a)),
            Instruction::StoreMemW(a, m) => self.with_memory_value_wide(m, self.register_wide(a)),
            Instruction::Jmp(m) => self.at(m.0 as int),
            Instruction::Jo(a, m) => if self.register(a) % 2 == 1 {
                self.at(m.0 as int)
            } else {
                self
            },
            Instruction::Op(o, a, b) => self.with_register(
                a,
                evaluate(o, self.register(a), self.register(b)),
            ),
            Instruction::OpW(o, a, b) => self.with_register_wide(
                a,
                evaluate_wide(o, self.register_wide(a), self.register_wide(b)),
            ),
            Instruction::OpImm(o, a, b, i) => self.with_register(
                a,
                evaluate(o, self.register(b), i.0),
            ),
            Instruction::OpImmW(o, a, b, i) => self.with_register_wide(
                a,
                evaluate_wide(o, self.register_wide(b), i.0),
            ),
        }
    }

    /// The bytes that carrying out `instruction` in this state appends to
    /// the output.
    pub open spec fn emitted(self, instruction: Instruction) -> Seq<u8> {
        match instruction {
            Instruction::Output(a) => seq![(self.register(a) % 0x100) as u8],
            Instruction::OutputW(a) => seq![
                (self.register_wide(a) / 0x100 % 0x100) as u8,
                (self.register_wide(a) % 0x100) as u8,
            ],
            _ => Seq::empty(),
        }
    }

    /// The state after one cycle: the instruction at the program counter is
    /// read and carried out.
    pub open spec fn step(self) -> MachineState {
        self.fetched().executed(self.decode())
    }

    /// The bytes that one cycle appends to the output.
    pub open spec fn step_output(self) -> Seq<u8> {
        self.fetched().emitted(self.decode())
    }

    /// The state after `n` cycles.
    #[verifier::opaque]
    pub open spec fn run(self, n: nat) -> MachineState
        decreases n,
    {
        if n == 0 {
            self
        } else {
            self.run((n - 1) as nat).step()
        }
    }

    /// The bytes that `n` cycles append to the output.
    #[verifier::opaque]
    pub open spec fn run_output(self, n: nat) -> Seq<u8>
        decreases n,
    {
        if n == 0 {
            Seq::empty()
        } else {
            self.run_output((n - 1) as nat) + self.run((n - 1) as nat).step_output()
        }
    }
}

/// Moving the program counter on by one byte takes it to the next index,
/// or to zero from the last one; the byte it leaves is the one it stood at.
pub proof fn lemma_advanced_by_one(s: MachineState)
    requires
        s.wf(),
    ensures
        s.code_at(0) == s.memory[s.program_counter as int],
        s.advanced(1).program_counter == if s.program_counter + 1 == s.memory.len() {
            0
        } else {
            s.program_counter + 1
        },
{
    let len = s.memory.len() as int;
    vstd::arithmetic::div_mod::lemma_small_mod(s.program_counter, s.memory.len());
    if s.program_counter + 1 == len {
        vstd::arithmetic::div_mod::lemma_mod_self_0(len);
    } else {
        vstd::arithmetic::div_mod::lemma_small_mod((s.program_counter + 1) as nat, s.memory.len());
    }
}

/// Moving the program counter on by `i` bytes and then by one more is
/// moving it on by `i + 1`; the byte it then stands at is the one `i` places
/// after where it started.
pub proof fn lemma_advanced(s: MachineState, i: nat)
    requires
        s.wf(),
    ensures
        s.advanced(i).wf(),
        s.advanced(i).advanced(1) == s.advanced(i + 1),
        s.advanced(i).code_at(0) == s.code_at(i as int),
{
    let len = s.memory.len() as int;
    let x = (s.program_counter + i) as int;
    vstd::arithmetic::div_mod::lemma_mod_bound(x, len);
    vstd::arithmetic::div_mod::lemma_mod_twice(x, len);
    vstd::arithmetic::div_mod::lemma_add_mod_noop_right(1, x, len);
}

/// A run of no cycles changes nothing and puts out nothing; a run of
/// `n + 1` cycles is a run of `n` cycles and one cycle more.
pub proof fn lemma_run_unfold(s: MachineState, n: nat)
    ensures
        s.run(0) == s,
        s.run_output(0) == Seq::<u8>::empty(),
        s.run(n + 1) == s.run(n).step(),
        s.run_output(n + 1) == s.run_output(n) + s.run(n).step_output(),
{
    reveal(MachineState::run);
    reveal(MachineState::run_output);
}

/// Storing bytes leaves the length of the memory as it was.
pub proof fn lemma_store_len(memory: Seq<u8>, address: int, source: Seq<u8>)
    requires
        memory.len() > 0,
    ensures
        store(memory, address, source).len() == memory.len(),
    decreases source.len(),
{
    if source.len() > 0 {
        lemma_store_len(memory, address, source.drop_last());
        vstd::arithmetic::div_mod::lemma_mod_bound(
            address + source.len() - 1,
            memory.len() as int,
        );
    }
}

/// Carrying out an instruction takes a well-formed state to a well-formed
/// state, over a memory of the same length.
pub proof fn lemma_executed_wf(s: MachineState, instruction: Instruction)
    requires
        s.wf(),
    ensures
        s.executed(instruction).wf(),
        s.executed(instruction).memory.len() == s.memory.len(),
{
    let len = s.memory.len() as int;
    match instruction {
        Instruction::StoreMem(a, m) => {
            lemma_store_len(s.memory, m.0 as int, u32_be_bytes(s.register(a)));
        },
        Instruction::StoreMemW(a, m) => {
            lemma_store_len(s.memory, m.0 as int, u64_be_bytes(s.register_wide(a)));
        },
        Instruction::Jmp(m) => {
            vstd::arithmetic::div_mod::lemma_mod_bound(m.0 as int, len);
        },
        Instruction::Jo(a, m) => {
            vstd::arithmetic::div_mod::lemma_mod_bound(m.0 as int, len);
        },
        _ => {},
    }
}

/// One cycle takes a well-formed state to a well-formed state, over a
/// memory of the same length: the program counter stays inside the memory.
pub proof fn lemma_step_wf(s: MachineState)
    requires
        s.wf(),
    ensures
        s.step().wf(),
        s.step().memory.len() == s.memory.len(),
        s.step().program_counter < s.memory.len(),
{
    vstd::arithmetic::div_mod::lemma_mod_bound(
        (s.program_counter + s.decode_length()) as int,
        s.memory.len() as int,
    );
    lemma_executed_wf(s.fetched(), s.decode());
}

/// However many cycles run from a well-formed state, the state stays
/// well-formed and the program counter inside the memory, whose length
/// never changes.
pub proof fn lemma_run_wf(s: MachineState, n: nat)
    requires
        s.wf(),
    ensures
        s.run(n).wf(),
        s.run(n).memory.len() == s.memory.len(),
        s.run(n).program_counter < s.memory.len(),
    decreases n,
{
    reveal(MachineState::run);
    if n > 0 {
        lemma_run_wf(s, (n - 1) as nat);
        lemma_step_wf(s.run((n - 1) as nat));
    }
}

/// A run of `m + n` cycles is a run of `m` cycles followed by one of `n`:
/// running in batches changes neither the final state nor the output.
pub proof fn lemma_run_in_batches(s: MachineState, m: nat, n: nat)
    ensures
        s.run(m + n) == s.run(m).run(n),
        s.run_output(m + n) == s.run_output(m) + s.run(m).run_output(n),
    decreases n,
{
    reveal(MachineState::run);
    reveal(MachineState::run_output);
    if n > 0 {
        lemma_run_in_batches(s, m, (n - 1) as nat);
    }
}

/// Decoding is total. Whatever byte stands at the program counter, its
/// high half selects exactly one family of instructions, the decoded
/// instruction belongs to that family and names only registers inside the
/// register file, and its length is that of the family.
pub proof fn lemma_decode_total(s: MachineState)
    ensures
        s.decode().in_bounds(),
        0 <= s.code_at(0) / 16 < 16,
        s.decode() is Output <==> s.code_at(0) / 16 == 0,
        s.decode() is OutputW <==> s.code_at(0) / 16 == 1,
        s.decode() is LoadMem <==> s.code_at(0) / 16 == 2,
        s.decode() is LoadMemW <==> s.code_at(0) / 16 == 3,
        s.decode() is StoreMem <==> s.code_at(0) / 16 == 4,
        s.decode() is StoreMemW <==> s.code_at(0) / 16 == 5,
        s.decode() is Jmp <==> s.code_at(0) / 16 == 6,
        s.decode() is Jo <==> s.code_at(0) / 16 == 7,
        s.decode() is Op <==> s.code_at(0) / 16 == 8 || s.code_at(0) / 16 == 9,
        s.decode() is OpW <==> s.code_at(0) / 16 == 10 || s.code_at(0) / 16 == 11,
        s.decode() is OpImm <==> s.code_at(0) / 16 == 12 || s.code_at(0) / 16 == 13,
        s.decode() is OpImmW <==> s.code_at(0) / 16 == 14 || s.code_at(0) / 16 == 15,
        s.decode_length() == match s.decode() {
            Instruction::Output(_) | Instruction::OutputW(_) => 1nat,
            Instruction::Op(_, _, _) | Instruction::OpW(_, _, _) => 2nat,
            Instruction::OpImm(_, _, _, _) => 6nat,
            Instruction::OpImmW(_, _, _, _) => 10nat,
            _ => 3nat,
        },
{
}

/// The register file is shared by both kinds of register: the wide
/// register `w` lies over the narrow registers `2 * w` and `2 * w + 1`.
/// After a write to `w` the first of the two holds the high half of the
/// value and the second the low half; every other narrow register is as
/// before.
pub proof fn lemma_wide_write_narrow_read(s: MachineState, w: RegWId, value: u64, r: RegId)
    requires
        s.wf(),
        w.in_bounds(),
        r.in_bounds(),
    ensures
        s.with_register_wide(w, value).register(r) == if r.0 == 2 * w.0 {
            (value / 0x1_0000_0000) as u32
        } else if r.0 == 2 * w.0 + 1 {
            (value % 0x1_0000_0000) as u32
        } else {
            s.register(r)
        },
{
    if r.0 == 2 * w.0 {
        assert((value / 0x100_0000_0000_0000) * 0x100_0000 + (value / 0x1_0000_0000_0000 % 0x100)
            * 0x1_0000 + (value / 0x100_0000_0000 % 0x100) * 0x100 + value / 0x1_0000_0000 % 0x100
            == value / 0x1_0000_0000) by (bit_vector);
    } else if r.0 == 2 * w.0 + 1 {
        assert((value / 0x100_0000 % 0x100) * 0x100_0000 + (value / 0x1_0000 % 0x100) * 0x1_0000 + (
        value / 0x100 % 0x100) * 0x100 + value % 0x100 == value % 0x1_0000_0000) by (bit_vector);
    }
}

/// A write to the narrow register `2 * w` replaces the high half of the
/// wide register `w`, a write to `2 * w + 1` its low half, and a write to
/// any other narrow register leaves `w` as it was.
pub proof fn lemma_narrow_write_wide_read(s: MachineState, r: RegId, value: u32, w: RegWId)
    requires
        s.wf(),
        w.in_bounds(),
        r.in_bounds(),
    ensures
        s.with_register(r, value).register_wide(w) == if r.0 == 2 * w.0 {
            value * 0x1_0000_0000 + s.register_wide(w) % 0x1_0000_0000
        } else if r.0 == 2 * w.0 + 1 {
            s.register_wide(w) / 0x1_0000_0000 * 0x1_0000_0000 + value
        } else {
            s.register_wide(w) as int
        },
{
    let before = s.registers.subrange(w.base(), w.base() + 8);
    let after = s.with_register(r, value).registers.subrange(w.base(), w.base() + 8);
    let bytes = u32_be_bytes(value);
    crate::bytes::lemma_u32_round_trip(value);
    if r.0 == 2 * w.0 {
        assert(after =~= bytes + before.subrange(4, 8));
        let low: u64 = be_u32(before.subrange(4, 8)) as u64;
        let old: u64 = be_u64(before);
        let high: u64 = be_u32(before.subrange(0, 4)) as u64;
        assert(old == high * 0x1_0000_0000 + low);
        assert(be_u64(after) == value as u64 * 0x1_0000_0000 + low);
    } else if r.0 == 2 * w.0 + 1 {
        assert(after =~= before.subrange(0, 4) + bytes);
        let low: u64 = be_u32(before.subrange(4, 8)) as u64;
        let old: u64 = be_u64(before);
        let high: u64 = be_u32(before.subrange(0, 4)) as u64;
        assert(old == high * 0x1_0000_0000 + low);
        assert(be_u64(after) == high * 0x1_0000_0000 + value);
    } else {
        assert(after =~= before);
    }
}

/// A narrow register holds what was last written to it, and a write to it
/// leaves every other narrow register as it was.
pub proof fn lemma_write_read(s: MachineState, a: RegId, value: u32, r: RegId)
    requires
        s.wf(),
        a.in_bounds(),
        r.in_bounds(),
    ensures
        s.with_register(a, value).register(r) == if r == a {
            value
        } else {
            s.register(r)
        },
{
    if r == a {
        crate::bytes::lemma_u32_round_trip(value);
    }
}

/// The conditional jump is taken exactly when the register it tests holds
/// an odd value. Where the value is even, the cycle leaves the program
/// counter behind the three bytes of the jump, at the next instruction.
/// Either way the cycle changes nothing else and puts out nothing.
pub proof fn lemma_jump_if_odd(s: MachineState)
    requires
        s.wf(),
        s.code_at(0) / 16 == 7,
    ensures
        s.decode() == Instruction::Jo(
            RegId(s.code_at(0) % 16),
            Addr(be_u16(s.code_at(1), s.code_at(2))),
        ),
        s.step().program_counter == if s.register(RegId(s.code_at(0) % 16)) % 2 == 1 {
            be_u16(s.code_at(1), s.code_at(2)) as int % (s.memory.len() as int)
        } else {
            (s.program_counter as int + 3) % (s.memory.len() as int)
        },
        s.step().memory == s.memory,
        s.step().registers == s.registers,
        s.step_output() == Seq::<u8>::empty(),
{
    vstd::arithmetic::div_mod::lemma_mod_bound(
        (s.program_counter + 3) as int,
        s.memory.len() as int,
    );
    vstd::arithmetic::div_mod::lemma_mod_bound(
        be_u16(s.code_at(1), s.code_at(2)) as int,
        s.memory.len() as int,
    );
}

} // verus!
