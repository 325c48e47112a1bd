//! The execution engine: a machine that owns its memory, program counter
//! and register file, and runs fetch-decode-execute cycles.

use crate::alu::{
    at_least_one,
    count_ones,
    evaluate,
    reverse_bits,
    rotate_left,
    rotate_right,
    wrapping_pow,
};
use crate::alu_wide::{
    at_least_one_wide,
    count_ones_wide,
    evaluate_wide,
    reverse_bits_wide,
    rotate_left_wide,
    rotate_right_wide,
    wrapping_pow_wide,
};
use crate::bytes::{u16_from_be, u32_from_be, u32_to_be, u64_from_be, u64_to_be};
use crate::instruction::{
    Addr,
    Imm,
    ImmW,
    Instruction,
    Operation,
    RegId,
    RegWId,
    Value,
    WideValue,
    REGISTER_FILE_SIZE,
};
use crate::state::{
    lemma_advanced,
    lemma_advanced_by_one,
    lemma_run_unfold,
    overlay,
    store,
    MachineState,
};
use vstd::prelude::*;

verus! {

/// A machine. It is made once for a program and run any number of times;
/// the program counter and the registers persist from one run to the next.
pub struct Machine {
    memory: Vec<u8>,
    program_counter: usize,
    register_file: [u8; REGISTER_FILE_SIZE],
}

impl View for Machine {
    type V = MachineState;

    closed spec fn view(&self) -> MachineState {
        MachineState {
            memory: self.memory@,
            program_counter: self.program_counter as nat,
            registers: self.register_file@,
        }
    }
}

impl Machine {
    #[verifier::type_invariant]
    spec fn inv(&self) -> bool {
        self@.wf()
    }

    /// Makes a machine that starts at the first byte of `memory`, with all
    /// registers zero.
    pub fn new(memory: Vec<u8>) -> (machine: Machine)
        requires
            memory@.len() > 0,
        ensures
            machine@ == MachineState::initial(memory@),
            machine@.wf(),
    {
        let machine = Machine { memory, program_counter: 0, register_file: [0; REGISTER_FILE_SIZE] };
        assert(machine@.registers =~= Seq::new(256, |i: int| 0u8));
        machine
    }

    /// The program counter: an index into the memory.
    pub fn program_counter(&self) -> (pc: usize)
        ensures
            pc == self@.program_counter,
            pc < self@.memory.len(),
    {
        proof {
            use_type_invariant(self);
        }
        self.program_counter
    }

    /// The program memory.
    pub fn memory(&self) -> (memory: &Vec<u8>)
        ensures
            memory@ == self@.memory,
    {
        &self.memory
    }

    /// Reads the byte at the program counter and moves the program counter
    /// on by one, back to the start of the memory at its end.
    pub fn next_instruction_byte(&mut self) -> (b: u8)
        ensures
            b == old(self)@.code_at(0),
            final(self)@ == old(self)@.advanced(1),
            final(self)@.wf(),
    {
        proof {
            use_type_invariant(&*self);
            lemma_advanced_by_one(self@);
        }
        let b = self.memory[self.program_counter];
        let len = self.memory.len();
        let next = self.program_counter + 1;
        if next >= len {
            self.program_counter = 0;
        } else {
            self.program_counter = next;
        }
        b
    }

    /// Splits a byte into its high and its low half.
    pub fn byte_to_nibbles(b: u8) -> (halves: (u8, u8))
        ensures
            halves.0 == b / 16,
            halves.1 == b % 16,
    {
        (b / 16, b % 16)
    }

    /// Makes an address of its two bytes, the high one first.
    pub fn bytes_to_addr(b0: u8, b1: u8) -> (address: Addr)
        ensures
            address == Addr(crate::bytes::be_u16(b0, b1)),
    {
        Addr(u16_from_be(b0, b1))
    }

    /// The operation that the five-bit number `n` selects.
    pub fn decode_operation(n: u8) -> (op: Operation)
        requires
            n < 32,
        ensures
            op.code() == n,
            op == Operation::from_code(n),
    {
        let op = match n {
            0 => Operation::Copy,
            1 => Operation::Not,
            2 => Operation::Neg,
            3 => Operation::Reverse,
            4 => Operation::Numzeros,
            5 => Operation::Numones,
            6 => Operation::And,
            7 => Operation::Or,
            8 => Operation::Xor,
            9 => Operation::Shl,
            10 => Operation::Shlm,
            11 => Operation::Shr,
            12 => Operation::Shrm,
            13 => Operation::Rotl,
            14 => Operation::Rotr,
            15 => Operation::Addc,
            16 => Operation::Addm,
            17 => Operation::Subc,
            18 => Operation::Subm,
            19 => Operation::Absdiff,
            20 => Operation::Mulc,
            21 => Operation::Mulm,
            22 => Operation::Div,
            23 => Operation::Mod,
            24 => Operation::Powm,
            25 => Operation::Powc,
            26 => Operation::Gt,
            27 => Operation::Ge,
            28 => Operation::Lt,
            29 => Operation::Le,
            30 => Operation::Eq,
            _ => Operation::Ne,
        };
        op
    }

    /// Reads the instruction at the program counter and moves the program
    /// counter behind it. Every byte value begins an instruction.
    pub fn fetch(&mut self) -> (instruction: Instruction)
        ensures
            instruction == old(self)@.decode(),
            instruction.in_bounds(),
            final(self)@ == old(self)@.fetched(),
            final(self)@.wf(),
    {
        let ghost origin = self@;
        proof {
            use_type_invariant(&*self);
            lemma_advanced(origin, 0);
            vstd::arithmetic::div_mod::lemma_small_mod(origin.program_counter, origin.memory.len());
        }
        let b0 = self.next_instruction_byte();
        let (family, low) = Self::byte_to_nibbles(b0);
        if family < 2 {
            if family == 0 {
                Instruction::Output(RegId(low))
            } else {
                Instruction::OutputW(RegWId(low))
            }
        } else if family < 8 {
            proof {
                lemma_advanced(origin, 1);
            }
            let b1 = self.next_instruction_byte();
            proof {
                lemma_advanced(origin, 2);
            }
            let b2 = self.next_instruction_byte();
            let address = Self::bytes_to_addr(b1, b2);
            if family == 2 {
                Instruction::LoadMem(RegId(low), address)
            } else if family == 3 {
                Instruction::LoadMemW(RegWId(low), address)
            } else if family == 4 {
                Instruction::StoreMem(RegId(low), address)
            } else if family == 5 {
                Instruction::StoreMemW(RegWId(low), address)
            } else if family == 6 {
                Instruction::Jmp(address)
            } else {
                Instruction::Jo(RegId(low), address)
            }
        } else {
            let op = Self::decode_operation((family % 2) * 16 + low);
            proof {
                lemma_advanced(origin, 1);
            }
            let ab = self.next_instruction_byte();
            let (a, b) = Self::byte_to_nibbles(ab);
            if family < 10 {
                Instruction::Op(op, RegId(a), RegId(b))
            } else if family < 12 {
                Instruction::OpW(op, RegWId(a), RegWId(b))
            } else if family < 14 {
                let mut bytes = [0u8; 4];
                let mut i: usize = 0;
                while i < 4
                    invariant
                        i <= 4,
                        origin.wf(),
                        self@ == origin.advanced((2 + i) as nat),
                        forall|j: int| 0 <= j < i ==> bytes@[j] == origin.code_at(2 + j),
                    decreases 4 - i,
                {
                    proof {
                        lemma_advanced(origin, (2 + i) as nat);
                    }
                    bytes[i] = self.next_instruction_byte();
                    i = i + 1;
                }
                Instruction::OpImm(op, RegId(a), RegId(b), Imm(u32_from_be(&bytes)))
            } else {
                let mut bytes = [0u8; 8];
                let mut i: usize = 0;
                while i < 8
                    invariant
                        i <= 8,
                        origin.wf(),
                        self@ == origin.advanced((2 + i) as nat),
                        forall|j: int| 0 <= j < i ==> bytes@[j] == origin.code_at(2 + j),
                    decreases 8 - i,
                {
                    proof {
                        lemma_advanced(origin, (2 + i) as nat);
                    }
                    bytes[i] = self.next_instruction_byte();
                    i = i + 1;
                }
                Instruction::OpImmW(op, RegWId(a), RegWId(b), ImmW(u64_from_be(&bytes)))
            }
        }
    }

    /// Reads a narrow register.
    pub fn read_register(&self, register: RegId) -> (value: Value)
        requires
            register.in_bounds(),
        ensures
            value == self@.register(register),
    {
        let base = (register.0 as usize) * 4;
        let mut bytes = [0u8; 4];
        let mut i: usize = 0;
        while i < 4
            invariant
                i <= 4,
                base + 4 <= 256,
                forall|j: int| 0 <= j < i ==> bytes@[j] == self.register_file@[base + j],
            decreases 4 - i,
        {
            bytes[i] = self.register_file[base + i];
            i = i + 1;
        }
        u32_from_be(&bytes)
    }

    /// Reads a wide register.
    pub fn read_register_wide(&self, register: RegWId) -> (value: WideValue)
        requires
            register.in_bounds(),
        ensures
            value == self@.register_wide(register),
    {
        let base = (register.0 as usize) * 8;
        let mut bytes = [0u8; 8];
        let mut i: usize = 0;
        while i < 8
            invariant
                i <= 8,
                base + 8 <= 256,
                forall|j: int| 0 <= j < i ==> bytes@[j] == self.register_file@[base + j],
            decreases 8 - i,
        {
            bytes[i] = self.register_file[base + i];
            i = i + 1;
        }
        u64_from_be(&bytes)
    }

    /// Writes a narrow register.
    pub fn write_register(&mut self, register: RegId, value: Value)
        requires
            register.in_bounds(),
        ensures
            final(self)@ == old(self)@.with_register(register, value),
            final(self)@.wf(),
    {
        proof {
            use_type_invariant(&*self);
        }
        let bytes = u32_to_be(value);
        let base = (register.0 as usize) * 4;
        let mut i: usize = 0;
        while i < 4
            invariant
                i <= 4,
                base + 4 <= 256,
                self@.wf(),
                self@.memory == old(self)@.memory,
                self@.program_counter == old(self)@.program_counter,
                self@.registers == overlay(old(self)@.registers, base as int, bytes@.take(i as int)),
            decreases 4 - i,
        {
            self.register_file[base + i] = bytes[i];
            i = i + 1;
            assert(self@.registers =~= overlay(
                old(self)@.registers,
                base as int,
                bytes@.take(i as int),
            ));
        }
        assert(bytes@.take(4) =~= bytes@);
    }

    /// Writes a wide register.
    pub fn write_register_wide(&mut self, register: RegWId, value: WideValue)
        requires
            register.in_bounds(),
        ensures
            final(self)@ == old(self)@.with_register_wide(register, value),
            final(self)@.wf(),
    {
        proof {
            use_type_invariant(&*self);
        }
        let bytes = u64_to_be(value);
        let base = (register.0 as usize) * 8;
        let mut i: usize = 0;
        while i < 8
            invariant
                i <= 8,
                base + 8 <= 256,
                self@.wf(),
                self@.memory == old(self)@.memory,
                self@.program_counter == old(self)@.program_counter,
                self@.registers == overlay(old(self)@.registers, base as int, bytes@.take(i as int)),
            decreases 8 - i,
        {
            self.register_file[base + i] = bytes[i];
            i = i + 1;
            assert(self@.registers =~= overlay(
                old(self)@.registers,
                base as int,
                bytes@.take(i as int),
            ));
        }
        assert(bytes@.take(8) =~= bytes@);
    }

    /// Reads four bytes of memory from `address` on as a value. Indices
    /// wrap at the end of the memory.
    pub fn read_memory(&self, address: Addr) -> (value: Value)
        ensures
            value == self@.memory_value(address),
    {
        proof {
            use_type_invariant(self);
        }
        let mut bytes = [0u8; 4];
        let l = self.memory.len();
        let mut i: usize = 0;
        while i < 4
            invariant
                i <= 4,
                l == self.memory@.len(),
                l > 0,
                forall|j: int| 0 <= j < i ==> bytes@[j] == self@.memory_at(address.0 as int + j),
            decreases 4 - i,
        {
            bytes[i] = self.memory[(address.0 as usize + i) % l];
            i = i + 1;
        }
        u32_from_be(&bytes)
    }

    /// Reads eight bytes of memory from `address` on as a value. Indices
    /// wrap at the end of the memory.
    pub fn read_memory_wide(&self, address: Addr) -> (value: WideValue)
        ensures
            value == self@.memory_value_wide(address),
    {
        proof {
            use_type_invariant(self);
        }
        let mut bytes = [0u8; 8];
        let l = self.memory.len();
        let mut i: usize = 0;
        while i < 8
            invariant
                i <= 8,
                l == self.memory@.len(),
                l > 0,
                forall|j: int| 0 <= j < i ==> bytes@[j] == self@.memory_at(address.0 as int + j),
            decreases 8 - i,
        {
            bytes[i] = self.memory[(address.0 as usize + i) % l];
            i = i + 1;
        }
        u64_from_be(&bytes)
    }

    /// Stores a value in the four bytes of memory from `address` on.
    /// Indices wrap at the end of the memory.
    pub fn write_memory(&mut self, address: Addr, value: Value)
        ensures
            final(self)@ == old(self)@.with_memory_value(address, value),
            final(self)@.wf(),
    {
        proof {
            use_type_invariant(&*self);
        }
        let bytes = u32_to_be(value);
        let l = self.memory.len();
        let mut i: usize = 0;
        while i < 4
            invariant
                i <= 4,
                l == old(self)@.memory.len(),
                self@.wf(),
                self@.registers == old(self)@.registers,
                self@.program_counter == old(self)@.program_counter,
                self@.memory == store(old(self)@.memory, address.0 as int, bytes@.take(i as int)),
                self@.memory.len() == l,
            decreases 4 - i,
        {
            self.memory[(address.0 as usize + i) % l] = bytes[i];
            i = i + 1;
            assert(bytes@.take(i as int).drop_last() =~= bytes@.take(i - 1));
        }
        assert(bytes@.take(4) =~= bytes@);
    }

    /// Stores a value in the eight bytes of memory from `address` on.
    /// Indices wrap at the end of the memory.
    pub fn write_memory_wide(&mut self, address: Addr, value: WideValue)
        ensures
            final(self)@ == old(self)@.with_memory_value_wide(address, value),
            final(self)@.wf(),
    {
        proof {
            use_type_invariant(&*self);
        }
        let bytes = u64_to_be(value);
        let l = self.memory.len();
        let mut i: usize = 0;
        while i < 8
            invariant
                i <= 8,
                l == old(self)@.memory.len(),
                self@.wf(),
                self@.registers == old(self)@.registers,
                self@.program_counter == old(self)@.program_counter,
                self@.memory == store(old(self)@.memory, address.0 as int, bytes@.take(i as int)),
                self@.memory.len() == l,
            decreases 8 - i,
        {
            self.memory[(address.0 as usize + i) % l] = bytes[i];
            i = i + 1;
            assert(bytes@.take(i as int).drop_last() =~= bytes@.take(i - 1));
        }
        assert(bytes@.take(8) =~= bytes@);
    }

    /// Applies an operation to two narrow operands. Unary operations read
    /// the second operand alone.
    pub fn evaluate_operation(op: Operation, a: Value, b: Value) -> (value: Value)
        ensures
            value == evaluate(op, a, b),
    {
        match op {
            Operation::Copy => b,
            Operation::Not => !b,
            Operation::Neg => Value::MAX - b,
            Operation::Reverse => reverse_bits(b),
            Operation::Numzeros => (32 - count_ones(b)) as Value,
            Operation::Numones => count_ones(b) as Value,
            Operation::And => a & b,
            Operation::Or => a | b,
            Operation::Xor => a ^ b,
            Operation::Shl => if b < 32 {
                a << b
            } else {
                0
            },
            Operation::Shlm => a << (b % 32),
            Operation::Shr => if b < 32 {
                a >> b
            } else {
                0
            },
            Operation::Shrm => a >> (b % 32),
            Operation::Rotl => rotate_left(a, b),
            Operation::Rotr => rotate_right(a, b),
            Operation::Addc => a.saturating_add(b),
            Operation::Addm => a.wrapping_add(b),
            Operation::Subc => a.saturating_sub(b),
            Operation::Subm => a.wrapping_sub(b),
            Operation::Absdiff => if a < b {
                b - a
            } else {
                a - b
            },
            Operation::Mulc => match a.checked_mul(b) {
                Some(product) => product,
                None => Value::MAX,
            },
            Operation::Mulm => a.wrapping_mul(b),
            Operation::Div => a / at_least_one(b),
            Operation::Mod => a % at_least_one(b),
            Operation::Powm => wrapping_pow(a, b),
            Operation::Powc => wrapping_pow(a, b),
            Operation::Gt => if a > b {
                1
            } else {
                0
            },
            Operation::Ge => if a >= b {
                1
            } else {
                0
            },
            Operation::Lt => if a < b {
                1
            } else {
                0
            },
            Operation::Le => if a <= b {
                1
            } else {
                0
            },
            Operation::Eq => if a == b {
                1
            } else {
                0
            },
            Operation::Ne => if a != b {
                1
            } else {
                0
            },
        }
    }

    /// Applies an operation to two wide operands. Unary operations read
    /// the second operand alone.
    pub fn evaluate_operation_wide(op: Operation, a: WideValue, b: WideValue) -> (value: WideValue)
        ensures
            value == evaluate_wide(op, a, b),
    {
        match op {
            Operation::Copy => b,
            Operation::Not => !b,
            Operation::Neg => WideValue::MAX - b,
            Operation::Reverse => reverse_bits_wide(b),
            Operation::Numzeros => (64 - count_ones_wide(b)) as WideValue,
            Operation::Numones => count_ones_wide(b) as WideValue,
            Operation::And => a & b,
            Operation::Or => a | b,
            Operation::Xor => a ^ b,
            Operation::Shl => if b < 64 {
                a << b
            } else {
                0
            },
            Operation::Shlm => a << (b % 64),
            Operation::Shr => if b < 64 {
                a >> b
            } else {
                0
            },
            Operation::Shrm => a >> (b % 64),
            Operation::Rotl => rotate_left_wide(a, b),
            Operation::Rotr => rotate_right_wide(a, b),
            Operation::Addc => a.saturating_add(b),
            Operation::Addm => a.wrapping_add(b),
            Operation::Subc => a.saturating_sub(b),
            Operation::Subm => a.wrapping_sub(b),
            Operation::Absdiff => if a < b {
                b - a
            } else {
                a - b
            },
            Operation::Mulc => match a.checked_mul(b) {
                Some(product) => product,
                None => WideValue::MAX,
            },
            Operation::Mulm => a.wrapping_mul(b),
            Operation::Div => a / at_least_one_wide(b),
            Operation::Mod => a % at_least_one_wide(b),
            Operation::Powm => wrapping_pow_wide(a, b),
            Operation::Powc => wrapping_pow_wide(a, b),
            Operation::Gt => if a > b {
                1
            } else {
                0
            },
            Operation::Ge => if a >= b {
                1
            } else {
                0
            },
            Operation::Lt => if a < b {
                1
            } else {
                0
            },
            Operation::Le => if a <= b {
                1
            } else {
                0
            },
            Operation::Eq => if a == b {
                1
            } else {
                0
            },
            Operation::Ne => if a != b {
                1
            } else {
                0
            },
        }
    }

    /// Carries out an instruction; what it puts out is appended to
    /// `output`.
    pub fn execute(&mut self, instruction: Instruction, output: &mut Vec<u8>)
        requires
            instruction.in_bounds(),
        ensures
            final(self)@ == old(self)@.executed(instruction),
            final(self)@.wf(),
            final(output)@ == old(output)@ + old(self)@.emitted(instruction),
    {
        proof {
            use_type_invariant(&*self);
        }
        match instruction {
            Instruction::Output(a) => {
                let value = self.read_register(a);
                output.push((value % 0x100) as u8);
            },
            Instruction::OutputW(a) => {
                let value = self.read_register_wide(a);
                output.push((value / 0x100 % 0x100) as u8);
                output.push((value % 0x100) as u8);
            },
            Instruction::LoadMem(a, m) => {
                let value = self.read_memory(m);
                self.write_register(a, value);
            },
            Instruction::LoadMemW(a, m) => {
                let value = self.read_memory_wide(m);
                self.write_register_wide(a, value);
            },
            Instruction::StoreMem(a, m) => {
                let value = self.read_register(a);
                self.write_memory(m, value);
            },
            Instruction::StoreMemW(a, m) => {
                let value = self.read_register_wide(a);
                self.write_memory_wide(m, value);
            },
            Instruction::Jmp(m) => {
                self.jump(m);
            },
            Instruction::Jo(a, m) => {
                let value = self.read_register(a);
                if value % 2 == 1 {
                    self.jump(m);
                }
            },
            Instruction::Op(o, a, b) => {
                let value = Self::evaluate_operation(o, self.read_register(a), self.read_register(b));
                self.write_register(a, value);
            },
            Instruction::OpW(o, a, b) => {
                let value = Self::evaluate_operation_wide(
                    o,
                    self.read_register_wide(a),
                    self.read_register_wide(b),
                );
                self.write_register_wide(a, value);
            },
            Instruction::OpImm(o, a, b, i) => {
                let value = Self::evaluate_operation(o, self.read_register(b), i.0);
                self.write_register(a, value);
            },
            Instruction::OpImmW(o, a, b, i) => {
                let value = Self::evaluate_operation_wide(o, self.read_register_wide(b), i.0);
                self.write_register_wide(a, value);
            },
        }
    }

    /// Sets the program counter to an address, taken modulo the length of
    /// the memory.
    fn jump(&mut self, target: Addr)
        ensures
            final(self)@ == old(self)@.at(target.0 as int),
            final(self)@.wf(),
    {
        proof {
            use_type_invariant(&*self);
        }
        let len = self.memory.len();
        self.program_counter = (target.0 as usize) % len;
    }

    /// Runs `num_steps` cycles, each reading one instruction and carrying
    /// it out. What the instructions put out is appended to `output`. No
    /// program makes a run end early or fail.
    pub fn run(&mut self, num_steps: usize, output: &mut Vec<u8>)
        ensures
            final(self)@ == old(self)@.run(num_steps as nat),
            final(self)@.wf(),
            final(output)@ == old(output)@ + old(self)@.run_output(num_steps as nat),
    {
        proof {
            use_type_invariant(&*self);
        }
        let mut done: usize = 0;
        proof {
            lemma_run_unfold(old(self)@, 0);
        }
        while done < num_steps
            invariant
                done <= num_steps,
                self@.wf(),
                self@ == old(self)@.run(done as nat),
                output@ == old(output)@ + old(self)@.run_output(done as nat),
            decreases num_steps - done,
        {
            proof {
                lemma_run_unfold(old(self)@, done as nat);
            }
            let instruction = self.fetch();
            self.execute(instruction, output);
            done = done + 1;
        }
    }
}

} // verus!
