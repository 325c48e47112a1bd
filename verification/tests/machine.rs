use lemurs::instruction::{Addr, Imm, ImmW, Instruction, Operation, RegId, RegWId};
use lemurs::machine::Machine;

#[test]
fn three_outputs_in_program_order() {
    let mut machine = Machine::new(vec![0x00, 0x01, 0x02]);
    machine.write_register(RegId(0), 5);
    machine.write_register(RegId(1), 7);
    machine.write_register(RegId(2), 2);
    let mut sink: Vec<u8> = Vec::new();
    machine.run(3, &mut sink);
    assert_eq!(sink, vec![5, 7, 2]);
    assert_eq!(machine.program_counter(), 0);
}

#[test]
fn run_appends_to_the_sink() {
    let mut machine = Machine::new(vec![0x00]);
    machine.write_register(RegId(0), 0x0102_03AB);
    let mut sink: Vec<u8> = vec![9];
    machine.run(2, &mut sink);
    assert_eq!(sink, vec![9, 0xAB, 0xAB]);
    machine.run(0, &mut sink);
    assert_eq!(sink, vec![9, 0xAB, 0xAB]);
}

#[test]
fn wide_output_is_two_bytes_high_first() {
    let mut machine = Machine::new(vec![0x13]);
    machine.write_register_wide(RegWId(3), 0x1122_3344_5566_7788);
    let mut sink: Vec<u8> = Vec::new();
    machine.run(1, &mut sink);
    assert_eq!(sink, vec![0x77, 0x88]);
}

#[test]
fn a_new_machine_starts_at_zero_with_zero_registers() {
    let machine = Machine::new(vec![1, 2, 3]);
    assert_eq!(machine.program_counter(), 0);
    assert_eq!(machine.memory(), &vec![1, 2, 3]);
    for id in 0..64u8 {
        assert_eq!(machine.read_register(RegId(id)), 0);
    }
    for id in 0..32u8 {
        assert_eq!(machine.read_register_wide(RegWId(id)), 0);
    }
}

#[test]
fn every_opcode_decodes() {
    for opcode in 0..=255u8 {
        let mut memory = vec![opcode];
        memory.extend_from_slice(&[0x12, 0x34, 0x56, 0x78, 0x9A, 0xBC, 0xDE, 0xF0, 0x11, 0x22]);
        let len = memory.len();
        let mut machine = Machine::new(memory);
        let instruction = machine.fetch();
        let low = opcode & 0x0F;
        let address = Addr(0x1234);
        let op = Machine::decode_operation(opcode & 0x1F);
        let (expected, size) = match opcode >> 4 {
            0 => (Instruction::Output(RegId(low)), 1),
            1 => (Instruction::OutputW(RegWId(low)), 1),
            2 => (Instruction::LoadMem(RegId(low), address), 3),
            3 => (Instruction::LoadMemW(RegWId(low), address), 3),
            4 => (Instruction::StoreMem(RegId(low), address), 3),
            5 => (Instruction::StoreMemW(RegWId(low), address), 3),
            6 => (Instruction::Jmp(address), 3),
            7 => (Instruction::Jo(RegId(low), address), 3),
            8 | 9 => (Instruction::Op(op, RegId(1), RegId(2)), 2),
            10 | 11 => (Instruction::OpW(op, RegWId(1), RegWId(2)), 2),
            12 | 13 => (Instruction::OpImm(op, RegId(1), RegId(2), Imm(0x3456_789A)), 6),
            _ => (
                Instruction::OpImmW(op, RegWId(1), RegWId(2), ImmW(0x3456_789A_BCDE_F011)),
                10,
            ),
        };
        assert_eq!(instruction, expected);
        assert_eq!(machine.program_counter(), size % len);
    }
}

#[test]
fn operation_codes() {
    let table = [
        Operation::Copy,
        Operation::Not,
        Operation::Neg,
        Operation::Reverse,
        Operation::Numzeros,
        Operation::Numones,
        Operation::And,
        Operation::Or,
        Operation::Xor,
        Operation::Shl,
        Operation::Shlm,
        Operation::Shr,
        Operation::Shrm,
        Operation::Rotl,
        Operation::Rotr,
        Operation::Addc,
        Operation::Addm,
        Operation::Subc,
        Operation::Subm,
        Operation::Absdiff,
        Operation::Mulc,
        Operation::Mulm,
        Operation::Div,
        Operation::Mod,
        Operation::Powm,
        Operation::Powc,
        Operation::Gt,
        Operation::Ge,
        Operation::Lt,
        Operation::Le,
        Operation::Eq,
        Operation::Ne,
    ];
    for (n, op) in table.iter().enumerate() {
        assert_eq!(Machine::decode_operation(n as u8), *op);
        assert_eq!(op.to_code(), n as u8);
    }
}

#[test]
fn fetch_wraps_at_the_end_of_memory() {
    // A store instruction whose address bytes lie at the start of memory.
    let mut machine = Machine::new(vec![0xAA, 0xBB, 0x00, 0x45]);
    let mut sink: Vec<u8> = Vec::new();
    machine.run(1, &mut sink);
    assert_eq!(machine.program_counter(), 2);
    assert_eq!(machine.fetch(), Instruction::Output(RegId(0)));
    assert_eq!(machine.fetch(), Instruction::StoreMem(RegId(5), Addr(0xAABB)));
    assert_eq!(machine.program_counter(), 2);
}

#[test]
fn a_memory_of_one_byte_runs() {
    let mut machine = Machine::new(vec![0xE7]);
    let instruction = machine.fetch();
    assert_eq!(
        instruction,
        Instruction::OpImmW(
            Operation::Or,
            RegWId(14),
            RegWId(7),
            ImmW(0xE7E7_E7E7_E7E7_E7E7)
        )
    );
    assert_eq!(machine.program_counter(), 0);
    let mut sink: Vec<u8> = Vec::new();
    machine.run(100, &mut sink);
    assert_eq!(machine.program_counter(), 0);
    assert_eq!(machine.read_register_wide(RegWId(14)), 0xE7E7_E7E7_E7E7_E7E7);

    let mut store = Machine::new(vec![0x40]);
    store.write_register(RegId(0), 0x0102_0304);
    store.run(1, &mut sink);
    // All four bytes go to the one cell; the last one stays.
    assert_eq!(store.memory(), &vec![0x04]);
}

#[test]
fn program_counter_stays_inside_memory() {
    let mut seed: u32 = 12345;
    for len in 1..40usize {
        let mut memory = Vec::new();
        for _ in 0..len {
            seed = seed.wrapping_mul(1_103_515_245).wrapping_add(12345);
            memory.push((seed >> 16) as u8);
        }
        let mut machine = Machine::new(memory);
        let mut sink: Vec<u8> = Vec::new();
        for _ in 0..200 {
            machine.run(7, &mut sink);
            assert!(machine.program_counter() < len);
            assert_eq!(machine.memory().len(), len);
        }
    }
}

#[test]
fn running_in_batches_is_running_at_once() {
    let program: Vec<u8> = vec![
        0xD0, 0x10, 0x00, 0x00, 0x00, 0x03, // addm-immediate r1 <- r0 + 3
        0x8F, 0x21, // addc r2 <- r2 + r1
        0x02, // output r2
        0x95, 0x11, // mulm r1 <- r1 * r1
        0x01, // output r1
        0x60, 0x00, 0x06, // jmp 6
    ];
    let mut whole = Machine::new(program.clone());
    let mut whole_sink: Vec<u8> = Vec::new();
    whole.run(50, &mut whole_sink);
    let mut parts = Machine::new(program);
    let mut parts_sink: Vec<u8> = Vec::new();
    parts.run(20, &mut parts_sink);
    parts.run(0, &mut parts_sink);
    parts.run(30, &mut parts_sink);
    assert_eq!(whole_sink, parts_sink);
    assert_eq!(whole.program_counter(), parts.program_counter());
    assert_eq!(&whole_sink[..4], &[3, 9, 12, 81]);
}

#[test]
fn wide_and_narrow_registers_share_storage() {
    let mut machine = Machine::new(vec![0]);
    machine.write_register_wide(RegWId(3), 0x0102_0304_0506_0708);
    assert_eq!(machine.read_register(RegId(6)), 0x0102_0304);
    assert_eq!(machine.read_register(RegId(7)), 0x0506_0708);
    assert_eq!(machine.read_register(RegId(3)), 0);
    assert_eq!(machine.read_register(RegId(5)), 0);
    assert_eq!(machine.read_register(RegId(8)), 0);
    machine.write_register(RegId(7), 0xAABB_CCDD);
    assert_eq!(machine.read_register_wide(RegWId(3)), 0x0102_0304_AABB_CCDD);
    // The last registers of both kinds end with the register file.
    machine.write_register_wide(RegWId(31), u64::MAX);
    assert_eq!(machine.read_register(RegId(63)), u32::MAX);
    assert_eq!(machine.read_register(RegId(62)), u32::MAX);
    assert_eq!(machine.read_register(RegId(61)), 0);
}

#[test]
fn jump_if_odd() {
    let program = vec![0x73, 0x00, 0x07, 0x00, 0x00, 0x00, 0x00, 0x00];
    for value in [0u32, 2, 4, 0xFFFF_FFFE, 0x8000_0000] {
        let mut machine = Machine::new(program.clone());
        machine.write_register(RegId(3), value);
        let mut sink: Vec<u8> = Vec::new();
        machine.run(1, &mut sink);
        assert_eq!(machine.program_counter(), 3);
        assert!(sink.is_empty());
    }
    for value in [1u32, 3, 0xFFFF_FFFF, 0x8000_0001] {
        let mut machine = Machine::new(program.clone());
        machine.write_register(RegId(3), value);
        let mut sink: Vec<u8> = Vec::new();
        machine.run(1, &mut sink);
        assert_eq!(machine.program_counter(), 7);
    }
}

#[test]
fn jumps_reduce_the_address_modulo_the_memory_length() {
    let mut machine = Machine::new(vec![0x60, 0x01, 0x05, 0x00, 0x00, 0x00, 0x00]);
    let mut sink: Vec<u8> = Vec::new();
    machine.run(1, &mut sink);
    assert_eq!(machine.program_counter(), 0x0105 % 7);
    let mut odd = Machine::new(vec![0x70, 0xFF, 0xFF, 0x00, 0x00]);
    odd.write_register(RegId(0), 1);
    odd.execute(Instruction::Jo(RegId(0), Addr(0xFFFF)), &mut sink);
    assert_eq!(odd.program_counter(), 0xFFFF % 5);
}

#[test]
fn loads_and_stores_wrap_around_memory() {
    let mut machine = Machine::new(vec![0x10, 0x20, 0x30, 0x40, 0x50, 0x60]);
    assert_eq!(machine.read_memory(Addr(4)), 0x5060_1020);
    assert_eq!(machine.read_memory(Addr(6)), 0x1020_3040);
    assert_eq!(machine.read_memory_wide(Addr(1)), 0x2030_4050_6010_2030);
    machine.write_memory(Addr(5), 0xA1A2_A3A4);
    assert_eq!(machine.memory(), &vec![0xA2, 0xA3, 0xA4, 0x40, 0x50, 0xA1]);
    machine.write_memory_wide(Addr(2), 0x0102_0304_0506_0708);
    // The seventh and eighth byte replace the first and second.
    assert_eq!(machine.memory(), &vec![0x05, 0x06, 0x07, 0x08, 0x03, 0x04]);
    let mut sink: Vec<u8> = Vec::new();
    machine.execute(Instruction::LoadMem(RegId(9), Addr(0)), &mut sink);
    assert_eq!(machine.read_register(RegId(9)), 0x0506_0708);
    machine.execute(Instruction::LoadMemW(RegWId(9), Addr(0)), &mut sink);
    assert_eq!(machine.read_register_wide(RegWId(9)), 0x0506_0708_0304_0506);
    machine.write_register(RegId(1), 0xCAFE_F00D);
    machine.execute(Instruction::StoreMem(RegId(1), Addr(1)), &mut sink);
    assert_eq!(machine.memory(), &vec![0x05, 0xCA, 0xFE, 0xF0, 0x0D, 0x04]);
    machine.write_register_wide(RegWId(2), 0x1112_1314_1516_1718);
    machine.execute(Instruction::StoreMemW(RegWId(2), Addr(0)), &mut sink);
    assert_eq!(machine.memory(), &vec![0x17, 0x18, 0x13, 0x14, 0x15, 0x16]);
    assert!(sink.is_empty());
}

#[test]
fn operations_write_the_first_register() {
    let mut machine = Machine::new(vec![0]);
    let mut sink: Vec<u8> = Vec::new();
    machine.write_register(RegId(1), 10);
    machine.write_register(RegId(2), 3);
    machine.execute(Instruction::Op(Operation::Subm, RegId(1), RegId(2)), &mut sink);
    assert_eq!(machine.read_register(RegId(1)), 7);
    assert_eq!(machine.read_register(RegId(2)), 3);
    machine.execute(Instruction::OpImm(Operation::Mulm, RegId(4), RegId(2), Imm(5)), &mut sink);
    assert_eq!(machine.read_register(RegId(4)), 15);
    machine.write_register_wide(RegWId(5), 100);
    machine.write_register_wide(RegWId(6), 58);
    machine.execute(Instruction::OpW(Operation::Absdiff, RegWId(6), RegWId(5)), &mut sink);
    assert_eq!(machine.read_register_wide(RegWId(6)), 42);
    machine.execute(
        Instruction::OpImmW(Operation::Shl, RegWId(7), RegWId(6), ImmW(4)),
        &mut sink,
    );
    assert_eq!(machine.read_register_wide(RegWId(7)), 42 << 4);
    assert!(sink.is_empty());
}

#[test]
fn nibbles_and_addresses() {
    assert_eq!(Machine::byte_to_nibbles(0xA7), (0xA, 0x7));
    assert_eq!(Machine::byte_to_nibbles(0x00), (0, 0));
    assert_eq!(Machine::byte_to_nibbles(0xFF), (15, 15));
    assert_eq!(Machine::bytes_to_addr(0x12, 0x34), Addr(0x1234));
    let mut machine = Machine::new(vec![7, 8]);
    assert_eq!(machine.next_instruction_byte(), 7);
    assert_eq!(machine.next_instruction_byte(), 8);
    assert_eq!(machine.program_counter(), 0);
    assert_eq!(machine.next_instruction_byte(), 7);
}
