use vole_rs::error::VoleError;
use vole_rs::floating::{Fixed, Floating};
use vole_rs::vole::{rotate_right, Cpu, OpCode};

#[test]
pub fn vole_opcode_loadaddr_works() {
    let program = [0x14, 0xA3];
    let mut cpu = Cpu::init(&program).unwrap();
    cpu.memory[0xA3] = 0xCD;
    assert_eq!(cpu.cycle, 0);
    assert!(cpu.cycle());
    assert_eq!(cpu.cycle, 1);
    assert_eq!(cpu.registers[0x04], 0xCD)
}

#[test]
pub fn vole_opcode_loadvalue_works() {
    let program = [0x20, 0xA3];
    let mut cpu = Cpu::init(&program).unwrap();
    assert!(cpu.cycle());
    assert_eq!(cpu.registers[0x00], 0xA3)
}

#[test]
pub fn vole_opcode_store_works() {
    let program = [0x35, 0xB1];
    let mut cpu = Cpu::init(&program).unwrap();
    cpu.registers[5] = 0x58;
    assert!(cpu.cycle());
    assert_eq!(cpu.memory[0xB1], 0x58)
}

#[test]
pub fn vole_opcode_move_works() {
    let program = [0x40, 0xA4];
    let mut cpu = Cpu::init(&program).unwrap();
    cpu.registers[0xA] = 0xFF;
    assert!(cpu.cycle());
    assert_eq!(cpu.registers[0x04], 0xFF)
}

#[test]
pub fn vole_opcode_addint_works() {
    let program = [0x57, 0x26];
    let mut cpu = Cpu::init(&program).unwrap();
    cpu.registers[0x02] = 0x03;
    cpu.registers[0x06] = 0x05;
    assert!(cpu.cycle());
    assert_eq!(cpu.registers[0x07], 0x08)
}

#[test]
pub fn vole_opcode_addfloat_works() {
    let program = [0x63, 0x4E];
    let mut cpu = Cpu::init(&program).unwrap();
    cpu.registers[0x04] = 0x03;
    cpu.registers[0x0E] = 0x05;
    assert!(cpu.cycle());
    assert_eq!(cpu.registers[0x03], 0x08)
}

#[test]
pub fn vole_opcode_or_works() {
    let program = [0x7C, 0xB4];
    let mut cpu = Cpu::init(&program).unwrap();
    cpu.registers[0x0B] = 0xF0;
    cpu.registers[0x04] = 0x0F;
    assert!(cpu.cycle());
    assert_eq!(cpu.registers[0x0C], 0xFF)
}

#[test]
pub fn vole_opcode_and_works() {
    let program = [0x80, 0x45];
    let mut cpu = Cpu::init(&program).unwrap();
    cpu.registers[0x04] = 0xF3;
    cpu.registers[0x05] = 0x05;
    cpu.cycle();
    assert_eq!(cpu.registers[0x00], 0x01)
}

#[test]
pub fn vole_opcode_xor_works() {
    let program = [0x95, 0xF3];
    let mut cpu = Cpu::init(&program).unwrap();
    cpu.registers[0x0F] = 0xF3;
    cpu.registers[0x03] = 0x05;
    assert!(cpu.cycle());
    assert_eq!(cpu.registers[0x05], 0xF6)
}

#[test]
pub fn vole_opcode_rotate_works() {
    let program = [0xA4, 0x03];
    let mut cpu = Cpu::init(&program).unwrap();
    cpu.registers[0x04] = 0x07;
    assert!(cpu.cycle());
    assert_eq!(cpu.registers[0x04], 0xE0)
}

#[test]
pub fn vole_opcode_jump_works() {
    let program = [0xB4, 0x3C];
    let mut cpu = Cpu::init(&program).unwrap();
    cpu.memory[0x3C] = 0xAB;
    cpu.registers[0x00] = 0x05;
    cpu.registers[0x04] = 0x05;
    assert!(cpu.cycle());
    assert_eq!(cpu.program_counter, 0xAB)
}

#[test]
pub fn vole_opcode_halt_works() {
    let program = [0xC0];
    let mut cpu = Cpu::init(&program).unwrap();
    assert!(cpu.cycle());
    assert!(cpu.halted)
}

#[test]
pub fn run_works_1() {
    let program = [0x14, 0x02, 0x34, 0x17, 0xC0, 0x00];
    let mut cpu = Cpu::init(&program).unwrap();
    assert!(cpu.run());
    assert!(cpu.halted);
    assert_eq!(cpu.memory[0x17], 0x34);
    assert_eq!(cpu.cycle, 3);
}

#[test]
pub fn run_works_2a() {
    let program = [0x13, 0xB8, 0xA3, 0x02, 0x33, 0xB8, 0xC0, 0x00, 0x0F];
    let mut cpu = Cpu::new();
    (0..program.len()).for_each(|a| {
        cpu.memory[0xB0 + a] = program[a];
    });
    cpu.program_counter = 0xB0;
    assert!(cpu.cycle());
    assert_eq!(cpu.registers[0x03], 0x0F);
    assert!(cpu.run());
    assert!(cpu.halted);
    assert_eq!(cpu.memory[0xB8], 0xC3);
}

#[test]
pub fn cycle_with_illegal_instruction() {
    let program = [0xD3, 0x02];
    let mut cpu = Cpu::init(&program).unwrap();
    assert!(!cpu.cycle());
    assert!(cpu.halted);
    assert_eq!(cpu.cycle, 0);
}

#[test]
pub fn run_with_illegal_instruction() {
    let program = [0xD3, 0x02];
    let mut cpu = Cpu::init(&program).unwrap();
    assert!(!cpu.run());
    assert!(cpu.halted);
    assert_eq!(cpu.cycle, 0);
}

#[test]
pub fn new_is_blank() {
    let cpu = Cpu::new();
    assert_eq!(cpu.registers, [0u8; 16]);
    assert_eq!(cpu.memory, [0u8; 256]);
    assert_eq!(cpu.program_counter, 0);
    assert_eq!(cpu.instruction_register, 0);
    assert_eq!(cpu.cycle, 0);
    assert!(!cpu.halted);
    let cpu = Cpu::default();
    assert_eq!(cpu.memory, [0u8; 256]);
    assert_eq!(cpu.program_counter, 0);
}

#[test]
pub fn init_loads_the_program_and_zeroes_the_rest() {
    let program: Vec<u8> = (0..=255u8).map(|b| b.wrapping_mul(7).wrapping_add(1)).collect();
    for len in [0usize, 1, 2, 100, 255, 256] {
        let cpu = Cpu::init(&program[..len]).unwrap();
        assert_eq!(&cpu.memory[..len], &program[..len]);
        assert!(cpu.memory[len..].iter().all(|b| *b == 0));
        assert_eq!(cpu.registers, [0u8; 16]);
        assert_eq!(cpu.program_counter, 0);
        assert_eq!(cpu.instruction_register, 0);
        assert_eq!(cpu.cycle, 0);
        assert!(!cpu.halted);
    }
}

#[test]
pub fn init_refuses_a_program_that_is_too_large() {
    let program = [0xC0u8; 257];
    assert_eq!(Cpu::init(&program).err(), Some(VoleError::ProgramTooLarge));
    let program = vec![0u8; 1000];
    assert_eq!(Cpu::init(&program).err(), Some(VoleError::ProgramTooLarge));
}

#[test]
pub fn fetch_reads_high_byte_first() {
    let mut cpu = Cpu::init(&[0x12, 0x34, 0x56, 0x78]).unwrap();
    assert_eq!(cpu.fetch(), Ok(()));
    assert_eq!(cpu.instruction_register, 0x1234);
    cpu.program_counter = 2;
    assert_eq!(cpu.fetch(), Ok(()));
    assert_eq!(cpu.instruction_register, 0x5678);
    assert_eq!(cpu.program_counter, 2);
    assert_eq!(cpu.cycle, 0);
}

#[test]
pub fn fetch_needs_two_cells() {
    let mut cpu = Cpu::new();
    cpu.memory[254] = 0xAB;
    cpu.memory[255] = 0xCD;
    cpu.instruction_register = 0x1111;
    cpu.program_counter = 254;
    assert_eq!(cpu.fetch(), Ok(()));
    assert_eq!(cpu.instruction_register, 0xABCD);
    for pc in [255usize, 256, 257, usize::MAX] {
        cpu.program_counter = pc;
        assert_eq!(cpu.fetch(), Err(VoleError::ProgramCounterOutOfRange));
        assert_eq!(cpu.instruction_register, 0xABCD);
        assert_eq!(cpu.program_counter, pc);
        assert!(!cpu.halted);
    }
}

#[test]
pub fn field_getters_cut_by_position() {
    assert_eq!(Cpu::get_opcode_bits(0x1234), 0x1);
    assert_eq!(Cpu::get_operand1_bits(0x1234), 0x2);
    assert_eq!(Cpu::get_operand2_bits(0x1234), 0x3);
    assert_eq!(Cpu::get_operand3_bits(0x1234), 0x4);
    assert_eq!(Cpu::get_operand23_bits(0x1234), 0x34);
    assert_eq!(Cpu::get_operand_bits(0x1234), 0x234);
    assert_eq!(Cpu::get_opcode_bits(0xFFFF), 0xF);
    assert_eq!(Cpu::get_operand_bits(0xFFFF), 0xFFF);
    assert_eq!(Cpu::get_operand23_bits(0xFF00), 0x00);
}

#[test]
pub fn decode_of_0x1234_is_loadaddr() {
    let mut cpu = Cpu::new();
    cpu.instruction_register = 0x1234;
    assert_eq!(cpu.decode(), Some(OpCode::LoadAddr { reg: 0x2, addr: 0x34 }));
}

#[test]
pub fn decode_maps_every_opcode() {
    let mut cpu = Cpu::new();
    let expected = [
        (0x1ABCu16, OpCode::LoadAddr { reg: 0xA, addr: 0xBC }),
        (0x2ABC, OpCode::LoadValue { reg: 0xA, value: 0xBC }),
        (0x3ABC, OpCode::Store { reg: 0xA, addr: 0xBC }),
        (0x4ABC, OpCode::Move { source_reg: 0xB, target_reg: 0xC }),
        (0x5ABC, OpCode::AddInt { target_reg: 0xA, reg1: 0xB, reg2: 0xC }),
        (0x6ABC, OpCode::AddFloat { target_reg: 0xA, reg1: 0xB, reg2: 0xC }),
        (0x7ABC, OpCode::Or { target_reg: 0xA, reg1: 0xB, reg2: 0xC }),
        (0x8ABC, OpCode::And { target_reg: 0xA, reg1: 0xB, reg2: 0xC }),
        (0x9ABC, OpCode::Xor { target_reg: 0xA, reg1: 0xB, reg2: 0xC }),
        (0xAABC, OpCode::Rotate { reg: 0xA, times: 0xC }),
        (0xBABC, OpCode::Jump { reg: 0xA, addr: 0xBC }),
        (0xCABC, OpCode::Halt),
    ];
    for (instr, opcode) in expected {
        cpu.instruction_register = instr;
        assert_eq!(cpu.decode(), Some(opcode));
    }
    for instr in [0x0000u16, 0x0FFF, 0xD302, 0xE000, 0xFFFF] {
        cpu.instruction_register = instr;
        assert_eq!(cpu.decode(), None);
    }
    assert_eq!(cpu.cycle, 0);
    assert!(!cpu.halted);
}

#[test]
pub fn execute_moves_the_program_counter_on() {
    let mut cpu = Cpu::new();
    cpu.execute(OpCode::LoadValue { reg: 1, value: 7 });
    assert_eq!(cpu.program_counter, 2);
    cpu.execute(OpCode::Halt);
    assert_eq!(cpu.program_counter, 4);
    assert!(cpu.halted);
    assert_eq!(cpu.cycle, 0);
}

#[test]
pub fn jump_that_is_not_taken_changes_nothing() {
    let mut cpu = Cpu::init(&[0xB4, 0x3C]).unwrap();
    cpu.memory[0x3C] = 0xAB;
    cpu.registers[0x00] = 0x05;
    cpu.registers[0x04] = 0x06;
    assert!(cpu.cycle());
    assert_eq!(cpu.program_counter, 0);
    assert_eq!(cpu.cycle, 1);
    assert_eq!(cpu.registers[0x04], 0x06);
}

#[test]
pub fn jump_on_register_zero_is_always_taken() {
    let mut cpu = Cpu::init(&[0xB0, 0x02, 0x04]).unwrap();
    assert!(cpu.cycle());
    assert_eq!(cpu.program_counter, 0x04);
}

#[test]
pub fn addint_wraps() {
    let mut cpu = Cpu::init(&[0x57, 0x26]).unwrap();
    cpu.registers[0x02] = 0xFF;
    cpu.registers[0x06] = 0x02;
    assert!(cpu.cycle());
    assert_eq!(cpu.registers[0x07], 0x01);
    let mut cpu = Cpu::init(&[0x51, 0x11]).unwrap();
    cpu.registers[0x01] = 0x80;
    assert!(cpu.cycle());
    assert_eq!(cpu.registers[0x01], 0x00);
}

#[test]
pub fn addfloat_is_encode_of_the_decoded_sum() {
    let mut cpu = Cpu::init(&[0x63, 0x4E]).unwrap();
    cpu.registers[0x04] = 0x03;
    cpu.registers[0x0E] = 0x05;
    assert!(cpu.cycle());
    let a = Floating { value: 0x03 }.decode();
    let b = Floating { value: 0x05 }.decode();
    let sum = Floating::encode(Fixed { raw: a.raw + b.raw });
    assert_eq!(cpu.registers[0x03], sum.value);
}

#[test]
pub fn addfloat_on_every_pair() {
    for a in 0..=255u8 {
        for b in 0..=255u8 {
            let mut cpu = Cpu::new();
            cpu.registers[1] = a;
            cpu.registers[2] = b;
            cpu.execute(OpCode::AddFloat { target_reg: 0, reg1: 1, reg2: 2 });
            let sum = Floating { value: a }.decode().raw + Floating { value: b }.decode().raw;
            assert_eq!(cpu.registers[0], Floating::encode(Fixed { raw: sum }).value);
        }
    }
}

#[test]
pub fn addfloat_examples() {
    // 1.5 + 0.5 = 2.0
    let mut cpu = Cpu::init(&[0x60, 0x12]).unwrap();
    cpu.registers[1] = 0b01011100;
    cpu.registers[2] = 0b01001000;
    assert!(cpu.cycle());
    assert_eq!(cpu.registers[0], 0b01101000);
    // 2.75 + (-2.75) = 0
    let mut cpu = Cpu::init(&[0x60, 0x12]).unwrap();
    cpu.registers[1] = 0b01101011;
    cpu.registers[2] = 0b11101011;
    assert!(cpu.cycle());
    assert_eq!(cpu.registers[0], 0x00);
    // 7.5 + 7.5 is capped at 7.5
    let mut cpu = Cpu::init(&[0x60, 0x12]).unwrap();
    cpu.registers[1] = 0x7F;
    cpu.registers[2] = 0x7F;
    assert!(cpu.cycle());
    assert_eq!(cpu.registers[0], 0x7F);
}

#[test]
pub fn rotate_is_modulo_eight() {
    for value in 0..=255u8 {
        for times in 0..=255u8 {
            assert_eq!(rotate_right(value, times), value.rotate_right(u32::from(times)));
        }
    }
    assert_eq!(rotate_right(0x07, 3), 0xE0);
    assert_eq!(rotate_right(0x07, 11), 0xE0);
    assert_eq!(rotate_right(0x81, 8), 0x81);
    assert_eq!(rotate_right(0x81, 0), 0x81);
    assert_eq!(rotate_right(0x81, 15), 0x03);
}

#[test]
pub fn rotate_opcode_by_more_than_seven() {
    let mut cpu = Cpu::init(&[0xA4, 0x0B]).unwrap();
    cpu.registers[0x04] = 0x07;
    assert!(cpu.cycle());
    assert_eq!(cpu.registers[0x04], 0xE0);
}

#[test]
pub fn illegal_instruction_stays_in_the_instruction_register() {
    for code in [0x0u8, 0xD, 0xE, 0xF] {
        let mut cpu = Cpu::init(&[code << 4 | 0x3, 0x02]).unwrap();
        cpu.registers[3] = 7;
        assert!(!cpu.cycle());
        assert!(cpu.halted);
        assert_eq!(cpu.cycle, 0);
        assert_eq!(cpu.program_counter, 0);
        assert_eq!(cpu.instruction_register, u16::from(code) << 12 | 0x0302);
        assert_eq!(cpu.registers[3], 7);
    }
}

#[test]
pub fn cycle_without_an_instruction_to_fetch_halts() {
    let mut cpu = Cpu::new();
    cpu.memory[255] = 0xC0;
    cpu.program_counter = 255;
    cpu.instruction_register = 0x2001;
    assert!(!cpu.cycle());
    assert!(cpu.halted);
    assert_eq!(cpu.cycle, 0);
    assert_eq!(cpu.program_counter, 255);
    assert_eq!(cpu.instruction_register, 0x2001);
}

#[test]
pub fn cycle_counter_wraps() {
    let mut cpu = Cpu::init(&[0x20, 0x01]).unwrap();
    cpu.cycle = u32::MAX;
    assert!(cpu.cycle());
    assert_eq!(cpu.cycle, 0);
}

#[test]
pub fn cycle_on_a_halted_machine_does_nothing() {
    let mut cpu = Cpu::init(&[0xC0, 0x00, 0x21, 0x07]).unwrap();
    assert!(cpu.cycle());
    assert!(cpu.halted);
    assert_eq!(cpu.program_counter, 2);
    assert_eq!(cpu.instruction_register, 0xC000);
    assert_eq!(cpu.cycle, 1);
    let memory = cpu.memory;
    for _ in 0..3 {
        assert!(cpu.cycle());
        assert!(cpu.halted);
        assert_eq!(cpu.registers, [0u8; 16]);
        assert_eq!(cpu.memory, memory);
        assert_eq!(cpu.program_counter, 2);
        assert_eq!(cpu.instruction_register, 0xC000);
        assert_eq!(cpu.cycle, 1);
    }
}

#[test]
pub fn cycle_on_a_halted_machine_does_not_fail() {
    // Neither an illegal instruction nor a program counter without an
    // instruction is looked at once the machine has halted.
    let mut cpu = Cpu::init(&[0xD3, 0x02]).unwrap();
    assert!(!cpu.cycle());
    assert!(cpu.halted);
    assert!(cpu.cycle());
    assert_eq!(cpu.cycle, 0);
    assert_eq!(cpu.program_counter, 0);
    assert_eq!(cpu.instruction_register, 0xD302);

    let mut cpu = Cpu::new();
    cpu.halted = true;
    cpu.program_counter = 255;
    cpu.instruction_register = 0x2001;
    assert!(cpu.cycle());
    assert!(cpu.halted);
    assert_eq!(cpu.program_counter, 255);
    assert_eq!(cpu.instruction_register, 0x2001);
    assert_eq!(cpu.cycle, 0);
}

#[test]
pub fn run_on_a_halted_machine_does_nothing() {
    let mut cpu = Cpu::init(&[0x21, 0x07, 0xC0, 0x00]).unwrap();
    cpu.halted = true;
    assert!(cpu.run());
    assert_eq!(cpu.cycle, 0);
    assert_eq!(cpu.program_counter, 0);
    assert_eq!(cpu.registers[1], 0);
    assert_eq!(cpu.instruction_register, 0);
}

#[test]
pub fn run_off_the_end_of_memory_fails() {
    // 127 instructions without a halt carry the program counter to 254, the
    // last one to 256.
    let mut program = Vec::new();
    for _ in 0..128 {
        program.push(0x20);
        program.push(0x01);
    }
    let mut cpu = Cpu::init(&program).unwrap();
    assert!(!cpu.run());
    assert!(cpu.halted);
    assert_eq!(cpu.cycle, 128);
    assert_eq!(cpu.program_counter, 256);
}

#[test]
pub fn run_for_stops_at_the_limit() {
    // Register 0 equals itself, so the jump to address 0 is taken for ever.
    let mut cpu = Cpu::init(&[0xB0, 0x02, 0x00]).unwrap();
    assert_eq!(cpu.run_for(1000), None);
    assert!(!cpu.halted);
    assert_eq!(cpu.cycle, 1000);
    assert_eq!(cpu.program_counter, 0);
    assert_eq!(cpu.run_for(0), None);
    assert_eq!(cpu.cycle, 1000);
}

#[test]
pub fn run_for_stops_at_the_halt() {
    let program = [0x14, 0x02, 0x34, 0x17, 0xC0, 0x00];
    let mut cpu = Cpu::init(&program).unwrap();
    assert_eq!(cpu.run_for(2), None);
    assert_eq!(cpu.cycle, 2);
    assert_eq!(cpu.run_for(5), Some(true));
    assert_eq!(cpu.cycle, 3);
    assert_eq!(cpu.memory[0x17], 0x34);
    assert_eq!(cpu.run_for(5), Some(true));
    assert_eq!(cpu.cycle, 3);
    let mut cpu = Cpu::init(&[0x21, 0x01, 0xD0, 0x00]).unwrap();
    assert_eq!(cpu.run_for(10), Some(false));
    assert_eq!(cpu.cycle, 1);
    assert_eq!(cpu.instruction_register, 0xD000);
}

#[test]
pub fn run_for_agrees_with_run() {
    let program = [0x13, 0x08, 0xA3, 0x02, 0x33, 0x08, 0xC0, 0x00, 0x0F];
    let mut a = Cpu::init(&program).unwrap();
    let mut b = Cpu::init(&program).unwrap();
    assert_eq!(Some(a.run()), b.run_for(100));
    assert_eq!(a.memory, b.memory);
    assert_eq!(a.registers, b.registers);
    assert_eq!(a.cycle, b.cycle);
    assert_eq!(a.program_counter, b.program_counter);
}

#[test]
pub fn opcode_text() {
    assert_eq!(OpCode::LoadAddr { reg: 0x4, addr: 0xA3 }.to_text(), "LOADADDR 0x04 0xA3");
    assert_eq!(OpCode::LoadValue { reg: 0x0, value: 0xFF }.to_text(), "LOADVALUE 0x00 0xFF");
    assert_eq!(OpCode::Store { reg: 0x5, addr: 0xB1 }.to_text(), "STORE 0x05 0xB1");
    assert_eq!(OpCode::Move { source_reg: 0xA, target_reg: 0x4 }.to_text(), "MOVE 0x0A 0x04");
    assert_eq!(
        OpCode::AddInt { target_reg: 0x7, reg1: 0x2, reg2: 0x6 }.to_text(),
        "ADDINT 0x07 0x02 0x06"
    );
    assert_eq!(
        OpCode::AddFloat { target_reg: 0x3, reg1: 0x4, reg2: 0xE }.to_text(),
        "ADDFLOAT 0x03 0x04 0x0E"
    );
    assert_eq!(OpCode::Or { target_reg: 0xC, reg1: 0xB, reg2: 0x4 }.to_text(), "OR 0x0C 0x0B 0x04");
    assert_eq!(
        OpCode::And { target_reg: 0x0, reg1: 0x4, reg2: 0x5 }.to_text(),
        "AND 0x00 0x04 0x05"
    );
    assert_eq!(
        OpCode::Xor { target_reg: 0x5, reg1: 0xF, reg2: 0x3 }.to_text(),
        "XOR 0x05 0x0F 0x03"
    );
    assert_eq!(OpCode::Rotate { reg: 0x4, times: 0x3 }.to_text(), "ROTATE 0x04 0x03");
    assert_eq!(OpCode::Jump { reg: 0x4, addr: 0x3C }.to_text(), "JUMP 0x04 0x3C");
    assert_eq!(OpCode::Halt.to_text(), "HALT");
}

#[test]
pub fn opcode_text_of_every_byte() {
    for value in 0..=255u8 {
        assert_eq!(
            OpCode::LoadValue { reg: 0x9, value }.to_text(),
            format!("LOADVALUE 0x09 0x{:02X}", value)
        );
    }
}
