//! A simulator for the Vole teaching machine: sixteen 8-bit registers, 256
//! bytes of memory and 16-bit instructions.
//!
//! The module [`vole`] holds the machine with its fetch-decode-execute cycle,
//! [`floating`] the eight-bit floating point format of its float addition,
//! and [`loader`] the reader of programs written as text. [`model`] and
//! [`update`] hold the state of an interactive session with the machine and
//! what the user's keys do to it.
//!
//! The crate root holds the bare core of the machine: a [`Cpu`] of registers,
//! memory and program counter that is stepped one instruction at a time, and
//! whose program counter only a jump moves.

#![allow(unused_imports)]

use vstd::prelude::*;
use crate::error::VoleError;
use crate::floating::{Fixed, Floating};
use crate::vole::{Machine, OpCode};

pub mod error;
pub mod floating;
pub mod hex;
pub mod loader;
pub mod model;
pub mod update;
pub mod vole;

verus! {

/// The registers, the memory and the program counter of the machine.
pub struct Cpu {
    pub general_purpose_registers: [u8; 16],
    pub main_memory: [u8; 256],
    pub program_counter: usize,
    pub halted: bool,
}

/// A 16 bit instruction.
pub struct Instruction {
    pub instr: u16,
}

/// The opcodes, each with the operands that it needs.
pub enum OpCodes {
    /// 0x1
    LoadAddr { reg: u8, addr: u8 },
    /// 0x2
    LoadValue { reg: u8, value: u8 },
    /// 0x3
    Store { reg: u8, addr: u8 },
    /// 0x4
    Move { source_reg: u8, target_reg: u8 },
    /// 0x5
    AddInt { target_reg: u8, reg1: u8, reg2: u8 },
    /// 0x6
    AddFloat { target_reg: u8, reg1: u8, reg2: u8 },
    /// 0x7
    Or { target_reg: u8, reg1: u8, reg2: u8 },
    /// 0x8
    And { target_reg: u8, reg1: u8, reg2: u8 },
    /// 0x9
    Xor { target_reg: u8, reg1: u8, reg2: u8 },
    /// 0xA
    Rotate { reg: u8, times: u8 },
    /// 0xB
    Jump { reg: u8, addr: u8 },
    /// 0xC
    Halt,
}

impl View for OpCodes {
    type V = OpCode;

    /// The opcode of the full machine that this one is.
    open spec fn view(&self) -> OpCode {
        match *self {
            OpCodes::LoadAddr { reg, addr } => OpCode::LoadAddr { reg, addr },
            OpCodes::LoadValue { reg, value } => OpCode::LoadValue { reg, value },
            OpCodes::Store { reg, addr } => OpCode::Store { reg, addr },
            OpCodes::Move { source_reg, target_reg } => OpCode::Move { source_reg, target_reg },
            OpCodes::AddInt { target_reg, reg1, reg2 } => OpCode::AddInt { target_reg, reg1, reg2 },
            OpCodes::AddFloat { target_reg, reg1, reg2 } => OpCode::AddFloat {
                target_reg,
                reg1,
                reg2,
            },
            OpCodes::Or { target_reg, reg1, reg2 } => OpCode::Or { target_reg, reg1, reg2 },
            OpCodes::And { target_reg, reg1, reg2 } => OpCode::And { target_reg, reg1, reg2 },
            OpCodes::Xor { target_reg, reg1, reg2 } => OpCode::Xor { target_reg, reg1, reg2 },
            OpCodes::Rotate { reg, times } => OpCode::Rotate { reg, times },
            OpCodes::Jump { reg, addr } => OpCode::Jump { reg, addr },
            OpCodes::Halt => OpCode::Halt,
        }
    }
}

impl View for Cpu {
    type V = Machine;

    /// The state as that of a full machine which has counted no cycle and
    /// kept no instruction.
    open spec fn view(&self) -> Machine {
        Machine {
            registers: self.general_purpose_registers@,
            memory: self.main_memory@,
            program_counter: self.program_counter as int,
            instruction_register: 0,
            cycle: 0,
            halted: self.halted,
        }
    }
}

/// The machine after `opcode` is executed by the bare core: as the full
/// machine executes it, but only a jump that is taken moves the program
/// counter.
pub open spec fn executed(machine: Machine, opcode: OpCode) -> Machine {
    Machine {
        program_counter: if machine.jumps(opcode) {
            machine.program_counter_after(opcode)
        } else {
            machine.program_counter
        },
        ..machine.execute(opcode)
    }
}

/// The machine after one step of the bare core. A machine that has halted
/// makes no further step and stays as it is. On a machine that runs, a step
/// that succeeds executes the opcode of the instruction at the program
/// counter; any other step only halts the machine.
pub open spec fn stepped(machine: Machine) -> Machine {
    if machine.halted {
        machine
    } else if machine.cycle_succeeds() {
        executed(machine, vole::decoded(machine.next_instruction())->Some_0)
    } else {
        Machine { halted: true, ..machine }
    }
}

impl Cpu {
    /// A machine with every register and memory cell at zero.
    pub fn new() -> (cpu: Self)
        ensures
            cpu@ == Machine::blank(),
    {
        let cpu = Cpu {
            general_purpose_registers: [0;16],
            main_memory: [0;256],
            program_counter: 0,
            halted: false,
        };
        assert(cpu.general_purpose_registers@ =~= Machine::blank().registers);
        assert(cpu.main_memory@ =~= Machine::blank().memory);
        cpu
    }

    /// A machine with the given program in memory from address 0 on.
    ///
    /// A program of more than 256 bytes does not fit and is refused.
    pub fn init(program: &[u8]) -> (made: Result<Self, VoleError>)
        ensures
            program@.len() <= 256 ==> made is Ok && made->Ok_0@ == Machine::loaded(program@),
            program@.len() > 256 ==> made == Err::<Self, VoleError>(VoleError::ProgramTooLarge),
    {
        let mut cpu = Cpu::new();
        if program.len() > 256 {
            return Err(VoleError::ProgramTooLarge);
        }
        let mut i: usize = 0;
        while i < program.len()
            invariant
                i <= program@.len() <= 256,
                cpu.general_purpose_registers@ == Machine::blank().registers,
                cpu.program_counter == 0,
                !cpu.halted,
                forall|j: int| 0 <= j < i ==> cpu.main_memory@[j] == program@[j],
                forall|j: int| i <= j < 256 ==> cpu.main_memory@[j] == 0,
            decreases program@.len() - i,
        {
            cpu.main_memory[i] = program[i];
            i += 1;
        }
        assert(cpu.main_memory@ =~= Machine::loaded(program@).memory);
        Ok(cpu)
    }

    /// The instruction at the program counter.
    ///
    /// Where the program counter is above 254 there is no whole instruction
    /// left, and the fetch is refused.
    pub fn fetch(&self) -> (fetched: Result<Instruction, VoleError>)
        ensures
            self@.can_fetch() ==> fetched is Ok && fetched->Ok_0.instr
                == self@.next_instruction(),
            !self@.can_fetch() ==> fetched == Err::<Instruction, VoleError>(
                VoleError::ProgramCounterOutOfRange,
            ),
    {
        if self.program_counter > 254 {
            return Err(VoleError::ProgramCounterOutOfRange);
        }
        let instr_byte0 = self.main_memory[self.program_counter];
        let instr_byte1 = self.main_memory[self.program_counter + 1];
        let mut instr: u16 = (instr_byte0 as u16) << 8;
        instr |= instr_byte1 as u16;
        assert(instr == instr_byte0 * 256 + instr_byte1) by (bit_vector)
            requires
                instr == ((instr_byte0 as u16) << 8) | (instr_byte1 as u16),
        ;
        Ok(Instruction { instr })
    }

    /// The opcode that `instr` stands for, if it stands for one.
    fn decode(&self, instr: Instruction) -> (opcode: Option<OpCodes>)
        ensures
            opcode is Some <==> vole::decoded(instr.instr) is Some,
            opcode matches Some(op) ==> Some(op@) == vole::decoded(instr.instr)
                && op@.well_formed(),
    {
        let opcode_bits = instr.get_opcode_bits();
        let operand1 = instr.get_operand1_bits();
        let operand2 = instr.get_operand2_bits();
        let operand3 = instr.get_operand3_bits();
        match opcode_bits {
            0x1 => Some(OpCodes::LoadAddr { reg: operand1, addr: instr.get_operand23_bits() }),
            0x2 => Some(OpCodes::LoadValue { reg: operand1, value: instr.get_operand23_bits() }),
            0x3 => Some(OpCodes::Store { reg: operand1, addr: instr.get_operand23_bits() }),
            0x4 => Some(OpCodes::Move { source_reg: operand2, target_reg: operand3 }),
            0x5 => Some(OpCodes::AddInt { target_reg: operand1, reg1: operand2, reg2: operand3 }),
            0x6 => Some(OpCodes::AddFloat { target_reg: operand1, reg1: operand2, reg2: operand3 }),
            0x7 => Some(OpCodes::Or { target_reg: operand1, reg1: operand2, reg2: operand3 }),
            0x8 => Some(OpCodes::And { target_reg: operand1, reg1: operand2, reg2: operand3 }),
            0x9 => Some(OpCodes::Xor { target_reg: operand1, reg1: operand2, reg2: operand3 }),
            0xA => Some(OpCodes::Rotate { reg: operand1, times: operand3 }),
            0xB => Some(OpCodes::Jump { reg: operand1, addr: instr.get_operand23_bits() }),
            0xC => Some(OpCodes::Halt),
            _ => None,
        }
    }

    /// Applies the effect of `opcode` to the registers, the memory, the
    /// program counter and the halt flag.
    fn execute(&mut self, opcode: OpCodes)
        requires
            opcode@.well_formed(),
        ensures
            final(self)@ == executed(old(self)@, opcode@),
    {
        match opcode {
            OpCodes::LoadAddr { reg, addr: address } => {
                self.general_purpose_registers[reg as usize] = self.main_memory[address as usize];
            },
            OpCodes::LoadValue { reg, value } => {
                self.general_purpose_registers[reg as usize] = value;
            },
            OpCodes::Store { reg, addr } => {
                self.main_memory[addr as usize] = self.general_purpose_registers[reg as usize];
            },
            OpCodes::Move { source_reg, target_reg } => {
                self.general_purpose_registers[target_reg as usize] =
                    self.general_purpose_registers[source_reg as usize];
            },
            OpCodes::AddInt { target_reg, reg1, reg2 } => {
                self.general_purpose_registers[target_reg as usize] =
                    self.general_purpose_registers[reg1 as usize].wrapping_add(
                    self.general_purpose_registers[reg2 as usize],
                );
            },
            OpCodes::AddFloat { target_reg, reg1, reg2 } => {
                let f1 = Floating { value: self.general_purpose_registers[reg1 as usize] };
                let f2 = Floating { value: self.general_purpose_registers[reg2 as usize] };
                let sum = Fixed { raw: f1.decode().raw + f2.decode().raw };
                let f3 = Floating::encode(sum);
                self.general_purpose_registers[target_reg as usize] = f3.value
            },
            OpCodes::Or { target_reg, reg1, reg2 } => {
                self.general_purpose_registers[target_reg as usize] =
                    self.general_purpose_registers[reg1 as usize]
                    | self.general_purpose_registers[reg2 as usize];
            },
            OpCodes::And { target_reg, reg1, reg2 } => {
                self.general_purpose_registers[target_reg as usize] =
                    self.general_purpose_registers[reg1 as usize]
                    & self.general_purpose_registers[reg2 as usize];
            },
            OpCodes::Xor { target_reg, reg1, reg2 } => {
                self.general_purpose_registers[target_reg as usize] =
                    self.general_purpose_registers[reg1 as usize]
                    ^ self.general_purpose_registers[reg2 as usize];
            },
            OpCodes::Rotate { reg, times } => {
                self.general_purpose_registers[reg as usize] = vole::rotate_right(
                    self.general_purpose_registers[reg as usize],
                    times,
                )
            },
            OpCodes::Jump { reg, addr } => {
                let compared = self.general_purpose_registers[reg as usize];
                if self.general_purpose_registers[0] == compared {
                    self.program_counter = self.main_memory[addr as usize] as usize;
                }
            },
            OpCodes::Halt => {
                self.halted = true;
            },
        }
    }

    /// Fetches the instruction at the program counter and executes it.
    /// Returns false, and halts the machine, if there is no instruction to
    /// fetch or the instruction is illegal; true otherwise.
    ///
    /// A machine that has halted makes no further step: nothing of it
    /// changes, and the result is true, since nothing has failed.
    pub fn step(&mut self) -> (success: bool)
        ensures
            final(self)@ == stepped(old(self)@),
            success == old(self)@.cycle_succeeds(),
            old(self).halted ==> final(self)@ == old(self)@ && success,
    {
        if self.halted {
            return true;
        }
        match self.fetch() {
            Ok(next_instruction) => {
                if let Some(opcode) = self.decode(next_instruction) {
                    self.execute(opcode);
                    true
                } else {
                    self.halted = true;
                    false
                }
            },
            Err(_) => {
                self.halted = true;
                false
            },
        }
    }
}

impl Default for Cpu {
    fn default() -> (cpu: Self)
        ensures
            cpu@ == Machine::blank(),
    {
        Self::new()
    }
}

impl Instruction {
    /// Bits 15 to 12: the opcode.
    pub fn get_opcode_bits(&self) -> (bits: u8)
        ensures
            bits == vole::opcode_bits(self.instr),
    {
        vole::Cpu::get_opcode_bits(self.instr)
    }

    /// Bits 11 to 8: the first operand.
    pub fn get_operand1_bits(&self) -> (bits: u8)
        ensures
            bits == vole::operand1_bits(self.instr),
    {
        vole::Cpu::get_operand1_bits(self.instr)
    }

    /// Bits 7 to 4: the second operand.
    pub fn get_operand2_bits(&self) -> (bits: u8)
        ensures
            bits == vole::operand2_bits(self.instr),
    {
        vole::Cpu::get_operand2_bits(self.instr)
    }

    /// Bits 3 to 0: the third operand.
    pub fn get_operand3_bits(&self) -> (bits: u8)
        ensures
            bits == vole::operand3_bits(self.instr),
    {
        vole::Cpu::get_operand3_bits(self.instr)
    }

    /// Bits 7 to 0: the second and the third operand as one byte.
    pub fn get_operand23_bits(&self) -> (bits: u8)
        ensures
            bits == vole::operand23_bits(self.instr),
    {
        vole::Cpu::get_operand23_bits(self.instr)
    }

    /// Bits 11 to 0: all three operands.
    pub fn get_operand_bits(&self) -> (bits: u16)
        ensures
            bits == vole::operand_bits(self.instr),
    {
        vole::Cpu::get_operand_bits(self.instr)
    }
}

} // verus!
