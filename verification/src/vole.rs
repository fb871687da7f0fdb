//! The machine: its state, its twelve instructions, and the
//! fetch-decode-execute cycle that drives it.
//!
//! [`Machine`] is the state as mathematical values, and the spec functions on
//! it say what one instruction, one cycle and a run of cycles do. [`Cpu`] is
//! the state in memory; each of its methods is proved to do what the
//! spec function of the same name says.

use vstd::prelude::*;
use crate::error::VoleError;
use crate::floating::{Fixed, Floating};
use crate::hex::{hex_byte, push_hex_byte};

verus! {

/// Type representing the 16 bit instructions of Vole.
pub type Instruction = u16;

/// The Vole opcodes.
#[derive(Debug, Clone, Copy, PartialEq, Eq, Structural)]
pub enum OpCode {
    /// 0x1RXY - LOAD memory cell XY into register R.
    LoadAddr { reg: u8, addr: u8 },
    /// 0x2RXY - LOAD value XY into register R.
    LoadValue { reg: u8, value: u8 },
    /// 0x3RXY - STORE value in register R in memory cell XY.
    Store { reg: u8, addr: u8 },
    /// 0x40RS - MOVE register R to register S.
    Move { source_reg: u8, target_reg: u8 },
    /// 0x5RST - ADD registers S and T as integers, store the result in register R.
    AddInt { target_reg: u8, reg1: u8, reg2: u8 },
    /// 0x6RST - ADD registers S and T as floats, store the result in register R.
    AddFloat { target_reg: u8, reg1: u8, reg2: u8 },
    /// 0x7RST - OR registers S and T, store the result in register R.
    Or { target_reg: u8, reg1: u8, reg2: u8 },
    /// 0x8RST - AND registers S and T, store the result in register R.
    And { target_reg: u8, reg1: u8, reg2: u8 },
    /// 0x9RST - XOR registers S and T, store the result in register R.
    Xor { target_reg: u8, reg1: u8, reg2: u8 },
    /// 0xAR0X - ROTATE register R X times to the right.
    Rotate { reg: u8, times: u8 },
    /// 0xBRXY - JUMP if register R equals register 0: the program counter is
    /// set to the byte that memory cell XY holds.
    Jump { reg: u8, addr: u8 },
    /// 0xC000 - HALT the execution.
    Halt,
}

impl OpCode {
    /// Every register that the opcode names is one of the sixteen.
    pub open spec fn well_formed(self) -> bool {
        match self {
            OpCode::LoadAddr { reg, .. } => reg < 16,
            OpCode::LoadValue { reg, .. } => reg < 16,
            OpCode::Store { reg, .. } => reg < 16,
            OpCode::Move { source_reg, target_reg } => source_reg < 16 && target_reg < 16,
            OpCode::AddInt { target_reg, reg1, reg2 } => target_reg < 16 && reg1 < 16 && reg2 < 16,
            OpCode::AddFloat { target_reg, reg1, reg2 } => target_reg < 16 && reg1 < 16 && reg2
                < 16,
            OpCode::Or { target_reg, reg1, reg2 } => target_reg < 16 && reg1 < 16 && reg2 < 16,
            OpCode::And { target_reg, reg1, reg2 } => target_reg < 16 && reg1 < 16 && reg2 < 16,
            OpCode::Xor { target_reg, reg1, reg2 } => target_reg < 16 && reg1 < 16 && reg2 < 16,
            OpCode::Rotate { reg, .. } => reg < 16,
            OpCode::Jump { reg, .. } => reg < 16,
            OpCode::Halt => true,
        }
    }

    /// The register that the opcode writes to, if it writes to one.
    pub open spec fn written_register(self) -> Option<u8> {
        match self {
            OpCode::LoadAddr { reg, .. } => Some(reg),
            OpCode::LoadValue { reg, .. } => Some(reg),
            OpCode::Move { target_reg, .. } => Some(target_reg),
            OpCode::AddInt { target_reg, .. } => Some(target_reg),
            OpCode::AddFloat { target_reg, .. } => Some(target_reg),
            OpCode::Or { target_reg, .. } => Some(target_reg),
            OpCode::And { target_reg, .. } => Some(target_reg),
            OpCode::Xor { target_reg, .. } => Some(target_reg),
            OpCode::Rotate { reg, .. } => Some(reg),
            OpCode::Store { .. } => None,
            OpCode::Jump { .. } => None,
            OpCode::Halt => None,
        }
    }

    /// The memory cell that the opcode writes to, if it writes to one.
    pub open spec fn written_cell(self) -> Option<u8> {
        match self {
            OpCode::Store { addr, .. } => Some(addr),
            _ => None,
        }
    }

    /// The opcode as text: its mnemonic in capitals, then each operand after
    /// a space.
    pub open spec fn text(self) -> Seq<char> {
        match self {
            OpCode::LoadAddr { reg, addr } => "LOADADDR"@ + operand_text(reg) + operand_text(addr),
            OpCode::LoadValue { reg, value } => "LOADVALUE"@ + operand_text(reg) + operand_text(
                value,
            ),
            OpCode::Store { reg, addr } => "STORE"@ + operand_text(reg) + operand_text(addr),
            OpCode::Move { source_reg, target_reg } => "MOVE"@ + operand_text(source_reg)
                + operand_text(target_reg),
            OpCode::AddInt { target_reg, reg1, reg2 } => "ADDINT"@ + operand_text(target_reg)
                + operand_text(reg1) + operand_text(reg2),
            OpCode::AddFloat { target_reg, reg1, reg2 } => "ADDFLOAT"@ + operand_text(target_reg)
                + operand_text(reg1) + operand_text(reg2),
            OpCode::Or { target_reg, reg1, reg2 } => "OR"@ + operand_text(target_reg)
                + operand_text(reg1) + operand_text(reg2),
            OpCode::And { target_reg, reg1, reg2 } => "AND"@ + operand_text(target_reg)
                + operand_text(reg1) + operand_text(reg2),
            OpCode::Xor { target_reg, reg1, reg2 } => "XOR"@ + operand_text(target_reg)
                + operand_text(reg1) + operand_text(reg2),
            OpCode::Rotate { reg, times } => "ROTATE"@ + operand_text(reg) + operand_text(times),
            OpCode::Jump { reg, addr } => "JUMP"@ + operand_text(reg) + operand_text(addr),
            OpCode::Halt => "HALT"@,
        }
    }

    /// Renders the opcode as text, such as `LOADADDR 0x04 0xA3`.
    pub fn to_text(&self) -> (text: String)
        ensures
            text@ == self.text(),
    {
        match *self {
            OpCode::LoadAddr { reg, addr } => with_operands("LOADADDR", reg, Some(addr), None),
            OpCode::LoadValue { reg, value } => with_operands("LOADVALUE", reg, Some(value), None),
            OpCode::Store { reg, addr } => with_operands("STORE", reg, Some(addr), None),
            OpCode::Move { source_reg, target_reg } => with_operands(
                "MOVE",
                source_reg,
                Some(target_reg),
                None,
            ),
            OpCode::AddInt { target_reg, reg1, reg2 } => with_operands(
                "ADDINT",
                target_reg,
                Some(reg1),
                Some(reg2),
            ),
            OpCode::AddFloat { target_reg, reg1, reg2 } => with_operands(
                "ADDFLOAT",
                target_reg,
                Some(reg1),
                Some(reg2),
            ),
            OpCode::Or { target_reg, reg1, reg2 } => with_operands(
                "OR",
                target_reg,
                Some(reg1),
                Some(reg2),
            ),
            OpCode::And { target_reg, reg1, reg2 } => with_operands(
                "AND",
                target_reg,
                Some(reg1),
                Some(reg2),
            ),
            OpCode::Xor { target_reg, reg1, reg2 } => with_operands(
                "XOR",
                target_reg,
                Some(reg1),
                Some(reg2),
            ),
            OpCode::Rotate { reg, times } => with_operands("ROTATE", reg, Some(times), None),
            OpCode::Jump { reg, addr } => with_operands("JUMP", reg, Some(addr), None),
            OpCode::Halt => String::from_str("HALT"),
        }
    }
}

/// An operand as it stands in the text of an opcode: a space, `0x`, and the
/// two hex digits of the byte.
pub open spec fn operand_text(value: u8) -> Seq<char> {
    seq![' '] + hex_byte(value)
}

/// Appends an operand to the text of an opcode.
fn push_operand(text: &mut String, value: u8)
    ensures
        final(text)@ == old(text)@ + operand_text(value),
{
    proof {
        reveal_strlit(" ");
    }
    text.append(" ");
    push_hex_byte(text, value);
    assert(text@ =~= old(text)@ + operand_text(value));
}

/// The text of an opcode with the given mnemonic and two or three operands.
fn with_operands(mnemonic: &str, first: u8, second: Option<u8>, third: Option<u8>) -> (text:
    String)
    ensures
        text@ == mnemonic@ + operand_text(first) + (match second {
            Some(value) => operand_text(value),
            None => Seq::empty(),
        }) + (match third {
            Some(value) => operand_text(value),
            None => Seq::empty(),
        }),
{
    let mut text = String::from_str(mnemonic);
    push_operand(&mut text, first);
    if let Some(value) = second {
        push_operand(&mut text, value);
    }
    if let Some(value) = third {
        push_operand(&mut text, value);
    }
    assert(text@ =~= mnemonic@ + operand_text(first) + (match second {
        Some(value) => operand_text(value),
        None => Seq::empty(),
    }) + (match third {
        Some(value) => operand_text(value),
        None => Seq::empty(),
    }));
    text
}

/// Bits 15 to 12 of an instruction: the opcode.
pub open spec fn opcode_bits(instr: Instruction) -> u8 {
    (instr / 4096) as u8
}

/// Bits 11 to 8 of an instruction: the first operand.
pub open spec fn operand1_bits(instr: Instruction) -> u8 {
    ((instr / 256) % 16) as u8
}

/// Bits 7 to 4 of an instruction: the second operand.
pub open spec fn operand2_bits(instr: Instruction) -> u8 {
    ((instr / 16) % 16) as u8
}

/// Bits 3 to 0 of an instruction: the third operand.
pub open spec fn operand3_bits(instr: Instruction) -> u8 {
    (instr % 16) as u8
}

/// Bits 7 to 0 of an instruction: the second and third operand as one byte.
pub open spec fn operand23_bits(instr: Instruction) -> u8 {
    (instr % 256) as u8
}

/// Bits 11 to 0 of an instruction: all three operands.
pub open spec fn operand_bits(instr: Instruction) -> u16 {
    (instr % 4096) as u16
}

/// The opcode that an instruction stands for, if its highest four bits are
/// one of `0x1` to `0xC`.
pub open spec fn decoded(instr: Instruction) -> Option<OpCode> {
    let code = opcode_bits(instr);
    let r = operand1_bits(instr);
    let s = operand2_bits(instr);
    let t = operand3_bits(instr);
    let xy = operand23_bits(instr);
    if code == 0x1 {
        Some(OpCode::LoadAddr { reg: r, addr: xy })
    } else if code == 0x2 {
        Some(OpCode::LoadValue { reg: r, value: xy })
    } else if code == 0x3 {
        Some(OpCode::Store { reg: r, addr: xy })
    } else if code == 0x4 {
        Some(OpCode::Move { source_reg: s, target_reg: t })
    } else if code == 0x5 {
        Some(OpCode::AddInt { target_reg: r, reg1: s, reg2: t })
    } else if code == 0x6 {
        Some(OpCode::AddFloat { target_reg: r, reg1: s, reg2: t })
    } else if code == 0x7 {
        Some(OpCode::Or { target_reg: r, reg1: s, reg2: t })
    } else if code == 0x8 {
        Some(OpCode::And { target_reg: r, reg1: s, reg2: t })
    } else if code == 0x9 {
        Some(OpCode::Xor { target_reg: r, reg1: s, reg2: t })
    } else if code == 0xA {
        Some(OpCode::Rotate { reg: r, times: t })
    } else if code == 0xB {
        Some(OpCode::Jump { reg: r, addr: xy })
    } else if code == 0xC {
        Some(OpCode::Halt)
    } else {
        None
    }
}

/// Two to the power `bit`, for the bit positions of a byte and the one above.
pub open spec fn weight(bit: int) -> int
    recommends
        0 <= bit <= 8,
{
    if bit <= 0 {
        1
    } else if bit == 1 {
        2
    } else if bit == 2 {
        4
    } else if bit == 3 {
        8
    } else if bit == 4 {
        16
    } else if bit == 5 {
        32
    } else if bit == 6 {
        64
    } else if bit == 7 {
        128
    } else {
        256
    }
}

/// `value` rotated to the right by `times` bits: the lowest `times % 8` bits
/// move to the top, the others move down.
pub open spec fn rotated_right(value: u8, times: int) -> u8 {
    let k = times % 8;
    (value as int / weight(k) + (value as int % weight(k)) * weight(8 - k)) as u8
}

/// The sum of two bytes, with the carry out of the byte dropped.
pub open spec fn wrapped_sum(a: u8, b: u8) -> u8 {
    ((a + b) % 256) as u8
}

/// The byte that packs the sum of the two numbers that `a` and `b` pack.
pub open spec fn float_sum(a: u8, b: u8) -> u8 {
    let sum = Floating { value: a }.spec_decode() + Floating { value: b }.spec_decode();
    Floating::spec_encode(sum).value
}

/// The state of the machine as mathematical values.
pub struct Machine {
    /// The sixteen general purpose registers.
    pub registers: Seq<u8>,
    /// The 256 cells of the main memory.
    pub memory: Seq<u8>,
    /// The address of the next instruction to fetch.
    pub program_counter: int,
    /// The instruction that was fetched last.
    pub instruction_register: Instruction,
    /// How many cycles have been processed, modulo 2^32.
    pub cycle: u32,
    /// Whether the machine has halted.
    pub halted: bool,
}

impl Machine {
    /// The machine has its sixteen registers and its 256 memory cells, and
    /// its program counter is not negative.
    pub open spec fn well_formed(self) -> bool {
        &&& self.registers.len() == 16
        &&& self.memory.len() == 256
        &&& self.program_counter >= 0
    }

    /// The machine that `new` makes: everything is zero, and it runs.
    pub open spec fn blank() -> Machine {
        Machine {
            registers: Seq::new(16, |i: int| 0u8),
            memory: Seq::new(256, |i: int| 0u8),
            program_counter: 0,
            instruction_register: 0,
            cycle: 0,
            halted: false,
        }
    }

    /// The blank machine with `program` in memory from address 0 on.
    pub open spec fn loaded(program: Seq<u8>) -> Machine
        recommends
            program.len() <= 256,
    {
        Machine {
            memory: Seq::new(
                256,
                |i: int|
                    if i < program.len() {
                        program[i]
                    } else {
                        0u8
                    },
            ),
            ..Self::blank()
        }
    }

    /// Two memory cells follow the program counter, so an instruction can be
    /// fetched.
    pub open spec fn can_fetch(self) -> bool {
        self.program_counter <= 254
    }

    /// The instruction at the program counter: the cell there is its high
    /// byte, the next cell its low byte.
    pub open spec fn next_instruction(self) -> Instruction
        recommends
            self.well_formed(),
            self.can_fetch(),
    {
        (self.memory[self.program_counter] * 256 + self.memory[self.program_counter + 1]) as u16
    }

    /// The machine after a fetch: the instruction register holds the
    /// instruction at the program counter.
    pub open spec fn fetch(self) -> Machine
        recommends
            self.well_formed(),
            self.can_fetch(),
    {
        Machine { instruction_register: self.next_instruction(), ..self }
    }

    /// The registers after `opcode` is executed.
    pub open spec fn registers_after(self, opcode: OpCode) -> Seq<u8>
        recommends
            self.well_formed(),
            opcode.well_formed(),
    {
        let regs = self.registers;
        match opcode {
            OpCode::LoadAddr { reg, addr } => regs.update(reg as int, self.memory[addr as int]),
            OpCode::LoadValue { reg, value } => regs.update(reg as int, value),
            OpCode::Move { source_reg, target_reg } => regs.update(
                target_reg as int,
                regs[source_reg as int],
            ),
            OpCode::AddInt { target_reg, reg1, reg2 } => regs.update(
                target_reg as int,
                wrapped_sum(regs[reg1 as int], regs[reg2 as int]),
            ),
            OpCode::AddFloat { target_reg, reg1, reg2 } => regs.update(
                target_reg as int,
                float_sum(regs[reg1 as int], regs[reg2 as int]),
            ),
            OpCode::Or { target_reg, reg1, reg2 } => regs.update(
                target_reg as int,
                regs[reg1 as int] | regs[reg2 as int],
            ),
            OpCode::And { target_reg, reg1, reg2 } => regs.update(
                target_reg as int,
                regs[reg1 as int] & regs[reg2 as int],
            ),
            OpCode::Xor { target_reg, reg1, reg2 } => regs.update(
                target_reg as int,
                regs[reg1 as int] ^ regs[reg2 as int],
            ),
            OpCode::Rotate { reg, times } => regs.update(
                reg as int,
                rotated_right(regs[reg as int], times as int),
            ),
            OpCode::Store { .. } => regs,
            OpCode::Jump { .. } => regs,
            OpCode::Halt => regs,
        }
    }

    /// The memory after `opcode` is executed: only STORE writes to it.
    pub open spec fn memory_after(self, opcode: OpCode) -> Seq<u8>
        recommends
            self.well_formed(),
            opcode.well_formed(),
    {
        match opcode {
            OpCode::Store { reg, addr } => self.memory.update(
                addr as int,
                self.registers[reg as int],
            ),
            _ => self.memory,
        }
    }

    /// Whether `opcode` is a jump whose condition holds: its register equals
    /// register 0.
    pub open spec fn jumps(self, opcode: OpCode) -> bool
        recommends
            self.well_formed(),
            opcode.well_formed(),
    {
        opcode matches OpCode::Jump { reg, .. } && self.registers[0] == self.registers[reg as int]
    }

    /// The program counter after `opcode` is executed. A jump that is taken
    /// sets it to the content of the cell that the jump names, a jump that is
    /// not taken leaves it, and every other opcode moves it on by the width
    /// of an instruction.
    pub open spec fn program_counter_after(self, opcode: OpCode) -> int
        recommends
            self.well_formed(),
            opcode.well_formed(),
    {
        match opcode {
            OpCode::Jump { reg, addr } => if self.jumps(opcode) {
                self.memory[addr as int] as int
            } else {
                self.program_counter
            },
            _ => self.program_counter + 2,
        }
    }

    /// The machine after `opcode` is executed.
    pub open spec fn execute(self, opcode: OpCode) -> Machine
        recommends
            self.well_formed(),
            opcode.well_formed(),
    {
        Machine {
            registers: self.registers_after(opcode),
            memory: self.memory_after(opcode),
            program_counter: self.program_counter_after(opcode),
            instruction_register: self.instruction_register,
            cycle: self.cycle,
            halted: self.halted || opcode is Halt,
        }
    }

    /// Whether a cycle succeeds. On a machine that runs it does if an
    /// instruction can be fetched and stands for an opcode. On a machine that
    /// has halted no cycle is made, and so none fails.
    pub open spec fn cycle_succeeds(self) -> bool
        recommends
            self.well_formed(),
    {
        self.halted || (self.can_fetch() && decoded(self.next_instruction()) is Some)
    }

    /// The machine after one cycle.
    ///
    /// A machine that has halted makes no further cycle: it stays as it is.
    /// On a machine that runs, a cycle that succeeds fetches the instruction
    /// at the program counter, executes its opcode and counts itself. A
    /// cycle that fetches an instruction without an opcode keeps it in the
    /// instruction register and halts the machine; one that cannot fetch
    /// only halts the machine.
    pub open spec fn cycle(self) -> Machine
        recommends
            self.well_formed(),
    {
        if self.halted {
            self
        } else if !self.can_fetch() {
            Machine { halted: true, ..self }
        } else {
            match decoded(self.next_instruction()) {
                Some(opcode) => Machine {
                    cycle: if self.cycle == u32::MAX {
                        0
                    } else {
                        (self.cycle + 1) as u32
                    },
                    ..self.fetch().execute(opcode)
                },
                None => Machine { halted: true, ..self.fetch() },
            }
        }
    }

    /// The machine after up to `count` cycles: cycles are made as long as
    /// the machine has not halted.
    pub open spec fn after(self, count: nat) -> Machine
        recommends
            self.well_formed(),
        decreases count,
    {
        if count == 0 || self.halted {
            self
        } else {
            self.cycle().after((count - 1) as nat)
        }
    }

    /// Whether the last of the cycles that `after` makes succeeds; true
    /// where it makes none.
    pub open spec fn last_succeeds(self, count: nat) -> bool
        recommends
            self.well_formed(),
        decreases count,
    {
        if count == 0 || self.halted {
            true
        } else if count == 1 || self.cycle().halted {
            self.cycle_succeeds()
        } else {
            self.cycle().last_succeeds((count - 1) as nat)
        }
    }

    /// The machine halts after some number of cycles.
    pub open spec fn halts(self) -> bool
        recommends
            self.well_formed(),
    {
        exists|count: nat| (#[trigger] self.after(count)).halted
    }

    /// A number of cycles after which the machine has halted, if it halts.
    pub open spec fn halting_time(self) -> nat
        recommends
            self.well_formed(),
            self.halts(),
    {
        choose|count: nat| (#[trigger] self.after(count)).halted
    }

    /// The machine that a run to the halt leaves, if the machine halts.
    pub open spec fn run(self) -> Machine
        recommends
            self.well_formed(),
            self.halts(),
    {
        self.after(self.halting_time())
    }

    /// Whether a run to the halt ends with a cycle that succeeds; true where
    /// the machine has halted before the run.
    pub open spec fn run_succeeds(self) -> bool
        recommends
            self.well_formed(),
            self.halts(),
    {
        self.last_succeeds(self.halting_time())
    }
}

/// Represents the state of the Vole-speaking CPU.
#[derive(Debug)]
pub struct Cpu {
    /// The general purpose registers.
    pub registers: [u8; 16],
    /// The main memory.
    pub memory: [u8; 256],
    /// Points to the next instruction in memory to fetch.
    pub program_counter: usize,
    /// Holds the next instruction to decode and execute.
    pub instruction_register: u16,
    /// Counts how many cycles have been processed.
    pub cycle: u32,
    /// True if the [Cpu] has halted, false otherwise.
    pub halted: bool,
}

impl View for Cpu {
    type V = Machine;

    open spec fn view(&self) -> Machine {
        Machine {
            registers: self.registers@,
            memory: self.memory@,
            program_counter: self.program_counter as int,
            instruction_register: self.instruction_register,
            cycle: self.cycle,
            halted: self.halted,
        }
    }
}

impl Cpu {
    /// Creates a new [Cpu].
    pub fn new() -> (cpu: Self)
        ensures
            cpu@ == Machine::blank(),
    {
        let cpu = Cpu {
            registers: [0;16],
            memory: [0;256],
            program_counter: 0,
            instruction_register: 0x0000,
            cycle: 0,
            halted: false,
        };
        assert(cpu.registers@ =~= Machine::blank().registers);
        assert(cpu.memory@ =~= Machine::blank().memory);
        cpu
    }

    /// Initializes a new [Cpu] with the given program loaded into memory.
    ///
    /// A program of more than 256 bytes does not fit and is refused.
    pub fn init(program: &[u8]) -> (made: Result<Self, VoleError>)
        ensures
            program@.len() <= 256 ==> made is Ok && made->Ok_0@ == Machine::loaded(program@),
            program@.len() > 256 ==> made == Err::<Self, VoleError>(VoleError::ProgramTooLarge),
    {
        let mut cpu = Cpu::new();
        if program.len() > 256 {
            return Err(VoleError::ProgramTooLarge);
        }
        let mut i: usize = 0;
        while i < program.len()
            invariant
                i <= program@.len() <= 256,
                cpu.registers@ == Machine::blank().registers,
                cpu.program_counter == 0,
                cpu.instruction_register == 0,
                cpu.cycle == 0,
                !cpu.halted,
                forall|j: int| 0 <= j < i ==> cpu.memory@[j] == program@[j],
                forall|j: int| i <= j < 256 ==> cpu.memory@[j] == 0,
            decreases program@.len() - i,
        {
            cpu.memory[i] = program[i];
            i += 1;
        }
        assert(cpu.memory@ =~= Machine::loaded(program@).memory);
        Ok(cpu)
    }

    /// Depending on the [Cpu::program_counter], fetches the next instruction from memory.
    ///
    /// Where the program counter is above 254 there is no whole instruction
    /// left to fetch: the fetch is refused and nothing changes.
    pub fn fetch(&mut self) -> (fetched: Result<(), VoleError>)
        ensures
            old(self)@.can_fetch() ==> fetched is Ok && final(self)@ == old(self)@.fetch(),
            !old(self)@.can_fetch() ==> fetched == Err::<(), VoleError>(
                VoleError::ProgramCounterOutOfRange,
            ) && final(self)@ == old(self)@,
    {
        if self.program_counter > 254 {
            return Err(VoleError::ProgramCounterOutOfRange);
        }
        let instr_byte0 = self.memory[self.program_counter];
        let instr_byte1 = self.memory[self.program_counter + 1];
        let mut instr: u16 = (instr_byte0 as u16) << 8;
        instr |= instr_byte1 as u16;
        assert(instr == instr_byte0 * 256 + instr_byte1) by (bit_vector)
            requires
                instr == ((instr_byte0 as u16) << 8) | (instr_byte1 as u16),
        ;
        self.instruction_register = instr;
        Ok(())
    }

    /// Get the bits representing the [OpCode].
    pub fn get_opcode_bits(instr: Instruction) -> (bits: u8)
        ensures
            bits == opcode_bits(instr),
    {
        proof {
            lemma_instruction_fields(instr);
        }
        (instr >> 12) as u8
    }

    /// Get the bits representing the first operand.
    pub fn get_operand1_bits(instr: Instruction) -> (bits: u8)
        ensures
            bits == operand1_bits(instr),
    {
        proof {
            lemma_instruction_fields(instr);
        }
        ((instr & 0x0F00) >> 8) as u8
    }

    /// Get the bits representing the second operand.
    pub fn get_operand2_bits(instr: Instruction) -> (bits: u8)
        ensures
            bits == operand2_bits(instr),
    {
        proof {
            lemma_instruction_fields(instr);
        }
        ((instr & 0x00F0) >> 4) as u8
    }

    /// Get the bits representing the third operand.
    pub fn get_operand3_bits(instr: Instruction) -> (bits: u8)
        ensures
            bits == operand3_bits(instr),
    {
        proof {
            lemma_instruction_fields(instr);
        }
        (instr & 0x000F) as u8
    }

    /// Get the bits representing the second and third operand.
    pub fn get_operand23_bits(instr: Instruction) -> (bits: u8)
        ensures
            bits == operand23_bits(instr),
    {
        proof {
            lemma_instruction_fields(instr);
        }
        (instr & 0x00FF) as u8
    }

    /// Get the bits representing the all operands.
    pub fn get_operand_bits(instr: Instruction) -> (bits: u16)
        ensures
            bits == operand_bits(instr),
    {
        proof {
            lemma_instruction_fields(instr);
        }
        instr & 0x0FFF
    }

    /// Decode the bits in the [Cpu::instruction_register] into an [OpCode].
    pub fn decode(&self) -> (opcode: Option<OpCode>)
        ensures
            opcode == decoded(self.instruction_register),
            opcode matches Some(op) ==> op.well_formed(),
    {
        let opcode_bits = Cpu::get_opcode_bits(self.instruction_register);
        let operand1 = Cpu::get_operand1_bits(self.instruction_register);
        let operand2 = Cpu::get_operand2_bits(self.instruction_register);
        let operand3 = Cpu::get_operand3_bits(self.instruction_register);
        match opcode_bits {
            0x1 => Some(
                OpCode::LoadAddr {
                    reg: operand1,
                    addr: Cpu::get_operand23_bits(self.instruction_register),
                },
            ),
            0x2 => Some(
                OpCode::LoadValue {
                    reg: operand1,
                    value: Cpu::get_operand23_bits(self.instruction_register),
                },
            ),
            0x3 => Some(
                OpCode::Store {
                    reg: operand1,
                    addr: Cpu::get_operand23_bits(self.instruction_register),
                },
            ),
            0x4 => Some(OpCode::Move { source_reg: operand2, target_reg: operand3 }),
            0x5 => Some(OpCode::AddInt { target_reg: operand1, reg1: operand2, reg2: operand3 }),
            0x6 => Some(OpCode::AddFloat { target_reg: operand1, reg1: operand2, reg2: operand3 }),
            0x7 => Some(OpCode::Or { target_reg: operand1, reg1: operand2, reg2: operand3 }),
            0x8 => Some(OpCode::And { target_reg: operand1, reg1: operand2, reg2: operand3 }),
            0x9 => Some(OpCode::Xor { target_reg: operand1, reg1: operand2, reg2: operand3 }),
            0xA => Some(OpCode::Rotate { reg: operand1, times: operand3 }),
            0xB => Some(
                OpCode::Jump {
                    reg: operand1,
                    addr: Cpu::get_operand23_bits(self.instruction_register),
                },
            ),
            0xC => Some(OpCode::Halt),
            _ => None,
        }
    }

    /// Execute the given [OpCode].
    ///
    /// The opcode must name registers that exist, as every decoded opcode
    /// does, and the program counter must be able to move on.
    pub fn execute(&mut self, opcode: OpCode)
        requires
            opcode.well_formed(),
            !(opcode is Jump) ==> old(self).program_counter + 2 <= usize::MAX,
        ensures
            final(self)@ == old(self)@.execute(opcode),
    {
        match opcode {
            OpCode::LoadAddr { reg, addr: address } => {
                self.registers[reg as usize] = self.memory[address as usize];
            },
            OpCode::LoadValue { reg, value } => {
                self.registers[reg as usize] = value;
            },
            OpCode::Store { reg, addr } => {
                self.memory[addr as usize] = self.registers[reg as usize];
            },
            OpCode::Move { source_reg, target_reg } => {
                self.registers[target_reg as usize] = self.registers[source_reg as usize];
            },
            OpCode::AddInt { target_reg, reg1, reg2 } => {
                self.registers[target_reg as usize] = self.registers[reg1 as usize].wrapping_add(
                    self.registers[reg2 as usize],
                );
            },
            OpCode::AddFloat { target_reg, reg1, reg2 } => {
                let f1 = Floating { value: self.registers[reg1 as usize] };
                let f2 = Floating { value: self.registers[reg2 as usize] };
                let sum = Fixed { raw: f1.decode().raw + f2.decode().raw };
                let f3 = Floating::encode(sum);
                self.registers[target_reg as usize] = f3.value
            },
            OpCode::Or { target_reg, reg1, reg2 } => {
                self.registers[target_reg as usize] = self.registers[reg1 as usize]
                    | self.registers[reg2 as usize];
            },
            OpCode::And { target_reg, reg1, reg2 } => {
                self.registers[target_reg as usize] = self.registers[reg1 as usize]
                    & self.registers[reg2 as usize];
            },
            OpCode::Xor { target_reg, reg1, reg2 } => {
                self.registers[target_reg as usize] = self.registers[reg1 as usize]
                    ^ self.registers[reg2 as usize];
            },
            OpCode::Rotate { reg, times } => {
                self.registers[reg as usize] = rotate_right(self.registers[reg as usize], times)
            },
            OpCode::Jump { reg, addr } => {
                if self.registers[0] == self.registers[reg as usize] {
                    self.program_counter = self.memory[addr as usize] as usize;
                }
            },
            OpCode::Halt => {
                self.halted = true;
            },
        }

        match opcode {
            OpCode::Jump { reg: _, addr: _ } => (),
            _ => self.program_counter += 2,
        }
    }

    /// Do a full fetch-decode-execute cycle.
    /// Returns false if instruction was illegal, true otherwise.
    ///
    /// A machine that has halted makes no further cycle: nothing of it
    /// changes, and the result is true, since nothing has failed.
    ///
    /// An illegal instruction halts the machine and is left in the
    /// instruction register. A program counter above 254, from which no
    /// instruction can be fetched, halts the machine too, with the result
    /// false.
    pub fn cycle(&mut self) -> (success: bool)
        ensures
            final(self)@ == old(self)@.cycle(),
            success == old(self)@.cycle_succeeds(),
            old(self).halted ==> final(self)@ == old(self)@ && success,
    {
        if self.halted {
            return true;
        }
        match self.fetch() {
            Ok(()) => {
                if let Some(opcode) = self.decode() {
                    self.execute(opcode);
                    self.cycle = self.cycle.wrapping_add(1);
                    true
                } else {
                    self.halted = true;
                    false
                }
            },
            Err(_) => {
                self.halted = true;
                false
            },
        }
    }

    /// Run till halt.
    /// Returns false if the last cycle failed, true otherwise.
    ///
    /// A machine that has halted before is left as it is, with the result
    /// true. A machine that never halts would be run for ever, so only one
    /// that halts may be run; `run_for` takes any machine.
    pub fn run(&mut self) -> (success: bool)
        requires
            old(self)@.halts(),
        ensures
            final(self)@ == old(self)@.run(),
            success == old(self)@.run_succeeds(),
            final(self).halted,
    {
        let ghost start = self@;
        let ghost total = start.halting_time();
        let ghost mut done: nat = 0;
        let mut r = true;
        while !self.halted
            invariant
                start.after(total).halted,
                done <= total,
                self@ == start.after(done),
                r == start.last_succeeds(done),
            decreases total - done,
        {
            r = self.cycle();
            proof {
                lemma_after_one_more(start, done);
                done = done + 1;
            }
        }
        proof {
            lemma_halt_is_final(start, done, total);
        }
        r
    }

    /// Run till halt, but for `limit` cycles at most.
    /// Returns the result of the last cycle if the machine has halted, and
    /// nothing if it has not.
    pub fn run_for(&mut self, limit: u32) -> (success: Option<bool>)
        ensures
            final(self)@ == old(self)@.after(limit as nat),
            final(self).halted ==> success == Some(old(self)@.last_succeeds(limit as nat)),
            !final(self).halted ==> success is None,
    {
        let ghost start = self@;
        let mut done: u32 = 0;
        let mut r = true;
        while done < limit && !self.halted
            invariant
                done <= limit,
                self@ == start.after(done as nat),
                r == start.last_succeeds(done as nat),
            decreases limit - done,
        {
            r = self.cycle();
            proof {
                lemma_after_one_more(start, done as nat);
            }
            done += 1;
        }
        if self.halted {
            proof {
                lemma_halt_is_final(start, done as nat, limit as nat);
            }
            Some(r)
        } else {
            None
        }
    }
}

/// A loaded machine holds the program in its first cells and zero in all
/// the others.
pub proof fn lemma_loaded_program(program: Seq<u8>)
    requires
        program.len() <= 256,
    ensures
        Machine::loaded(program).well_formed(),
        Machine::loaded(program).memory.subrange(0, program.len() as int) == program,
        forall|address: int|
            program.len() <= address < 256 ==> Machine::loaded(program).memory[address] == 0,
        forall|register: int|
            0 <= register < 16 ==> Machine::loaded(program).registers[register] == 0,
{
    assert(Machine::loaded(program).memory.subrange(0, program.len() as int) =~= program);
}

/// An instruction stands for an opcode exactly if its highest four bits are
/// one of `0x1` to `0xC`, and the opcode names registers below 16 only.
pub proof fn lemma_decoded(instr: Instruction)
    ensures
        decoded(instr) is Some <==> 1 <= opcode_bits(instr) <= 12,
        decoded(instr) matches Some(opcode) ==> opcode.well_formed(),
{
}

/// An opcode writes to one place at most: every register but the one it
/// names as its target, and every memory cell but the one that a STORE names,
/// is after the execution what it was before. No opcode touches the
/// instruction register or the count of cycles, and none but HALT halts.
pub proof fn lemma_execute_writes_one_place(machine: Machine, opcode: OpCode)
    requires
        machine.well_formed(),
        opcode.well_formed(),
    ensures
        machine.execute(opcode).well_formed(),
        forall|register: int|
            0 <= register < 16 && opcode.written_register() != Some(register as u8)
                ==> machine.execute(opcode).registers[register] == machine.registers[register],
        forall|address: int|
            0 <= address < 256 && opcode.written_cell() != Some(address as u8)
                ==> machine.execute(opcode).memory[address] == machine.memory[address],
        machine.execute(opcode).instruction_register == machine.instruction_register,
        machine.execute(opcode).cycle == machine.cycle,
        machine.execute(opcode).halted == (machine.halted || opcode == OpCode::Halt),
{
}

/// A cycle leaves a machine with its sixteen registers and its 256 memory
/// cells, and with a program counter of 256 at most where it was one from
/// which an instruction can be fetched.
pub proof fn lemma_cycle_keeps_well_formed(machine: Machine)
    requires
        machine.well_formed(),
    ensures
        machine.cycle().well_formed(),
        machine.can_fetch() ==> machine.cycle().program_counter <= 256,
{
    if machine.can_fetch() {
        lemma_decoded(machine.next_instruction());
    }
}

/// A cycle that fails halts the machine and changes neither the registers,
/// nor the memory, nor the program counter, nor the count of cycles.
pub proof fn lemma_failed_cycle(machine: Machine)
    requires
        !machine.cycle_succeeds(),
    ensures
        machine.cycle().halted,
        machine.cycle().registers == machine.registers,
        machine.cycle().memory == machine.memory,
        machine.cycle().program_counter == machine.program_counter,
        machine.cycle().cycle == machine.cycle,
        machine.can_fetch() ==> machine.cycle().instruction_register
            == machine.next_instruction(),
{
}

/// A cycle that succeeds on a machine that runs counts itself, moves the
/// program counter on by two unless its instruction is a jump, and halts the
/// machine if its instruction is a halt and in no other case.
pub proof fn lemma_successful_cycle(machine: Machine)
    requires
        !machine.halted,
        machine.cycle_succeeds(),
    ensures
        machine.cycle().cycle == (machine.cycle + 1) % 0x1_0000_0000,
        machine.cycle().instruction_register == machine.next_instruction(),
        opcode_bits(machine.next_instruction()) != 0xB ==> machine.cycle().program_counter
            == machine.program_counter + 2,
        machine.cycle().halted == (opcode_bits(machine.next_instruction()) == 0xC),
{
}

/// A machine that has halted makes no further cycle: a cycle leaves all of
/// it as it is, the halt too, and does not fail.
pub proof fn lemma_halted_machine_stays(machine: Machine)
    requires
        machine.halted,
    ensures
        machine.cycle() == machine,
        machine.cycle_succeeds(),
{
}

/// Rotating goes round in eight steps: the count of a rotation matters only
/// modulo 8, and a rotation by a multiple of 8 changes nothing.
pub proof fn lemma_rotation_is_circular(value: u8, times: int)
    ensures
        rotated_right(value, times) == rotated_right(value, times % 8),
        times % 8 == 0 ==> rotated_right(value, times) == value,
        rotated_right(value, times + 8) == rotated_right(value, times),
{
}

/// Rotating once moves the lowest bit to the top and halves the rest.
pub proof fn lemma_rotation_by_one(value: u8)
    ensures
        rotated_right(value, 1) == value / 2 + (value % 2) * 128,
{
}

/// Rotating by one count after another is rotating by their sum.
pub proof fn lemma_rotations_add(value: u8, first: u8, second: u8)
    requires
        first < 8,
        second < 8,
    ensures
        rotated_right(rotated_right(value, first as int), second as int) == rotated_right(
            value,
            first + second,
        ),
{
    let sum: u8 = ((first + second) % 8) as u8;
    assert(rotated_right(value, first + second) == rotated_right(value, sum as int));
    assert(rotated_bits(rotated_bits(value, first), second) == rotated_bits(value, sum))
        by (bit_vector)
        requires
            first < 8,
            second < 8,
            sum == (first + second) % 8,
    ;
    lemma_rotated_bits(value, first);
    lemma_rotated_bits(rotated_bits(value, first), second);
    lemma_rotated_bits(value, sum);
}

/// The rotation of a byte by a count below 8, by shifts.
spec fn rotated_bits(value: u8, times: u8) -> u8 {
    if times == 0 {
        value
    } else {
        (value >> times) | (value << ((8 - times) as u8))
    }
}

/// The rotation by shifts is the rotation by quotient and remainder.
proof fn lemma_rotated_bits(value: u8, times: u8)
    requires
        times < 8,
    ensures
        rotated_bits(value, times) == rotated_right(value, times as int),
{
    let rotated = rotated_bits(value, times);
    if times != 0 {
        assert(rotated as int == value as int / weight(times as int) + (value as int % weight(
            times as int,
        )) * weight(8 - times)) by (bit_vector)
            requires
                1 <= times <= 7,
                rotated == (value >> times) | (value << ((8 - times) as u8)),
        ;
    }
}

/// One more cycle: while the machine has not halted after `count` cycles,
/// the machine after `count + 1` cycles is that after `count` cycles and one
/// cycle, and the last cycle succeeds if that one does.
pub proof fn lemma_after_one_more(machine: Machine, count: nat)
    requires
        !machine.after(count).halted,
    ensures
        machine.after(count + 1) == machine.after(count).cycle(),
        machine.last_succeeds(count + 1) == machine.after(count).cycle_succeeds(),
    decreases count,
{
    reveal_with_fuel(Machine::after, 2);
    if count > 0 {
        lemma_after_one_more(machine.cycle(), (count - 1) as nat);
    }
}

/// The halt is final: once the machine has halted after `count` cycles,
/// more cycles change nothing.
pub proof fn lemma_halt_is_final(machine: Machine, count: nat, more: nat)
    requires
        machine.after(count).halted,
        count <= more,
    ensures
        machine.after(more) == machine.after(count),
        machine.last_succeeds(more) == machine.last_succeeds(count),
    decreases count,
{
    if !machine.halted {
        lemma_halt_is_final(machine.cycle(), (count - 1) as nat, (more - 1) as nat);
    }
}

/// A machine that has halted after `count` cycles halts, and a run to the
/// halt leaves what `count` cycles leave.
pub proof fn lemma_run_is_after(machine: Machine, count: nat)
    requires
        machine.after(count).halted,
    ensures
        machine.halts(),
        machine.run() == machine.after(count),
        machine.run_succeeds() == machine.last_succeeds(count),
        machine.run().halted,
{
    let time = machine.halting_time();
    if time <= count {
        lemma_halt_is_final(machine, time, count);
    } else {
        lemma_halt_is_final(machine, count, time);
    }
}

impl Default for Cpu {
    fn default() -> (cpu: Self)
        ensures
            cpu@ == Machine::blank(),
    {
        Self::new()
    }
}

/// Rotates the bits of `value` to the right, `times` times.
pub fn rotate_right(value: u8, times: u8) -> (rotated: u8)
    ensures
        rotated == rotated_right(value, times as int),
{
    let k: u8 = times % 8;
    proof {
        lemma_rotated_bits(value, k);
    }
    if k == 0 {
        value
    } else {
        (value >> k) | (value << (8 - k))
    }
}

/// The shifts and masks that cut an instruction into its fields agree with
/// the quotients and remainders that name them.
pub proof fn lemma_instruction_fields(instr: u16)
    by (bit_vector)
    ensures
        instr >> 12 == instr / 4096,
        (instr & 0x0F00) >> 8 == (instr / 256) % 16,
        (instr & 0x00F0) >> 4 == (instr / 16) % 16,
        instr & 0x000F == instr % 16,
        instr & 0x00FF == instr % 256,
        instr & 0x0FFF == instr % 4096,
{
}

} // verus!
