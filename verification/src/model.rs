//! The state of an interactive session with the machine: the machine itself,
//! the program text that the user edits, and what the screen shows of both.

use vstd::prelude::*;
use vstd::pervasive::unreached;
use crate::error::VoleError;
use crate::loader::{listing, program_text, text_of};
use crate::vole::{Cpu, Machine};

verus! {

/// The pane of the screen that takes the user's keys.
#[derive(Debug, Clone, Copy, PartialEq, Eq, Structural)]
pub enum Focus {
    Registers,
    Memory,
    Program,
}

impl Focus {
    /// The pane after this one: registers, memory, program, and round again.
    pub open spec fn next(self) -> Focus {
        match self {
            Focus::Registers => Focus::Memory,
            Focus::Memory => Focus::Program,
            Focus::Program => Focus::Registers,
        }
    }

    /// The pane before this one.
    pub open spec fn previous(self) -> Focus {
        match self {
            Focus::Registers => Focus::Program,
            Focus::Memory => Focus::Registers,
            Focus::Program => Focus::Memory,
        }
    }
}

/// A session as mathematical values.
pub struct Session {
    /// The machine.
    pub machine: Machine,
    /// The lines of the program text.
    pub text: Seq<Seq<char>>,
    /// Whether the session goes on.
    pub running: bool,
    /// The pane that takes the keys.
    pub focus: Focus,
    /// The first memory cell that is shown.
    pub memory_scroll: int,
    /// The first register that is shown.
    pub registers_scroll: int,
    /// The message that tells the user what went wrong, if anything did.
    pub error_msg: Option<Seq<char>>,
}

impl Session {
    /// The session that begins with `program`: the program is in memory and
    /// in the text, one byte on each line, and the memory has the focus.
    pub open spec fn opened(program: Seq<u8>) -> Session
        recommends
            program.len() <= 256,
    {
        Session {
            machine: Machine::loaded(program),
            text: listing(program),
            running: true,
            focus: Focus::Memory,
            memory_scroll: 0,
            registers_scroll: 0,
            error_msg: None,
        }
    }

    /// The program that a session without a program of its own begins with:
    /// it copies the byte at address 2 to address 0x17 and halts.
    pub open spec fn default_program() -> Seq<u8> {
        seq![0x14u8, 0x02u8, 0x34u8, 0x17u8, 0xC0u8, 0x00u8]
    }
}

/// The state of an interactive session.
#[derive(Debug)]
pub struct Model {
    /// The machine.
    pub cpu: Cpu,
    /// The lines of the program text as the user has edited it.
    pub program_text: Vec<String>,
    /// False once the user has asked to leave.
    pub running: bool,
    /// The pane that takes the keys.
    pub focus: Focus,
    /// The first memory cell that is shown.
    pub memory_scroll: usize,
    /// The first register that is shown.
    pub registers_scroll: usize,
    /// The message that tells the user what went wrong, if anything did.
    pub error_msg: Option<&'static str>,
}

impl View for Model {
    type V = Session;

    open spec fn view(&self) -> Session {
        Session {
            machine: self.cpu@,
            text: text_of(self.program_text@),
            running: self.running,
            focus: self.focus,
            memory_scroll: self.memory_scroll as int,
            registers_scroll: self.registers_scroll as int,
            error_msg: match self.error_msg {
                Some(message) => Some(message@),
                None => None,
            },
        }
    }
}

impl Model {
    /// Begins a session with the given program.
    ///
    /// A program of more than 256 bytes does not fit and is refused.
    pub fn init(program: Vec<u8>) -> (made: Result<Self, VoleError>)
        ensures
            program@.len() <= 256 ==> made is Ok && made->Ok_0@ == Session::opened(program@),
            program@.len() > 256 ==> made == Err::<Self, VoleError>(VoleError::ProgramTooLarge),
    {
        match Cpu::init(program.as_slice()) {
            Ok(cpu) => Ok(
                Model {
                    cpu,
                    program_text: program_text(program.as_slice()),
                    running: true,
                    focus: Focus::Memory,
                    memory_scroll: 0,
                    registers_scroll: 0,
                    error_msg: None,
                },
            ),
            Err(e) => Err(e),
        }
    }
}

impl Default for Model {
    /// Begins a session with the default program.
    fn default() -> (model: Self)
        ensures
            model@ == Session::opened(Session::default_program()),
    {
        let program: Vec<u8> = vec![0x14, 0x02, 0x34, 0x17, 0xC0, 0x00];
        assert(program@ =~= Session::default_program());
        match Model::init(program) {
            Ok(model) => model,
            Err(_) => unreached(),
        }
    }
}

} // verus!
