//! What the user's keys mean, and what they do to the session.

use vstd::prelude::*;
use crate::loader::{parse_program_text, program_bytes};
use crate::model::{Focus, Model, Session};
use crate::vole::{Cpu, Machine};

verus! {

/// A key that the user has pressed.
#[derive(Debug, Clone, Copy, PartialEq, Eq, Structural)]
pub enum Key {
    Esc,
    Char(char),
    Tab,
    BackTab,
    Up,
    Down,
    /// Any other key.
    Other,
}

/// What the user asks for.
#[derive(Debug, Clone, Copy, PartialEq, Eq, Structural)]
pub enum Msg {
    /// Exit the application
    Exit,
    /// Load program into memory
    Load,
    /// Do one cycle of the machine
    Cycle,
    /// Give the focus to the next pane
    FocusNext,
    /// Give the focus to the pane before
    FocusPrevious,
    /// Show the line above
    ScrollUp,
    /// Show the line below
    ScrollDown,
    /// Hand the key to the editor of the program text
    KeyInput,
}

/// The message that is shown for a program text that cannot be read.
pub open spec fn unreadable_message() -> Seq<char> {
    "only byte values in hex notation allowed"@
}

/// The message that is shown for a program that is too large.
pub open spec fn too_large_message() -> Seq<char> {
    "given program does not fit into memory"@
}

/// What a key asks for while `focus` has the focus.
///
/// Escape and `q` leave, `r` loads the program, `p` does a cycle, and the
/// tabulator moves the focus. Every other key goes to the editor while the
/// program text has the focus; elsewhere the arrows scroll and the other keys
/// mean nothing.
pub open spec fn meaning(focus: Focus, key: Key) -> Option<Msg> {
    match key {
        Key::Esc => Some(Msg::Exit),
        Key::Char(c) if c == 'q' => Some(Msg::Exit),
        Key::Char(c) if c == 'r' => Some(Msg::Load),
        Key::Char(c) if c == 'p' => Some(Msg::Cycle),
        Key::Tab => Some(Msg::FocusNext),
        Key::BackTab => Some(Msg::FocusPrevious),
        _ => if focus == Focus::Program {
            Some(Msg::KeyInput)
        } else {
            match key {
                Key::Up => Some(Msg::ScrollUp),
                Key::Down => Some(Msg::ScrollDown),
                _ => None,
            }
        },
    }
}

impl Session {
    /// The session after the machine was loaded from the program text. A
    /// text that cannot be read, or that holds more than 256 bytes, leaves
    /// the machine as it is and gives a message.
    pub open spec fn load(self) -> Session {
        match program_bytes(self.text) {
            Some(program) => if program.len() <= 256 {
                Session { machine: Machine::loaded(program), error_msg: None, ..self }
            } else {
                Session { error_msg: Some(too_large_message()), ..self }
            },
            None => Session { error_msg: Some(unreadable_message()), ..self },
        }
    }

    /// The session after the pane with the focus was scrolled up by a line,
    /// if it is not at its top. The program text does not scroll this way.
    pub open spec fn scroll_up(self) -> Session {
        match self.focus {
            Focus::Registers => Session {
                registers_scroll: if self.registers_scroll > 0 {
                    self.registers_scroll - 1
                } else {
                    0
                },
                ..self
            },
            Focus::Memory => Session {
                memory_scroll: if self.memory_scroll > 0 {
                    self.memory_scroll - 1
                } else {
                    0
                },
                ..self
            },
            Focus::Program => self,
        }
    }

    /// The session after the pane with the focus was scrolled down by a line,
    /// if it has not left its sixteen registers or its 256 memory cells
    /// behind.
    pub open spec fn scroll_down(self) -> Session {
        match self.focus {
            Focus::Registers => if self.registers_scroll < 16 {
                Session { registers_scroll: self.registers_scroll + 1, ..self }
            } else {
                self
            },
            Focus::Memory => if self.memory_scroll < 256 {
                Session { memory_scroll: self.memory_scroll + 1, ..self }
            } else {
                self
            },
            Focus::Program => self,
        }
    }

    /// Whether the key behind `msg` is handed on to the editor: it is one
    /// for the editor, and the program text has the focus.
    pub open spec fn hands_on(self, msg: Msg) -> bool {
        msg == Msg::KeyInput && self.focus == Focus::Program
    }

    /// The session after `msg`.
    pub open spec fn update(self, msg: Msg) -> Session {
        match msg {
            Msg::Exit => Session { running: false, ..self },
            Msg::Load => self.load(),
            Msg::Cycle => if self.machine.halted {
                self
            } else {
                Session { machine: self.machine.cycle(), ..self }
            },
            Msg::FocusNext => Session { focus: self.focus.next(), ..self },
            Msg::FocusPrevious => Session { focus: self.focus.previous(), ..self },
            Msg::ScrollUp => self.scroll_up(),
            Msg::ScrollDown => self.scroll_down(),
            Msg::KeyInput => self,
        }
    }
}

/// Says what a key asks for.
pub fn on_key_event(model: &Model, key: Key) -> (msg: Option<Msg>)
    ensures
        msg == meaning(model.focus, key),
{
    match key {
        Key::Esc => Some(Msg::Exit),
        Key::Char('q') => Some(Msg::Exit),
        Key::Char('r') => Some(Msg::Load),
        Key::Char('p') => Some(Msg::Cycle),
        Key::Tab => Some(Msg::FocusNext),
        Key::BackTab => Some(Msg::FocusPrevious),
        _ => {
            if matches!(model.focus, Focus::Program) {
                Some(Msg::KeyInput)
            } else {
                match key {
                    Key::Up => Some(Msg::ScrollUp),
                    Key::Down => Some(Msg::ScrollDown),
                    _ => None,
                }
            }
        },
    }
}

/// Does to the session what `msg` asks for. Returns true if the key that
/// asked is for the editor of the program text.
///
/// A key for the editor changes nothing here: the caller hands it to the
/// editor, whose lines then become the program text.
pub fn update(model: &mut Model, msg: Msg) -> (for_editor: bool)
    ensures
        final(model)@ == old(model)@.update(msg),
        for_editor == old(model)@.hands_on(msg),
{
    let for_editor = matches!(msg, Msg::KeyInput) && matches!(model.focus, Focus::Program);
    match msg {
        Msg::Exit => {
            model.running = false;
        },
        Msg::Load => {
            let input = parse_program_text(model.program_text.as_slice());
            match input {
                Ok(input) => match Cpu::init(input.as_slice()) {
                    Ok(cpu) => {
                        model.error_msg = None;
                        model.cpu = cpu;
                    },
                    Err(_) => {
                        model.error_msg = Some("given program does not fit into memory");
                    },
                },
                Err(msg) => {
                    model.error_msg = Some(msg);
                },
            }
        },
        Msg::Cycle => {
            if !model.cpu.halted {
                model.cpu.cycle();
            }
        },
        Msg::FocusNext => match model.focus {
            Focus::Registers => model.focus = Focus::Memory,
            Focus::Memory => model.focus = Focus::Program,
            Focus::Program => model.focus = Focus::Registers,
        },
        Msg::FocusPrevious => match model.focus {
            Focus::Registers => model.focus = Focus::Program,
            Focus::Memory => model.focus = Focus::Registers,
            Focus::Program => model.focus = Focus::Memory,
        },
        Msg::ScrollUp => match model.focus {
            Focus::Registers => {
                if model.registers_scroll > 0 {
                    model.registers_scroll = model.registers_scroll - 1;
                }
            },
            Focus::Memory => {
                if model.memory_scroll > 0 {
                    model.memory_scroll = model.memory_scroll - 1;
                }
            },
            Focus::Program => (),
        },
        Msg::ScrollDown => match model.focus {
            Focus::Registers => {
                if model.registers_scroll < 16 {
                    model.registers_scroll = model.registers_scroll + 1;
                }
            },
            Focus::Memory => {
                if model.memory_scroll < 256 {
                    model.memory_scroll = model.memory_scroll + 1;
                }
            },
            Focus::Program => (),
        },
        Msg::KeyInput => (),
    }
    for_editor
}

} // verus!
