//! The mathematical model of the machine: its state as plain sequences and
//! integers, and what one instruction makes of a state.
//!
//! An instruction is described in three parts that are kept apart: the
//! condition under which it faults, the state it leaves (in which the program
//! counter is never touched), and the effect it declares on the program
//! counter. `step` puts the three together and is the only place where the
//! program counter moves.

use vstd::prelude::*;
use crate::cpu::{ENTRY_POINT, FLAG_REGISTER, REGISTER_COUNT};
use crate::events::KEY_COUNT;
use crate::memory::{GLYPH_SIZE, RAM_SIZE, STACK_SIZE, STARTING_ADDRESS_FONT};
use crate::opcode::{decoded, Instruction};
use crate::screen::{blank_screen, draw_collides, drawn_screen, PIXEL_COUNT};

verus! {

/// Highest address at which a two-byte instruction still lies in memory.
pub const LAST_INSTRUCTION_ADDRESS: u16 = 4094;

/// Highest value of the stack pointer: the last slot of the call stack.
pub const STACK_TOP: u8 = 15;

/// What an instruction asks of the program counter.
#[derive(Clone, Copy, Debug, PartialEq, Eq)]
pub enum ProgramCounter {
    /// Go on with the next instruction.
    Next,
    /// Skip the next instruction.
    Skip,
    /// Continue at the given address.
    Jump(u16),
}

/// Why the machine stopped.
#[derive(Clone, Copy, Debug, PartialEq, Eq)]
pub enum FaultKind {
    /// The program counter points at or past the last byte of memory, so no
    /// instruction lies there.
    PcOutOfBounds,
    /// The word is no instruction.
    UnknownOpcode,
    /// A call with the call stack full.
    StackOverflow,
    /// A return with the call stack empty.
    StackUnderflow,
    /// The instruction would read or write past the end of memory.
    MemoryOutOfBounds,
}

/// A fatal stop: its cause, the program counter at which it happened, and
/// the offending word when one was at hand.
#[derive(Clone, Copy, Debug, PartialEq, Eq)]
pub struct Fault {
    pub kind: FaultKind,
    pub pc: u16,
    pub opcode: Option<u16>,
}

/// The whole state of the machine.
#[verifier::ext_equal]
pub struct Machine {
    pub pc: u16,
    pub sp: u8,
    /// The registers V0 to VF.
    pub v: Seq<u8>,
    pub i: u16,
    pub delay_timer: u8,
    pub sound_timer: u8,
    pub ram: Seq<u8>,
    pub stack: Seq<u16>,
    /// The pixels, row by row from the top.
    pub screen: Seq<bool>,
    pub screen_changed: bool,
    /// The keypad snapshot: position `k` is set when key `k` is down.
    pub keyboard: Seq<bool>,
    /// Whether the last instruction run was a wait for a key that found
    /// none down.
    pub awaiting_key: bool,
}

impl Machine {
    pub open spec fn wf(self) -> bool {
        &&& self.v.len() == REGISTER_COUNT
        &&& self.sp <= STACK_TOP
        &&& self.ram.len() == RAM_SIZE
        &&& self.stack.len() == STACK_SIZE
        &&& self.screen.len() == PIXEL_COUNT
        &&& self.keyboard.len() == KEY_COUNT
    }

    /// The value of register `x`.
    pub open spec fn reg(self, x: u8) -> u8 {
        self.v[x as int]
    }
}

/// The state at power-up: everything zero, the screen dark, no key down,
/// the program counter at the entry point.
pub open spec fn power_on() -> Machine {
    Machine {
        pc: ENTRY_POINT,
        sp: 0,
        v: Seq::new(REGISTER_COUNT as nat, |r: int| 0u8),
        i: 0,
        delay_timer: 0,
        sound_timer: 0,
        ram: Seq::new(RAM_SIZE as nat, |a: int| 0u8),
        stack: Seq::new(STACK_SIZE as nat, |s: int| 0u16),
        screen: blank_screen(),
        screen_changed: false,
        keyboard: Seq::new(KEY_COUNT as nat, |k: int| false),
        awaiting_key: false,
    }
}

/// The byte that an eight-bit register keeps of a number: its remainder
/// modulo 256.
pub open spec fn low_byte(number: int) -> u8 {
    (number % 256) as u8
}

/// 1 for true, 0 for false: how a flag is written to VF.
pub open spec fn flag(raised: bool) -> u8 {
    if raised {
        1
    } else {
        0
    }
}

/// The registers after an arithmetic instruction: the flag goes to VF
/// first, the result to Vx after it, so with `x` = F the result stays.
pub open spec fn with_flag_and_result(v: Seq<u8>, raised: bool, x: u8, result: u8) -> Seq<u8> {
    v.update(FLAG_REGISTER as int, flag(raised)).update(x as int, result)
}

/// The lowest key from `from` upwards that is down.
pub open spec fn lowest_pressed_from(keyboard: Seq<bool>, from: int) -> Option<u8>
    decreases keyboard.len() - from,
{
    if from < 0 || from >= keyboard.len() {
        None
    } else if keyboard[from] {
        Some(from as u8)
    } else {
        lowest_pressed_from(keyboard, from + 1)
    }
}

/// The lowest key that is down, if any is.
pub open spec fn lowest_pressed(keyboard: Seq<bool>) -> Option<u8> {
    lowest_pressed_from(keyboard, 0)
}

/// Whether `value` names a key and that key is down.
pub open spec fn key_down(keyboard: Seq<bool>, value: u8) -> bool {
    value < KEY_COUNT && keyboard[value as int]
}

/// Whether `value` names a key and that key is up.
pub open spec fn key_up(keyboard: Seq<bool>, value: u8) -> bool {
    value < KEY_COUNT && !keyboard[value as int]
}

/// Memory after storing registers V0 to Vx at address `i` onwards.
pub open spec fn stored_registers(ram: Seq<u8>, v: Seq<u8>, i: int, x: int) -> Seq<u8> {
    Seq::new(
        RAM_SIZE as nat,
        |a: int|
            if i <= a <= i + x {
                v[a - i]
            } else {
                ram[a]
            },
    )
}

/// The registers after loading V0 to Vx from address `i` onwards.
pub open spec fn loaded_registers(v: Seq<u8>, ram: Seq<u8>, i: int, x: int) -> Seq<u8> {
    Seq::new(
        REGISTER_COUNT as nat,
        |r: int|
            if r <= x {
                ram[i + r]
            } else {
                v[r]
            },
    )
}

/// Memory after storing the hundreds, tens and ones of `value` at `i`,
/// `i + 1` and `i + 2`.
pub open spec fn stored_digits(ram: Seq<u8>, i: int, value: u8) -> Seq<u8> {
    ram.update(i, value / 100).update(i + 1, (value / 10) % 10).update(i + 2, value % 10)
}

/// `Skip` when the condition holds, `Next` when it does not.
pub open spec fn skip_if(condition: bool) -> ProgramCounter {
    if condition {
        ProgramCounter::Skip
    } else {
        ProgramCounter::Next
    }
}

/// The cause for which an instruction faults in a state, if it does.
pub open spec fn fault_of(m: Machine, instruction: Instruction) -> Option<FaultKind> {
    match instruction {
        Instruction::Ret => if m.sp == 0 {
            Some(FaultKind::StackUnderflow)
        } else {
            None
        },
        Instruction::Call { nnn } => if m.sp >= STACK_TOP {
            Some(FaultKind::StackOverflow)
        } else {
            None
        },
        Instruction::Drw { x, y, n } => if n > 0 && m.i + n > RAM_SIZE {
            Some(FaultKind::MemoryOutOfBounds)
        } else {
            None
        },
        Instruction::LdB { x } => if m.i + 2 >= RAM_SIZE {
            Some(FaultKind::MemoryOutOfBounds)
        } else {
            None
        },
        Instruction::LdIVx { x } | Instruction::LdVxI { x } => if m.i + x >= RAM_SIZE {
            Some(FaultKind::MemoryOutOfBounds)
        } else {
            None
        },
        _ => None,
    }
}

/// Whether the instruction is a conditional skip whose condition holds in
/// the state. A key numbered above 0xF is neither down nor up.
pub open spec fn skips(m: Machine, instruction: Instruction) -> bool {
    match instruction {
        Instruction::SeByte { x, kk } => m.reg(x) == kk,
        Instruction::SneByte { x, kk } => m.reg(x) != kk,
        Instruction::SeReg { x, y } => m.reg(x) == m.reg(y),
        Instruction::SneReg { x, y } => m.reg(x) != m.reg(y),
        Instruction::Skp { x } => key_down(m.keyboard, m.reg(x)),
        Instruction::Sknp { x } => key_up(m.keyboard, m.reg(x)),
        _ => false,
    }
}

/// The effect on the program counter that an instruction declares in a
/// state in which it does not fault. A return continues at the address on
/// top of the stack, which a call left as the address of the instruction
/// after itself. A wait for a key that finds none down jumps to itself, so
/// that it runs again at the next tick.
pub open spec fn pc_effect(m: Machine, instruction: Instruction) -> ProgramCounter {
    match instruction {
        Instruction::Ret => ProgramCounter::Jump(m.stack[m.sp as int]),
        Instruction::Jp { nnn } => ProgramCounter::Jump(nnn),
        Instruction::Call { nnn } => ProgramCounter::Jump(nnn),
        Instruction::JpV0 { nnn } => ProgramCounter::Jump((nnn + m.v[0]) as u16),
        Instruction::LdVxK { x } => if lowest_pressed(m.keyboard) is Some {
            ProgramCounter::Next
        } else {
            ProgramCounter::Jump(m.pc)
        },
        _ => skip_if(skips(m, instruction)),
    }
}

/// The state that an instruction leaves when run in a state in which it
/// does not fault, but for the program counter, which stays as it was.
pub open spec fn performed(m: Machine, instruction: Instruction, random_byte: u8) -> Machine {
    let m = Machine { awaiting_key: false, ..m };
    match instruction {
        Instruction::Cls => Machine { screen: blank_screen(), screen_changed: true, ..m },
        Instruction::Ret => Machine { sp: (m.sp - 1) as u8, ..m },
        Instruction::Call { nnn } => Machine {
            sp: (m.sp + 1) as u8,
            stack: m.stack.update(m.sp + 1, (m.pc + 2) as u16),
            ..m
        },
        Instruction::LdByte { x, kk } => Machine { v: m.v.update(x as int, kk), ..m },
        Instruction::AddByte { x, kk } => Machine {
            v: m.v.update(x as int, low_byte(m.reg(x) + kk)),
            ..m
        },
        Instruction::LdReg { x, y } => Machine { v: m.v.update(x as int, m.reg(y)), ..m },
        Instruction::Or { x, y } => Machine { v: m.v.update(x as int, m.reg(x) | m.reg(y)), ..m },
        Instruction::And { x, y } => Machine { v: m.v.update(x as int, m.reg(x) & m.reg(y)), ..m },
        Instruction::Xor { x, y } => Machine { v: m.v.update(x as int, m.reg(x) ^ m.reg(y)), ..m },
        Instruction::AddReg { x, y } => Machine {
            v: with_flag_and_result(
                m.v,
                m.reg(x) + m.reg(y) > 255,
                x,
                low_byte(m.reg(x) + m.reg(y)),
            ),
            ..m
        },
        Instruction::Sub { x, y } => Machine {
            v: with_flag_and_result(
                m.v,
                m.reg(x) > m.reg(y),
                x,
                low_byte(m.reg(x) - m.reg(y)),
            ),
            ..m
        },
        Instruction::Shr { x, y } => Machine {
            v: with_flag_and_result(m.v, m.reg(x) % 2 == 1, x, m.reg(x) / 2),
            ..m
        },
        Instruction::Subn { x, y } => Machine {
            v: with_flag_and_result(
                m.v,
                m.reg(y) > m.reg(x),
                x,
                low_byte(m.reg(y) - m.reg(x)),
            ),
            ..m
        },
        Instruction::Shl { x, y } => Machine {
            v: with_flag_and_result(m.v, m.reg(x) >= 128, x, low_byte(m.reg(x) * 2)),
            ..m
        },
        Instruction::LdI { nnn } => Machine { i: nnn, ..m },
        Instruction::Rnd { x, kk } => Machine { v: m.v.update(x as int, kk & random_byte), ..m },
        Instruction::Drw { x, y, n } => Machine {
            screen: drawn_screen(
                m.screen,
                m.ram,
                m.i as int,
                n as int,
                m.reg(x) as int,
                m.reg(y) as int,
            ),
            screen_changed: true,
            v: m.v.update(
                FLAG_REGISTER as int,
                flag(
                    draw_collides(
                        m.screen,
                        m.ram,
                        m.i as int,
                        n as int,
                        m.reg(x) as int,
                        m.reg(y) as int,
                    ),
                ),
            ),
            ..m
        },
        Instruction::LdVxDt { x } => Machine { v: m.v.update(x as int, m.delay_timer), ..m },
        Instruction::LdVxK { x } => match lowest_pressed(m.keyboard) {
            Some(key) => Machine { v: m.v.update(x as int, key), ..m },
            None => Machine { awaiting_key: true, ..m },
        },
        Instruction::LdDtVx { x } => Machine { delay_timer: m.reg(x), ..m },
        Instruction::LdStVx { x } => Machine { sound_timer: m.reg(x), ..m },
        Instruction::AddI { x } => Machine { i: ((m.i + m.reg(x)) % 0x10000) as u16, ..m },
        Instruction::LdF { x } => Machine {
            i: (STARTING_ADDRESS_FONT + GLYPH_SIZE * m.reg(x)) as u16,
            ..m
        },
        Instruction::LdB { x } => Machine { ram: stored_digits(m.ram, m.i as int, m.reg(x)), ..m },
        Instruction::LdIVx { x } => Machine {
            ram: stored_registers(m.ram, m.v, m.i as int, x as int),
            ..m
        },
        Instruction::LdVxI { x } => Machine {
            v: loaded_registers(m.v, m.ram, m.i as int, x as int),
            ..m
        },
        _ => m,
    }
}

/// The program counter after an instruction at `pc` that declared `effect`.
pub open spec fn moved(pc: u16, effect: ProgramCounter) -> u16 {
    match effect {
        ProgramCounter::Next => (pc + 2) as u16,
        ProgramCounter::Skip => (pc + 4) as u16,
        ProgramCounter::Jump(address) => address,
    }
}

/// What running the instruction word `opcode` at the program counter makes
/// of a state: the next state, or the fault that stops the machine.
pub open spec fn step(m: Machine, opcode: u16, random_byte: u8) -> Result<Machine, Fault> {
    if m.pc > LAST_INSTRUCTION_ADDRESS {
        Err(Fault { kind: FaultKind::PcOutOfBounds, pc: m.pc, opcode: Some(opcode) })
    } else {
        match decoded(opcode) {
            None => Err(Fault { kind: FaultKind::UnknownOpcode, pc: m.pc, opcode: Some(opcode) }),
            Some(instruction) => match fault_of(m, instruction) {
                Some(kind) => Err(Fault { kind, pc: m.pc, opcode: Some(opcode) }),
                None => Ok(
                    Machine {
                        pc: moved(m.pc, pc_effect(m, instruction)),
                        ..performed(m, instruction, random_byte)
                    },
                ),
            },
        }
    }
}

/// The instruction word at the program counter: two bytes, the high one
/// first.
pub open spec fn fetched(m: Machine) -> u16 {
    (m.ram[m.pc as int] * 256 + m.ram[m.pc + 1]) as u16
}

/// The state at the start of a tick: the changed flag of the screen is
/// lowered, everything else stays.
pub open spec fn tick_started(m: Machine) -> Machine {
    Machine { screen_changed: false, ..m }
}

/// What one tick makes of a state: the changed flag is lowered, then the
/// instruction at the program counter is fetched and run.
pub open spec fn ticked(m: Machine, random_byte: u8) -> Result<Machine, Fault> {
    if m.pc > LAST_INSTRUCTION_ADDRESS {
        Err(Fault { kind: FaultKind::PcOutOfBounds, pc: m.pc, opcode: None })
    } else {
        step(tick_started(m), fetched(m), random_byte)
    }
}

/// A timer after one sixtieth of a second: one less, held at zero.
pub open spec fn counted_down(timer: u8) -> u8 {
    if timer > 0 {
        (timer - 1) as u8
    } else {
        0
    }
}

/// The state after one sixtieth of a second has passed: both timers count
/// down, nothing else moves.
pub open spec fn timers_ticked(m: Machine) -> Machine {
    Machine {
        delay_timer: counted_down(m.delay_timer),
        sound_timer: counted_down(m.sound_timer),
        ..m
    }
}

} // verus!
