//! The interpreter: the machine's state in executable form and the
//! fetch-decode-execute cycle over it.

use vstd::prelude::*;
use crate::cpu::{Cpu, FLAG_REGISTER};
use crate::events::KEY_COUNT;
use crate::machine::{
    fault_of, fetched, loaded_registers, low_byte, lowest_pressed, lowest_pressed_from, pc_effect,
    performed, power_on, skips, step, stored_registers, tick_started, ticked, timers_ticked,
    with_flag_and_result, Fault, FaultKind, Machine, ProgramCounter, LAST_INSTRUCTION_ADDRESS,
    STACK_TOP,
};
use crate::memory::{Memory, GLYPH_SIZE, RAM_SIZE, STARTING_ADDRESS_FONT};
use crate::opcode::{decode, decoded, Instruction};
use crate::rng::random_byte;
use crate::screen::{tile_at, Framebuffer, Tile, PIXEL_COUNT};

verus! {

pub struct Chip8 {
    pub screen: Framebuffer,
    pub cpu: Cpu,
    pub memory: Memory,
    /// The keypad snapshot, refreshed by the host before each tick.
    pub keyboard: [bool; 16],
    /// Whether the machine is held at a wait for a key.
    pub awaiting_key: bool,
}

impl View for Chip8 {
    type V = Machine;

    open spec fn view(&self) -> Machine {
        Machine {
            pc: self.cpu.pc,
            sp: self.cpu.sp,
            v: self.cpu.v@,
            i: self.cpu.i,
            delay_timer: self.cpu.delay_timer,
            sound_timer: self.cpu.sound_timer,
            ram: self.memory.ram@,
            stack: self.memory.stack@,
            screen: self.screen.pixels@,
            screen_changed: self.screen.changed,
            keyboard: self.keyboard@,
            awaiting_key: self.awaiting_key,
        }
    }
}

/// Whether a call ended as `expected` says: with success and the state it
/// names, or with the fault it names and the state `otherwise`.
pub open spec fn ended_as(
    expected: Result<Machine, Fault>,
    result: Result<(), Fault>,
    after: Machine,
    otherwise: Machine,
) -> bool {
    match expected {
        Ok(next) => result is Ok && after == next,
        Err(fault) => result == Err::<(), Fault>(fault) && after == otherwise,
    }
}

impl Chip8 {
    /// Every part has its fixed size and the stack pointer is in range.
    pub open spec fn wf(&self) -> bool {
        &&& self.cpu.wf()
        &&& self.memory.wf()
        &&& self.screen.wf()
    }

    /// A machine at power-up. Memory is empty: the font and a program are
    /// loaded through `memory`.
    pub fn new() -> (chip8: Self)
        ensures
            chip8.wf(),
            chip8@ == power_on(),
    {
        Self {
            screen: Framebuffer::new(),
            cpu: Cpu::new(),
            memory: Memory::new(),
            keyboard: [false; 16],
            awaiting_key: false,
        }
    }

    /// Whether the value is well formed, for callers that fill the public
    /// fields themselves.
    pub fn is_well_formed(&self) -> (ok: bool)
        ensures
            ok == self.wf(),
    {
        self.cpu.is_well_formed() && self.memory.is_well_formed() && self.screen.is_well_formed()
    }

    /// The instruction word at the program counter, high byte first. Fails
    /// when the word would not lie wholly in memory.
    pub fn fetch_opcode(&self) -> (word: Result<u16, Fault>)
        requires
            self.wf(),
        ensures
            self.cpu.pc <= LAST_INSTRUCTION_ADDRESS ==> word == Ok::<u16, Fault>(fetched(self@)),
            self.cpu.pc > LAST_INSTRUCTION_ADDRESS ==> word == Err::<u16, Fault>(
                Fault { kind: FaultKind::PcOutOfBounds, pc: self.cpu.pc, opcode: None },
            ),
    {
        let pc: u16 = self.cpu.pc;
        if pc > LAST_INSTRUCTION_ADDRESS {
            return Err(Fault { kind: FaultKind::PcOutOfBounds, pc, opcode: None });
        }
        let high: u8 = self.memory.read(pc as usize);
        let low: u8 = self.memory.read(pc as usize + 1);
        assert((high as u16) << 8 | (low as u16) == high as u16 * 256 + low as u16)
            by (bit_vector);
        Ok((high as u16) << 8 | (low as u16))
    }

    /// Moves the program counter to the next instruction.
    pub fn next_instruction(&mut self)
        requires
            old(self).cpu.pc + 2 <= u16::MAX,
        ensures
            final(self)@ == (Machine { pc: (old(self).cpu.pc + 2) as u16, ..old(self)@ }),
    {
        self.cpu.pc += 2;
    }

    /// Moves the program counter past the next instruction if the
    /// condition holds, and to the next instruction if not.
    pub fn skip_next_instruction_if(&mut self, condition: bool)
        requires
            old(self).cpu.pc + (if condition {
                4int
            } else {
                2int
            }) <= u16::MAX,
        ensures
            final(self)@ == (Machine {
                pc: (old(self).cpu.pc + if condition {
                    4int
                } else {
                    2int
                }) as u16,
                ..old(self)@
            }),
    {
        if condition {
            self.cpu.pc += 4;
        } else {
            self.cpu.pc += 2;
        }
    }

    /// The lowest key that is down in the snapshot, if any is.
    fn first_key_down(&self) -> (key: Option<u8>)
        ensures
            key == lowest_pressed(self.keyboard@),
    {
        let mut k: usize = 0;
        while k < KEY_COUNT
            invariant
                k <= KEY_COUNT,
                lowest_pressed(self.keyboard@) == lowest_pressed_from(self.keyboard@, k as int),
            decreases KEY_COUNT - k,
        {
            if self.keyboard[k] {
                return Some(k as u8);
            }
            k += 1;
        }
        None
    }

    /// Stores V0 to Vx at address I onwards.
    fn store_registers(&mut self, x: u8)
        requires
            old(self).wf(),
            x < 16,
            old(self).cpu.i + x < RAM_SIZE,
        ensures
            final(self).wf(),
            final(self)@ == (Machine {
                ram: stored_registers(
                    old(self)@.ram,
                    old(self)@.v,
                    old(self)@.i as int,
                    x as int,
                ),
                ..old(self)@
            }),
    {
        let i: usize = self.cpu.i as usize;
        let mut r: usize = 0;
        while r <= x as usize
            invariant
                r <= x + 1,
                x < 16,
                i + x < RAM_SIZE,
                self.wf(),
                self@ == (Machine { ram: self@.ram, ..old(self)@ }),
                forall|a: int|
                    0 <= a < RAM_SIZE ==> self@.ram[a] == if i <= a < i + r {
                        old(self)@.v[a - i]
                    } else {
                        old(self)@.ram[a]
                    },
            decreases x + 1 - r,
        {
            self.memory.ram[i + r] = self.cpu.v[r];
            r += 1;
        }
    }

    /// Loads V0 to Vx from address I onwards.
    fn load_registers(&mut self, x: u8)
        requires
            old(self).wf(),
            x < 16,
            old(self).cpu.i + x < RAM_SIZE,
        ensures
            final(self).wf(),
            final(self)@ == (Machine {
                v: loaded_registers(
                    old(self)@.v,
                    old(self)@.ram,
                    old(self)@.i as int,
                    x as int,
                ),
                ..old(self)@
            }),
    {
        let i: usize = self.cpu.i as usize;
        let mut r: usize = 0;
        while r <= x as usize
            invariant
                r <= x + 1,
                x < 16,
                i + x < RAM_SIZE,
                self.wf(),
                self@ == (Machine { v: self@.v, ..old(self)@ }),
                forall|j: int|
                    0 <= j < 16 ==> self@.v[j] == if j < r {
                        old(self)@.ram[i + j]
                    } else {
                        old(self)@.v[j]
                    },
            decreases x + 1 - r,
        {
            self.cpu.v[r] = self.memory.ram[i + r];
            r += 1;
        }
    }

    /// The cause for which the instruction would fault now, if it would.
    fn fault(&self, instruction: Instruction) -> (cause: Option<FaultKind>)
        requires
            self.wf(),
        ensures
            cause == fault_of(self@, instruction),
    {
        let i: usize = self.cpu.i as usize;
        match instruction {
            Instruction::Ret => if self.cpu.sp == 0 {
                Some(FaultKind::StackUnderflow)
            } else {
                None
            },
            Instruction::Call { nnn: _ } => if self.cpu.sp >= STACK_TOP {
                Some(FaultKind::StackOverflow)
            } else {
                None
            },
            Instruction::Drw { x: _, y: _, n } => if n > 0 && i + n as usize > RAM_SIZE {
                Some(FaultKind::MemoryOutOfBounds)
            } else {
                None
            },
            Instruction::LdB { x: _ } => if i + 2 >= RAM_SIZE {
                Some(FaultKind::MemoryOutOfBounds)
            } else {
                None
            },
            Instruction::LdIVx { x } | Instruction::LdVxI { x } => if i + x as usize >= RAM_SIZE {
                Some(FaultKind::MemoryOutOfBounds)
            } else {
                None
            },
            _ => None,
        }
    }

    /// Runs the body of an instruction that does not fault: changes the
    /// state as the instruction says, leaves the program counter alone and
    /// hands back the effect on it that the instruction declares.
    fn perform(&mut self, instruction: Instruction, random_byte: u8) -> (effect: ProgramCounter)
        requires
            old(self).wf(),
            instruction.wf(),
            old(self).cpu.pc <= LAST_INSTRUCTION_ADDRESS,
            fault_of(old(self)@, instruction) is None,
        ensures
            final(self).wf(),
            final(self)@ == performed(old(self)@, instruction, random_byte),
            effect == pc_effect(old(self)@, instruction),
    {
        self.awaiting_key = false;
        match instruction {
            Instruction::Ret
            | Instruction::Jp { .. }
            | Instruction::Call { .. }
            | Instruction::JpV0 { .. }
            | Instruction::SeByte { .. }
            | Instruction::SneByte { .. }
            | Instruction::SeReg { .. }
            | Instruction::SneReg { .. }
            | Instruction::Skp { .. }
            | Instruction::Sknp { .. } => self.perform_control(instruction),
            Instruction::LdByte { .. }
            | Instruction::AddByte { .. }
            | Instruction::LdReg { .. }
            | Instruction::Or { .. }
            | Instruction::And { .. }
            | Instruction::Xor { .. }
            | Instruction::AddReg { .. }
            | Instruction::Sub { .. }
            | Instruction::Shr { .. }
            | Instruction::Subn { .. }
            | Instruction::Shl { .. }
            | Instruction::Rnd { .. } => {
                self.perform_arithmetic(instruction, random_byte);
                ProgramCounter::Next
            },
            Instruction::Cls
            | Instruction::Drw { .. }
            | Instruction::LdI { .. }
            | Instruction::AddI { .. }
            | Instruction::LdF { .. }
            | Instruction::LdB { .. }
            | Instruction::LdIVx { .. }
            | Instruction::LdVxI { .. } => {
                self.perform_memory(instruction);
                ProgramCounter::Next
            },
            Instruction::LdVxDt { .. }
            | Instruction::LdVxK { .. }
            | Instruction::LdDtVx { .. }
            | Instruction::LdStVx { .. } => self.perform_device(instruction),
        }
    }

    /// The instructions that decide where the program goes on: jumps, call
    /// and return, and the conditional skips.
    fn perform_control(&mut self, instruction: Instruction) -> (effect: ProgramCounter)
        requires
            old(self).wf(),
            instruction.wf(),
            !old(self).awaiting_key,
            old(self).cpu.pc <= LAST_INSTRUCTION_ADDRESS,
            fault_of(old(self)@, instruction) is None,
            instruction.transfers_control() || instruction is SeByte || instruction is SneByte
                || instruction is SeReg || instruction is SneReg || instruction is Skp
                || instruction is Sknp,
        ensures
            final(self).wf(),
            final(self)@ == performed(old(self)@, instruction, 0),
            effect == pc_effect(old(self)@, instruction),
    {
        match instruction {
            Instruction::Ret => {
                let address: u16 = self.memory.stack[self.cpu.sp as usize];
                self.cpu.sp -= 1;
                ProgramCounter::Jump(address)
            },
            Instruction::Jp { nnn } => ProgramCounter::Jump(nnn),
            Instruction::Call { nnn } => {
                self.cpu.sp += 1;
                self.memory.stack[self.cpu.sp as usize] = self.cpu.pc + 2;
                ProgramCounter::Jump(nnn)
            },
            Instruction::JpV0 { nnn } => {
                let v0: u8 = self.cpu.register(0);
                ProgramCounter::Jump(nnn + v0 as u16)
            },
            Instruction::SeByte { x, kk } => {
                let vx: u8 = self.cpu.register(x);
                if vx == kk {
                    ProgramCounter::Skip
                } else {
                    ProgramCounter::Next
                }
            },
            Instruction::SneByte { x, kk } => {
                let vx: u8 = self.cpu.register(x);
                if vx != kk {
                    ProgramCounter::Skip
                } else {
                    ProgramCounter::Next
                }
            },
            Instruction::SeReg { x, y } => {
                let vx: u8 = self.cpu.register(x);
                let vy: u8 = self.cpu.register(y);
                if vx == vy {
                    ProgramCounter::Skip
                } else {
                    ProgramCounter::Next
                }
            },
            Instruction::SneReg { x, y } => {
                let vx: u8 = self.cpu.register(x);
                let vy: u8 = self.cpu.register(y);
                if vx != vy {
                    ProgramCounter::Skip
                } else {
                    ProgramCounter::Next
                }
            },
            Instruction::Skp { x } => {
                let vx: u8 = self.cpu.register(x);
                if (vx as usize) < KEY_COUNT && self.keyboard[vx as usize] {
                    ProgramCounter::Skip
                } else {
                    ProgramCounter::Next
                }
            },
            Instruction::Sknp { x } => {
                let vx: u8 = self.cpu.register(x);
                if (vx as usize) < KEY_COUNT && !self.keyboard[vx as usize] {
                    ProgramCounter::Skip
                } else {
                    ProgramCounter::Next
                }
            },
            _ => unreached(),
        }
    }

    /// Sum and difference of two bytes, kept to eight bits.
    fn wrapping_add(a: u8, b: u8) -> (sum: u8)
        ensures
            sum == low_byte(a + b),
    {
        a.wrapping_add(b)
    }

    fn wrapping_sub(a: u8, b: u8) -> (difference: u8)
        ensures
            difference == low_byte(a - b),
    {
        a.wrapping_sub(b)
    }

    /// A byte shifted one place up or down, and the bit that falls out.
    fn shifted_left(a: u8) -> (shifted: (bool, u8))
        ensures
            shifted.0 == (a >= 128),
            shifted.1 == low_byte(a * 2),
    {
        assert((a & 0x80 != 0) == (a >= 128)) by (bit_vector);
        assert(a << 1 == (a * 2) % 256) by (bit_vector);
        (a & 0x80 != 0, a << 1)
    }

    fn shifted_right(a: u8) -> (shifted: (bool, u8))
        ensures
            shifted.0 == (a % 2 == 1),
            shifted.1 == a / 2,
    {
        assert(a & 1 == a % 2) by (bit_vector);
        assert(a >> 1 == a / 2) by (bit_vector);
        (a & 1 == 1, a >> 1)
    }

    /// Writes `value` to register Vx.
    fn set_register(&mut self, x: u8, value: u8)
        requires
            old(self).wf(),
            x < 16,
        ensures
            final(self).wf(),
            final(self)@ == (Machine { v: old(self)@.v.update(x as int, value), ..old(self)@ }),
    {
        self.cpu.set_register(x, value);
    }

    /// Writes a flag to VF and then `value` to register Vx.
    fn set_flag_and_register(&mut self, raised: bool, x: u8, value: u8)
        requires
            old(self).wf(),
            x < 16,
        ensures
            final(self).wf(),
            final(self)@ == (Machine {
                v: with_flag_and_result(old(self)@.v, raised, x, value),
                ..old(self)@
            }),
    {
        self.cpu.set_register(FLAG_REGISTER as u8, if raised {
            1
        } else {
            0
        });
        self.cpu.set_register(x, value);
    }

    /// The instructions that compute a register from registers, an
    /// immediate or a random byte. Where a flag is written, VF gets it
    /// first and Vx its result after that.
    fn perform_arithmetic(&mut self, instruction: Instruction, random_byte: u8)
        requires
            old(self).wf(),
            instruction.wf(),
            !old(self).awaiting_key,
            instruction is LdByte || instruction is AddByte || instruction is LdReg
                || instruction is Or || instruction is And || instruction is Xor
                || instruction is AddReg || instruction is Sub || instruction is Shr
                || instruction is Subn || instruction is Shl || instruction is Rnd,
        ensures
            final(self).wf(),
            final(self)@ == performed(old(self)@, instruction, random_byte),
    {
        match instruction {
            Instruction::LdByte { x, kk } => {
                self.set_register(x, kk);
            },
            Instruction::AddByte { x, kk } => {
                let vx: u8 = self.cpu.register(x);
                self.set_register(x, Self::wrapping_add(vx, kk));
            },
            Instruction::LdReg { x, y } => {
                let vy: u8 = self.cpu.register(y);
                self.set_register(x, vy);
            },
            Instruction::Or { x, y } => {
                let vx: u8 = self.cpu.register(x);
                let vy: u8 = self.cpu.register(y);
                self.set_register(x, vx | vy);
            },
            Instruction::And { x, y } => {
                let vx: u8 = self.cpu.register(x);
                let vy: u8 = self.cpu.register(y);
                self.set_register(x, vx & vy);
            },
            Instruction::Xor { x, y } => {
                let vx: u8 = self.cpu.register(x);
                let vy: u8 = self.cpu.register(y);
                self.set_register(x, vx ^ vy);
            },
            Instruction::AddReg { x, y } => {
                let vx: u8 = self.cpu.register(x);
                let vy: u8 = self.cpu.register(y);
                let sum: u16 = vx as u16 + vy as u16;
                self.set_flag_and_register(sum > 0xFF, x, Self::wrapping_add(vx, vy));
            },
            Instruction::Sub { x, y } => {
                let vx: u8 = self.cpu.register(x);
                let vy: u8 = self.cpu.register(y);
                self.set_flag_and_register(vx > vy, x, Self::wrapping_sub(vx, vy));
            },
            Instruction::Shr { x, y: _ } => {
                let vx: u8 = self.cpu.register(x);
                let (out, rest) = Self::shifted_right(vx);
                self.set_flag_and_register(out, x, rest);
            },
            Instruction::Subn { x, y } => {
                let vx: u8 = self.cpu.register(x);
                let vy: u8 = self.cpu.register(y);
                self.set_flag_and_register(vy > vx, x, Self::wrapping_sub(vy, vx));
            },
            Instruction::Shl { x, y: _ } => {
                let vx: u8 = self.cpu.register(x);
                let (out, rest) = Self::shifted_left(vx);
                self.set_flag_and_register(out, x, rest);
            },
            Instruction::Rnd { x, kk } => {
                self.set_register(x, kk & random_byte);
            },
            _ => unreached(),
        }
    }

    /// The instructions that work on memory, the address register or the
    /// screen.
    fn perform_memory(&mut self, instruction: Instruction)
        requires
            old(self).wf(),
            instruction.wf(),
            !old(self).awaiting_key,
            fault_of(old(self)@, instruction) is None,
            instruction is Cls || instruction is Drw || instruction is LdI || instruction is AddI
                || instruction is LdF || instruction is LdB || instruction is LdIVx
                || instruction is LdVxI,
        ensures
            final(self).wf(),
            final(self)@ == performed(old(self)@, instruction, 0),
    {
        match instruction {
            Instruction::Cls => {
                self.screen.clear();
            },
            Instruction::Drw { x, y, n } => {
                let vx: u8 = self.cpu.register(x);
                let vy: u8 = self.cpu.register(y);
                let collision: bool = self.screen.draw_sprite(
                    &self.memory.ram,
                    self.cpu.i as usize,
                    n as usize,
                    vx,
                    vy,
                );
                self.cpu.v[FLAG_REGISTER] = if collision {
                    1
                } else {
                    0
                };
            },
            Instruction::LdI { nnn } => {
                self.cpu.i = nnn;
            },
            Instruction::AddI { x } => {
                let vx: u8 = self.cpu.register(x);
                self.cpu.i = self.cpu.i.wrapping_add(vx as u16);
            },
            Instruction::LdF { x } => {
                let vx: u8 = self.cpu.register(x);
                assert(GLYPH_SIZE * vx <= 5 * 255) by (nonlinear_arith)
                    requires
                        GLYPH_SIZE == 5,
                        vx <= 255,
                ;
                self.cpu.i = STARTING_ADDRESS_FONT as u16 + GLYPH_SIZE as u16 * vx as u16;
            },
            Instruction::LdB { x } => {
                let vx: u8 = self.cpu.register(x);
                let i: usize = self.cpu.i as usize;
                self.memory.write(i, vx / 100);
                self.memory.write(i + 1, (vx / 10) % 10);
                self.memory.write(i + 2, vx % 10);
            },
            Instruction::LdIVx { x } => {
                self.store_registers(x);
            },
            Instruction::LdVxI { x } => {
                self.load_registers(x);
            },
            _ => unreached(),
        }
    }

    /// The instructions that reach the timers and the keypad. A wait for a
    /// key takes the lowest key that is down; with none down it raises the
    /// waiting flag and asks to be run again.
    fn perform_device(&mut self, instruction: Instruction) -> (effect: ProgramCounter)
        requires
            old(self).wf(),
            instruction.wf(),
            !old(self).awaiting_key,
            instruction is LdVxDt || instruction is LdVxK || instruction is LdDtVx
                || instruction is LdStVx,
        ensures
            final(self).wf(),
            final(self)@ == performed(old(self)@, instruction, 0),
            effect == pc_effect(old(self)@, instruction),
    {
        match instruction {
            Instruction::LdVxDt { x } => {
                self.cpu.v[x as usize] = self.cpu.delay_timer;
                ProgramCounter::Next
            },
            Instruction::LdVxK { x } => {
                match self.first_key_down() {
                    Some(key) => {
                        self.cpu.v[x as usize] = key;
                        ProgramCounter::Next
                    },
                    None => {
                        self.awaiting_key = true;
                        ProgramCounter::Jump(self.cpu.pc)
                    },
                }
            },
            Instruction::LdDtVx { x } => {
                self.cpu.delay_timer = self.cpu.v[x as usize];
                ProgramCounter::Next
            },
            Instruction::LdStVx { x } => {
                self.cpu.sound_timer = self.cpu.v[x as usize];
                ProgramCounter::Next
            },
            _ => unreached(),
        }
    }

    /// Runs the instruction word `opcode` as the instruction at the program
    /// counter, with `random_byte` as the byte that a random instruction
    /// draws. On a fault nothing is changed.
    ///
    /// An instruction that completes and is no jump, call or return moves
    /// the program counter on by 2, or by 4 when it is a skip whose
    /// condition holds. A wait for a key has not completed while no key is
    /// down.
    pub fn execute_with(&mut self, opcode: u16, random_byte: u8) -> (result: Result<(), Fault>)
        requires
            old(self).wf(),
        ensures
            final(self).wf(),
            ended_as(step(old(self)@, opcode, random_byte), result, final(self)@, old(self)@),
            result is Ok && !final(self).awaiting_key ==> (decoded(opcode) matches Some(i)
                && (!i.transfers_control() ==> final(self).cpu.pc == old(self).cpu.pc + if skips(
                old(self)@,
                i,
            ) {
                4int
            } else {
                2int
            })),
    {
        let pc: u16 = self.cpu.pc;
        if pc > LAST_INSTRUCTION_ADDRESS {
            return Err(Fault { kind: FaultKind::PcOutOfBounds, pc, opcode: Some(opcode) });
        }
        let instruction: Instruction = match decode(opcode) {
            Some(instruction) => instruction,
            None => {
                return Err(Fault { kind: FaultKind::UnknownOpcode, pc, opcode: Some(opcode) });
            },
        };
        if let Some(kind) = self.fault(instruction) {
            return Err(Fault { kind, pc, opcode: Some(opcode) });
        }
        let effect: ProgramCounter = self.perform(instruction, random_byte);
        match effect {
            ProgramCounter::Next => self.next_instruction(),
            ProgramCounter::Skip => self.skip_next_instruction_if(true),
            ProgramCounter::Jump(address) => {
                self.cpu.pc = address;
            },
        }
        Ok(())
    }

    /// Runs the instruction word `opcode` as the instruction at the program
    /// counter. A random instruction draws its byte from the generator, so
    /// the outcome is that of `execute_with` for some byte.
    pub fn execute_opcode(&mut self, opcode: u16) -> (result: Result<(), Fault>)
        requires
            old(self).wf(),
        ensures
            final(self).wf(),
            exists|random_byte: u8|
                ended_as(
                    #[trigger] step(old(self)@, opcode, random_byte),
                    result,
                    final(self)@,
                    old(self)@,
                ),
    {
        let drawn: u8 = match decode(opcode) {
            Some(Instruction::Rnd { x: _, kk: _ }) => random_byte(),
            _ => 0,
        };
        self.execute_with(opcode, drawn)
    }

    /// One tick: lowers the changed flag of the screen, fetches the
    /// instruction at the program counter and runs it. On a fault the flag
    /// stays lowered and nothing else is changed.
    pub fn tick(&mut self) -> (result: Result<(), Fault>)
        requires
            old(self).wf(),
        ensures
            final(self).wf(),
            exists|random_byte: u8|
                ended_as(
                    #[trigger] ticked(old(self)@, random_byte),
                    result,
                    final(self)@,
                    tick_started(old(self)@),
                ),
    {
        self.screen.changed = false;
        let ghost started = self@;
        let opcode: u16 = match self.fetch_opcode() {
            Ok(opcode) => opcode,
            Err(fault) => {
                assert(ended_as(ticked(old(self)@, 0), Err(fault), self@, tick_started(old(self)@)));
                return Err(fault);
            },
        };
        let result = self.execute_opcode(opcode);
        proof {
            let random_byte = choose|random_byte: u8|
                ended_as(#[trigger] step(started, opcode, random_byte), result, self@, started);
            assert(ended_as(
                ticked(old(self)@, random_byte),
                result,
                self@,
                tick_started(old(self)@),
            ));
        }
        result
    }

    /// The tiles a host paints to show the screen.
    pub fn draw(&self) -> (tiles: Vec<Tile>)
        requires
            self.wf(),
        ensures
            tiles@.len() == PIXEL_COUNT,
            forall|k: int|
                0 <= k < PIXEL_COUNT ==> tiles@[k] == tile_at(self@.screen, k),
    {
        self.screen.tiles()
    }

    /// Lets one sixtieth of a second pass: each timer that is not zero
    /// counts down by one.
    pub fn tick_timers(&mut self)
        ensures
            final(self)@ == timers_ticked(old(self)@),
    {
        if self.cpu.delay_timer > 0 {
            self.cpu.delay_timer -= 1;
        }
        if self.cpu.sound_timer > 0 {
            self.cpu.sound_timer -= 1;
        }
    }
}

} // verus!
