//! Registers and timers. Plain storage: every rule about how an instruction
//! changes them lives in the interpreter.

use vstd::prelude::*;

verus! {

/// Number of general-purpose registers, V0 to VF.
pub const REGISTER_COUNT: usize = 16;

/// Index of VF, the register that carries carry, borrow and collision flags.
pub const FLAG_REGISTER: usize = 0xF;

/// Address of the first instruction of a program.
pub const ENTRY_POINT: u16 = 0x200;

pub struct Cpu {
    /// Program counter: address of the instruction to run next.
    pub pc: u16,
    /// Stack pointer: index of the newest return address, 0 when none is held.
    pub sp: u8,
    /// The general-purpose registers V0 to VF.
    pub v: Vec<u8>,
    /// The address register I.
    pub i: u16,
    pub delay_timer: u8,
    pub sound_timer: u8,
}

impl Cpu {
    /// There are exactly sixteen registers, and the stack pointer names a
    /// slot of the sixteen-entry call stack.
    pub open spec fn wf(&self) -> bool {
        &&& self.v@.len() == REGISTER_COUNT
        &&& self.sp < 16
    }

    /// The state at power-up: everything zero, the program counter at the
    /// entry point.
    pub fn new() -> (cpu: Self)
        ensures
            cpu.wf(),
            cpu.pc == ENTRY_POINT,
            cpu.sp == 0,
            cpu.v@ == Seq::new(REGISTER_COUNT as nat, |r: int| 0u8),
            cpu.i == 0,
            cpu.delay_timer == 0,
            cpu.sound_timer == 0,
    {
        Self { pc: ENTRY_POINT, sp: 0, v: vec![0u8; 16], i: 0, delay_timer: 0, sound_timer: 0 }
    }

    /// The value of register Vx.
    pub fn register(&self, x: u8) -> (value: u8)
        requires
            self.wf(),
            x < REGISTER_COUNT,
        ensures
            value == self.v@[x as int],
    {
        self.v[x as usize]
    }

    /// Writes `value` to register Vx and touches nothing else.
    pub fn set_register(&mut self, x: u8, value: u8)
        requires
            old(self).wf(),
            x < REGISTER_COUNT,
        ensures
            final(self).wf(),
            final(self).v@ == old(self).v@.update(x as int, value),
            final(self).pc == old(self).pc,
            final(self).sp == old(self).sp,
            final(self).i == old(self).i,
            final(self).delay_timer == old(self).delay_timer,
            final(self).sound_timer == old(self).sound_timer,
    {
        self.v[x as usize] = value;
    }

    /// Whether the value is well formed, for callers that fill the public
    /// fields themselves.
    pub fn is_well_formed(&self) -> (ok: bool)
        ensures
            ok == self.wf(),
    {
        self.v.len() == REGISTER_COUNT && self.sp < 16
    }
}

} // verus!
