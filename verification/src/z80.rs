//! The processor register file, as the trap handlers and the orchestrator
//! see it. The instruction executor itself is an external collaborator; this
//! is the state it shares with the emulator.

use vstd::prelude::*;

verus! {

/// Carry flag bit in the flags (low) byte of `af`.
pub const FLAG_C: u8 = 0x01;

/// Processor registers, including the interrupt-control state the
/// orchestrator manages.
#[derive(Debug, Clone, Copy, PartialEq, Eq, Structural)]
pub struct State {
    pub pc: u16,
    pub sp: u16,
    pub af: u16,
    pub bc: u16,
    pub de: u16,
    pub hl: u16,
    pub ix: u16,
    pub iy: u16,
    pub af_: u16,
    pub bc_: u16,
    pub de_: u16,
    pub hl_: u16,
    pub r: u8,
    pub i: u8,
    /// Maskable interrupts enabled.
    pub ei: bool,
    /// Interrupt mode, 0 through 2.
    pub im: u8,
    /// Whether the processor is stopped on a halt instruction.
    pub halted: bool,
}

impl State {
    /// All registers zero, interrupts disabled, not halted.
    pub fn new() -> (r: State)
        ensures
            r == (State {
                pc: 0,
                sp: 0,
                af: 0,
                bc: 0,
                de: 0,
                hl: 0,
                ix: 0,
                iy: 0,
                af_: 0,
                bc_: 0,
                de_: 0,
                hl_: 0,
                r: 0,
                i: 0,
                ei: false,
                im: 0,
                halted: false,
            }),
    {
        State {
            pc: 0,
            sp: 0,
            af: 0,
            bc: 0,
            de: 0,
            hl: 0,
            ix: 0,
            iy: 0,
            af_: 0,
            bc_: 0,
            de_: 0,
            hl_: 0,
            r: 0,
            i: 0,
            ei: false,
            im: 0,
            halted: false,
        }
    }

    pub fn set_interrupt_enable(&mut self, enable: bool)
        ensures
            *final(self) == (State { ei: enable, ..*old(self) }),
    {
        self.ei = enable;
    }

    pub fn set_im(&mut self, mode: u8)
        requires
            mode <= 2,
        ensures
            *final(self) == (State { im: mode, ..*old(self) }),
    {
        self.im = mode;
    }

    /// The accumulator: the high byte of `af`.
    pub fn get_a(&self) -> (r: u8)
        ensures
            r == (self.af >> 8u16) as u8,
    {
        (self.af >> 8u16) as u8
    }

    /// Replace the accumulator, keeping the flags byte.
    pub fn set_a(&mut self, a: u8)
        ensures
            *final(self) == (State { af: (old(self).af & 0xFF | ((a as u16) << 8u16)) as u16, ..*old(self) }),
    {
        self.af = self.af & 0xFF | ((a as u16) << 8u16);
    }

    /// The flags byte: the low byte of `af`.
    pub fn flags(&self) -> (r: u8)
        ensures
            r == (self.af & 0xFF) as u8,
    {
        (self.af & 0xFF) as u8
    }

    /// Replace the flags byte, keeping the accumulator.
    pub fn set_flags(&mut self, flags: u8)
        ensures
            *final(self) == (State { af: (old(self).af & 0xFF00 | flags as u16) as u16, ..*old(self) }),
    {
        self.af = self.af & 0xFF00 | flags as u16;
    }
}

} // verus!
