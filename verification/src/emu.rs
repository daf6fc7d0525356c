//! The register file the 8086 emulator hands to interrupt handlers.

use vstd::prelude::*;

verus! {

/// The 8086 registers passed to and from an interrupt handler.
#[derive(Clone, Copy, PartialEq, Eq, Structural, Debug)]
pub struct EmuRegs {
    pub ax: u16,
    pub bx: u16,
    pub cx: u16,
    pub dx: u16,
    pub si: u16,
    pub di: u16,
    pub bp: u16,
    pub sp: u16,
    pub ds: u16,
    pub es: u16,
    pub cs: u16,
    pub ip: u16,
    pub flags: u16,
}

impl EmuRegs {
    /// AH, the high byte of AX.
    pub fn ah(&self) -> (r: u8)
        ensures
            r == self.ax / 256,
    {
        let ax = self.ax;
        assert((ax >> 8) as u8 == ax / 256) by (bit_vector);
        (ax >> 8) as u8
    }

    /// AL, the low byte of AX.
    pub fn al(&self) -> (r: u8)
        ensures
            r == self.ax % 256,
    {
        let ax = self.ax;
        assert(ax as u8 == ax % 256) by (bit_vector);
        ax as u8
    }

    /// DL, the low byte of DX.
    pub fn dl(&self) -> (r: u8)
        ensures
            r == self.dx % 256,
    {
        let dx = self.dx;
        assert(dx as u8 == dx % 256) by (bit_vector);
        dx as u8
    }

    /// Sets AX, leaving every other register as it was.
    pub fn set_ax(&mut self, v: u16)
        ensures
            *final(self) == (EmuRegs { ax: v, ..*old(self) }),
    {
        self.ax = v;
    }
}

} // verus!
