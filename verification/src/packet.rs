//! The four-byte packet sent to the board driver.

use vstd::prelude::*;

verus! {

/// One packet to the board driver: a type byte, a register address, a data
/// byte and a fixed end symbol.
#[derive(Clone, Copy, PartialEq, Eq, Structural, Debug)]
pub struct PacketSend {
    pub ty: u8,
    pub reg_address: u8,
    pub data: u8,
    pub end_sym: u8,
}

impl PacketSend {
    /// Frame-synchronisation byte that ends every packet.
    pub const END_SYM: u8 = 0xAA;
    /// End of a batch for the buffer selected by `INT_SELECT_A`.
    pub const INT_END: u8 = 0x80;
    /// 1 = Timer A buffer, 0 = Timer B buffer.
    pub const INT_SELECT_A: u8 = 0x40;
    /// Apply the buffered writes at once.
    pub const FORCE_TIMEOUT: u8 = 0x20;
    /// Discard the driver queue and the board buffers.
    pub const FLUSH: u8 = 0x10;
    /// Ask for the driver's queue length.
    pub const SIZE_REQUEST: u8 = 0x08;
    /// 1 = back bank (18Ch/18Eh), 0 = front bank (188h/18Ah).
    pub const BANK_SELECT: u8 = 0x01;

    /// The packet with the given type, register and data, ended by `END_SYM`.
    pub open spec fn make(ty: u8, reg_address: u8, data: u8) -> Self {
        PacketSend { ty, reg_address, data, end_sym: Self::END_SYM }
    }

    /// A packet with the given type, register and data, ended by `END_SYM`.
    pub fn new(ty: u8, reg_address: u8, data: u8) -> (p: Self)
        ensures
            p == Self::make(ty, reg_address, data),
    {
        Self { ty, reg_address, data, end_sym: Self::END_SYM }
    }

    /// The packet's wire form: type, register, data, end symbol.
    pub fn as_bytes(&self) -> (b: [u8; 4])
        ensures
            b@ == seq![self.ty, self.reg_address, self.data, self.end_sym],
    {
        [self.ty, self.reg_address, self.data, self.end_sym]
    }
}

} // verus!
