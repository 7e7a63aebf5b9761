//! Numbers that the interrupt and timer hardware is programmed with.

use vstd::prelude::*;

verus! {

/// The interrupt number at which the hardware interrupts begin.
pub const PIC_1_OFFSET: u8 = 32;

/// The hardware interrupts that drive the game.
#[derive(Clone, Copy, Debug, PartialEq, Eq, Structural)]
pub enum InterruptIndex {
    /// The periodic timer.
    Timer,
    /// The keyboard.
    Keyboard,
}

impl InterruptIndex {
    /// The interrupt number: the timer comes first, the keyboard next.
    pub open spec fn number(self) -> int {
        match self {
            InterruptIndex::Timer => PIC_1_OFFSET as int,
            InterruptIndex::Keyboard => PIC_1_OFFSET + 1,
        }
    }

    /// The interrupt number as a byte.
    pub fn as_u8(self) -> (n: u8)
        ensures
            n == self.number(),
    {
        match self {
            InterruptIndex::Timer => PIC_1_OFFSET,
            InterruptIndex::Keyboard => PIC_1_OFFSET + 1,
        }
    }

    /// The interrupt number as an index into a table of handlers.
    pub fn as_usize(self) -> (n: usize)
        ensures
            n == self.number(),
    {
        match self {
            InterruptIndex::Timer => 32,
            InterruptIndex::Keyboard => 33,
        }
    }
}

/// The two bytes in which a timer divisor is sent: the low byte first.
pub fn divisor_bytes(divisor: u16) -> (bytes: (u8, u8))
    ensures
        bytes.0 == divisor % 256,
        bytes.1 == divisor / 256,
        bytes.0 + 256 * bytes.1 == divisor,
{
    ((divisor % 256) as u8, (divisor / 256) as u8)
}

} // verus!
