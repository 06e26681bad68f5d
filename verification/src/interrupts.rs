//! Interrupt vector numbering for the hardware interrupts this core is
//! driven by; the descriptor tables and controller programming live with
//! the surrounding kernel.

use vstd::prelude::*;

verus! {

/// Vector base of the primary interrupt controller.
pub const PIC_1_OFFSET: u8 = 32;

/// Vector base of the secondary interrupt controller.
pub const PIC_2_OFFSET: u8 = PIC_1_OFFSET + 8;

/// Hardware interrupts the core reacts to.
#[derive(Clone, Copy, PartialEq, Eq, Structural, Debug)]
pub enum InterruptIndex {
    Timer,
    Keyboard,
}

/// The interrupt's vector number: the timer sits at the primary
/// controller's base, the keyboard right after it.
pub open spec fn interrupt_vector(i: InterruptIndex) -> u8 {
    match i {
        InterruptIndex::Timer => PIC_1_OFFSET,
        InterruptIndex::Keyboard => (PIC_1_OFFSET + 1) as u8,
    }
}

impl InterruptIndex {
    /// The vector number as a byte.
    pub fn as_u8(self) -> (v: u8)
        ensures
            v == interrupt_vector(self),
    {
        match self {
            InterruptIndex::Timer => PIC_1_OFFSET,
            InterruptIndex::Keyboard => PIC_1_OFFSET + 1,
        }
    }

    /// The vector number as a table index.
    pub fn as_usize(self) -> (v: usize)
        ensures
            v == interrupt_vector(self) as usize,
    {
        self.as_u8() as usize
    }
}

} // verus!
