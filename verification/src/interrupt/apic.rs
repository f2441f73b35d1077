//! The interrupt vectors used by the two chained 8259 interrupt controllers.
use vstd::prelude::*;

verus! {

/// The vector of the first controller's first line.
pub const PIC_1_OFFSET: u8 = 32;

/// The vector of the second controller's first line.
pub const PIC_2_OFFSET: u8 = PIC_1_OFFSET + 8;

/// The hardware interrupts the kernel handles.
#[derive(Debug, Clone, Copy, PartialEq, Eq, Structural)]
pub enum InterruptIndex {
    Timer,
    Keyboard,
    Error,
    Spurious,
}

/// The vector of each interrupt: the timer at the first controller's offset,
/// the keyboard and error lines after it, the spurious line seven past it.
pub open spec fn interrupt_vector(i: InterruptIndex) -> u8 {
    match i {
        InterruptIndex::Timer => PIC_1_OFFSET,
        InterruptIndex::Keyboard => (PIC_1_OFFSET + 1) as u8,
        InterruptIndex::Error => (PIC_1_OFFSET + 2) as u8,
        InterruptIndex::Spurious => (PIC_1_OFFSET + 7) as u8,
    }
}

impl InterruptIndex {
    /// The interrupt vector number.
    pub fn as_u8(self) -> (r: u8)
        ensures
            r == interrupt_vector(self),
    {
        match self {
            InterruptIndex::Timer => PIC_1_OFFSET,
            InterruptIndex::Keyboard => PIC_1_OFFSET + 1,
            InterruptIndex::Error => PIC_1_OFFSET + 2,
            InterruptIndex::Spurious => PIC_1_OFFSET + 7,
        }
    }

    /// The interrupt vector number, as an index into the descriptor table.
    pub fn as_usize(self) -> (r: usize)
        ensures
            r == interrupt_vector(self),
    {
        self.as_u8() as usize
    }
}

/// Distinct interrupts have distinct vectors, all handled by the first
/// controller.
pub proof fn lemma_vectors_distinct(a: InterruptIndex, b: InterruptIndex)
    ensures
        a != b ==> interrupt_vector(a) != interrupt_vector(b),
        PIC_1_OFFSET <= interrupt_vector(a) < PIC_2_OFFSET,
{
}

} // verus!
