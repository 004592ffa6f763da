//! Interrupt vector assignments and the table of device interrupt handlers.
//!
//! Installing the descriptor table and taking interrupts is the kernel binary's; which vector
//! a device handler gets, and which handler a vector runs, is decided here.
use vstd::prelude::*;

verus! {

pub const PIC_1_OFFSET: u8 = 32;
pub const PIC_2_OFFSET: u8 = 40;
pub const LOCAL_APIC_TIMER_VECTOR: u8 = 48;
pub const IO_APIC_TIMER_VECTOR: u8 = 49;
pub const DEVICE_IRQ_VECTOR_BASE: u8 = 50;
pub const USER_SYSCALL_VECTOR: u8 = 0x80;
pub const DEVICE_IRQ_SLOT_COUNT: usize = 8;

#[derive(Debug, Clone, Copy, PartialEq, Eq, Structural)]
pub enum DeviceInterruptError {
    NoVectorAvailable,
}

/// The interrupts with a fixed vector.
#[derive(Debug, Clone, Copy, PartialEq, Eq, Structural)]
pub enum InterruptIndex {
    Timer,
    LocalApicTimer,
    IoApicTimer,
}

impl InterruptIndex {
    pub open spec fn vector(self) -> u8 {
        match self {
            InterruptIndex::Timer => 32,
            InterruptIndex::LocalApicTimer => 48,
            InterruptIndex::IoApicTimer => 49,
        }
    }

    /// The interrupt's vector: the PIC timer at the first PIC's offset, the APIC timers at
    /// their own vectors.
    pub fn as_u8(self) -> (r: u8)
        ensures
            r == self.vector(),
    {
        match self {
            InterruptIndex::Timer => PIC_1_OFFSET,
            InterruptIndex::LocalApicTimer => LOCAL_APIC_TIMER_VECTOR,
            InterruptIndex::IoApicTimer => IO_APIC_TIMER_VECTOR,
        }
    }
}

/// The slot of `slots` that the next registration takes: the first free one, if any.
pub open spec fn first_free_slot<H>(slots: Seq<Option<H>>) -> Option<int> {
    if exists|i: int| 0 <= i < slots.len() && slots[i] is None {
        Some(
            choose|i: int|
                0 <= i < slots.len() && slots[i] is None && forall|j: int|
                    0 <= j < i ==> slots[j] is Some,
        )
    } else {
        None
    }
}

/// The handlers of the device interrupt vectors, one slot per vector from
/// `DEVICE_IRQ_VECTOR_BASE` on.
pub struct DeviceHandlers<H> {
    slots: [Option<H>; 8],
}

impl<H> DeviceHandlers<H> {
    /// The handler in each slot.
    pub closed spec fn view(self) -> Seq<Option<H>> {
        self.slots@
    }
}

impl<H: Copy> DeviceHandlers<H> {
    /// A table with every slot free.
    pub fn new() -> (r: Self)
        ensures
            r.view() == Seq::new(8, |i: int| None::<H>),
    {
        let r = Self { slots: [None; 8] };
        assert(r.view() =~= Seq::new(8, |i: int| None::<H>));
        r
    }

    /// Installs `handler` in the first free slot and returns that slot's vector; with every
    /// slot taken the table is left as it was.
    pub fn register(&mut self, handler: H) -> (r: Result<u8, DeviceInterruptError>)
        ensures
            final(self).view().len() == 8,
            match first_free_slot(old(self).view()) {
                None => r == Err::<u8, DeviceInterruptError>(
                    DeviceInterruptError::NoVectorAvailable,
                ) && final(self).view() == old(self).view(),
                Some(slot) => r == Ok::<u8, DeviceInterruptError>((50 + slot) as u8)
                    && final(self).view() == old(self).view().update(slot, Some(handler)),
            },
    {
        let mut i: usize = 0;
        while i < DEVICE_IRQ_SLOT_COUNT
            invariant
                i <= 8,
                *self == *old(self),
                self.slots@.len() == 8,
                forall|j: int| 0 <= j < i ==> self.slots@[j] is Some,
            decreases 8 - i,
        {
            if self.slots[i].is_none() {
                proof {
                    let s = self.slots@;
                    assert(0 <= i < s.len() && s[i as int] is None && forall|j: int|
                        0 <= j < i ==> s[j] is Some);
                    let c = first_free_slot(s)->0;
                    if c > i {
                        assert(s[i as int] is Some);
                    }
                }
                self.slots[i] = Some(handler);
                return Ok(DEVICE_IRQ_VECTOR_BASE + i as u8);
            }
            i = i + 1;
        }
        Err(DeviceInterruptError::NoVectorAvailable)
    }

    /// The handler installed for `slot`.
    pub fn handler(&self, slot: usize) -> (r: Option<H>)
        requires
            slot < 8,
        ensures
            r == self.view()[slot as int],
    {
        self.slots[slot]
    }
}

/// The device slot that `vector` dispatches to, if it is a device vector.
pub fn device_slot(vector: u8) -> (r: Option<usize>)
    ensures
        r == (if 50 <= vector < 58 {
            Some((vector - 50) as usize)
        } else {
            None::<usize>
        }),
{
    if vector >= DEVICE_IRQ_VECTOR_BASE && vector < DEVICE_IRQ_VECTOR_BASE + 8 {
        Some((vector - DEVICE_IRQ_VECTOR_BASE) as usize)
    } else {
        None
    }
}

} // verus!
