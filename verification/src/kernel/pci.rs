//! A PCI function as the drivers see it: its address, identity, command bits, base address
//! registers and interrupt capabilities, read once from configuration space.
use vstd::prelude::*;

verus! {

pub const PCI_COMMAND_MEMORY_SPACE: u16 = 0x2;
pub const PCI_COMMAND_BUS_MASTER: u16 = 0x4;

/// Bus, device and function number.
#[derive(Debug, Clone, Copy, PartialEq, Eq, Structural)]
pub struct PciAddress {
    pub bus: u8,
    pub device: u8,
    pub function: u8,
}

impl PciAddress {
    pub fn new(bus: u8, device: u8, function: u8) -> (r: Self)
        ensures
            r == (PciAddress { bus, device, function }),
    {
        PciAddress { bus, device, function }
    }
}

/// What a base address register decodes to.
#[derive(Debug, Clone, Copy, PartialEq, Eq, Structural)]
pub enum PciBar {
    Unassigned,
    Memory32 { base: u32, prefetchable: bool },
    Memory64 { base: u64, prefetchable: bool },
    /// The upper half of the 64-bit memory BAR before it.
    UpperHalf,
    Io { base: u32 },
}

#[derive(Debug, Clone, Copy, PartialEq, Eq, Structural)]
pub struct PciMsiCapability {
    pub offset: u8,
    pub is_64_bit: bool,
    pub multiple_message_capable: u8,
    pub per_vector_masking: bool,
}

#[derive(Debug, Clone, Copy, PartialEq, Eq, Structural)]
pub struct PciMsixCapability {
    pub offset: u8,
    pub table_size: u16,
    pub function_masked: bool,
    pub table_bar: u8,
    pub table_offset: u32,
    pub pba_bar: u8,
    pub pba_offset: u32,
}

/// The interrupt capabilities found in the capability list.
#[derive(Debug, Clone, Copy, PartialEq, Eq, Structural)]
pub struct PciCapabilities {
    pub msi: Option<PciMsiCapability>,
    pub msix: Option<PciMsixCapability>,
}

/// A function's configuration header.
#[derive(Debug, Clone, Copy, PartialEq, Eq)]
pub struct PciDevice {
    pub address: PciAddress,
    pub vendor_id: u16,
    pub device_id: u16,
    pub revision_id: u8,
    pub prog_if: u8,
    pub command: u16,
    pub status: u16,
    pub subclass: u8,
    pub class_code: u8,
    pub header_type: u8,
    pub interrupt_line: u8,
    pub interrupt_pin: u8,
    pub bars: [PciBar; 6],
    pub capabilities: PciCapabilities,
}

impl PciDevice {
    /// The function answers memory accesses.
    pub fn memory_space_enabled(&self) -> (r: bool)
        ensures
            r == (self.command & 0x2 != 0),
    {
        self.command & PCI_COMMAND_MEMORY_SPACE != 0
    }

    /// The function may master the bus, as DMA needs.
    pub fn bus_master_enabled(&self) -> (r: bool)
        ensures
            r == (self.command & 0x4 != 0),
    {
        self.command & PCI_COMMAND_BUS_MASTER != 0
    }
}

} // verus!
