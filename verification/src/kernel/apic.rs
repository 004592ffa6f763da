//! The local APIC: where its registers are mapped, the values that enable it and its timer,
//! and the interprocessor commands that start an application processor.
//!
//! The register reads and writes are the kernel binary's; each value it writes comes from here.
use vstd::prelude::*;
use crate::kernel::acpi::{AcpiInfo, PhysicalMemory};

verus! {

pub const APIC_ID: u64 = 0x020;
pub const APIC_VERSION: u64 = 0x030;
pub const APIC_EOI: u64 = 0x0b0;
pub const APIC_SPURIOUS_VECTOR: u64 = 0x0f0;
pub const APIC_ICR_LOW: u64 = 0x300;
pub const APIC_ICR_HIGH: u64 = 0x310;
pub const APIC_LVT_TIMER: u64 = 0x320;
pub const APIC_TIMER_INITIAL_COUNT: u64 = 0x380;
pub const APIC_TIMER_DIVIDE_CONFIG: u64 = 0x3e0;
pub const APIC_ENABLE_BIT: u32 = 0x100;
pub const APIC_TIMER_PERIODIC: u32 = 0x2_0000;
pub const APIC_TIMER_MASKED: u32 = 0x1_0000;
pub const APIC_ICR_DELIVERY_STATUS: u32 = 0x1000;
pub const APIC_ICR_LEVEL_ASSERT: u32 = 0x4000;
pub const APIC_ICR_TRIGGER_LEVEL: u32 = 0x8000;
pub const APIC_ICR_INIT: u32 = 0x500;
pub const APIC_ICR_STARTUP: u32 = 0x600;
pub const APIC_TIMER_DIVIDE_BY_16: u32 = 0x0b;
pub const TIMER_INITIAL_COUNT: u32 = 1_000_000;

#[derive(Debug, Clone, Copy, PartialEq, Eq, Structural)]
pub enum ApicError {
    InvalidAddress,
    UnsupportedDestination,
    IcrTimeout,
}

/// What bringing up the bootstrap processor's local APIC found and set.
#[derive(Debug, Clone, Copy, PartialEq, Eq, Structural)]
pub struct ApicStats {
    pub physical_base: u64,
    pub virtual_base: u64,
    pub version: u32,
    pub processor_count: u32,
    pub enabled_processor_count: u32,
    pub io_apic_count: u32,
    pub timer_initial_count: u32,
}

/// The virtual address of the local APIC's register page: the MADT's physical address mapped
/// through `memory`, with every register used, up to the divide configuration at `0x3e0`,
/// addressable.
pub fn register_base(memory: PhysicalMemory, local_apic_address: u64) -> (r: Result<u64, ApicError>)
    ensures
        r == (if memory.base() + local_apic_address + 0x3e0 > u64::MAX {
            Err(ApicError::InvalidAddress)
        } else {
            Ok((memory.base() + local_apic_address) as u64)
        }),
{
    let virtual_base = match memory.virtual_address(local_apic_address) {
        None => return Err(ApicError::InvalidAddress),
        Some(v) => v,
    };
    if virtual_base.checked_add(APIC_TIMER_DIVIDE_CONFIG).is_none() {
        return Err(ApicError::InvalidAddress);
    }
    Ok(virtual_base)
}

/// The summary of a local APIC brought up at `virtual_base` that reported `version`, with the
/// processor counts of the MADT.
pub fn apic_stats(info: &AcpiInfo, virtual_base: u64, version: u32) -> (r: ApicStats)
    ensures
        r == (ApicStats {
            physical_base: info.local_apic_address,
            virtual_base,
            version,
            processor_count: info.processor_count,
            enabled_processor_count: info.enabled_processor_count,
            io_apic_count: info.io_apic_count,
            timer_initial_count: 1_000_000,
        }),
{
    ApicStats {
        physical_base: info.local_apic_address,
        virtual_base,
        version,
        processor_count: info.processor_count,
        enabled_processor_count: info.enabled_processor_count,
        io_apic_count: info.io_apic_count,
        timer_initial_count: TIMER_INITIAL_COUNT,
    }
}

/// The spurious-interrupt register value that enables the APIC, with vector 255.
pub fn spurious_vector_value() -> (r: u32)
    ensures
        r == 0x1ff,
{
    assert(0x100u32 | 0xffu32 == 0x1ffu32) by (bit_vector);
    APIC_ENABLE_BIT | 0xff
}

/// The timer's local vector table entry: its vector, and either periodic or masked.
pub fn timer_entry(vector: u8, periodic: bool) -> (r: u32)
    ensures
        r == (if periodic {
            vector as u32 | 0x2_0000u32
        } else {
            vector as u32 | 0x1_0000u32
        }),
{
    if periodic {
        vector as u32 | APIC_TIMER_PERIODIC
    } else {
        vector as u32 | APIC_TIMER_MASKED
    }
}

/// The APIC id in the ID register's top byte.
pub fn apic_id_from_register(register: u32) -> (r: u32)
    ensures
        r == register / 0x100_0000,
        r <= 0xff,
{
    let r = register >> 24u32;
    assert(register >> 24u32 == register / 0x100_0000 && register >> 24u32 <= 0xff)
        by (bit_vector);
    r
}

/// The interrupt command register's high half addressing `destination`; an id above 255
/// cannot be addressed in xAPIC mode.
pub fn icr_destination(destination: u32) -> (r: Result<u32, ApicError>)
    ensures
        r == (if destination > 255 {
            Err(ApicError::UnsupportedDestination)
        } else {
            Ok((destination * 0x100_0000) as u32)
        }),
{
    if destination > u8::MAX as u32 {
        return Err(ApicError::UnsupportedDestination);
    }
    let r = destination << 24u32;
    assert(destination << 24u32 == destination * 0x100_0000) by (bit_vector)
        requires
            destination <= 255,
    ;
    Ok(r)
}

/// The INIT command, level asserted or deasserted.
pub fn init_command(assert_level: bool) -> (r: u32)
    ensures
        r == (if assert_level {
            0xc500u32
        } else {
            0x8500u32
        }),
{
    assert((0x500u32 | 0x4000u32 | 0x8000u32) == 0xc500u32 && (0x500u32 | 0x8000u32) == 0x8500u32)
        by (bit_vector);
    if assert_level {
        APIC_ICR_INIT | APIC_ICR_LEVEL_ASSERT | APIC_ICR_TRIGGER_LEVEL
    } else {
        APIC_ICR_INIT | APIC_ICR_TRIGGER_LEVEL
    }
}

/// The startup command that starts a processor at the real-mode page `startup_vector`.
pub fn startup_command(startup_vector: u8) -> (r: u32)
    ensures
        r == 0x600u32 | startup_vector as u32,
{
    APIC_ICR_STARTUP | startup_vector as u32
}

/// Whether the last command has been delivered: the delivery-status bit is clear.
pub fn icr_idle(icr_low: u32) -> (r: bool)
    ensures
        r == (icr_low & 0x1000 == 0),
{
    icr_low & APIC_ICR_DELIVERY_STATUS == 0
}

} // verus!
