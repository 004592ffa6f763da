//! I/O APIC redirection entries: which register a global system interrupt is routed through and
//! what is written there.
use vstd::prelude::*;
use crate::kernel::acpi::{AcpiInfo, IoApicInfo, PhysicalMemory};

verus! {

pub const IOAPIC_WINDOW: u64 = 0x010;
pub const IOAPIC_REDIRECTION_BASE: u32 = 0x10;
pub const REDIRECTION_MASKED: u32 = 0x10000;
pub const REDIRECTION_ACTIVE_LOW: u32 = 0x2000;
pub const REDIRECTION_LEVEL_TRIGGERED: u32 = 0x8000;

#[derive(Debug, Clone, Copy, PartialEq, Eq, Structural)]
pub enum IoApicError {
    MissingController,
    InvalidAddress,
    GsiOutOfRange,
    InvalidVersion,
    MissingLocalApicId,
    InvalidVector,
}

#[derive(Debug, Clone, Copy, PartialEq, Eq, Structural)]
pub struct IoApicStats {
    pub physical_base: u64,
    pub virtual_base: u64,
    pub id: u8,
    pub version: u32,
    pub redirection_entries: u32,
    pub timer_gsi: u32,
    pub timer_vector: u8,
    pub destination_apic_id: u8,
}

/// A programmed (and still masked) redirection entry.
#[derive(Debug, Clone, Copy, PartialEq, Eq, Structural)]
pub struct IoApicRoute {
    pub physical_base: u64,
    pub virtual_base: u64,
    pub gsi: u32,
    pub vector: u8,
    pub destination_apic_id: u8,
    pub version: u32,
    pub redirection_entries: u32,
    pub redirection_low_register: u32,
    pub low_value: u32,
}

impl IoApicRoute {
    /// The controller's version register.
    pub fn version(self) -> (r: u32)
        ensures
            r == self.version,
    {
        self.version
    }

    /// How many redirection entries the controller has.
    pub fn redirection_entries(self) -> (r: u32)
        ensures
            r == self.redirection_entries,
    {
        self.redirection_entries
    }

    /// The register that holds the low half of this route's entry.
    pub fn redirection_low_register(self) -> (r: u32)
        ensures
            r == self.redirection_low_register,
    {
        self.redirection_low_register
    }

    /// The low half of the entry as written: vector, polarity, trigger mode and the mask bit.
    pub fn low_value(self) -> (r: u32)
        ensures
            r == self.low_value,
    {
        self.low_value
    }

    /// The low half of the entry with the mask bit cleared.
    pub fn unmasked_low_value(self) -> (r: u32)
        ensures
            r == self.low_value & !0x10000u32,
    {
        self.low_value & !REDIRECTION_MASKED
    }
}

/// The controller to route through and the virtual address of its registers: the vector must
/// be past the exceptions, an I/O APIC must be known, and its register window must be
/// addressable.
pub open spec fn route_target_spec(base: u64, io_apic: Option<IoApicInfo>, vector: u8) -> Result<
    (IoApicInfo, u64),
    IoApicError,
> {
    if vector < 32 {
        Err(IoApicError::InvalidVector)
    } else {
        match io_apic {
            None => Err(IoApicError::MissingController),
            Some(controller) => if base + controller.address > u64::MAX || base
                + controller.address + 0x10 > u64::MAX {
                Err(IoApicError::InvalidAddress)
            } else {
                Ok((controller, (base + controller.address) as u64))
            },
        }
    }
}

pub fn route_target(memory: PhysicalMemory, info: &AcpiInfo, vector: u8) -> (r: Result<
    (IoApicInfo, u64),
    IoApicError,
>)
    ensures
        r == route_target_spec(memory.base(), info.io_apic, vector),
{
    if vector < 32 {
        return Err(IoApicError::InvalidVector);
    }
    let controller = match info.io_apic {
        None => return Err(IoApicError::MissingController),
        Some(c) => c,
    };
    let virtual_base = match memory.virtual_address(controller.address) {
        None => return Err(IoApicError::InvalidAddress),
        Some(v) => v,
    };
    if virtual_base.checked_add(IOAPIC_WINDOW).is_none() {
        return Err(IoApicError::InvalidAddress);
    }
    Ok((controller, virtual_base))
}

/// The low half of a masked entry for `vector`: active-low where the MPS polarity bits of
/// `flags` are both set, level-triggered where both trigger bits are.
pub open spec fn low_value_for(vector: u8, flags: u16) -> u32 {
    let base = (vector as u32) | 0x10000u32;
    let polarity = if flags & 3u16 == 3u16 {
        base | 0x2000u32
    } else {
        base
    };
    if flags & 12u16 == 12u16 {
        polarity | 0x8000u32
    } else {
        polarity
    }
}

/// What routing `gsi` through `controller` gives, once its version register reads `version`
/// and the local APIC's id is `destination`.
pub open spec fn route_spec(
    controller: IoApicInfo,
    virtual_base: u64,
    version: u32,
    gsi: u32,
    vector: u8,
    flags: u16,
    destination: Option<u8>,
) -> Result<(u32, u32, u32, u32, u8), IoApicError> {
    let entries = ((version >> 16u32) & 0xffu32) + 1;
    if gsi < controller.gsi_base || gsi - controller.gsi_base >= entries {
        Err(IoApicError::GsiOutOfRange)
    } else {
        match destination {
            None => Err(IoApicError::MissingLocalApicId),
            Some(d) => Ok(
                (
                    entries as u32,
                    (0x10 + (gsi - controller.gsi_base) * 2) as u32,
                    low_value_for(vector, flags),
                    (d as u32) << 24u32,
                    d,
                ),
            ),
        }
    }
}

/// Plans the redirection entry for `gsi`: the route (masked), from which the caller writes the
/// high register (`redirection_low_register() + 1`, the destination in bits 24..32) and then the
/// low register.
pub fn plan_route(
    controller: IoApicInfo,
    virtual_base: u64,
    version: u32,
    gsi: u32,
    vector: u8,
    flags: u16,
    destination: Option<u8>,
) -> (r: Result<IoApicRoute, IoApicError>)
    ensures
        match route_spec(controller, virtual_base, version, gsi, vector, flags, destination) {
            Err(e) => r == Err::<IoApicRoute, IoApicError>(e),
            Ok((entries, low_register, low, _high, d)) => r matches Ok(route) && route.physical_base
                == controller.address && route.virtual_base == virtual_base && route.gsi == gsi
                && route.vector == vector && route.destination_apic_id == d
                && route.version == version && route.redirection_entries == entries
                && route.redirection_low_register == low_register && route.low_value == low,
        },
{
    assert(((version >> 16u32) & 0xffu32) <= 0xff) by (bit_vector);
    let redirection_entries = ((version >> 16) & 0xff) + 1;
    if redirection_entries == 0 {
        return Err(IoApicError::InvalidVersion);
    }
    if gsi < controller.gsi_base {
        return Err(IoApicError::GsiOutOfRange);
    }
    let gsi_index = gsi - controller.gsi_base;
    if gsi_index >= redirection_entries {
        return Err(IoApicError::GsiOutOfRange);
    }
    let destination_apic_id = match destination {
        None => return Err(IoApicError::MissingLocalApicId),
        Some(d) => d,
    };
    let redirection_low_register = IOAPIC_REDIRECTION_BASE + gsi_index * 2;
    let mut low = (vector as u32) | REDIRECTION_MASKED;
    if flags & 0b11 == 0b11 {
        low = low | REDIRECTION_ACTIVE_LOW;
    }
    if flags & 0b1100 == 0b1100 {
        low = low | REDIRECTION_LEVEL_TRIGGERED;
    }
    Ok(
        IoApicRoute {
            physical_base: controller.address,
            virtual_base,
            gsi,
            vector,
            destination_apic_id,
            version,
            redirection_entries,
            redirection_low_register,
            low_value: low,
        },
    )
}

/// What the high register of a route's entry holds: the destination APIC id in bits 24..32.
pub fn destination_field(destination_apic_id: u8) -> (r: u32)
    ensures
        r == (destination_apic_id as u32) << 24u32,
{
    (destination_apic_id as u32) << 24
}

} // verus!
