//! Recognising the RTX 5070 (Blackwell) display controller and the snapshot its probe records.
use vstd::prelude::*;
use crate::kernel::pci::{PciAddress, PciBar, PciDevice};

verus! {

pub const NVIDIA_VENDOR_ID: u16 = 0x10de;
pub const RTX_5070_DEVICE_ID: u16 = 0x2f04;
pub const NVIDIA_PROBE_MMIO_LENGTH: u64 = 0x1000;

#[derive(Debug, Clone, Copy, PartialEq, Eq, Structural)]
pub enum NvidiaArchitecture {
    Blackwell,
    Unknown,
}

impl NvidiaArchitecture {
    pub fn name(self) -> (r: &'static str)
        ensures
            r@ == (match self {
                NvidiaArchitecture::Blackwell => "blackwell"@,
                NvidiaArchitecture::Unknown => "unknown"@,
            }),
    {
        match self {
            NvidiaArchitecture::Blackwell => "blackwell",
            NvidiaArchitecture::Unknown => "unknown",
        }
    }
}

#[derive(Debug, Clone, Copy, PartialEq, Eq, Structural)]
pub enum NvidiaError {
    MemorySpaceDisabled,
    MissingBar0,
}

/// What probing the display controller found.
#[derive(Debug, Clone, Copy, PartialEq, Eq)]
pub struct NvidiaProbe {
    pub address: PciAddress,
    pub vendor_id: u16,
    pub device_id: u16,
    pub revision_id: u8,
    pub architecture: NvidiaArchitecture,
    pub bar0_base: u64,
    pub bar1_base: Option<u64>,
    pub bar3_base: Option<u64>,
    pub bar5_io_base: Option<u64>,
    pub mmio_base: u64,
    pub mmio_length: u64,
    pub memory_space_enabled: bool,
    pub bus_master_enabled: bool,
    pub msi: bool,
    pub msix: bool,
    pub bar0_mapped: bool,
}

/// The base of a memory BAR.
pub open spec fn memory_base(bar: PciBar) -> Option<u64> {
    match bar {
        PciBar::Memory32 { base, .. } => Some(base as u64),
        PciBar::Memory64 { base, .. } => Some(base),
        _ => None,
    }
}

/// The base of an I/O BAR.
pub open spec fn io_base(bar: PciBar) -> Option<u64> {
    match bar {
        PciBar::Io { base } => Some(base as u64),
        _ => None,
    }
}

pub fn memory_bar_base(bar: PciBar) -> (r: Option<u64>)
    ensures
        r == memory_base(bar),
{
    match bar {
        PciBar::Memory32 { base, .. } => Some(base as u64),
        PciBar::Memory64 { base, .. } => Some(base),
        _ => None,
    }
}

pub fn io_bar_base(bar: PciBar) -> (r: Option<u64>)
    ensures
        r == io_base(bar),
{
    match bar {
        PciBar::Io { base } => Some(base as u64),
        _ => None,
    }
}

/// The architecture of an NVIDIA device id.
pub fn architecture_for(device_id: u16) -> (r: NvidiaArchitecture)
    ensures
        r == (if device_id == 0x2f04 {
            NvidiaArchitecture::Blackwell
        } else {
            NvidiaArchitecture::Unknown
        }),
{
    if device_id == RTX_5070_DEVICE_ID {
        NvidiaArchitecture::Blackwell
    } else {
        NvidiaArchitecture::Unknown
    }
}

/// The supported device: NVIDIA's RTX 5070, a display controller.
pub open spec fn supported(device: PciDevice) -> bool {
    device.vendor_id == 0x10de && device.device_id == 0x2f04 && device.class_code == 0x03
}

pub fn is_supported_device(device: PciDevice) -> (r: bool)
    ensures
        r == supported(device),
{
    device.vendor_id == NVIDIA_VENDOR_ID && device.device_id == RTX_5070_DEVICE_ID
        && device.class_code == 0x03
}

/// The first supported device of an inventory.
pub fn find_device(devices: &[PciDevice]) -> (r: Option<PciDevice>)
    ensures
        match r {
            Some(d) => exists|i: int|
                0 <= i < devices.len() && devices@[i] == d && supported(d) && forall|j: int|
                    0 <= j < i ==> !supported(#[trigger] devices@[j]),
            None => forall|j: int| 0 <= j < devices.len() ==> !supported(#[trigger] devices@[j]),
        },
{
    let mut i: usize = 0;
    while i < devices.len()
        invariant
            i <= devices.len(),
            forall|j: int| 0 <= j < i ==> !supported(#[trigger] devices@[j]),
        decreases devices.len() - i,
    {
        if is_supported_device(devices[i]) {
            return Some(devices[i]);
        }
        i = i + 1;
    }
    None
}

/// The device may be probed: its memory space is enabled and BAR 0 is a memory BAR.
pub fn check_device(device: PciDevice) -> (r: Result<u64, NvidiaError>)
    ensures
        r == (if device.command & 0x2 == 0 {
            Err(NvidiaError::MemorySpaceDisabled)
        } else {
            match memory_base(device.bars[0]) {
                None => Err(NvidiaError::MissingBar0),
                Some(base) => Ok(base),
            }
        }),
{
    if !device.memory_space_enabled() {
        return Err(NvidiaError::MemorySpaceDisabled);
    }
    match memory_bar_base(device.bars[0]) {
        None => Err(NvidiaError::MissingBar0),
        Some(base) => Ok(base),
    }
}

impl NvidiaProbe {
    /// The snapshot of `device` with BAR 0 mapped at `mmio_base` for `mmio_length` bytes.
    pub fn from_device_mapping(
        device: PciDevice,
        mmio_base: u64,
        mmio_length: u64,
        bar0_mapped: bool,
    ) -> (r: Result<Self, NvidiaError>)
        ensures
            match memory_base(device.bars[0]) {
                None => r == Err::<Self, NvidiaError>(NvidiaError::MissingBar0),
                Some(bar0_base) => r == Ok::<Self, NvidiaError>(
                    NvidiaProbe {
                        address: device.address,
                        vendor_id: device.vendor_id,
                        device_id: device.device_id,
                        revision_id: device.revision_id,
                        architecture: if device.device_id == 0x2f04 {
                            NvidiaArchitecture::Blackwell
                        } else {
                            NvidiaArchitecture::Unknown
                        },
                        bar0_base,
                        bar1_base: memory_base(device.bars[1]),
                        bar3_base: memory_base(device.bars[3]),
                        bar5_io_base: io_base(device.bars[5]),
                        mmio_base,
                        mmio_length,
                        memory_space_enabled: device.command & 0x2 != 0,
                        bus_master_enabled: device.command & 0x4 != 0,
                        msi: device.capabilities.msi is Some,
                        msix: device.capabilities.msix is Some,
                        bar0_mapped,
                    },
                ),
            },
    {
        let bar0_base = match memory_bar_base(device.bars[0]) {
            None => return Err(NvidiaError::MissingBar0),
            Some(base) => base,
        };
        Ok(
            NvidiaProbe {
                address: device.address,
                vendor_id: device.vendor_id,
                device_id: device.device_id,
                revision_id: device.revision_id,
                architecture: architecture_for(device.device_id),
                bar0_base,
                bar1_base: memory_bar_base(device.bars[1]),
                bar3_base: memory_bar_base(device.bars[3]),
                bar5_io_base: io_bar_base(device.bars[5]),
                mmio_base,
                mmio_length,
                memory_space_enabled: device.memory_space_enabled(),
                bus_master_enabled: device.bus_master_enabled(),
                msi: device.capabilities.msi.is_some(),
                msix: device.capabilities.msix.is_some(),
                bar0_mapped,
            },
        )
    }
}

} // verus!
