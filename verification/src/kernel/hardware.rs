//! How the hardware summary names what it found: the graphics backend and the primary
//! display's PCI identity.
use vstd::prelude::*;
use crate::kernel::pci::{PciAddress, PciDevice};

verus! {

#[derive(Debug, Clone, Copy, PartialEq, Eq, Structural)]
pub enum GraphicsBackend {
    Absent,
    FirmwareFramebuffer,
    VirtioGpu,
}

impl GraphicsBackend {
    pub fn name(self) -> (r: &'static str)
        ensures
            r@ == (match self {
                GraphicsBackend::Absent => "none"@,
                GraphicsBackend::FirmwareFramebuffer => "firmware-framebuffer"@,
                GraphicsBackend::VirtioGpu => "virtio-gpu"@,
            }),
    {
        match self {
            GraphicsBackend::Absent => "none",
            GraphicsBackend::FirmwareFramebuffer => "firmware-framebuffer",
            GraphicsBackend::VirtioGpu => "virtio-gpu",
        }
    }

    /// Both real backends compose on the CPU.
    pub fn compositor(self) -> (r: &'static str)
        ensures
            r@ == (match self {
                GraphicsBackend::Absent => "none"@,
                _ => "rust-cpu-raster"@,
            }),
    {
        match self {
            GraphicsBackend::Absent => "none",
            GraphicsBackend::FirmwareFramebuffer | GraphicsBackend::VirtioGpu => "rust-cpu-raster",
        }
    }

    /// Only virtio-gpu offers a transport for scanout.
    pub fn acceleration(self) -> (r: &'static str)
        ensures
            r@ == (match self {
                GraphicsBackend::VirtioGpu => "scanout-transport"@,
                _ => "unavailable"@,
            }),
    {
        match self {
            GraphicsBackend::Absent => "unavailable",
            GraphicsBackend::FirmwareFramebuffer => "unavailable",
            GraphicsBackend::VirtioGpu => "scanout-transport",
        }
    }

    pub fn status(self) -> (r: &'static str)
        ensures
            r@ == (match self {
                GraphicsBackend::Absent => "degraded"@,
                _ => "ready"@,
            }),
    {
        match self {
            GraphicsBackend::Absent => "degraded",
            GraphicsBackend::FirmwareFramebuffer | GraphicsBackend::VirtioGpu => "ready",
        }
    }
}

/// The PCI identity of the primary display controller.
#[derive(Debug, Clone, Copy, PartialEq, Eq, Structural)]
pub struct PciDisplaySnapshot {
    pub address: PciAddress,
    pub vendor_id: u16,
    pub device_id: u16,
    pub class_code: u8,
    pub subclass: u8,
}

impl PciDisplaySnapshot {
    pub fn from_device(device: PciDevice) -> (r: Self)
        ensures
            r == (PciDisplaySnapshot {
                address: device.address,
                vendor_id: device.vendor_id,
                device_id: device.device_id,
                class_code: device.class_code,
                subclass: device.subclass,
            }),
    {
        PciDisplaySnapshot {
            address: device.address,
            vendor_id: device.vendor_id,
            device_id: device.device_id,
            class_code: device.class_code,
            subclass: device.subclass,
        }
    }

    /// The vendor's name for the vendors whose display controllers the kernel meets.
    pub fn vendor_name(self) -> (r: &'static str)
        ensures
            r@ == (if self.vendor_id == 0x1002 {
                "amd"@
            } else if self.vendor_id == 0x10de {
                "nvidia"@
            } else if self.vendor_id == 0x8086 {
                "intel"@
            } else if self.vendor_id == 0x1af4 {
                "virtio"@
            } else if self.vendor_id == 0x1234 {
                "qemu"@
            } else {
                "unknown"@
            }),
    {
        match self.vendor_id {
            0x1002 => "amd",
            0x10de => "nvidia",
            0x8086 => "intel",
            0x1af4 => "virtio",
            0x1234 => "qemu",
            _ => "unknown",
        }
    }
}

/// The backend the summary reports before any GPU driver runs: the firmware framebuffer when
/// there is one.
pub fn initial_graphics_backend(has_framebuffer: bool) -> (r: GraphicsBackend)
    ensures
        r == (if has_framebuffer {
            GraphicsBackend::FirmwareFramebuffer
        } else {
            GraphicsBackend::Absent
        }),
{
    if has_framebuffer {
        GraphicsBackend::FirmwareFramebuffer
    } else {
        GraphicsBackend::Absent
    }
}

} // verus!
