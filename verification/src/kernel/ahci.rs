//! The decisions of the AHCI SATA disk driver: which controller and port it takes, where its
//! DMA pages go and how fields inside them are addressed, what a command says, and how its
//! errors are numbered for the block layer.
//!
//! Register and memory accesses are the driver's; every value it writes or checks comes from
//! here.
use vstd::prelude::*;
use crate::kernel::interrupts::DeviceInterruptError;
use crate::kernel::memory::{next_frame, FrameAllocator, PAGE_SIZE};
use crate::kernel::pci::PciDevice;

verus! {

pub const AHCI_MMIO_LENGTH: u64 = 0x1100;
pub const AHCI_MAX_PORTS: u8 = 32;
pub const AHCI_COMMAND_LIST_ENTRY_SIZE: u64 = 32;
pub const AHCI_COMMAND_TABLE_OFFSET: u64 = 0x80;
pub const AHCI_COMMAND_TABLE_ALIGNMENT: u64 = 128;
pub const AHCI_FIS_ALIGNMENT: u64 = 256;
pub const SECTOR_SIZE: usize = 512;

pub const HBA_CAP: u64 = 0x00;
pub const HBA_GHC: u64 = 0x04;
pub const HBA_IS: u64 = 0x08;
pub const HBA_PI: u64 = 0x0c;
pub const HBA_CAP_S64A: u32 = 0x8000_0000;
pub const HBA_GHC_AE: u32 = 0x8000_0000;
pub const HBA_GHC_IE: u32 = 0x2;

pub const PORT_CLB: u64 = 0x00;
pub const PORT_FB: u64 = 0x08;
pub const PORT_IS: u64 = 0x10;
pub const PORT_IE: u64 = 0x14;
pub const PORT_CMD: u64 = 0x18;
pub const PORT_TFD: u64 = 0x20;
pub const PORT_SIG: u64 = 0x24;
pub const PORT_SSTS: u64 = 0x28;
pub const PORT_SERR: u64 = 0x30;
pub const PORT_CI: u64 = 0x38;

pub const PORT_CMD_ST: u32 = 0x1;
pub const PORT_CMD_FRE: u32 = 0x10;
pub const PORT_CMD_FR: u32 = 0x4000;
pub const PORT_CMD_CR: u32 = 0x8000;
pub const PORT_IS_TFES: u32 = 0x4000_0000;

pub const SATA_SIGNATURE: u32 = 0x0000_0101;
pub const ATAPI_SIGNATURE: u32 = 0xeb14_0101;
pub const ATA_IDENTIFY: u8 = 0xec;
pub const ATA_READ_DMA_EXT: u8 = 0x25;
pub const ATA_WRITE_DMA_EXT: u8 = 0x35;
pub const ATA_FLUSH_CACHE_EXT: u8 = 0xea;
pub const FIS_TYPE_REG_H2D: u8 = 0x27;
pub const FIS_COMMAND: u8 = 0x80;
pub const FIS_DEVICE_LBA: u8 = 0x40;
pub const COMMAND_WRITE: u32 = 0x40;
pub const COMMAND_PRDT_LENGTH_ONE: u32 = 0x1_0000;
pub const PRDT_INTERRUPT: u32 = 0x8000_0000;
pub const PRDT_BYTE_COUNT_MASK: u32 = 0x003f_ffff;

/// Why the disk could not be brought up or a transfer failed.
#[derive(Debug, Clone, Copy, PartialEq, Eq, Structural)]
pub enum AhciError {
    MemorySpaceDisabled,
    UnsupportedController { class: u8, subclass: u8, prog_if: u8 },
    NoPort,
    UnsupportedPort { port: u8, signature: u32, status: u32 },
    NoDmaFrame,
    DmaAddressTooLarge { address: u64 },
    DmaAddressOverflow,
    DmaUnaligned { address: u64, alignment: u64 },
    DmaOutOfBounds { offset: u64, size: u64 },
    InvalidCapacity,
    InvalidIdentify { word0: u16, word49: u16, word83: u16, lba28: u64, lba48: u64 },
    LbaOutOfRange { lba: u64, capacity: u64 },
    Lba48AddressOutOfRange { lba: u64 },
    InvalidBufferLength { expected: usize, actual: usize },
    PortTimeout { register: u64, value: u32 },
    PortDeviceError { status: u32, error: u32 },
    InterruptRegistration(DeviceInterruptError),
}

/// How the block layer sees a failed disk operation: the range and length errors it knows
/// itself, and any other driver error as a kind and a value.
#[derive(Debug, Clone, Copy, PartialEq, Eq, Structural)]
pub enum BlockDeviceError {
    LbaOutOfRange { lba: u64, capacity: u64 },
    Lba48AddressOutOfRange { lba: u64 },
    InvalidBufferLength { expected: usize, actual: usize },
    Ahci { kind: u8, value: u64 },
}

impl AhciError {
    /// The number of the error's kind.
    pub open spec fn kind(self) -> u8 {
        match self {
            AhciError::MemorySpaceDisabled => 3,
            AhciError::UnsupportedController { .. } => 4,
            AhciError::NoPort => 5,
            AhciError::UnsupportedPort { .. } => 6,
            AhciError::NoDmaFrame => 7,
            AhciError::DmaAddressTooLarge { .. } => 8,
            AhciError::DmaAddressOverflow => 9,
            AhciError::DmaUnaligned { .. } => 10,
            AhciError::DmaOutOfBounds { .. } => 11,
            AhciError::InvalidCapacity => 12,
            AhciError::InvalidIdentify { .. } => 13,
            AhciError::LbaOutOfRange { .. } => 14,
            AhciError::Lba48AddressOutOfRange { .. } => 15,
            AhciError::InvalidBufferLength { .. } => 16,
            AhciError::PortTimeout { .. } => 17,
            AhciError::PortDeviceError { .. } => 18,
            AhciError::InterruptRegistration(_) => 19,
        }
    }

    /// The error's details packed into one number: the fields that locate the failure, each
    /// shifted to its own place, or zero where there are none.
    pub open spec fn value(self) -> u64 {
        match self {
            AhciError::UnsupportedPort { port, signature, status } => ((port as u64) << 56u64)
                | ((signature as u64) << 24u64) | (status as u64),
            AhciError::DmaAddressTooLarge { address } => address,
            AhciError::Lba48AddressOutOfRange { lba } => lba,
            AhciError::DmaUnaligned { address, alignment } => (address & 0xffff_ffff) | (
            alignment << 32u64),
            AhciError::DmaOutOfBounds { offset, size } => (offset & 0xffff_ffff) | (size
                << 32u64),
            AhciError::PortTimeout { register, value } => (register << 32u64) | (value as u64),
            AhciError::PortDeviceError { status, error } => ((status as u64) << 32u64) | (
            error as u64),
            AhciError::LbaOutOfRange { lba, .. } => lba,
            AhciError::InvalidIdentify { word0, word49, word83, lba28, lba48 } => ((word0 as u64)
                << 48u64) | ((word49 as u64) << 32u64) | ((word83 as u64) << 16u64) | (lba28
                ^ lba48),
            AhciError::InvalidBufferLength { expected, actual } => ((expected as u64) << 32u64)
                | (actual as u64),
            _ => 0,
        }
    }

    pub fn kind_code(self) -> (r: u8)
        ensures
            r == self.kind(),
    {
        match self {
            AhciError::MemorySpaceDisabled => 3,
            AhciError::UnsupportedController { .. } => 4,
            AhciError::NoPort => 5,
            AhciError::UnsupportedPort { .. } => 6,
            AhciError::NoDmaFrame => 7,
            AhciError::DmaAddressTooLarge { .. } => 8,
            AhciError::DmaAddressOverflow => 9,
            AhciError::DmaUnaligned { .. } => 10,
            AhciError::DmaOutOfBounds { .. } => 11,
            AhciError::InvalidCapacity => 12,
            AhciError::InvalidIdentify { .. } => 13,
            AhciError::LbaOutOfRange { .. } => 14,
            AhciError::Lba48AddressOutOfRange { .. } => 15,
            AhciError::InvalidBufferLength { .. } => 16,
            AhciError::PortTimeout { .. } => 17,
            AhciError::PortDeviceError { .. } => 18,
            AhciError::InterruptRegistration(_) => 19,
        }
    }

    pub fn value_code(self) -> (r: u64)
        ensures
            r == self.value(),
    {
        match self {
            AhciError::UnsupportedPort { port, signature, status } => ((port as u64) << 56u64)
                | ((signature as u64) << 24u64) | (status as u64),
            AhciError::DmaAddressTooLarge { address } => address,
            AhciError::Lba48AddressOutOfRange { lba } => lba,
            AhciError::DmaUnaligned { address, alignment } => (address & 0xffff_ffff) | (
            alignment << 32u64),
            AhciError::DmaOutOfBounds { offset, size } => (offset & 0xffff_ffff) | (size
                << 32u64),
            AhciError::PortTimeout { register, value } => (register << 32u64) | (value as u64),
            AhciError::PortDeviceError { status, error } => ((status as u64) << 32u64) | (
            error as u64),
            AhciError::LbaOutOfRange { lba, .. } => lba,
            AhciError::InvalidIdentify { word0, word49, word83, lba28, lba48 } => ((word0 as u64)
                << 48u64) | ((word49 as u64) << 32u64) | ((word83 as u64) << 16u64) | (lba28
                ^ lba48),
            AhciError::InvalidBufferLength { expected, actual } => ((expected as u64) << 32u64)
                | (actual as u64),
            _ => 0,
        }
    }

    /// The error as the block layer reports it: its own range and length errors keep their
    /// fields, every other error becomes its kind and value.
    pub fn into_block_error(self) -> (r: BlockDeviceError)
        ensures
            r == (match self {
                AhciError::LbaOutOfRange { lba, capacity } => BlockDeviceError::LbaOutOfRange {
                    lba,
                    capacity,
                },
                AhciError::Lba48AddressOutOfRange { lba } => BlockDeviceError::Lba48AddressOutOfRange {
                    lba,
                },
                AhciError::InvalidBufferLength { expected, actual } =>
                    BlockDeviceError::InvalidBufferLength { expected, actual },
                _ => BlockDeviceError::Ahci { kind: self.kind(), value: self.value() },
            }),
    {
        match self {
            AhciError::LbaOutOfRange { lba, capacity } => BlockDeviceError::LbaOutOfRange {
                lba,
                capacity,
            },
            AhciError::Lba48AddressOutOfRange { lba } => BlockDeviceError::Lba48AddressOutOfRange {
                lba,
            },
            AhciError::InvalidBufferLength { expected, actual } =>
                BlockDeviceError::InvalidBufferLength { expected, actual },
            error => BlockDeviceError::Ahci { kind: error.kind_code(), value: error.value_code() },
        }
    }
}

/// The controller must be an AHCI SATA controller (class 1, subclass 6, interface 1) whose
/// memory space is enabled.
pub fn check_controller(device: PciDevice) -> (r: Result<(), AhciError>)
    ensures
        r == (if device.class_code != 1 || device.subclass != 6 || device.prog_if != 1 {
            Err(
                AhciError::UnsupportedController {
                    class: device.class_code,
                    subclass: device.subclass,
                    prog_if: device.prog_if,
                },
            )
        } else if device.command & 0x2 == 0 {
            Err(AhciError::MemorySpaceDisabled)
        } else {
            Ok(())
        }),
{
    if device.class_code != 0x01 || device.subclass != 0x06 || device.prog_if != 0x01 {
        return Err(
            AhciError::UnsupportedController {
                class: device.class_code,
                subclass: device.subclass,
                prog_if: device.prog_if,
            },
        );
    }
    if !device.memory_space_enabled() {
        return Err(AhciError::MemorySpaceDisabled);
    }
    Ok(())
}

/// The number of ports the controller implements: the capability register's low five bits
/// plus one.
pub fn implemented_port_count(capabilities: u32) -> (r: u8)
    ensures
        r == (capabilities & 0x1f) + 1,
        1 <= r <= 32,
{
    let low = (capabilities & 0x1f) as u8;
    assert(capabilities & 0x1f <= 31) by (bit_vector);
    let count = low.saturating_add(1);
    if count < AHCI_MAX_PORTS {
        count
    } else {
        AHCI_MAX_PORTS
    }
}

/// Whether the controller can address DMA memory above 4 GiB.
pub fn supports_64bit_dma(capabilities: u32) -> (r: bool)
    ensures
        r == (capabilities & 0x8000_0000 != 0),
{
    capabilities & HBA_CAP_S64A != 0
}

/// The two registers of a port that tell what is attached to it.
#[derive(Debug, Clone, Copy, PartialEq, Eq, Structural)]
pub struct PortRegisters {
    pub status: u32,
    pub signature: u32,
}

/// The port the disk is driven through.
#[derive(Debug, Clone, Copy, PartialEq, Eq, Structural)]
pub struct SelectedPort {
    pub port: u8,
    pub port_base: u64,
    pub signature: u32,
    pub status: u32,
}

/// Bit `port` of the ports-implemented register is set.
pub open spec fn port_implemented(port_map: u32, port: int) -> bool {
    port_map & (1u32 << (port as u32)) != 0
}

/// A device is detected and the link established.
pub open spec fn device_present(r: PortRegisters) -> bool {
    r.status & 0x0f == 0x03
}

/// An active SATA disk: present, interface active, with the SATA signature.
pub open spec fn is_sata_disk(r: PortRegisters) -> bool {
    device_present(r) && r.status & 0x0f00 == 0x0100 && r.signature == 0x0000_0101
}

/// A present ATAPI device, which this driver does not drive.
pub open spec fn is_atapi_device(r: PortRegisters) -> bool {
    device_present(r) && r.signature == 0xeb14_0101
}

/// No implemented port below `n` holds a SATA disk or an ATAPI device.
pub open spec fn nothing_before(port_map: u32, registers: Seq<PortRegisters>, n: int) -> bool {
    forall|p: int|
        0 <= p < n && port_implemented(port_map, p) ==> !is_sata_disk(#[trigger] registers[p])
            && !is_atapi_device(registers[p])
}

/// The port whose registers start at `0x100 + port * 0x80`.
pub open spec fn port_base(port: int) -> u64 {
    (0x100 + port * 0x80) as u64
}

/// Scans the implemented ports in order, `registers[p]` holding port `p`'s registers: the
/// first that holds an active SATA disk is taken; an ATAPI device met first is refused; with
/// neither there is no port.
pub fn select_port(port_map: u32, registers: &[PortRegisters]) -> (r: Result<SelectedPort, AhciError>)
    requires
        registers.len() <= 32,
    ensures
        match r {
            Ok(s) => {
                &&& s.port < registers.len()
                &&& port_implemented(port_map, s.port as int)
                &&& is_sata_disk(registers@[s.port as int])
                &&& s.port_base == port_base(s.port as int)
                &&& s.signature == registers@[s.port as int].signature
                &&& s.status == registers@[s.port as int].status
                &&& nothing_before(port_map, registers@, s.port as int)
            },
            Err(AhciError::UnsupportedPort { port, signature, status }) => {
                &&& port < registers.len()
                &&& port_implemented(port_map, port as int)
                &&& !is_sata_disk(registers@[port as int])
                &&& is_atapi_device(registers@[port as int])
                &&& signature == registers@[port as int].signature
                &&& status == registers@[port as int].status
                &&& nothing_before(port_map, registers@, port as int)
            },
            Err(e) => e == AhciError::NoPort && nothing_before(
                port_map,
                registers@,
                registers.len() as int,
            ),
        },
{
    let count = registers.len();
    let mut port: usize = 0;
    while port < count
        invariant
            count == registers.len() <= 32,
            port <= count,
            nothing_before(port_map, registers@, port as int),
        decreases count - port,
    {
        let p = port as u8;
        if port_map & (1u32 << p) != 0 {
            let registers_at = registers[port];
            let status = registers_at.status;
            let signature = registers_at.signature;
            if status & 0x0f == 0x03 && status & 0x0f00 == 0x0100 && signature == SATA_SIGNATURE {
                return Ok(
                    SelectedPort { port: p, port_base: 0x100 + (p as u64) * 0x80, signature, status },
                );
            }
            if status & 0x0f == 0x03 && signature == ATAPI_SIGNATURE {
                return Err(AhciError::UnsupportedPort { port: p, signature, status });
            }
        }
        port = port + 1;
    }
    Err(AhciError::NoPort)
}

/// One 4 KiB page of DMA memory, by its physical and its mapped virtual address.
#[derive(Debug, Clone, Copy, PartialEq, Eq, Structural)]
pub struct DmaPage {
    pub physical_base: u64,
    pub virtual_base: u64,
}

impl DmaPage {
    /// The virtual address of the `size`-byte field at `offset`: both the page and the offset
    /// must be multiples of `alignment`, and the field must end inside the page.
    pub fn pointer(self, offset: u64, size: u64, alignment: u64) -> (r: Result<u64, AhciError>)
        requires
            alignment > 0,
        ensures
            ({
                let unaligned = self.physical_base % alignment != 0 || offset % alignment != 0;
                &&& unaligned ==> r == Err::<u64, AhciError>(
                    AhciError::DmaUnaligned {
                        address: if self.physical_base + offset > u64::MAX {
                            u64::MAX
                        } else {
                            (self.physical_base + offset) as u64
                        },
                        alignment,
                    },
                )
                &&& !unaligned && offset + size > u64::MAX ==> r == Err::<u64, AhciError>(
                    AhciError::DmaAddressOverflow,
                )
                &&& !unaligned && offset + size <= u64::MAX && offset + size > 4096 ==> r
                    == Err::<u64, AhciError>(AhciError::DmaOutOfBounds { offset, size })
                &&& !unaligned && offset + size <= 4096 && self.virtual_base + offset > u64::MAX
                    ==> r == Err::<u64, AhciError>(AhciError::DmaAddressOverflow)
                &&& !unaligned && offset + size <= 4096 && self.virtual_base + offset <= u64::MAX
                    ==> r == Ok::<u64, AhciError>((self.virtual_base + offset) as u64)
            }),
    {
        if self.physical_base % alignment != 0 || offset % alignment != 0 {
            return Err(
                AhciError::DmaUnaligned {
                    address: self.physical_base.saturating_add(offset),
                    alignment,
                },
            );
        }
        let end = match offset.checked_add(size) {
            None => return Err(AhciError::DmaAddressOverflow),
            Some(end) => end,
        };
        if end > PAGE_SIZE {
            return Err(AhciError::DmaOutOfBounds { offset, size });
        }
        match self.virtual_base.checked_add(offset) {
            None => Err(AhciError::DmaAddressOverflow),
            Some(address) => Ok(address),
        }
    }
}

/// Takes the allocator's next frame as a DMA page mapped at `physical_memory_offset` above its
/// physical address. The frame is taken even when the page cannot be mapped.
pub fn allocate_page(allocator: &mut FrameAllocator<'_>, physical_memory_offset: u64) -> (r: Result<
    DmaPage,
    AhciError,
>)
    ensures
        ({
            let (i, frame) = next_frame(
                old(allocator).map(),
                old(allocator).index(),
                old(allocator).cursor(),
            );
            &&& final(allocator).map() == old(allocator).map()
            &&& frame matches Some(a) ==> final(allocator).index() == i
                && final(allocator).cursor() == Some((a + 4096) as u64)
            &&& r == match frame {
                None => Err(AhciError::NoDmaFrame),
                Some(a) => if physical_memory_offset + a + 4096 > u64::MAX {
                    Err(AhciError::DmaAddressOverflow)
                } else {
                    Ok(
                        DmaPage {
                            physical_base: a,
                            virtual_base: (physical_memory_offset + a) as u64,
                        },
                    )
                },
            }
        }),
{
    let frame = match allocator.next() {
        None => return Err(AhciError::NoDmaFrame),
        Some(frame) => frame,
    };
    let physical_base = frame.start_address();
    let virtual_base = match physical_memory_offset.checked_add(physical_base) {
        None => return Err(AhciError::DmaAddressOverflow),
        Some(v) => v,
    };
    if virtual_base.checked_add(PAGE_SIZE).is_none() {
        return Err(AhciError::DmaAddressOverflow);
    }
    assert(physical_base % 256 == 0 && physical_base % 128 == 0) by (bit_vector)
        requires
            physical_base % 4096 == 0,
    ;
    if physical_base % AHCI_FIS_ALIGNMENT != 0 {
        return Err(
            AhciError::DmaUnaligned { address: physical_base, alignment: AHCI_FIS_ALIGNMENT },
        );
    }
    if physical_base % AHCI_COMMAND_TABLE_ALIGNMENT != 0 {
        return Err(
            AhciError::DmaUnaligned {
                address: physical_base,
                alignment: AHCI_COMMAND_TABLE_ALIGNMENT,
            },
        );
    }
    Ok(DmaPage { physical_base, virtual_base })
}

/// Without 64-bit DMA every page must lie below 4 GiB: the first page above is reported.
pub fn check_dma_reach(pages: &[DmaPage], supports_64bit_dma: bool) -> (r: Result<(), AhciError>)
    ensures
        r is Ok <==> (supports_64bit_dma || (forall|i: int|
            0 <= i < pages.len() ==> #[trigger] pages@[i].physical_base <= u32::MAX)),
        r matches Err(e) ==> (exists|i: int|
            0 <= i < pages.len() && #[trigger] pages@[i].physical_base > u32::MAX && e == (
            AhciError::DmaAddressTooLarge { address: pages@[i].physical_base }) && (forall|j: int|
                0 <= j < i ==> pages@[j].physical_base <= u32::MAX)),
{
    if supports_64bit_dma {
        return Ok(());
    }
    let mut i: usize = 0;
    while i < pages.len()
        invariant
            !supports_64bit_dma,
            i <= pages.len(),
            forall|j: int| 0 <= j < i ==> #[trigger] pages@[j].physical_base <= u32::MAX,
        decreases pages.len() - i,
    {
        if pages[i].physical_base > u32::MAX as u64 {
            assert(pages@[i as int].physical_base > u32::MAX);
            return Err(AhciError::DmaAddressTooLarge { address: pages[i].physical_base });
        }
        i = i + 1;
    }
    Ok(())
}

/// A command moves exactly one sector.
pub fn check_sector_count(sectors: u16) -> (r: Result<(), AhciError>)
    ensures
        r == (if sectors == 1 {
            Ok(())
        } else {
            Err(AhciError::InvalidBufferLength { expected: 512, actual: (sectors * 512) as usize })
        }),
{
    if sectors != 1 {
        return Err(
            AhciError::InvalidBufferLength {
                expected: SECTOR_SIZE,
                actual: (sectors as usize) * SECTOR_SIZE,
            },
        );
    }
    Ok(())
}

/// A sector read or written goes through a buffer of exactly one sector.
pub fn check_sector_buffer(length: usize) -> (r: Result<(), AhciError>)
    ensures
        r == (if length == 512 {
            Ok(())
        } else {
            Err(AhciError::InvalidBufferLength { expected: 512, actual: length })
        }),
{
    if length != SECTOR_SIZE {
        return Err(AhciError::InvalidBufferLength { expected: SECTOR_SIZE, actual: length });
    }
    Ok(())
}

/// The first double word of a command header: a five-dword command FIS, the write bit for a
/// write, and one PRDT entry when data moves.
pub open spec fn command_flags(write: bool, has_buffer: bool) -> u32 {
    5u32 | (if write {
        0x40u32
    } else {
        0u32
    }) | (if has_buffer {
        0x1_0000u32
    } else {
        0u32
    })
}

/// The four double words of the command header in slot 0: the flags, a zero byte count, and
/// the command table's physical address, low half first.
pub fn command_header(write: bool, has_buffer: bool, table_physical: u64) -> (r: [u32; 4])
    ensures
        r@ == seq![
            command_flags(write, has_buffer),
            0u32,
            table_physical as u32,
            (table_physical >> 32u64) as u32,
        ],
{
    let flags = 5u32 | if write {
        COMMAND_WRITE
    } else {
        0
    } | if has_buffer {
        COMMAND_PRDT_LENGTH_ONE
    } else {
        0
    };
    let r = [flags, 0u32, table_physical as u32, (table_physical >> 32u64) as u32];
    assert(r@ =~= seq![
        command_flags(write, has_buffer),
        0u32,
        table_physical as u32,
        (table_physical >> 32u64) as u32,
    ]);
    r
}

/// The host-to-device register FIS at the start of the command table: the command with the
/// 48-bit `lba` split low three bytes and high three bytes around the LBA-mode device byte, and
/// the sector count.
pub fn command_fis(command: u8, lba: u64, sectors: u16) -> (r: [u8; 16])
    ensures
        r@ == seq![
            0x27u8,
            0x80u8,
            command,
            0u8,
            lba as u8,
            (lba >> 8u64) as u8,
            (lba >> 16u64) as u8,
            0x40u8,
            (lba >> 24u64) as u8,
            (lba >> 32u64) as u8,
            (lba >> 40u64) as u8,
            0u8,
            sectors as u8,
            (sectors >> 8u16) as u8,
            0u8,
            0u8,
        ],
{
    let r = [
        FIS_TYPE_REG_H2D,
        FIS_COMMAND,
        command,
        0u8,
        lba as u8,
        (lba >> 8u64) as u8,
        (lba >> 16u64) as u8,
        FIS_DEVICE_LBA,
        (lba >> 24u64) as u8,
        (lba >> 32u64) as u8,
        (lba >> 40u64) as u8,
        0u8,
        sectors as u8,
        (sectors >> 8u16) as u8,
        0u8,
        0u8,
    ];
    assert(r@ =~= seq![
        0x27u8,
        0x80u8,
        command,
        0u8,
        lba as u8,
        (lba >> 8u64) as u8,
        (lba >> 16u64) as u8,
        0x40u8,
        (lba >> 24u64) as u8,
        (lba >> 32u64) as u8,
        (lba >> 40u64) as u8,
        0u8,
        sectors as u8,
        (sectors >> 8u16) as u8,
        0u8,
        0u8,
    ]);
    r
}

/// The flags of a PRDT entry for a `byte_count`-byte buffer: interrupt on completion, and the
/// byte count less one.
pub fn prdt_flags(byte_count: u32) -> (r: u32)
    requires
        byte_count >= 1,
    ensures
        r == 0x8000_0000u32 | ((byte_count - 1) as u32 & 0x003f_ffffu32),
{
    PRDT_INTERRUPT | ((byte_count - 1) & PRDT_BYTE_COUNT_MASK)
}

/// The global host control value to write: AHCI mode on, and the interrupt enable bit set or
/// cleared by whether the disk is interrupt driven; the other bits as read.
pub fn global_host_control(current: u32, interrupt_driven: bool) -> (r: u32)
    ensures
        r == (if interrupt_driven {
            current | 0x8000_0000u32 | 0x2u32
        } else {
            (current | 0x8000_0000u32) & !0x2u32
        }),
{
    let hba = current | HBA_GHC_AE;
    if interrupt_driven {
        hba | HBA_GHC_IE
    } else {
        hba & !HBA_GHC_IE
    }
}

/// The 256 little-endian words of an IDENTIFY sector.
pub fn bytes_to_words(bytes: &[u8; 512]) -> (r: [u16; 256])
    ensures
        forall|i: int|
            0 <= i < 256 ==> #[trigger] r@[i] == bytes@[2 * i] + 256 * bytes@[2 * i + 1],
{
    let mut words = [0u16; 256];
    let mut index: usize = 0;
    while index < 256
        invariant
            index <= 256,
            words@.len() == 256,
            forall|i: int|
                0 <= i < index ==> #[trigger] words@[i] == bytes@[2 * i] + 256 * bytes@[2 * i
                    + 1],
        decreases 256 - index,
    {
        let offset = index * 2;
        let low = bytes[offset];
        let high = bytes[offset + 1];
        let word = (low as u16) | ((high as u16) << 8u16);
        assert(word == low + 256 * high) by (bit_vector)
            requires
                word == (low as u16) | ((high as u16) << 8u16),
        ;
        words[index] = word;
        index = index + 1;
    }
    words
}

/// The error for an IDENTIFY sector that gives no capacity: the words that say which commands
/// and which addressing the device supports, and the 28- and 48-bit capacities it reports.
pub fn invalid_identify(words: &[u16; 256]) -> (r: AhciError)
    ensures
        r == (AhciError::InvalidIdentify {
            word0: words@[0],
            word49: words@[49],
            word83: words@[83],
            lba28: (words@[60] + 0x1_0000 * words@[61]) as u64,
            lba48: (words@[100] + 0x1_0000 * words@[101] + 0x1_0000_0000 * words@[102]
                + 0x1_0000_0000_0000 * words@[103]) as u64,
        }),
{
    let w60 = words[60] as u64;
    let w61 = words[61] as u64;
    let w100 = words[100] as u64;
    let w101 = words[101] as u64;
    let w102 = words[102] as u64;
    let w103 = words[103] as u64;
    let lba28 = w60 | (w61 << 16u64);
    let lba48 = w100 | (w101 << 16u64) | (w102 << 32u64) | (w103 << 48u64);
    assert(lba28 == w60 + 0x1_0000 * w61) by (bit_vector)
        requires
            lba28 == w60 | (w61 << 16u64),
            w60 < 0x1_0000,
            w61 < 0x1_0000,
    ;
    assert(lba48 == w100 + 0x1_0000 * w101 + 0x1_0000_0000 * w102 + 0x1_0000_0000_0000 * w103)
        by (bit_vector)
        requires
            lba48 == w100 | (w101 << 16u64) | (w102 << 32u64) | (w103 << 48u64),
            w100 < 0x1_0000,
            w101 < 0x1_0000,
            w102 < 0x1_0000,
            w103 < 0x1_0000,
    ;
    AhciError::InvalidIdentify {
        word0: words[0],
        word49: words[49],
        word83: words[83],
        lba28,
        lba48,
    }
}

} // verus!
