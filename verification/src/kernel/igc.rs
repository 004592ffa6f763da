//! Intel I225-V register decoding: the link status, the MAC address and transmit descriptors.
use vstd::prelude::*;
use crate::kernel::net::{EthernetFrameError, ETHERNET_MAX_FRAME_LENGTH};
use crate::kernel::pci::{PciAddress, PciDevice};

verus! {

pub const INTEL_VENDOR_ID: u16 = 0x8086;
pub const I225_V_DEVICE_ID: u16 = 0x15f3;
pub const I225_MMIO_LENGTH: u64 = 0x10_0000;
pub const STATUS_FULL_DUPLEX: u32 = 0x1;
pub const STATUS_LINK_UP: u32 = 0x2;
pub const STATUS_SPEED_100: u32 = 0x40;
pub const STATUS_SPEED_1000: u32 = 0x80;
pub const STATUS_SPEED_2500: u32 = 0x40_0000;
pub const TX_RING_SIZE: usize = 8;
pub const RX_RING_SIZE: usize = 8;
pub const DESCRIPTOR_SIZE: u64 = 16;
pub const TX_DESCRIPTOR_DATA_TYPE: u32 = 0x0030_0000;
pub const TX_DESCRIPTOR_END_OF_PACKET: u32 = 0x0100_0000;
pub const TX_DESCRIPTOR_INSERT_FCS: u32 = 0x0200_0000;
pub const TX_DESCRIPTOR_REPORT_STATUS: u32 = 0x0800_0000;
pub const TX_DESCRIPTOR_EXTENSION: u32 = 0x2000_0000;
pub const TX_PAYLOAD_LENGTH_SHIFT: u32 = 14;
pub const RX_DESCRIPTOR_DONE: u32 = 0x01;
pub const RX_DESCRIPTOR_END_OF_PACKET: u32 = 0x02;
pub const RX_DESCRIPTOR_ERROR_MASK: u32 = 0x8000_0000;

#[derive(Debug, Clone, Copy, PartialEq, Eq, Structural)]
pub enum IgcDmaError {
    NoFrame,
    AddressOverflow,
    Unaligned { offset: u64, alignment: u64 },
    OutOfBounds { offset: u64, size: u64 },
}

/// Why the I225 runtime failed.
#[derive(Debug, Clone, Copy, PartialEq, Eq, Structural)]
pub enum IgcError {
    Dma(IgcDmaError),
    Frame(EthernetFrameError),
    MemorySpaceDisabled,
    InvalidMac,
    TxRingFull,
    TxCompletionTimeout { descriptor: usize, status: u32 },
    RxFrameTooLarge { length: u16 },
    RxPacketNotSingleDescriptor { status: u32 },
    RxError { status: u32 },
    NoPacket,
}

/// What the receive descriptor at the ring's head holds, from its status and length fields:
/// nothing yet, a frame of that length, or a frame that is refused. Every outcome but "nothing
/// yet" hands the descriptor back to the device.
pub fn rx_descriptor_outcome(status: u32, packet_length: u16) -> (r: Result<u16, IgcError>)
    ensures
        r == (if status & 0x01 == 0 {
            Err(IgcError::NoPacket)
        } else if status & 0x8000_0000 != 0 {
            Err(IgcError::RxError { status })
        } else if status & 0x02 == 0 {
            Err(IgcError::RxPacketNotSingleDescriptor { status })
        } else if packet_length > 1518 {
            Err(IgcError::RxFrameTooLarge { length: packet_length })
        } else {
            Ok(packet_length)
        }),
{
    if status & RX_DESCRIPTOR_DONE == 0 {
        return Err(IgcError::NoPacket);
    }
    if status & RX_DESCRIPTOR_ERROR_MASK != 0 {
        return Err(IgcError::RxError { status });
    }
    if status & RX_DESCRIPTOR_END_OF_PACKET == 0 {
        return Err(IgcError::RxPacketNotSingleDescriptor { status });
    }
    if packet_length as usize > ETHERNET_MAX_FRAME_LENGTH {
        return Err(IgcError::RxFrameTooLarge { length: packet_length });
    }
    Ok(packet_length)
}

#[derive(Debug, Clone, Copy, PartialEq, Eq, Structural)]
pub enum LinkSpeed {
    Unknown,
    Mbps100,
    Mbps1000,
    Mbps2500,
}

impl LinkSpeed {
    /// The speed in megabits per second; zero where unknown.
    pub fn mbps(self) -> (r: u16)
        ensures
            r == (match self {
                LinkSpeed::Unknown => 0u16,
                LinkSpeed::Mbps100 => 100u16,
                LinkSpeed::Mbps1000 => 1000u16,
                LinkSpeed::Mbps2500 => 2500u16,
            }),
    {
        match self {
            LinkSpeed::Unknown => 0,
            LinkSpeed::Mbps100 => 100,
            LinkSpeed::Mbps1000 => 1000,
            LinkSpeed::Mbps2500 => 2500,
        }
    }
}

#[derive(Debug, Clone, Copy, PartialEq, Eq, Structural)]
pub struct LinkStatus {
    pub up: bool,
    pub full_duplex: bool,
    pub speed: LinkSpeed,
}

/// The link that a STATUS register value reports: a link that is down has no duplex and no
/// known speed; a link that is up has the fastest speed whose bit is set.
pub open spec fn link_status_spec(status: u32) -> LinkStatus {
    let up = status & 2u32 != 0;
    LinkStatus {
        up,
        full_duplex: up && status & 1u32 != 0,
        speed: if !up {
            LinkSpeed::Unknown
        } else if status & 0x40_0000u32 != 0 {
            LinkSpeed::Mbps2500
        } else if status & 0x80u32 != 0 {
            LinkSpeed::Mbps1000
        } else if status & 0x40u32 != 0 {
            LinkSpeed::Mbps100
        } else {
            LinkSpeed::Unknown
        },
    }
}

impl LinkStatus {
    pub fn from_register(status: u32) -> (r: Self)
        ensures
            r == link_status_spec(status),
    {
        let up = status & STATUS_LINK_UP != 0;
        let speed = if !up {
            LinkSpeed::Unknown
        } else if status & STATUS_SPEED_2500 != 0 {
            LinkSpeed::Mbps2500
        } else if status & STATUS_SPEED_1000 != 0 {
            LinkSpeed::Mbps1000
        } else if status & STATUS_SPEED_100 != 0 {
            LinkSpeed::Mbps100
        } else {
            LinkSpeed::Unknown
        };
        Self { up, full_duplex: up && status & STATUS_FULL_DUPLEX != 0, speed }
    }
}

/// What probing the I225-V found: where it is, its link and MAC, and whether its queues run.
#[derive(Debug, Clone, Copy, PartialEq, Eq)]
pub struct I225Probe {
    pub address: PciAddress,
    pub mmio_base: u64,
    pub status: u32,
    pub mac_address: [u8; 6],
    pub link: LinkStatus,
    pub bus_master_enabled: bool,
    pub tx_queue_ready: bool,
    pub rx_queue_ready: bool,
}

impl I225Probe {
    /// The snapshot of `device`, mapped at `mmio_base`, that reported `status` and
    /// `mac_address`.
    pub fn from_device(
        device: PciDevice,
        mmio_base: u64,
        status: u32,
        mac_address: [u8; 6],
        tx_queue_ready: bool,
        rx_queue_ready: bool,
    ) -> (r: Self)
        ensures
            r == (I225Probe {
                address: device.address,
                mmio_base,
                status,
                mac_address,
                link: link_status_spec(status),
                bus_master_enabled: device.command & 0x4 != 0,
                tx_queue_ready,
                rx_queue_ready,
            }),
    {
        I225Probe {
            address: device.address,
            mmio_base,
            status,
            mac_address,
            link: LinkStatus::from_register(status),
            bus_master_enabled: device.bus_master_enabled(),
            tx_queue_ready,
            rx_queue_ready,
        }
    }
}

/// The outcome of a probe that read `status` and `mac_address` from the device mapped at
/// `mmio_base`: refused when the MAC is all zeros or all ones, else the snapshot with both
/// queues still stopped.
pub fn probe_result(device: PciDevice, mmio_base: u64, status: u32, mac_address: [u8; 6]) -> (r:
    Result<I225Probe, IgcError>)
    ensures
        r == (if !valid_mac(mac_address@) {
            Err(IgcError::InvalidMac)
        } else {
            Ok(
                I225Probe {
                    address: device.address,
                    mmio_base,
                    status,
                    mac_address,
                    link: link_status_spec(status),
                    bus_master_enabled: device.command & 0x4 != 0,
                    tx_queue_ready: false,
                    rx_queue_ready: false,
                },
            )
        }),
{
    if !valid_mac_address(mac_address) {
        return Err(IgcError::InvalidMac);
    }
    Ok(I225Probe::from_device(device, mmio_base, status, mac_address, false, false))
}

/// A probe needs the device's memory space enabled.
pub fn check_memory_space(device: PciDevice) -> (r: Result<(), IgcError>)
    ensures
        r == (if device.command & 0x2 == 0 {
            Err(IgcError::MemorySpaceDisabled)
        } else {
            Ok(())
        }),
{
    if !device.memory_space_enabled() {
        return Err(IgcError::MemorySpaceDisabled);
    }
    Ok(())
}

/// Whether a PCI function is the I225-V this driver supports.
pub fn is_supported_device(device: PciDevice) -> (r: bool)
    ensures
        r == (device.vendor_id == 0x8086 && device.device_id == 0x15f3),
{
    device.vendor_id == INTEL_VENDOR_ID && device.device_id == I225_V_DEVICE_ID
}

/// The first I225-V of an inventory.
pub fn find_device(devices: &[PciDevice]) -> (r: Option<PciDevice>)
    ensures
        match r {
            Some(d) => exists|i: int|
                0 <= i < devices.len() && devices@[i] == d && d.vendor_id == 0x8086 && d.device_id
                    == 0x15f3 && forall|j: int|
                    0 <= j < i ==> !(#[trigger] devices@[j].vendor_id == 0x8086
                        && devices@[j].device_id == 0x15f3),
            None => forall|j: int|
                0 <= j < devices.len() ==> !(#[trigger] devices@[j].vendor_id == 0x8086
                    && devices@[j].device_id == 0x15f3),
        },
{
    let mut i: usize = 0;
    while i < devices.len()
        invariant
            i <= devices.len(),
            forall|j: int|
                0 <= j < i ==> !(#[trigger] devices@[j].vendor_id == 0x8086 && devices@[j].device_id
                    == 0x15f3),
        decreases devices.len() - i,
    {
        if is_supported_device(devices[i]) {
            return Some(devices[i]);
        }
        i = i + 1;
    }
    None
}

/// A MAC address is usable unless it is all zeros or all ones.
pub open spec fn valid_mac(mac: Seq<u8>) -> bool {
    !(mac == Seq::new(6, |_i: int| 0u8) || mac == Seq::new(6, |_i: int| 0xffu8))
}

/// Whether `mac_address` is usable.
pub fn valid_mac_address(mac_address: [u8; 6]) -> (r: bool)
    ensures
        r == valid_mac(mac_address@),
{
    let mut all_zero = true;
    let mut all_ones = true;
    let mut i: usize = 0;
    while i < 6
        invariant
            i <= 6,
            all_zero == (forall|j: int| 0 <= j < i ==> mac_address@[j] == 0),
            all_ones == (forall|j: int| 0 <= j < i ==> mac_address@[j] == 0xff),
        decreases 6 - i,
    {
        all_zero = all_zero && mac_address[i] == 0;
        all_ones = all_ones && mac_address[i] == 0xff;
        i = i + 1;
    }
    proof {
        let zeros = Seq::new(6, |_i: int| 0u8);
        let ones = Seq::new(6, |_i: int| 0xffu8);
        if all_zero {
            assert(mac_address@ =~= zeros);
        }
        if all_ones {
            assert(mac_address@ =~= ones);
        }
        if mac_address@ == zeros {
            assert(forall|j: int| 0 <= j < 6 ==> mac_address@[j] == zeros[j]);
        }
        if mac_address@ == ones {
            assert(forall|j: int| 0 <= j < 6 ==> mac_address@[j] == ones[j]);
        }
    }
    !all_zero && !all_ones
}

/// The MAC address held in the receive-address registers: the low register's four bytes,
/// then the high register's low two, least significant first.
pub fn mac_from_registers(low: u32, high: u32) -> (r: [u8; 6])
    ensures
        r@ == seq![
            (low % 0x100) as u8,
            (low / 0x100 % 0x100) as u8,
            (low / 0x1_0000 % 0x100) as u8,
            (low / 0x100_0000) as u8,
            (high % 0x100) as u8,
            (high / 0x100 % 0x100) as u8,
        ],
{
    let r = [
        (low % 0x100) as u8,
        (low / 0x100 % 0x100) as u8,
        (low / 0x1_0000 % 0x100) as u8,
        (low / 0x100_0000) as u8,
        (high % 0x100) as u8,
        (high / 0x100 % 0x100) as u8,
    ];
    assert(r@ =~= seq![
        (low % 0x100) as u8,
        (low / 0x100 % 0x100) as u8,
        (low / 0x1_0000 % 0x100) as u8,
        (low / 0x100_0000) as u8,
        (high % 0x100) as u8,
        (high / 0x100 % 0x100) as u8,
    ]);
    r
}

/// The command word of an advanced data descriptor for one frame of `packet_length` bytes:
/// end of packet, insert FCS, report status, extended, and the length in the low bits.
pub fn advanced_tx_command(packet_length: usize) -> (r: Result<u32, IgcDmaError>)
    ensures
        packet_length > u32::MAX ==> r == Err::<u32, IgcDmaError>(IgcDmaError::AddressOverflow),
        packet_length <= u32::MAX ==> r == Ok::<u32, IgcDmaError>(
            0x2b30_0000u32 | (packet_length as u32),
        ),
{
    if packet_length > u32::MAX as usize {
        return Err(IgcDmaError::AddressOverflow);
    }
    let length = packet_length as u32;
    assert(0x0030_0000u32 | 0x0100_0000u32 | 0x0200_0000u32 | 0x0800_0000u32 | 0x2000_0000u32
        == 0x2b30_0000u32) by (bit_vector);
    Ok(
        TX_DESCRIPTOR_DATA_TYPE | TX_DESCRIPTOR_END_OF_PACKET | TX_DESCRIPTOR_INSERT_FCS
            | TX_DESCRIPTOR_REPORT_STATUS | TX_DESCRIPTOR_EXTENSION | length,
    )
}

/// The payload-length field of a transmit descriptor's status word.
pub fn tx_payload_length_field(packet_length: u32) -> (r: u32)
    ensures
        r == packet_length << 14u32,
{
    packet_length << TX_PAYLOAD_LENGTH_SHIFT
}

} // verus!
