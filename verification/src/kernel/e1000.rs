//! The protocol side of the E1000 network runtime: DMA-page bounds, the interface's IPv4
//! configuration from DHCP, ARP, and which received frames carry what.
//!
//! Moving frames through the device's descriptor rings is the driver's; everything decided
//! about a frame's contents is here.
use vstd::prelude::*;
use crate::bytes::{
    be_at, be_bytes, copy_into, field, le_bytes, lemma_le_bytes_len, splice, write_be, write_le,
};
use crate::kernel::interrupts::DeviceInterruptError;
use crate::kernel::pci::PciDevice;
use crate::kernel::dhcp::{
    address_view, DhcpError, parse_reply, parse_reply_spec, reply_result_view, DhcpReply, DhcpReplyView,
};
use crate::kernel::net::{
    frame_wire, ipv4_check, ipv4_image, udp_check, udp_image, EthernetFrame, EthernetFrameError,
    Ipv4Address, Ipv4Packet, Ipv4PacketError, MacAddress, UdpDatagram, UdpDatagramError,
    ETHER_TYPE_ARP, ETHER_TYPE_IPV4, IP_PROTOCOL_UDP,
};

verus! {

pub const INTEL_VENDOR_ID: u16 = 0x8086;
pub const E1000_DEVICE_ID: u16 = 0x100e;
pub const E1000E_DEVICE_ID: u16 = 0x10d3;
pub const DMA_PAGE_SIZE: u64 = 4096;
pub const NETWORK_RECEIVE_HEADER_LENGTH: usize = 6;
pub const MAX_NETWORK_PAYLOAD_LENGTH: usize = 1024;
pub const NETWORK_SOURCE_PORT: u16 = 49000;
pub const ARP_PACKET_LENGTH: usize = 28;

#[derive(Debug, Clone, Copy, PartialEq, Eq, Structural)]
pub enum DmaError {
    NoFrame,
    AddressOverflow,
    Unaligned { offset: u64, alignment: u64 },
    OutOfBounds { offset: u64, size: u64 },
}

/// Why the E1000 runtime failed.
#[derive(Debug, Clone, Copy, PartialEq, Eq, Structural)]
pub enum E1000Error {
    Dma(DmaError),
    Frame(EthernetFrameError),
    Ipv4(Ipv4PacketError),
    Udp(UdpDatagramError),
    Dhcp(DhcpError),
    MemorySpaceDisabled,
    InvalidMac,
    MdicTimeout,
    MdicError(u32),
    InterruptRegistration(DeviceInterruptError),
    InterruptsNotPrepared,
    InterruptsNotArmed,
    InterruptTimeout { cause: u32, rctl: u32, tdh: u32, rdh: u32, rdt: u32, mdic: u32 },
    TxCompletionMissing,
    RxFrameTooLarge { length: u16 },
    RxPacketMismatch,
    ExternalNetworkNotEnabled,
    NoPacket,
    NetworkBufferTooSmall { required: usize, available: usize },
}

/// A failed bring-up, with the allocator position to continue from.
#[derive(Debug, Clone, Copy, PartialEq, Eq, Structural)]
pub struct E1000InitFailure {
    pub error: E1000Error,
    pub next_frame_address: Option<u64>,
}

/// An Intel E1000 or E1000E controller.
pub open spec fn is_e1000(d: PciDevice) -> bool {
    d.vendor_id == 0x8086 && (d.device_id == 0x100e || d.device_id == 0x10d3)
}

/// The first E1000 or E1000E of an inventory.
pub fn find_device(devices: &[PciDevice]) -> (r: Option<PciDevice>)
    ensures
        match r {
            Some(d) => exists|i: int|
                0 <= i < devices.len() && devices@[i] == d && is_e1000(d) && forall|j: int|
                    0 <= j < i ==> !is_e1000(#[trigger] devices@[j]),
            None => forall|j: int| 0 <= j < devices.len() ==> !is_e1000(#[trigger] devices@[j]),
        },
{
    let mut i: usize = 0;
    while i < devices.len()
        invariant
            i <= devices.len(),
            forall|j: int| 0 <= j < i ==> !is_e1000(#[trigger] devices@[j]),
        decreases devices.len() - i,
    {
        let device = devices[i];
        if device.vendor_id == INTEL_VENDOR_ID && (device.device_id == E1000_DEVICE_ID
            || device.device_id == E1000E_DEVICE_ID) {
            return Some(device);
        }
        i = i + 1;
    }
    None
}

/// One 4 KiB page of DMA memory, by its physical and its mapped virtual address.
#[derive(Debug, Clone, Copy, PartialEq, Eq, Structural)]
pub struct DmaPage {
    pub physical_base: u64,
    pub virtual_base: u64,
}

impl DmaPage {
    /// The virtual address of the `size`-byte field at `offset`: the offset must be a multiple
    /// of `alignment` and the field must end inside the page.
    pub fn pointer(self, offset: u64, size: u64, alignment: u64) -> (r: Result<u64, DmaError>)
        requires
            alignment > 0,
        ensures
            offset % alignment != 0 ==> r == Err::<u64, DmaError>(
                DmaError::Unaligned { offset, alignment },
            ),
            offset % alignment == 0 && offset + size > u64::MAX ==> r == Err::<u64, DmaError>(
                DmaError::AddressOverflow,
            ),
            offset % alignment == 0 && offset + size <= u64::MAX && offset + size > 4096 ==> r
                == Err::<u64, DmaError>(DmaError::OutOfBounds { offset, size }),
            offset % alignment == 0 && offset + size <= 4096 && self.virtual_base + offset
                > u64::MAX ==> r == Err::<u64, DmaError>(DmaError::AddressOverflow),
            offset % alignment == 0 && offset + size <= 4096 && self.virtual_base + offset
                <= u64::MAX ==> r == Ok::<u64, DmaError>((self.virtual_base + offset) as u64),
    {
        if offset % alignment != 0 {
            return Err(DmaError::Unaligned { offset, alignment });
        }
        let end = match offset.checked_add(size) {
            None => return Err(DmaError::AddressOverflow),
            Some(end) => end,
        };
        if end > DMA_PAGE_SIZE {
            return Err(DmaError::OutOfBounds { offset, size });
        }
        match self.virtual_base.checked_add(offset) {
            None => Err(DmaError::AddressOverflow),
            Some(address) => Ok(address),
        }
    }
}

/// The interface's IPv4 configuration.
#[derive(Debug, Clone, Copy, PartialEq, Eq)]
pub struct NetworkConfiguration {
    pub address: Ipv4Address,
    pub subnet_mask: Ipv4Address,
    pub gateway: Ipv4Address,
    pub dns: Ipv4Address,
    pub dhcp_server: Ipv4Address,
    pub lease_seconds: u32,
    pub dhcp: bool,
}

impl NetworkConfiguration {
    /// The configuration used until DHCP succeeds: QEMU's user-mode network.
    pub fn static_default() -> (r: Self)
        ensures
            r.address@ == seq![10u8, 0, 2, 15],
            r.subnet_mask@ == seq![255u8, 255, 255, 0],
            r.gateway@ == seq![10u8, 0, 2, 2],
            r.dns@ == seq![10u8, 0, 2, 3],
            r.dhcp_server@ == seq![10u8, 0, 2, 2],
            r.lease_seconds == 0,
            !r.dhcp,
    {
        let r = Self {
            address: [10, 0, 2, 15],
            subnet_mask: [255, 255, 255, 0],
            gateway: [10, 0, 2, 2],
            dns: [10, 0, 2, 3],
            dhcp_server: [10, 0, 2, 2],
            lease_seconds: 0,
            dhcp: false,
        };
        assert(r.address@ =~= seq![10u8, 0, 2, 15]);
        assert(r.subnet_mask@ =~= seq![255u8, 255, 255, 0]);
        assert(r.gateway@ =~= seq![10u8, 0, 2, 2]);
        assert(r.dns@ =~= seq![10u8, 0, 2, 3]);
        assert(r.dhcp_server@ =~= seq![10u8, 0, 2, 2]);
        r
    }
}

/// `value`, or `default` where it is absent.
pub open spec fn or_address(value: Option<Seq<u8>>, default: Seq<u8>) -> Seq<u8> {
    match value {
        Some(v) => v,
        None => default,
    }
}

fn address_or(value: Option<Ipv4Address>, default: Ipv4Address) -> (r: Ipv4Address)
    ensures
        r@ == or_address(address_view(value), default@),
{
    match value {
        Some(v) => v,
        None => default,
    }
}

/// `c` is what a DHCPACK `ack` grants for a lease offered by `server`: the ACK's address, and
/// for the mask, router, DNS server, server and lease what the ACK names or else QEMU's
/// defaults, the offering server and no lease time.
pub open spec fn granted_configuration(c: NetworkConfiguration, ack: DhcpReply, server: Ipv4Address) -> bool {
    &&& c.address == ack.address
    &&& c.subnet_mask@ == or_address(address_view(ack.subnet_mask), seq![255u8, 255, 255, 0])
    &&& c.gateway@ == or_address(address_view(ack.gateway), seq![10u8, 0, 2, 2])
    &&& c.dns@ == or_address(address_view(ack.dns), seq![10u8, 0, 2, 3])
    &&& c.dhcp_server@ == or_address(address_view(ack.server), server@)
    &&& c.lease_seconds == (match ack.lease_seconds {
        Some(l) => l,
        None => 0,
    })
    &&& c.dhcp
}

/// The configuration a DHCPACK grants, for a lease offered by `server`: what the ACK names,
/// QEMU's defaults for the mask, router and DNS server it leaves out.
pub fn configuration_from_ack(ack: &DhcpReply, server: Ipv4Address) -> (r: NetworkConfiguration)
    ensures
        granted_configuration(r, *ack, server),
{
    let defaults = NetworkConfiguration::static_default();
    NetworkConfiguration {
        address: ack.address,
        subnet_mask: address_or(ack.subnet_mask, defaults.subnet_mask),
        gateway: address_or(ack.gateway, defaults.gateway),
        dns: address_or(ack.dns, defaults.dns),
        dhcp_server: address_or(ack.server, server),
        lease_seconds: match ack.lease_seconds {
            Some(l) => l,
            None => 0,
        },
        dhcp: true,
    }
}

/// The configuration after a renewal ACK: the address is kept, and each field the ACK leaves
/// out keeps its previous value.
pub fn renewed_configuration(previous: NetworkConfiguration, ack: &DhcpReply) -> (r:
    NetworkConfiguration)
    ensures
        r.address == previous.address,
        r.subnet_mask@ == or_address(address_view(ack.subnet_mask), previous.subnet_mask@),
        r.gateway@ == or_address(address_view(ack.gateway), previous.gateway@),
        r.dns@ == or_address(address_view(ack.dns), previous.dns@),
        r.dhcp_server@ == or_address(address_view(ack.server), previous.dhcp_server@),
        r.lease_seconds == (match ack.lease_seconds {
            Some(l) => l,
            None => previous.lease_seconds,
        }),
        r.dhcp,
{
    NetworkConfiguration {
        address: previous.address,
        subnet_mask: address_or(ack.subnet_mask, previous.subnet_mask),
        gateway: address_or(ack.gateway, previous.gateway),
        dns: address_or(ack.dns, previous.dns),
        dhcp_server: address_or(ack.server, previous.dhcp_server),
        lease_seconds: match ack.lease_seconds {
            Some(l) => l,
            None => previous.lease_seconds,
        },
        dhcp: true,
    }
}

/// A payload of `length` bytes fits a transmit buffer of `limit` bytes.
pub fn check_payload_length(length: usize, limit: usize) -> (r: Result<(), E1000Error>)
    ensures
        r == (if length > limit {
            Err(E1000Error::NetworkBufferTooSmall { required: length, available: limit })
        } else {
            Ok(())
        }),
{
    if length > limit {
        return Err(E1000Error::NetworkBufferTooSmall { required: length, available: limit });
    }
    Ok(())
}

/// Whether a send of a `length`-byte payload may start: external networking must be on, and the
/// payload must fit the 1024-byte transmit limit.
pub fn check_send(external_network: bool, length: usize) -> (r: Result<(), E1000Error>)
    ensures
        r == (if !external_network {
            Err(E1000Error::ExternalNetworkNotEnabled)
        } else if length > MAX_NETWORK_PAYLOAD_LENGTH {
            Err(
                E1000Error::NetworkBufferTooSmall {
                    required: length,
                    available: MAX_NETWORK_PAYLOAD_LENGTH,
                },
            )
        } else {
            Ok(())
        }),
{
    if !external_network {
        return Err(E1000Error::ExternalNetworkNotEnabled);
    }
    check_payload_length(length, MAX_NETWORK_PAYLOAD_LENGTH)
}

/// Whether a receive into a buffer of `available` bytes may start, before any frame is read:
/// external networking must be on, and the buffer must hold at least the six-byte header of
/// sender address and port.
pub fn check_receive(external_network: bool, available: usize) -> (r: Result<(), E1000Error>)
    ensures
        r == (if !external_network {
            Err(E1000Error::ExternalNetworkNotEnabled)
        } else if available < NETWORK_RECEIVE_HEADER_LENGTH {
            Err(
                E1000Error::NetworkBufferTooSmall {
                    required: NETWORK_RECEIVE_HEADER_LENGTH,
                    available,
                },
            )
        } else {
            Ok(())
        }),
{
    if !external_network {
        return Err(E1000Error::ExternalNetworkNotEnabled);
    }
    if available < NETWORK_RECEIVE_HEADER_LENGTH {
        return Err(
            E1000Error::NetworkBufferTooSmall { required: NETWORK_RECEIVE_HEADER_LENGTH, available },
        );
    }
    Ok(())
}

/// The frame that carries the DHCP message `payload` (at most 300 bytes) from the client port
/// of `source` to the server port of `destination`, broadcast on the link: from 0.0.0.0 to
/// 255.255.255.255 while acquiring, from the interface to its server while renewing.
pub fn dhcp_frame(
    mac_address: MacAddress,
    source: Ipv4Address,
    destination: Ipv4Address,
    payload: &[u8],
    identification: u16,
) -> (r: Result<EthernetFrame, E1000Error>)
    ensures
        payload@.len() > 300 ==> r == Err::<EthernetFrame, E1000Error>(
            E1000Error::NetworkBufferTooSmall { required: payload@.len() as usize, available: 300 },
        ),
        payload@.len() <= 300 ==> (r matches Ok(frame) && frame@ == udp_frame_wire(
            seq![0xffu8, 0xff, 0xff, 0xff, 0xff, 0xff],
            mac_address@,
            source@,
            destination@,
            68,
            67,
            payload@,
            identification,
        )),
{
    if let Err(error) = check_payload_length(payload.len(), 300) {
        return Err(error);
    }
    let broadcast: MacAddress = [0xff; 6];
    assert(broadcast@ =~= seq![0xffu8, 0xff, 0xff, 0xff, 0xff, 0xff]);
    udp_frame(broadcast, mac_address, source, destination, 68, 67, payload, identification)
}

/// What the receive descriptor at the ring's head holds: nothing complete yet (`None`), a frame
/// of that length, or a frame too long for an Ethernet frame.
pub fn rx_descriptor_outcome(status: u8, packet_length: u16) -> (r: Option<Result<u16, E1000Error>>)
    ensures
        r == (if status & 0x3 != 0x3 {
            None
        } else if packet_length > 1518 {
            Some(Err(E1000Error::RxFrameTooLarge { length: packet_length }))
        } else {
            Some(Ok(packet_length))
        }),
{
    if status & 0x3 != 0x3 {
        return None;
    }
    if packet_length as usize > crate::kernel::net::ETHERNET_MAX_FRAME_LENGTH {
        return Some(Err(E1000Error::RxFrameTooLarge { length: packet_length }));
    }
    Some(Ok(packet_length))
}

/// A looped-back frame must come back byte for byte, addressed from and to this interface.
pub fn loopback_outcome(sent: &EthernetFrame, received: &EthernetFrame, mac_address: MacAddress) -> (r:
    Result<(), E1000Error>)
    ensures
        r == (if received@ == sent@ && received@.take(6) == mac_address@ && received@.subrange(6, 12)
            == mac_address@ {
            Ok(())
        } else {
            Err(E1000Error::RxPacketMismatch)
        }),
{
    let received_bytes = received.as_bytes();
    let same = crate::bytes::range_equals(received_bytes, 0, received_bytes.len(), sent.as_bytes());
    let destination = received.destination();
    let source = received.source();
    let mut addressed = true;
    let mut k: usize = 0;
    while k < 6
        invariant
            k <= 6,
            addressed == (forall|j: int|
                0 <= j < k ==> destination@[j] == mac_address@[j] && source@[j] == mac_address@[j]),
        decreases 6 - k,
    {
        addressed = addressed && destination[k] == mac_address[k] && source[k] == mac_address[k];
        k = k + 1;
    }
    proof {
        if addressed {
            assert(destination@ =~= mac_address@);
            assert(source@ =~= mac_address@);
        } else if destination@ == mac_address@ && source@ == mac_address@ {
            assert(forall|j: int|
                0 <= j < 6 ==> destination@[j] == mac_address@[j] && source@[j] == mac_address@[j]);
        }
        assert(received_bytes@.subrange(0, received_bytes@.len() as int) =~= received@);
    }
    if same && addressed {
        Ok(())
    } else {
        Err(E1000Error::RxPacketMismatch)
    }
}

/// A lease can be renewed only with external networking on and a configuration that came from
/// DHCP.
pub fn check_renewal(external_network: bool, network: &NetworkConfiguration) -> (r: Result<
    (),
    E1000Error,
>)
    ensures
        r == (if !external_network {
            Err(E1000Error::ExternalNetworkNotEnabled)
        } else if !network.dhcp {
            Err(E1000Error::NoPacket)
        } else {
            Ok(())
        }),
{
    if !external_network {
        return Err(E1000Error::ExternalNetworkNotEnabled);
    }
    if !network.dhcp {
        return Err(E1000Error::NoPacket);
    }
    Ok(())
}

/// The configuration after the renewal ACK `ack`: refused unless it acknowledges the address
/// in use, which it keeps.
pub fn renewal_result(previous: NetworkConfiguration, ack: &DhcpReply) -> (r: Result<
    NetworkConfiguration,
    E1000Error,
>)
    ensures
        ack.address@ != previous.address@ ==> r == Err::<NetworkConfiguration, E1000Error>(
            E1000Error::NoPacket,
        ),
        ack.address@ == previous.address@ ==> (r matches Ok(c) && c.address == previous.address
            && c.subnet_mask@ == or_address(address_view(ack.subnet_mask), previous.subnet_mask@)
            && c.gateway@ == or_address(address_view(ack.gateway), previous.gateway@) && c.dns@
            == or_address(address_view(ack.dns), previous.dns@) && c.dhcp_server@ == or_address(
            address_view(ack.server),
            previous.dhcp_server@,
        ) && c.lease_seconds == (match ack.lease_seconds {
            Some(l) => l,
            None => previous.lease_seconds,
        }) && c.dhcp),
{
    if !same_address(ack.address, previous.address) {
        return Err(E1000Error::NoPacket);
    }
    Ok(renewed_configuration(previous, ack))
}

pub const DHCP_ATTEMPTS: u8 = 3;

/// Where acquiring a lease stands: which of the three attempts is running, and whether it waits
/// for an offer or, having requested one, for its acknowledgement.
#[derive(Debug, Clone, Copy, PartialEq, Eq)]
pub enum DhcpAcquisition {
    AwaitingOffer { attempt: u8 },
    AwaitingAck { attempt: u8, address: Ipv4Address, server: Ipv4Address },
}

/// What the driver does next while acquiring a lease.
#[derive(Debug, Clone, Copy, PartialEq, Eq)]
pub enum DhcpAction {
    SendDiscover,
    SendRequest { address: Ipv4Address, server: Ipv4Address },
    Configured(NetworkConfiguration),
    GiveUp,
}

/// After a failed attempt: the next one starts with a new DISCOVER, unless it was the last.
pub open spec fn after_failed_attempt(
    attempt: u8,
    next: DhcpAcquisition,
    previous: DhcpAcquisition,
    action: DhcpAction,
) -> bool {
    if attempt >= 2 {
        action == DhcpAction::GiveUp && next == previous
    } else {
        next == (DhcpAcquisition::AwaitingOffer { attempt: (attempt + 1) as u8 }) && action
            == DhcpAction::SendDiscover
    }
}

impl DhcpAcquisition {
    /// The first attempt starts by broadcasting a DISCOVER.
    pub fn start() -> (r: (DhcpAcquisition, DhcpAction))
        ensures
            r == (DhcpAcquisition::AwaitingOffer { attempt: 0 }, DhcpAction::SendDiscover),
    {
        (DhcpAcquisition::AwaitingOffer { attempt: 0 }, DhcpAction::SendDiscover)
    }

    /// Takes the reply that arrived for the message last sent (`None` when none did): an offer
    /// that names its server is requested; an acknowledgement of the requested address gives
    /// the configuration; anything else ends the attempt.
    pub fn step(&mut self, reply: Option<DhcpReply>) -> (r: DhcpAction)
        ensures
            match *old(self) {
                DhcpAcquisition::AwaitingOffer { attempt } => match reply {
                    Some(offer) if offer.server is Some => {
                        &&& *final(self) == (DhcpAcquisition::AwaitingAck {
                            attempt,
                            address: offer.address,
                            server: offer.server->0,
                        })
                        &&& r == (DhcpAction::SendRequest {
                            address: offer.address,
                            server: offer.server->0,
                        })
                    },
                    _ => after_failed_attempt(attempt, *final(self), *old(self), r),
                },
                DhcpAcquisition::AwaitingAck { attempt, address, server } => match reply {
                    Some(ack) if ack.address@ == address@ => {
                        &&& *final(self) == *old(self)
                        &&& r matches DhcpAction::Configured(c)
                        &&& granted_configuration(c, ack, server)
                    },
                    _ => after_failed_attempt(attempt, *final(self), *old(self), r),
                },
            },
    {
        let current = *self;
        match current {
            DhcpAcquisition::AwaitingOffer { attempt } => {
                if let Some(offer) = reply {
                    if let Some(server) = offer.server {
                        *self = DhcpAcquisition::AwaitingAck { attempt, address: offer.address, server };
                        return DhcpAction::SendRequest { address: offer.address, server };
                    }
                }
                self.retry(attempt)
            },
            DhcpAcquisition::AwaitingAck { attempt, address, server } => {
                if let Some(ack) = reply {
                    if same_address(ack.address, address) {
                        return DhcpAction::Configured(configuration_from_ack(&ack, server));
                    }
                }
                self.retry(attempt)
            },
        }
    }

    fn retry(&mut self, attempt: u8) -> (r: DhcpAction)
        ensures
            after_failed_attempt(attempt, *final(self), *old(self), r),
    {
        if attempt >= DHCP_ATTEMPTS - 1 {
            DhcpAction::GiveUp
        } else {
            *self = DhcpAcquisition::AwaitingOffer { attempt: attempt + 1 };
            DhcpAction::SendDiscover
        }
    }
}

/// The gateway's MAC address, if `frame` carries the ARP reply in which the gateway answers
/// this interface.
pub open spec fn gateway_reply(frame: Seq<u8>, network: NetworkConfiguration) -> Option<Seq<u8>> {
    let p = frame.skip(14);
    if be_at(frame, 12, 2) == 0x0806 && arp_header_ok(p, 2) && field(p, 14, 4) == network.gateway@
        && field(p, 24, 4) == network.address@ {
        Some(field(p, 8, 6))
    } else {
        None
    }
}

pub const ARP_ROUNDS: u8 = 2;
pub const ARP_RECEIVES_PER_ROUND: u8 = 2;

/// Where resolving the gateway's MAC address stands: each of two rounds sends a request and
/// looks at up to two received frames.
#[derive(Debug, Clone, Copy, PartialEq, Eq, Structural)]
pub struct ArpResolution {
    pub round: u8,
    pub received: u8,
}

/// What the driver does next while resolving the gateway.
#[derive(Debug, Clone, Copy, PartialEq, Eq)]
pub enum ArpAction {
    SendRequest,
    Receive,
    Resolved(MacAddress),
    Failed(E1000Error),
}

/// After a round: the next one starts with a new request, unless it was the last.
pub open spec fn after_arp_round(
    previous: ArpResolution,
    next: ArpResolution,
    action: ArpAction,
) -> bool {
    if previous.round >= 1 {
        action == ArpAction::Failed(E1000Error::NoPacket) && next == previous
    } else {
        next == (ArpResolution { round: (previous.round + 1) as u8, received: 0 }) && action
            == ArpAction::SendRequest
    }
}

/// The broadcast frame that carries the ARP request for the gateway; a 28-byte request always
/// fits a frame.
pub fn arp_request_frame(mac_address: MacAddress, network: &NetworkConfiguration) -> (r: Result<
    EthernetFrame,
    E1000Error,
>)
    ensures
        r matches Ok(frame) && frame@ == frame_wire(
            seq![0xffu8, 0xff, 0xff, 0xff, 0xff, 0xff],
            mac_address@,
            0x0806,
            arp_packet(
                1,
                mac_address@,
                network.address@,
                seq![0u8, 0, 0, 0, 0, 0],
                network.gateway@,
            ),
        ),
{
    let request = arp_request(mac_address, network);
    let broadcast: MacAddress = [0xff; 6];
    assert(broadcast@ =~= seq![0xffu8, 0xff, 0xff, 0xff, 0xff, 0xff]);
    match EthernetFrame::new(broadcast, mac_address, ETHER_TYPE_ARP, &request) {
        Ok(frame) => Ok(frame),
        Err(error) => Err(E1000Error::Frame(error)),
    }
}

impl ArpResolution {
    /// A gateway address already known needs no traffic; otherwise the first round starts by
    /// sending the request.
    pub fn start(cached: Option<MacAddress>) -> (r: (ArpResolution, ArpAction))
        ensures
            match cached {
                Some(mac) => r.1 == ArpAction::Resolved(mac),
                None => r == (ArpResolution { round: 0, received: 0 }, ArpAction::SendRequest),
            },
    {
        match cached {
            Some(mac) => (ArpResolution { round: 0, received: 0 }, ArpAction::Resolved(mac)),
            None => (ArpResolution { round: 0, received: 0 }, ArpAction::SendRequest),
        }
    }

    /// Takes the outcome of a receive: the gateway's reply resolves it; a timeout ends the
    /// round; any other receive error fails it; another frame counts against the round's two.
    pub fn step(&mut self, received: Result<&EthernetFrame, E1000Error>, network: &NetworkConfiguration) -> (r:
        ArpAction)
        ensures
            match received {
                Err(E1000Error::InterruptTimeout { .. }) => after_arp_round(
                    *old(self),
                    *final(self),
                    r,
                ),
                Err(e) => r == ArpAction::Failed(e) && *final(self) == *old(self),
                Ok(frame) => match gateway_reply(frame@, *network) {
                    Some(mac) => (r matches ArpAction::Resolved(m) && m@ == mac) && *final(self)
                        == *old(self),
                    None => if old(self).received >= 1 {
                        after_arp_round(*old(self), *final(self), r)
                    } else {
                        *final(self) == (ArpResolution {
                            round: old(self).round,
                            received: (old(self).received + 1) as u8,
                        }) && r == ArpAction::Receive
                    },
                },
            },
    {
        match received {
            Err(E1000Error::InterruptTimeout { .. }) => self.next_round(),
            Err(error) => ArpAction::Failed(error),
            Ok(frame) => {
                if frame.ether_type() == ETHER_TYPE_ARP {
                    if let Some(mac) = gateway_mac_from_reply(frame.payload(), network) {
                        return ArpAction::Resolved(mac);
                    }
                }
                if self.received >= ARP_RECEIVES_PER_ROUND - 1 {
                    self.next_round()
                } else {
                    self.received = self.received + 1;
                    ArpAction::Receive
                }
            },
        }
    }

    fn next_round(&mut self) -> (r: ArpAction)
        ensures
            after_arp_round(*old(self), *final(self), r),
    {
        if self.round >= ARP_ROUNDS - 1 {
            ArpAction::Failed(E1000Error::NoPacket)
        } else {
            self.round = self.round + 1;
            self.received = 0;
            ArpAction::SendRequest
        }
    }
}

/// An ARP packet for IPv4 over Ethernet with operation `operation` (1 request, 2 reply).
pub open spec fn arp_packet(
    operation: u16,
    sender_mac: Seq<u8>,
    sender_ip: Seq<u8>,
    target_mac: Seq<u8>,
    target_ip: Seq<u8>,
) -> Seq<u8> {
    seq![0u8, 1, 8, 0, 6, 4] + be_bytes(operation as nat, 2) + sender_mac + sender_ip + target_mac
        + target_ip
}

/// Whether `p` starts with an ARP header for IPv4 over Ethernet with operation `operation`.
pub open spec fn arp_header_ok(p: Seq<u8>, operation: u16) -> bool {
    &&& p.len() >= 28
    &&& be_at(p, 0, 2) == 1
    &&& be_at(p, 2, 2) == 0x0800
    &&& p[4] == 6
    &&& p[5] == 4
    &&& be_at(p, 6, 2) == operation
}

fn arp_packet_bytes(
    operation: u16,
    sender_mac: MacAddress,
    sender_ip: Ipv4Address,
    target_mac: MacAddress,
    target_ip: Ipv4Address,
) -> (r: [u8; 28])
    ensures
        r@ == arp_packet(operation, sender_mac@, sender_ip@, target_mac@, target_ip@),
{
    let mut p = [0u8; ARP_PACKET_LENGTH];
    p[1] = 1;
    p[2] = 8;
    p[4] = 6;
    p[5] = 4;
    write_be(&mut p, 6, operation as u64, 2);
    copy_into(&mut p, 8, &sender_mac);
    copy_into(&mut p, 14, &sender_ip);
    copy_into(&mut p, 18, &target_mac);
    copy_into(&mut p, 24, &target_ip);
    proof {
        crate::bytes::lemma_be_bytes_len(operation as nat, 2);
    }
    assert(p@ =~= arp_packet(operation, sender_mac@, sender_ip@, target_mac@, target_ip@));
    p
}

/// The ARP request that asks who has the gateway's address.
pub fn arp_request(mac_address: MacAddress, network: &NetworkConfiguration) -> (r: [u8; 28])
    ensures
        r@ == arp_packet(1, mac_address@, network.address@, seq![0u8, 0, 0, 0, 0, 0], network.gateway@),
{
    let zero: MacAddress = [0; 6];
    assert(zero@ =~= seq![0u8, 0, 0, 0, 0, 0]);
    arp_packet_bytes(1, mac_address, network.address, zero, network.gateway)
}

fn arp_header(p: &[u8], operation: u16) -> (r: bool)
    ensures
        r == arp_header_ok(p@, operation),
{
    if p.len() < ARP_PACKET_LENGTH {
        return false;
    }
    crate::bytes::read_be(p, 0, 2) == 1 && crate::bytes::read_be(p, 2, 2) == 0x0800 && p[4] == 6
        && p[5] == 4 && crate::bytes::read_be(p, 6, 2) == operation as u64
}

/// The gateway's MAC address, if `payload` is the ARP reply in which the gateway answers this
/// interface.
pub fn gateway_mac_from_reply(payload: &[u8], network: &NetworkConfiguration) -> (r: Option<
    MacAddress,
>)
    ensures
        (arp_header_ok(payload@, 2) && field(payload@, 14, 4) == network.gateway@ && field(
            payload@,
            24,
            4,
        ) == network.address@) ==> (r matches Some(mac) && mac@ == field(payload@, 8, 6)),
        !(arp_header_ok(payload@, 2) && field(payload@, 14, 4) == network.gateway@ && field(
            payload@,
            24,
            4,
        ) == network.address@) ==> r is None,
{
    if !arp_header(payload, 2) || !crate::bytes::range_equals(payload, 14, 18, &network.gateway)
        || !crate::bytes::range_equals(payload, 24, 28, &network.address) {
        return None;
    }
    let mac: MacAddress = [payload[8], payload[9], payload[10], payload[11], payload[12], payload[13]];
    assert(mac@ =~= field(payload@, 8, 6));
    Some(mac)
}

/// The ARP reply that answers `payload`, with the hardware address to send it to, if `payload`
/// is an ARP request for this interface's address.
pub fn arp_response(payload: &[u8], mac_address: MacAddress, address: Ipv4Address) -> (r: Option<
    (MacAddress, [u8; 28]),
>)
    ensures
        (arp_header_ok(payload@, 1) && field(payload@, 24, 4) == address@) ==> (r matches Some(
            (to, reply),
        ) && to@ == field(payload@, 8, 6) && reply@ == arp_packet(
            2,
            mac_address@,
            address@,
            field(payload@, 8, 6),
            field(payload@, 14, 4),
        )),
        !(arp_header_ok(payload@, 1) && field(payload@, 24, 4) == address@) ==> r is None,
{
    if !arp_header(payload, 1) || !crate::bytes::range_equals(payload, 24, 28, &address) {
        return None;
    }
    let sender_mac: MacAddress = [payload[8], payload[9], payload[10], payload[11], payload[12], payload[13]];
    let sender_ip: Ipv4Address = [payload[14], payload[15], payload[16], payload[17]];
    assert(sender_mac@ =~= field(payload@, 8, 6));
    assert(sender_ip@ =~= field(payload@, 14, 4));
    Some((sender_mac, arp_packet_bytes(2, mac_address, address, sender_mac, sender_ip)))
}

/// The IPv4 packet an Ethernet frame carries, if it is an IPv4 frame whose packet parses: the
/// packet's bytes and its header length.
pub open spec fn ipv4_of(frame: Seq<u8>) -> Option<(Seq<u8>, int)> {
    let p = frame.skip(14);
    if be_at(frame, 12, 2) != 0x0800 || ipv4_check(p) is Some {
        None
    } else {
        Some((p.take(be_at(p, 2, 2) as int), (p[0] % 16) * 4))
    }
}

/// The UDP datagram an IPv4 packet (with header length `header`) carries, if it parses and its
/// checksum verifies against the packet's addresses.
pub open spec fn udp_of(ip: Seq<u8>, header: int) -> Option<Seq<u8>> {
    let d = ip.skip(header);
    if udp_check(d, ip.subrange(12, 16), ip.subrange(16, 20)) is Some {
        None
    } else {
        Some(d.take(be_at(d, 4, 2) as int))
    }
}

/// What becomes of a received frame.
#[derive(Debug, Clone, Copy, PartialEq, Eq, Structural)]
pub enum Received {
    /// An ARP frame, for the ARP responder.
    Arp,
    /// Not a UDP datagram for this interface's port.
    Ignored,
    /// Delivered: the sender's address and port, then the payload, this many bytes in all.
    Delivered(usize),
    /// A datagram for this interface that does not fit in the caller's buffer.
    BufferTooSmall { required: usize, available: usize },
}

/// What receiving `frame` at `address` into a buffer of `available` bytes does.
pub open spec fn received_spec(frame: Seq<u8>, address: Seq<u8>, available: nat) -> Received {
    if be_at(frame, 12, 2) == 0x0806 {
        Received::Arp
    } else {
        match ipv4_of(frame) {
            None => Received::Ignored,
            Some((ip, header)) => if ip.subrange(16, 20) != address || ip[9] != 17 {
                Received::Ignored
            } else {
                match udp_of(ip, header) {
                    None => Received::Ignored,
                    Some(u) => if be_at(u, 2, 2) != 49000 {
                        Received::Ignored
                    } else if 6 + u.len() - 8 > available {
                        Received::BufferTooSmall {
                            required: (6 + u.len() - 8) as usize,
                            available: available as usize,
                        }
                    } else {
                        Received::Delivered((6 + u.len() - 8) as usize)
                    },
                }
            },
        }
    }
}

/// What a delivered datagram leaves at the start of the caller's buffer: the sender's IPv4
/// address, its port (big-endian), then the payload.
pub open spec fn delivered_bytes(frame: Seq<u8>) -> Seq<u8> {
    let (ip, header) = ipv4_of(frame)->0;
    let u = udp_of(ip, header)->0;
    ip.subrange(12, 16) + field(u, 0, 2) + u.skip(8)
}

fn same_address(a: Ipv4Address, b: Ipv4Address) -> (r: bool)
    ensures
        r == (a@ == b@),
{
    let r = a[0] == b[0] && a[1] == b[1] && a[2] == b[2] && a[3] == b[3];
    proof {
        if r {
            assert(a@ =~= b@);
        } else if a@ == b@ {
            assert(a@[0] == b@[0] && a@[1] == b@[1] && a@[2] == b@[2] && a@[3] == b@[3]);
        }
    }
    r
}

/// Receives `frame` for the interface at `address`: a UDP datagram for the interface's port is
/// written to `buffer` as the sender's address, its port and the payload.
pub fn receive_udp_frame(frame: &EthernetFrame, address: Ipv4Address, buffer: &mut [u8]) -> (r:
    Received)
    ensures
        r == received_spec(frame@, address@, old(buffer)@.len()),
        r matches Received::Delivered(n) ==> {
            &&& final(buffer)@.len() == old(buffer)@.len()
            &&& final(buffer)@.take(n as int) == delivered_bytes(frame@)
            &&& final(buffer)@.skip(n as int) == old(buffer)@.skip(n as int)
        },
        !(r is Delivered) ==> final(buffer)@ == old(buffer)@,
{
    let ether_type = frame.ether_type();
    if ether_type == ETHER_TYPE_ARP {
        return Received::Arp;
    }
    if ether_type != ETHER_TYPE_IPV4 {
        return Received::Ignored;
    }
    let packet = match Ipv4Packet::parse(frame.payload()) {
        Err(_) => return Received::Ignored,
        Ok(p) => p,
    };
    if !same_address(packet.destination(), address) || packet.protocol() != IP_PROTOCOL_UDP {
        return Received::Ignored;
    }
    let source = packet.source();
    let datagram = match UdpDatagram::parse(packet.payload(), source, packet.destination()) {
        Err(_) => return Received::Ignored,
        Ok(d) => d,
    };
    if datagram.destination_port() != NETWORK_SOURCE_PORT {
        return Received::Ignored;
    }
    let payload = datagram.payload();
    let length = payload.len();
    let available = buffer.len();
    if length > available || NETWORK_RECEIVE_HEADER_LENGTH > available - length {
        return Received::BufferTooSmall {
            required: NETWORK_RECEIVE_HEADER_LENGTH + length,
            available,
        };
    }
    let required = NETWORK_RECEIVE_HEADER_LENGTH + length;
    let ghost before = buffer@;
    copy_into(buffer, 0, &source);
    let port = datagram.source_port();
    write_be(buffer, 4, port as u64, 2);
    copy_into(buffer, NETWORK_RECEIVE_HEADER_LENGTH, payload);
    proof {
        let u = datagram@;
        crate::bytes::lemma_be_bytes_len(port as nat, 2);
        crate::bytes::lemma_pow256_values();
        crate::bytes::lemma_be_num_bytes(field(u, 0, 2));
        assert(buffer@.take(required as int) =~= delivered_bytes(frame@));
        assert(buffer@.skip(required as int) =~= before.skip(required as int));
    }
    Received::Delivered(required)
}

/// The DHCP reply a frame carries, if it is a UDP datagram from the server port to the client
/// port whose payload parses as a reply to this client's transaction, of the expected type.
pub open spec fn dhcp_reply_spec(frame: Seq<u8>, transaction_id: u32, mac: Seq<u8>, expected: u8) -> Option<
    DhcpReplyView,
> {
    match ipv4_of(frame) {
        None => None,
        Some((ip, header)) => if ip[9] != 17 {
            None
        } else {
            match udp_of(ip, header) {
                None => None,
                Some(u) => if be_at(u, 0, 2) != 67 || be_at(u, 2, 2) != 68 {
                    None
                } else {
                    match parse_reply_spec(u.skip(8), transaction_id, mac) {
                        Ok(reply) => if reply.message_type == expected {
                            Some(reply)
                        } else {
                            None
                        },
                        Err(_) => None,
                    }
                },
            }
        },
    }
}

/// The DHCP reply of type `expected_message_type` to transaction `transaction_id` that `frame`
/// carries, if any.
pub fn dhcp_reply_from_frame(
    frame: &EthernetFrame,
    transaction_id: u32,
    mac_address: MacAddress,
    expected_message_type: u8,
) -> (r: Option<DhcpReply>)
    ensures
        match dhcp_reply_spec(frame@, transaction_id, mac_address@, expected_message_type) {
            Some(v) => r matches Some(reply) && reply@ == v,
            None => r is None,
        },
{
    if frame.ether_type() != ETHER_TYPE_IPV4 {
        return None;
    }
    let packet = match Ipv4Packet::parse(frame.payload()) {
        Err(_) => return None,
        Ok(p) => p,
    };
    if packet.protocol() != IP_PROTOCOL_UDP {
        return None;
    }
    let datagram = match UdpDatagram::parse(packet.payload(), packet.source(), packet.destination()) {
        Err(_) => return None,
        Ok(d) => d,
    };
    if datagram.source_port() != crate::kernel::dhcp::DHCP_SERVER_PORT || datagram.destination_port()
        != crate::kernel::dhcp::DHCP_CLIENT_PORT {
        return None;
    }
    let reply = parse_reply(datagram.payload(), transaction_id, mac_address);
    match reply {
        Ok(reply) => if reply.message_type == expected_message_type {
            Some(reply)
        } else {
            None
        },
        Err(_) => None,
    }
}


/// The Ethernet frame that carries `payload` in a UDP datagram inside an IPv4 packet.
pub open spec fn udp_frame_wire(
    destination_mac: Seq<u8>,
    source_mac: Seq<u8>,
    source: Seq<u8>,
    destination: Seq<u8>,
    source_port: u16,
    destination_port: u16,
    payload: Seq<u8>,
    identification: u16,
) -> Seq<u8> {
    let udp = udp_image(source_port, destination_port, source, destination, payload).take(
        8 + payload.len() as int,
    );
    let ip = ipv4_image(source, destination, 17, udp, identification).take(20 + udp.len() as int);
    frame_wire(destination_mac, source_mac, 0x0800, ip)
}

/// Wraps `payload` in a UDP datagram, an IPv4 packet and an Ethernet frame.
pub fn udp_frame(
    destination_mac: MacAddress,
    source_mac: MacAddress,
    source: Ipv4Address,
    destination: Ipv4Address,
    source_port: u16,
    destination_port: u16,
    payload: &[u8],
    identification: u16,
) -> (r: Result<EthernetFrame, E1000Error>)
    ensures
        payload@.len() > 1472 ==> r == Err::<EthernetFrame, E1000Error>(
            E1000Error::Udp(UdpDatagramError::PayloadTooLarge { length: payload@.len() as usize }),
        ),
        payload@.len() <= 1472 ==> (r matches Ok(frame) && frame@ == udp_frame_wire(
            destination_mac@,
            source_mac@,
            source@,
            destination@,
            source_port,
            destination_port,
            payload@,
            identification,
        )),
{
    let udp = match UdpDatagram::new(source_port, destination_port, source, destination, payload) {
        Err(e) => return Err(E1000Error::Udp(e)),
        Ok(u) => u,
    };
    let packet = match Ipv4Packet::new(source, destination, IP_PROTOCOL_UDP, udp.as_bytes(), identification) {
        Err(e) => return Err(E1000Error::Ipv4(e)),
        Ok(p) => p,
    };
    match EthernetFrame::new(destination_mac, source_mac, ETHER_TYPE_IPV4, packet.as_bytes()) {
        Err(e) => Err(E1000Error::Frame(e)),
        Ok(frame) => Ok(frame),
    }
}

/// How a frame whose layers are known is received.
proof fn lemma_delivery(
    f: Seq<u8>,
    ip: Seq<u8>,
    udp: Seq<u8>,
    source: Seq<u8>,
    destination: Seq<u8>,
    source_port: u16,
    payload: Seq<u8>,
    available: nat,
)
    requires
        be_at(f, 12, 2) == 0x0800,
        f.len() >= 14 + ip.len(),
        f.skip(14).take(ip.len() as int) == ip,
        ip.len() >= 20,
        ipv4_check(ip) is None,
        be_at(ip, 2, 2) == ip.len(),
        (ip[0] % 16) * 4 == 20,
        ip.subrange(12, 16) == source,
        ip.subrange(16, 20) == destination,
        ip[9] == 17,
        ip.skip(20) == udp,
        udp.len() == 8 + payload.len(),
        udp_check(udp, source, destination) is None,
        be_at(udp, 4, 2) == udp.len(),
        field(udp, 0, 2) == be_bytes(source_port as nat, 2),
        be_at(udp, 2, 2) == 49000,
        udp.skip(8) == payload,
        available >= 6 + payload.len(),
    ensures
        received_spec(f, destination, available) == Received::Delivered(
            (6 + payload.len()) as usize,
        ),
        delivered_bytes(f) == source + be_bytes(source_port as nat, 2) + payload,
{
    let p = f.skip(14);
    assert(p.take(20) =~= ip.take(20));
    assert(field(p, 2, 2) =~= field(ip, 2, 2));
    assert(p[0] == ip[0]);
    assert(ipv4_check(p) is None);
    assert(p.take(be_at(p, 2, 2) as int) =~= ip);
    assert(udp.take(be_at(udp, 4, 2) as int) =~= udp);
}

/// A datagram that `udp_frame` sends to this interface's address and receive port is delivered
/// by `receive_udp_frame` to a buffer with room for it: the sender's address, its port and the
/// payload, unchanged.
#[verifier::rlimit(50)]
pub proof fn lemma_sent_datagram_is_delivered(
    destination_mac: Seq<u8>,
    source_mac: Seq<u8>,
    source: Seq<u8>,
    destination: Seq<u8>,
    source_port: u16,
    payload: Seq<u8>,
    identification: u16,
    available: nat,
)
    requires
        destination_mac.len() == 6,
        source_mac.len() == 6,
        source.len() == 4,
        destination.len() == 4,
        payload.len() <= 1472,
        available >= 6 + payload.len(),
    ensures
        ({
            let f = udp_frame_wire(
                destination_mac,
                source_mac,
                source,
                destination,
                source_port,
                49000,
                payload,
                identification,
            );
            &&& received_spec(f, destination, available) == Received::Delivered(
                (6 + payload.len()) as usize,
            )
            &&& delivered_bytes(f) == source + be_bytes(source_port as nat, 2) + payload
        }),
{
    let n = payload.len();
    let udp = udp_image(source_port, 49000, source, destination, payload).take(8 + n as int);
    let ip = ipv4_image(source, destination, 17, udp, identification).take(28 + n as int);
    crate::bytes::lemma_pow256_values();
    crate::bytes::lemma_be_roundtrip(49000, 2);
    crate::kernel::net::lemma_udp_fields(source_port, 49000, source, destination, payload);
    crate::kernel::net::lemma_udp_roundtrip(source_port, 49000, source, destination, payload);
    crate::kernel::net::lemma_ipv4_fields(source, destination, 17, udp, identification);
    crate::kernel::net::lemma_ipv4_roundtrip(source, destination, 17, udp, identification);
    crate::kernel::net::lemma_frame_roundtrip(destination_mac, source_mac, 0x0800, ip);
    let f = frame_wire(destination_mac, source_mac, 0x0800, ip);
    lemma_delivery(f, ip, udp, source, destination, source_port, payload, available);
}

pub const TX_RING_SIZE: usize = 8;
pub const RX_RING_SIZE: usize = 8;
pub const DESCRIPTOR_SIZE: u64 = 16;
/// Transmit command bits: end of packet, insert the frame check sequence, report status.
pub const TXD_COMMAND: u8 = 0x0b;
/// PHY basic-mode value for loopback: loopback, full duplex, 1000 Mb/s, auto-negotiation.
pub const PHY_LOOPBACK_COMMAND: u16 = 0x5140;
pub const MDIC_READY: u32 = 0x1000_0000;
pub const MDIC_ERROR: u32 = 0x4000_0000;

/// The legacy transmit descriptor that hands the device the `length` bytes at physical address
/// `buffer`; a length that does not fit the descriptor's 16-bit field is refused.
pub fn tx_descriptor(buffer: u64, length: usize) -> (r: Result<[u8; 16], E1000Error>)
    ensures
        length > u16::MAX ==> r == Err::<[u8; 16], E1000Error>(E1000Error::Dma(DmaError::AddressOverflow)),
        length <= u16::MAX ==> (r matches Ok(d) && d@ == le_bytes(buffer as nat, 8) + le_bytes(
            length as nat,
            2,
        ) + seq![0u8, TXD_COMMAND, 0, 0, 0, 0]),
{
    if length > 0xffff {
        return Err(E1000Error::Dma(DmaError::AddressOverflow));
    }
    let mut d = [0u8; 16];
    write_le(&mut d, 0, buffer, 8);
    write_le(&mut d, 8, length as u64, 2);
    d[11] = TXD_COMMAND;
    proof {
        lemma_le_bytes_len(buffer as nat, 8);
        lemma_le_bytes_len(length as nat, 2);
    }
    assert(d@ =~= le_bytes(buffer as nat, 8) + le_bytes(length as nat, 2) + seq![
        0u8,
        TXD_COMMAND,
        0,
        0,
        0,
        0,
    ]);
    Ok(d)
}

/// The descriptor after `index` in a ring of eight.
pub fn next_ring_index(index: usize) -> (r: usize)
    requires
        index < RX_RING_SIZE,
    ensures
        r == (index + 1) % 8,
{
    (index + 1) % RX_RING_SIZE
}

/// A ring's 64-bit physical base split into the low and high base-address registers.
pub fn ring_base_registers(base: u64) -> (r: (u32, u32))
    ensures
        r.0 == base % 0x1_0000_0000,
        r.1 == base / 0x1_0000_0000,
{
    ((base % 0x1_0000_0000) as u32, (base / 0x1_0000_0000) as u32)
}

/// The MDIC command that writes `mode` to the PHY's basic-mode register.
pub fn phy_basic_mode_command(mode: u16) -> (r: u32)
    ensures
        r == 0x0420_0000 + mode,
{
    0x0420_0000 + mode as u32
}

/// What the MDIC register says of a PHY access: still busy (`None`), done, or failed.
pub fn mdic_outcome(value: u32) -> (r: Option<Result<(), E1000Error>>)
    ensures
        r == (if value & MDIC_READY == 0 {
            None
        } else if value & MDIC_ERROR != 0 {
            Some(Err(E1000Error::MdicError(value)))
        } else {
            Some(Ok(()))
        }),
{
    if value & MDIC_READY == 0 {
        None
    } else if value & MDIC_ERROR != 0 {
        Some(Err(E1000Error::MdicError(value)))
    } else {
        Some(Ok(()))
    }
}

/// Folds the interrupt causes that `arrived` into the `pending` ones. Once one of the `required`
/// causes is among them, those stop being pending and all the causes seen are handed back;
/// until then everything stays pending.
pub fn take_interrupt_cause(pending: u32, arrived: u32, required: u32) -> (r: (u32, Option<u32>))
    ensures
        r == (if (pending | arrived) & required != 0 {
            ((pending | arrived) & !required, Some(pending | arrived))
        } else {
            (pending | arrived, None::<u32>)
        }),
{
    let cause = pending | arrived;
    if cause & required != 0 {
        (cause & !required, Some(cause))
    } else {
        (cause, None)
    }
}

} // verus!
