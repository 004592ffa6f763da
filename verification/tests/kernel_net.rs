use rustos::kernel::net::{
    internet_checksum, udp_checksum, EthernetFrame, EthernetFrameError, Ipv4Packet,
    Ipv4PacketError, UdpDatagram, UdpDatagramError, ETHERNET_MAX_FRAME_LENGTH,
    ETHERNET_MAX_PAYLOAD_LENGTH, ETHERNET_MIN_FRAME_LENGTH, ETHER_TYPE_IPV4, IPV4_HEADER_LENGTH,
    IPV4_MAX_PACKET_LENGTH, IP_PROTOCOL_UDP, UDP_HEADER_LENGTH, UDP_MAX_PACKET_LENGTH,
    UDP_MAX_PAYLOAD_LENGTH,
};

#[test]
fn constructs_and_parses_padded_frame() {
    let frame = EthernetFrame::new(
        [0x10, 0x11, 0x12, 0x13, 0x14, 0x15],
        [0x20, 0x21, 0x22, 0x23, 0x24, 0x25],
        0x88b5,
        b"RustOS",
    )
    .unwrap();
    assert_eq!(frame.len(), ETHERNET_MIN_FRAME_LENGTH);
    assert_eq!(frame.destination(), [0x10, 0x11, 0x12, 0x13, 0x14, 0x15]);
    assert_eq!(frame.source(), [0x20, 0x21, 0x22, 0x23, 0x24, 0x25]);
    assert_eq!(frame.ether_type(), 0x88b5);
    assert!(frame.payload().starts_with(b"RustOS"));
    assert_eq!(EthernetFrame::parse(frame.as_bytes()).unwrap(), frame);
}

#[test]
fn rejects_frames_outside_ethernet_bounds() {
    assert_eq!(
        EthernetFrame::parse(&[0u8; ETHERNET_MIN_FRAME_LENGTH - 1]),
        Err(EthernetFrameError::TooShort {
            length: ETHERNET_MIN_FRAME_LENGTH - 1,
        })
    );
    assert_eq!(
        EthernetFrame::parse(&[0u8; ETHERNET_MAX_FRAME_LENGTH + 1]),
        Err(EthernetFrameError::TooLarge {
            length: ETHERNET_MAX_FRAME_LENGTH + 1,
        })
    );
    assert_eq!(
        EthernetFrame::new([0; 6], [0; 6], 0x0800, &[0; ETHERNET_MAX_PAYLOAD_LENGTH + 1]),
        Err(EthernetFrameError::PayloadTooLarge {
            length: ETHERNET_MAX_PAYLOAD_LENGTH + 1,
        })
    );
}

#[test]
fn accepts_the_maximum_frame_without_fcs() {
    let frame =
        EthernetFrame::new([0; 6], [1; 6], 0x0800, &[0xa5; ETHERNET_MAX_PAYLOAD_LENGTH]).unwrap();
    assert_eq!(frame.len(), ETHERNET_MAX_FRAME_LENGTH);
}

#[test]
fn constructs_and_parses_ipv4_udp_through_padded_ethernet() {
    let source_ip = [192, 0, 2, 1];
    let destination_ip = [192, 0, 2, 2];
    let udp = UdpDatagram::new(4242, 4243, source_ip, destination_ip, b"RustOS IPv4 UDP").unwrap();
    let ip = Ipv4Packet::new(source_ip, destination_ip, IP_PROTOCOL_UDP, udp.as_bytes(), 0x1234)
        .unwrap();
    let frame = EthernetFrame::new([0; 6], [1; 6], ETHER_TYPE_IPV4, ip.as_bytes()).unwrap();

    assert_eq!(frame.len(), ETHERNET_MIN_FRAME_LENGTH);
    assert_eq!(frame.payload().len(), 46);
    assert!(ip.len() < frame.payload().len());

    let parsed_frame = EthernetFrame::parse(frame.as_bytes()).unwrap();
    let parsed_ip = Ipv4Packet::parse(parsed_frame.payload()).unwrap();
    let parsed_udp =
        UdpDatagram::parse(parsed_ip.payload(), parsed_ip.source(), parsed_ip.destination())
            .unwrap();

    assert_eq!(parsed_ip, ip);
    assert_eq!(parsed_ip.source(), source_ip);
    assert_eq!(parsed_ip.destination(), destination_ip);
    assert_eq!(parsed_ip.protocol(), IP_PROTOCOL_UDP);
    assert_eq!(parsed_ip.identification(), 0x1234);
    assert_eq!(parsed_udp, udp);
    assert_eq!(parsed_udp.source_port(), 4242);
    assert_eq!(parsed_udp.destination_port(), 4243);
    assert_eq!(parsed_udp.payload(), b"RustOS IPv4 UDP");
}

#[test]
fn rejects_corrupt_ipv4_and_udp_checksums() {
    let source_ip = [198, 51, 100, 1];
    let destination_ip = [198, 51, 100, 2];
    let udp = UdpDatagram::new(1000, 1001, source_ip, destination_ip, b"checksum").unwrap();
    let ip = Ipv4Packet::new(source_ip, destination_ip, IP_PROTOCOL_UDP, udp.as_bytes(), 7).unwrap();

    let mut corrupt_ip = [0u8; IPV4_MAX_PACKET_LENGTH];
    corrupt_ip[..ip.len()].copy_from_slice(ip.as_bytes());
    corrupt_ip[8] ^= 1;
    assert_eq!(
        Ipv4Packet::parse(&corrupt_ip[..ip.len()]),
        Err(Ipv4PacketError::InvalidChecksum)
    );

    let mut corrupt_udp = [0u8; UDP_MAX_PACKET_LENGTH];
    corrupt_udp[..udp.len()].copy_from_slice(udp.as_bytes());
    corrupt_udp[UDP_HEADER_LENGTH] ^= 1;
    assert_eq!(
        UdpDatagram::parse(&corrupt_udp[..udp.len()], source_ip, destination_ip),
        Err(UdpDatagramError::InvalidChecksum)
    );
}

#[test]
fn rejects_oversized_ipv4_and_udp_payloads() {
    assert_eq!(
        UdpDatagram::new(1, 2, [192, 0, 2, 1], [192, 0, 2, 2], &[0u8; UDP_MAX_PAYLOAD_LENGTH + 1]),
        Err(UdpDatagramError::PayloadTooLarge {
            length: UDP_MAX_PAYLOAD_LENGTH + 1,
        })
    );

    assert_eq!(
        Ipv4Packet::new(
            [192, 0, 2, 1],
            [192, 0, 2, 2],
            IP_PROTOCOL_UDP,
            &[0u8; IPV4_MAX_PACKET_LENGTH - IPV4_HEADER_LENGTH + 1],
            0
        ),
        Err(Ipv4PacketError::PayloadTooLarge {
            length: IPV4_MAX_PACKET_LENGTH - IPV4_HEADER_LENGTH + 1,
        })
    );
}

#[test]
fn internet_checksum_matches_the_rfc_1071_example() {
    let bytes = [0x00, 0x01, 0xf2, 0x03, 0xf4, 0xf5, 0xf6, 0xf7];
    assert_eq!(internet_checksum(&bytes), !0xddf2u16);
    assert_eq!(internet_checksum(&[]), 0xffff);
    assert_eq!(internet_checksum(&[0x01]), !0x0100u16);
}

#[test]
fn built_ipv4_header_sums_to_all_ones() {
    let ip = Ipv4Packet::new([10, 0, 0, 1], [10, 0, 0, 2], 17, b"abc", 99).unwrap();
    assert_eq!(internet_checksum(&ip.as_bytes()[..IPV4_HEADER_LENGTH]), 0);
    assert_eq!(ip.len(), 23);
    assert_eq!(ip.payload(), b"abc");
    assert_eq!(ip.as_bytes()[0], 0x45);
    assert_eq!(ip.as_bytes()[8], 64);
}

#[test]
fn built_udp_datagram_verifies_against_its_pseudo_header() {
    let source = [10, 0, 2, 15];
    let destination = [10, 0, 2, 2];
    let udp = UdpDatagram::new(68, 67, source, destination, b"xyz").unwrap();
    assert_eq!(udp.len(), 11);
    assert_ne!(udp.checksum(), 0);
    assert_eq!(udp_checksum(source, destination, udp.as_bytes()), 0);
    assert_eq!(
        UdpDatagram::parse(udp.as_bytes(), [10, 0, 2, 16], destination),
        Err(UdpDatagramError::InvalidChecksum)
    );
}

#[test]
fn rejects_ipv4_headers_with_bad_fields() {
    let ip = Ipv4Packet::new([1, 2, 3, 4], [5, 6, 7, 8], 17, b"data", 1).unwrap();
    let mut bytes = [0u8; 24];
    bytes.copy_from_slice(ip.as_bytes());
    assert_eq!(
        Ipv4Packet::parse(&bytes[..19]),
        Err(Ipv4PacketError::TooShort { length: 19 })
    );
    let mut wrong_version = bytes;
    wrong_version[0] = 0x65;
    assert_eq!(
        Ipv4Packet::parse(&wrong_version),
        Err(Ipv4PacketError::InvalidVersion { version: 6 })
    );
    let mut short_header = bytes;
    short_header[0] = 0x44;
    assert_eq!(
        Ipv4Packet::parse(&short_header),
        Err(Ipv4PacketError::InvalidHeaderLength { length: 16 })
    );
    let mut long_declared = bytes;
    long_declared[2] = 0;
    long_declared[3] = 30;
    assert_eq!(
        Ipv4Packet::parse(&long_declared),
        Err(Ipv4PacketError::LengthMismatch {
            declared: 30,
            available: 24
        })
    );
}
