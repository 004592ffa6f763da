use rustos::kernel::e1000::{check_receive, check_send};
use rustos::kernel::dhcp::{
    append_option, base_message, finish_options, parse_reply, DhcpReply, DHCP_ACK, DHCP_OFFER,
    DHCP_OPTIONS_OFFSET,
};
use rustos::kernel::e1000::{
    arp_request, arp_response, configuration_from_ack, dhcp_reply_from_frame, gateway_mac_from_reply,
    receive_udp_frame, renewed_configuration, udp_frame, DmaError, DmaPage, NetworkConfiguration,
    E1000Error, Received, NETWORK_SOURCE_PORT, arp_request_frame, check_payload_length, dhcp_frame, loopback_outcome, rx_descriptor_outcome, check_renewal, ArpAction, ArpResolution, renewal_result, DhcpAcquisition,
    DhcpAction,
};
use rustos::kernel::e1000::{
    mdic_outcome, next_ring_index, phy_basic_mode_command, ring_base_registers,
    take_interrupt_cause, tx_descriptor, PHY_LOOPBACK_COMMAND,
};
use rustos::kernel::net::{EthernetFrame, UdpDatagramError, ETHER_TYPE_ARP};

const OUR_MAC: [u8; 6] = [0x52, 0x54, 0, 0x12, 0x34, 0x56];
const GATEWAY_MAC: [u8; 6] = [0x52, 0x55, 10, 0, 2, 2];

#[test]
fn dma_pointers_stay_inside_the_page() {
    let page = DmaPage { physical_base: 0x10_0000, virtual_base: 0xffff_8000_0010_0000 };
    assert_eq!(page.pointer(8, 8, 8), Ok(0xffff_8000_0010_0008));
    assert_eq!(page.pointer(6, 8, 8), Err(DmaError::Unaligned { offset: 6, alignment: 8 }));
    assert_eq!(page.pointer(4092, 8, 4), Err(DmaError::OutOfBounds { offset: 4092, size: 8 }));
    assert_eq!(page.pointer(u64::MAX, 2, 1), Err(DmaError::AddressOverflow));
    let high = DmaPage { physical_base: 0, virtual_base: u64::MAX - 2 };
    assert_eq!(high.pointer(4, 1, 1), Err(DmaError::AddressOverflow));
}

fn ack_message(xid: u32, options: &[(u8, &[u8])]) -> ([u8; 300], usize) {
    let mut message = base_message(xid, OUR_MAC);
    message[0] = 2;
    message[16..20].copy_from_slice(&[10, 0, 2, 15]);
    let mut cursor = DHCP_OPTIONS_OFFSET;
    for (code, value) in options {
        append_option(&mut message, &mut cursor, *code, value);
    }
    finish_options(&mut message, cursor)
}

#[test]
fn configurations_fill_gaps_from_defaults_or_the_previous_lease() {
    let (message, length) = ack_message(1, &[(53, &[DHCP_ACK]), (3, &[10, 0, 2, 1]), (51, &600u32.to_be_bytes())]);
    let ack = parse_reply(&message[..length], 1, OUR_MAC).unwrap();
    let configuration = configuration_from_ack(&ack, [10, 0, 2, 4]);
    assert_eq!(
        configuration,
        NetworkConfiguration {
            address: [10, 0, 2, 15],
            subnet_mask: [255, 255, 255, 0],
            gateway: [10, 0, 2, 1],
            dns: [10, 0, 2, 3],
            dhcp_server: [10, 0, 2, 4],
            lease_seconds: 600,
            dhcp: true,
        }
    );
    let (message, length) = ack_message(2, &[(53, &[DHCP_ACK]), (6, &[1, 1, 1, 1])]);
    let renewal = parse_reply(&message[..length], 2, OUR_MAC).unwrap();
    let renewed = renewed_configuration(configuration, &renewal);
    assert_eq!(renewed.dns, [1, 1, 1, 1]);
    assert_eq!(renewed.gateway, [10, 0, 2, 1]);
    assert_eq!(renewed.lease_seconds, 600);
    assert_eq!(NetworkConfiguration::static_default().address, [10, 0, 2, 15]);
    assert!(!NetworkConfiguration::static_default().dhcp);
}

#[test]
fn resolves_the_gateway_and_answers_arp_requests() {
    let network = NetworkConfiguration::static_default();
    let request = arp_request(OUR_MAC, &network);
    assert_eq!(&request[..8], &[0, 1, 8, 0, 6, 4, 0, 1]);
    assert_eq!(&request[8..14], &OUR_MAC);
    assert_eq!(&request[14..18], &[10, 0, 2, 15]);
    assert_eq!(&request[18..24], &[0; 6]);
    assert_eq!(&request[24..28], &[10, 0, 2, 2]);

    let mut reply = [0u8; 28];
    reply[..8].copy_from_slice(&[0, 1, 8, 0, 6, 4, 0, 2]);
    reply[8..14].copy_from_slice(&GATEWAY_MAC);
    reply[14..18].copy_from_slice(&[10, 0, 2, 2]);
    reply[18..24].copy_from_slice(&OUR_MAC);
    reply[24..28].copy_from_slice(&[10, 0, 2, 15]);
    assert_eq!(gateway_mac_from_reply(&reply, &network), Some(GATEWAY_MAC));
    assert_eq!(gateway_mac_from_reply(&reply[..27], &network), None);
    assert_eq!(arp_response(&reply, OUR_MAC, network.address), None);

    let mut incoming = reply;
    incoming[7] = 1;
    let (to, response) = arp_response(&incoming, OUR_MAC, network.address).unwrap();
    assert_eq!(to, GATEWAY_MAC);
    assert_eq!(&response[6..8], &[0, 2]);
    assert_eq!(&response[8..14], &OUR_MAC);
    assert_eq!(&response[18..24], &GATEWAY_MAC);
    assert_eq!(&response[24..28], &[10, 0, 2, 2]);
    assert_eq!(arp_response(&incoming, OUR_MAC, [10, 0, 2, 16]), None);
}

#[test]
fn delivers_datagrams_for_this_interface() {
    let frame = udp_frame(OUR_MAC, GATEWAY_MAC, [10, 0, 2, 2], [10, 0, 2, 15], 7, NETWORK_SOURCE_PORT, b"hello", 1).unwrap();
    let mut buffer = [0xaau8; 16];
    assert_eq!(receive_udp_frame(&frame, [10, 0, 2, 15], &mut buffer), Received::Delivered(11));
    assert_eq!(&buffer[..11], &[10, 0, 2, 2, 0, 7, b'h', b'e', b'l', b'l', b'o']);
    assert_eq!(&buffer[11..], &[0xaa; 5]);

    let mut small = [0u8; 10];
    assert_eq!(
        receive_udp_frame(&frame, [10, 0, 2, 15], &mut small),
        Received::BufferTooSmall { required: 11, available: 10 }
    );
    assert_eq!(small, [0; 10]);
    assert_eq!(receive_udp_frame(&frame, [10, 0, 2, 16], &mut buffer), Received::Ignored);

    let other_port = udp_frame(OUR_MAC, GATEWAY_MAC, [10, 0, 2, 2], [10, 0, 2, 15], 7, 53, b"x", 1).unwrap();
    assert_eq!(receive_udp_frame(&other_port, [10, 0, 2, 15], &mut buffer), Received::Ignored);

    let arp = EthernetFrame::new(OUR_MAC, GATEWAY_MAC, ETHER_TYPE_ARP, &[0; 28]).unwrap();
    assert_eq!(receive_udp_frame(&arp, [10, 0, 2, 15], &mut buffer), Received::Arp);
}

#[test]
fn picks_dhcp_replies_out_of_received_frames() {
    let (message, length) = ack_message(9, &[(53, &[DHCP_OFFER]), (54, &[10, 0, 2, 2])]);
    let frame = udp_frame(OUR_MAC, GATEWAY_MAC, [10, 0, 2, 2], [255, 255, 255, 255], 67, 68, &message[..length], 3).unwrap();
    let offer = dhcp_reply_from_frame(&frame, 9, OUR_MAC, DHCP_OFFER).unwrap();
    assert_eq!(offer.address, [10, 0, 2, 15]);
    assert_eq!(offer.server, Some([10, 0, 2, 2]));
    assert_eq!(dhcp_reply_from_frame(&frame, 9, OUR_MAC, DHCP_ACK), None);
    assert_eq!(dhcp_reply_from_frame(&frame, 10, OUR_MAC, DHCP_OFFER), None);
    let wrong_port = udp_frame(OUR_MAC, GATEWAY_MAC, [10, 0, 2, 2], [255, 255, 255, 255], 68, 68, &message[..length], 3).unwrap();
    assert_eq!(dhcp_reply_from_frame(&wrong_port, 9, OUR_MAC, DHCP_OFFER), None);
}

#[test]
fn refuses_payloads_too_large_for_one_frame() {
    assert_eq!(
        udp_frame(OUR_MAC, GATEWAY_MAC, [1, 2, 3, 4], [5, 6, 7, 8], 1, 2, &[0; 1473], 0).err(),
        Some(E1000Error::Udp(UdpDatagramError::PayloadTooLarge { length: 1473 }))
    );
    let largest = udp_frame(OUR_MAC, GATEWAY_MAC, [1, 2, 3, 4], [5, 6, 7, 8], 1, 2, &[0; 1472], 0).unwrap();
    assert_eq!(largest.len(), 14 + 20 + 8 + 1472);
}

fn reply(message_type: u8, address: [u8; 4], server: Option<[u8; 4]>) -> DhcpReply {
    DhcpReply {
        message_type,
        address,
        subnet_mask: None,
        gateway: None,
        dns: None,
        server,
        lease_seconds: Some(86_400),
    }
}

#[test]
fn acquires_a_lease_by_discover_offer_request_ack() {
    let (mut state, action) = DhcpAcquisition::start();
    assert_eq!(action, DhcpAction::SendDiscover);
    let offer = reply(DHCP_OFFER, [10, 0, 2, 15], Some([10, 0, 2, 2]));
    assert_eq!(
        state.step(Some(offer)),
        DhcpAction::SendRequest { address: [10, 0, 2, 15], server: [10, 0, 2, 2] }
    );
    let ack = reply(DHCP_ACK, [10, 0, 2, 15], None);
    match state.step(Some(ack)) {
        DhcpAction::Configured(configuration) => {
            assert_eq!(configuration.address, [10, 0, 2, 15]);
            assert_eq!(configuration.dhcp_server, [10, 0, 2, 2]);
            assert_eq!(configuration.lease_seconds, 86_400);
            assert!(configuration.dhcp);
        }
        other => panic!("unexpected {:?}", other),
    }
}

#[test]
fn gives_up_after_three_failed_attempts() {
    let (mut state, _) = DhcpAcquisition::start();
    assert_eq!(state.step(None), DhcpAction::SendDiscover);
    assert_eq!(state, DhcpAcquisition::AwaitingOffer { attempt: 1 });
    let serverless = reply(DHCP_OFFER, [10, 0, 2, 15], None);
    assert_eq!(state.step(Some(serverless)), DhcpAction::SendDiscover);
    let offer = reply(DHCP_OFFER, [10, 0, 2, 15], Some([10, 0, 2, 2]));
    assert!(matches!(state.step(Some(offer)), DhcpAction::SendRequest { .. }));
    let other_address = reply(DHCP_ACK, [10, 0, 2, 16], None);
    assert_eq!(state.step(Some(other_address)), DhcpAction::GiveUp);
}

#[test]
fn renews_only_the_address_in_use() {
    let mut network = NetworkConfiguration::static_default();
    assert_eq!(check_renewal(false, &network), Err(E1000Error::ExternalNetworkNotEnabled));
    assert_eq!(check_renewal(true, &network), Err(E1000Error::NoPacket));
    network.dhcp = true;
    network.lease_seconds = 60;
    assert_eq!(check_renewal(true, &network), Ok(()));
    let other = reply(DHCP_ACK, [10, 0, 2, 99], None);
    assert_eq!(renewal_result(network, &other), Err(E1000Error::NoPacket));
    let same = reply(DHCP_ACK, [10, 0, 2, 15], Some([10, 0, 2, 4]));
    let renewed = renewal_result(network, &same).unwrap();
    assert_eq!(renewed.address, [10, 0, 2, 15]);
    assert_eq!(renewed.dhcp_server, [10, 0, 2, 4]);
    assert_eq!(renewed.lease_seconds, 86_400);
}

#[test]
fn refuses_payloads_larger_than_the_transmit_buffer() {
    assert_eq!(check_payload_length(1024, 1024), Ok(()));
    assert_eq!(
        check_payload_length(1025, 1024),
        Err(E1000Error::NetworkBufferTooSmall { required: 1025, available: 1024 })
    );
    assert_eq!(
        check_payload_length(301, 300),
        Err(E1000Error::NetworkBufferTooSmall { required: 301, available: 300 })
    );
}

fn gateway_reply_frame() -> EthernetFrame {
    let mut reply = [0u8; 28];
    reply[..8].copy_from_slice(&[0, 1, 8, 0, 6, 4, 0, 2]);
    reply[8..14].copy_from_slice(&GATEWAY_MAC);
    reply[14..18].copy_from_slice(&[10, 0, 2, 2]);
    reply[18..24].copy_from_slice(&OUR_MAC);
    reply[24..28].copy_from_slice(&[10, 0, 2, 15]);
    EthernetFrame::new(OUR_MAC, GATEWAY_MAC, ETHER_TYPE_ARP, &reply).unwrap()
}

#[test]
fn resolves_the_gateway_within_two_rounds() {
    let network = NetworkConfiguration::static_default();
    let request = arp_request_frame(OUR_MAC, &network).unwrap();
    assert_eq!(&request.as_bytes()[..6], &[0xff; 6]);
    assert_eq!(request.ether_type(), ETHER_TYPE_ARP);
    assert_eq!(&request.payload()[..28], &arp_request(OUR_MAC, &network));

    let (_, action) = ArpResolution::start(Some(GATEWAY_MAC));
    assert_eq!(action, ArpAction::Resolved(GATEWAY_MAC));

    let (mut arp, action) = ArpResolution::start(None);
    assert_eq!(action, ArpAction::SendRequest);
    let other = EthernetFrame::new(OUR_MAC, GATEWAY_MAC, 0x0800, &[0; 46]).unwrap();
    assert_eq!(arp.step(Ok(&other), &network), ArpAction::Receive);
    assert_eq!(arp.step(Ok(&other), &network), ArpAction::SendRequest);
    assert_eq!(arp, ArpResolution { round: 1, received: 0 });
    let reply = gateway_reply_frame();
    assert_eq!(arp.step(Ok(&reply), &network), ArpAction::Resolved(GATEWAY_MAC));
}

#[test]
fn gives_up_on_the_gateway_after_timeouts_or_errors() {
    let network = NetworkConfiguration::static_default();
    let timeout = E1000Error::InterruptTimeout { cause: 0, rctl: 0, tdh: 0, rdh: 0, rdt: 0, mdic: 0 };
    let (mut arp, _) = ArpResolution::start(None);
    assert_eq!(arp.step(Err(timeout), &network), ArpAction::SendRequest);
    assert_eq!(arp.step(Err(timeout), &network), ArpAction::Failed(E1000Error::NoPacket));
    let (mut arp, _) = ArpResolution::start(None);
    assert_eq!(arp.step(Err(E1000Error::RxPacketMismatch), &network), ArpAction::Failed(E1000Error::RxPacketMismatch));
    let mut wrong = network;
    wrong.gateway = [10, 0, 2, 9];
    let (mut arp, _) = ArpResolution::start(None);
    assert_eq!(arp.step(Ok(&gateway_reply_frame()), &wrong), ArpAction::Receive);
}

#[test]
fn frames_dhcp_messages_for_broadcast() {
    let (message, length) = ack_message(5, &[(53, &[DHCP_ACK])]);
    let frame = dhcp_frame(OUR_MAC, [0; 4], [255; 4], &message[..length], 9).unwrap();
    assert_eq!(&frame.as_bytes()[..6], &[0xff; 6]);
    assert_eq!(&frame.as_bytes()[6..12], &OUR_MAC);
    let payload = frame.payload();
    assert_eq!(&payload[12..16], &[0, 0, 0, 0]);
    assert_eq!(&payload[16..20], &[255, 255, 255, 255]);
    assert_eq!(&payload[20..24], &[0, 68, 0, 67]);
    assert_eq!(
        dhcp_frame(OUR_MAC, [0; 4], [255; 4], &[0; 301], 9).unwrap_err(),
        E1000Error::NetworkBufferTooSmall { required: 301, available: 300 }
    );
}

#[test]
fn decides_on_receive_descriptors_and_loopback_frames() {
    assert_eq!(rx_descriptor_outcome(0x1, 60), None);
    assert_eq!(rx_descriptor_outcome(0x3, 60), Some(Ok(60)));
    assert_eq!(rx_descriptor_outcome(0x7, 1519), Some(Err(E1000Error::RxFrameTooLarge { length: 1519 })));
    let frame = EthernetFrame::new(OUR_MAC, OUR_MAC, 0x88b5, b"loopback").unwrap();
    assert_eq!(loopback_outcome(&frame, &frame, OUR_MAC), Ok(()));
    assert_eq!(loopback_outcome(&frame, &frame, GATEWAY_MAC), Err(E1000Error::RxPacketMismatch));
    let other = EthernetFrame::new(OUR_MAC, OUR_MAC, 0x88b5, b"loopbacK").unwrap();
    assert_eq!(loopback_outcome(&frame, &other, OUR_MAC), Err(E1000Error::RxPacketMismatch));
}

#[test]
fn tx_descriptor_layout() {
    let d = tx_descriptor(0x0000_0001_2345_6000, 60).unwrap();
    assert_eq!(d, [0x00, 0x60, 0x45, 0x23, 0x01, 0, 0, 0, 60, 0, 0, 0x0b, 0, 0, 0, 0]);
    assert_eq!(tx_descriptor(0x1000, 65_536), Err(E1000Error::Dma(DmaError::AddressOverflow)));
    assert_eq!(tx_descriptor(0x1000, 65_535).unwrap()[8..10], [0xff, 0xff]);
}

#[test]
fn ring_registers_and_indices() {
    assert_eq!(ring_base_registers(0x0000_0001_2345_6000), (0x2345_6000, 1));
    assert_eq!(next_ring_index(3), 4);
    assert_eq!(next_ring_index(7), 0);
}

#[test]
fn phy_access_through_mdic() {
    assert_eq!(PHY_LOOPBACK_COMMAND, 0x5140);
    assert_eq!(phy_basic_mode_command(PHY_LOOPBACK_COMMAND), 0x0420_5140);
    assert_eq!(mdic_outcome(0x0420_5140), None);
    assert_eq!(mdic_outcome(0x1420_5140), Some(Ok(())));
    assert_eq!(mdic_outcome(0x5420_5140), Some(Err(E1000Error::MdicError(0x5420_5140))));
}

#[test]
fn interrupt_causes_wait_for_the_required_one() {
    // Only a transmit cause so far: a receive waiter keeps it pending.
    assert_eq!(take_interrupt_cause(0, 0x01, 0x80), (0x01, None));
    // The receive cause arrives: it is consumed, the transmit cause stays pending.
    assert_eq!(take_interrupt_cause(0x01, 0x80, 0x80), (0x01, Some(0x81)));
}

#[test]
fn transfers_check_the_network_and_buffer_first() {
    assert_eq!(check_receive(false, 64), Err(E1000Error::ExternalNetworkNotEnabled));
    assert_eq!(
        check_receive(true, 5),
        Err(E1000Error::NetworkBufferTooSmall { required: 6, available: 5 })
    );
    assert_eq!(check_receive(true, 6), Ok(()));
    assert_eq!(check_send(false, 10), Err(E1000Error::ExternalNetworkNotEnabled));
    assert_eq!(
        check_send(true, 1025),
        Err(E1000Error::NetworkBufferTooSmall { required: 1025, available: 1024 })
    );
    assert_eq!(check_send(true, 1024), Ok(()));
}
