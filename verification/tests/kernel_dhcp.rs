use rustos::kernel::dhcp::{
    append_option, base_message, build_discover, build_renew_request, build_request,
    finish_options, parse_ipv4_option, parse_reply, DhcpError, DHCP_ACK, DHCP_DISCOVER,
    DHCP_OFFER, DHCP_OPTIONS_OFFSET, DHCP_REQUEST,
};

const DHCP_MAGIC_COOKIE: [u8; 4] = [99, 130, 83, 99];

#[test]
fn builds_a_broadcast_discover_with_requested_options() {
    let mac = [0x52, 0x54, 0, 0x12, 0x34, 0x56];
    let (message, length) = build_discover(0x5255_5354, mac);
    assert_eq!(length, 251);
    assert_eq!(&message[..4], &[1, 1, 6, 0]);
    assert_eq!(&message[4..8], &0x5255_5354u32.to_be_bytes());
    assert_eq!(&message[28..34], &mac);
    assert_eq!(&message[236..240], &DHCP_MAGIC_COOKIE);
    assert_eq!(&message[240..243], &[53, 1, DHCP_DISCOVER]);
    assert_eq!(&message[243..250], &[55, 5, 1, 3, 6, 51, 54]);
    assert_eq!(message[250], 255);
}

#[test]
fn parses_ack_lease_options_and_ignores_unknown_options() {
    let xid = 0x1122_3344;
    let mac = [0x52, 0x54, 0, 0x12, 0x34, 0x56];
    let mut message = base_message(xid, mac);
    message[0] = 2;
    message[16..20].copy_from_slice(&[10, 0, 2, 15]);
    let mut cursor = DHCP_OPTIONS_OFFSET;
    append_option(&mut message, &mut cursor, 53, &[DHCP_ACK]);
    append_option(&mut message, &mut cursor, 1, &[255, 255, 255, 0]);
    append_option(&mut message, &mut cursor, 3, &[10, 0, 2, 2]);
    append_option(&mut message, &mut cursor, 6, &[10, 0, 2, 3]);
    append_option(&mut message, &mut cursor, 51, &3600u32.to_be_bytes());
    append_option(&mut message, &mut cursor, 54, &[10, 0, 2, 2]);
    append_option(&mut message, &mut cursor, 99, &[1, 2, 3]);
    let (message, length) = finish_options(&mut message, cursor);

    let reply = parse_reply(&message[..length], xid, mac).unwrap();
    assert_eq!(reply.message_type, DHCP_ACK);
    assert_eq!(reply.address, [10, 0, 2, 15]);
    assert_eq!(reply.subnet_mask, Some([255, 255, 255, 0]));
    assert_eq!(reply.gateway, Some([10, 0, 2, 2]));
    assert_eq!(reply.dns, Some([10, 0, 2, 3]));
    assert_eq!(reply.server, Some([10, 0, 2, 2]));
    assert_eq!(reply.lease_seconds, Some(3600));
}

#[test]
fn rejects_a_reply_for_another_transaction_or_client() {
    let xid = 7;
    let mac = [1, 2, 3, 4, 5, 6];
    let (mut message, length) = build_discover(xid, mac);
    message[0] = 2;
    message[16..20].copy_from_slice(&[10, 0, 2, 15]);
    message[250] = 53;
    message[251] = 1;
    message[252] = DHCP_OFFER;
    message[253] = 255;
    assert_eq!(
        parse_reply(&message[..length], xid + 1, mac),
        Err(DhcpError::TransactionMismatch)
    );
    assert_eq!(
        parse_reply(&message[..length], xid, [1, 2, 3, 4, 5, 7]),
        Err(DhcpError::ClientMismatch)
    );
}

#[test]
fn builds_a_renew_request_with_ciaddr_and_no_broadcast_flag() {
    let mac = [0x52, 0x54, 0, 0x12, 0x34, 0x56];
    let address = [10, 0, 2, 15];
    let (message, length) = build_renew_request(0x5255_5354, mac, address);
    assert_eq!(length, 251);
    assert_eq!(&message[10..12], &[0, 0]);
    assert_eq!(&message[12..16], &address);
    assert_eq!(&message[240..243], &[53, 1, DHCP_REQUEST]);
    assert_eq!(&message[243..250], &[55, 5, 1, 3, 6, 51, 54]);
    assert_eq!(message[250], 255);
}

#[test]
fn accepts_a_renewal_ack_that_only_returns_ciaddr() {
    let xid = 0x1122_3344;
    let mac = [0x52, 0x54, 0, 0x12, 0x34, 0x56];
    let address = [10, 0, 2, 15];
    let (mut message, _) = build_renew_request(xid, mac, address);
    message[0] = 2;
    message[16..20].copy_from_slice(&[0, 0, 0, 0]);
    let mut cursor = DHCP_OPTIONS_OFFSET;
    append_option(&mut message, &mut cursor, 53, &[DHCP_ACK]);
    append_option(&mut message, &mut cursor, 51, &3600u32.to_be_bytes());
    let (message, length) = finish_options(&mut message, cursor);

    let reply = parse_reply(&message[..length], xid, mac).unwrap();
    assert_eq!(reply.address, address);
    assert_eq!(reply.lease_seconds, Some(3600));
}

#[test]
fn builds_a_request_naming_the_offered_address_and_server() {
    let mac = [2, 0, 0, 0, 0, 1];
    let (message, length) = build_request(9, mac, [10, 0, 2, 15], [10, 0, 2, 2]);
    assert_eq!(length, 263);
    assert_eq!(&message[10..12], &[0x80, 0]);
    assert_eq!(&message[240..243], &[53, 1, DHCP_REQUEST]);
    assert_eq!(&message[243..249], &[50, 4, 10, 0, 2, 15]);
    assert_eq!(&message[249..255], &[54, 4, 10, 0, 2, 2]);
    assert_eq!(&message[255..262], &[55, 5, 1, 3, 6, 51, 54]);
    assert_eq!(message[262], 255);
    assert!(message[263..].iter().all(|byte| *byte == 0));
}

#[test]
fn client_messages_are_not_replies() {
    let mac = [2, 0, 0, 0, 0, 1];
    let (message, length) = build_discover(5, mac);
    assert_eq!(parse_reply(&message[..length], 5, mac), Err(DhcpError::InvalidHeader));
}

#[test]
fn reports_each_reply_error() {
    let xid = 3;
    let mac = [2, 0, 0, 0, 0, 1];
    assert_eq!(
        parse_reply(&[0u8; 239], xid, mac),
        Err(DhcpError::TooShort { length: 239 })
    );
    let mut message = base_message(xid, mac);
    message[0] = 2;
    message[16..20].copy_from_slice(&[10, 0, 2, 15]);
    let mut bad_cookie = message;
    bad_cookie[236] = 0;
    assert_eq!(parse_reply(&bad_cookie, xid, mac), Err(DhcpError::InvalidCookie));
    assert_eq!(parse_reply(&message, xid, mac), Err(DhcpError::MissingMessageType));
    let mut truncated = message;
    truncated[240] = 53;
    truncated[241] = 200;
    assert_eq!(parse_reply(&truncated, xid, mac), Err(DhcpError::MalformedOptions));
    let mut no_address = base_message(xid, mac);
    no_address[0] = 2;
    let mut cursor = DHCP_OPTIONS_OFFSET;
    append_option(&mut no_address, &mut cursor, 53, &[DHCP_OFFER]);
    let (no_address, length) = finish_options(&mut no_address, cursor);
    assert_eq!(parse_reply(&no_address[..length], xid, mac), Err(DhcpError::MissingAddress));
}

#[test]
fn address_options_need_four_bytes() {
    assert_eq!(parse_ipv4_option(&[1, 2, 3]), None);
    assert_eq!(parse_ipv4_option(&[1, 2, 3, 4, 5]), Some([1, 2, 3, 4]));
}
