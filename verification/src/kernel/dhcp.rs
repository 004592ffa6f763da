//! DHCP client messages: building DISCOVER and REQUEST messages and parsing the server's reply.
use vstd::prelude::*;
use crate::bytes::{be_at, be_bytes, copy_into, field, read_be, splice, write_be, zeros, range_equals};
use crate::kernel::net::Ipv4Address;

verus! {

pub const DHCP_CLIENT_PORT: u16 = 68;
pub const DHCP_SERVER_PORT: u16 = 67;
pub const DHCP_DISCOVER: u8 = 1;
pub const DHCP_OFFER: u8 = 2;
pub const DHCP_REQUEST: u8 = 3;
pub const DHCP_ACK: u8 = 5;
pub const DHCP_MESSAGE_BUFFER_LENGTH: usize = 300;
pub const DHCP_OPTIONS_OFFSET: usize = 240;

#[derive(Debug, Clone, Copy, PartialEq, Eq, Structural)]
pub enum DhcpError {
    TooShort { length: usize },
    InvalidHeader,
    TransactionMismatch,
    ClientMismatch,
    InvalidCookie,
    MissingMessageType,
    MalformedOptions,
    MissingAddress,
}

/// What a DHCP reply offers or acknowledges.
#[derive(Debug, Clone, Copy, PartialEq, Eq)]
pub struct DhcpReply {
    pub message_type: u8,
    pub address: Ipv4Address,
    pub subnet_mask: Option<Ipv4Address>,
    pub gateway: Option<Ipv4Address>,
    pub dns: Option<Ipv4Address>,
    pub server: Option<Ipv4Address>,
    pub lease_seconds: Option<u32>,
}

/// The options of a DHCP message that the client reads, as far as they have been seen.
pub struct DhcpOptionsView {
    pub message_type: Option<u8>,
    pub subnet_mask: Option<Seq<u8>>,
    pub gateway: Option<Seq<u8>>,
    pub dns: Option<Seq<u8>>,
    pub server: Option<Seq<u8>>,
    pub lease_seconds: Option<u32>,
}

/// A DHCP reply with its addresses as byte sequences.
pub struct DhcpReplyView {
    pub message_type: u8,
    pub address: Seq<u8>,
    pub subnet_mask: Option<Seq<u8>>,
    pub gateway: Option<Seq<u8>>,
    pub dns: Option<Seq<u8>>,
    pub server: Option<Seq<u8>>,
    pub lease_seconds: Option<u32>,
}

pub open spec fn address_view(a: Option<Ipv4Address>) -> Option<Seq<u8>> {
    match a {
        Some(x) => Some(x@),
        None => None,
    }
}

impl View for DhcpReply {
    type V = DhcpReplyView;

    open spec fn view(&self) -> DhcpReplyView {
        DhcpReplyView {
            message_type: self.message_type,
            address: self.address@,
            subnet_mask: address_view(self.subnet_mask),
            gateway: address_view(self.gateway),
            dns: address_view(self.dns),
            server: address_view(self.server),
            lease_seconds: self.lease_seconds,
        }
    }
}

/// The magic cookie that opens the options area.
pub open spec fn dhcp_cookie() -> Seq<u8> {
    seq![99u8, 130, 83, 99]
}

/// The parameters every client message asks for: mask, router, DNS, lease time, server.
pub open spec fn requested_parameters() -> Seq<u8> {
    seq![1u8, 3, 6, 51, 54]
}

/// One option: its code, its length byte and its value.
pub open spec fn option_bytes(code: u8, value: Seq<u8>) -> Seq<u8> {
    seq![code, (value.len() % 256) as u8] + value
}

/// The fixed part of a client message: a BOOTREQUEST over Ethernet with transaction
/// `transaction_id`, the broadcast flag set, the client's hardware address and the cookie;
/// every other byte zero.
pub open spec fn base_message_spec(transaction_id: u32, mac: Seq<u8>) -> Seq<u8> {
    let s = zeros(300).update(0, 1u8).update(1, 1u8).update(2, 6u8);
    let s = splice(s, 4, be_bytes(transaction_id as nat, 4));
    let s = splice(s, 10, be_bytes(0x8000, 2));
    let s = splice(s, 28, mac);
    splice(s, 236, dhcp_cookie())
}

/// `base` with `options` and the end option written into the options area.
pub open spec fn with_options(base: Seq<u8>, options: Seq<u8>) -> Seq<u8> {
    splice(base, 240, options.push(255u8))
}

pub open spec fn discover_options() -> Seq<u8> {
    option_bytes(53, seq![DHCP_DISCOVER]) + option_bytes(55, requested_parameters())
}

pub open spec fn request_options(requested: Seq<u8>, server: Seq<u8>) -> Seq<u8> {
    option_bytes(53, seq![DHCP_REQUEST]) + option_bytes(50, requested) + option_bytes(54, server)
        + option_bytes(55, requested_parameters())
}

pub open spec fn renew_options() -> Seq<u8> {
    option_bytes(53, seq![DHCP_REQUEST]) + option_bytes(55, requested_parameters())
}

/// A RENEWING client's base message: no broadcast flag, and its address in `ciaddr`.
pub open spec fn renew_base(transaction_id: u32, mac: Seq<u8>, address: Seq<u8>) -> Seq<u8> {
    splice(splice(base_message_spec(transaction_id, mac), 10, seq![0u8, 0]), 12, address)
}

/// An address option's value: its first four bytes, if it has them.
pub open spec fn ipv4_option(value: Seq<u8>) -> Option<Seq<u8>> {
    if value.len() >= 4 {
        Some(value.take(4))
    } else {
        None
    }
}

pub open spec fn no_options() -> DhcpOptionsView {
    DhcpOptionsView {
        message_type: None,
        subnet_mask: None,
        gateway: None,
        dns: None,
        server: None,
        lease_seconds: None,
    }
}

/// What option `code` with `value` records; a later option of a code replaces an earlier one.
pub open spec fn apply_option(seen: DhcpOptionsView, code: u8, value: Seq<u8>) -> DhcpOptionsView {
    if code == 1 {
        DhcpOptionsView { subnet_mask: ipv4_option(value), ..seen }
    } else if code == 3 {
        DhcpOptionsView { gateway: ipv4_option(value), ..seen }
    } else if code == 6 {
        DhcpOptionsView { dns: ipv4_option(value), ..seen }
    } else if code == 51 && value.len() == 4 {
        DhcpOptionsView { lease_seconds: Some(crate::bytes::be_num(value) as u32), ..seen }
    } else if code == 53 && value.len() == 1 {
        DhcpOptionsView { message_type: Some(value[0]), ..seen }
    } else if code == 54 {
        DhcpOptionsView { server: ipv4_option(value), ..seen }
    } else {
        seen
    }
}

/// Walks the options of `m` from `cursor`: pad options are skipped, the end option or the end
/// of the message stops the walk, and an option whose length runs past the message is an error.
pub open spec fn scan_options(m: Seq<u8>, cursor: int, seen: DhcpOptionsView) -> Result<
    DhcpOptionsView,
    DhcpError,
>
    decreases m.len() - cursor,
{
    if cursor < 0 || cursor >= m.len() {
        Ok(seen)
    } else if m[cursor] == 0 {
        scan_options(m, cursor + 1, seen)
    } else if m[cursor] == 255 {
        Ok(seen)
    } else if cursor + 1 >= m.len() {
        Err(DhcpError::MalformedOptions)
    } else {
        let end = cursor + 2 + m[cursor + 1];
        if end > m.len() {
            Err(DhcpError::MalformedOptions)
        } else {
            scan_options(m, end, apply_option(seen, m[cursor], m.subrange(cursor + 2, end)))
        }
    }
}

/// The address a reply assigns: `yiaddr`, or `ciaddr` where `yiaddr` is zero.
pub open spec fn reply_address(m: Seq<u8>) -> Seq<u8> {
    if field(m, 16, 4) != zeros(4) {
        field(m, 16, 4)
    } else {
        field(m, 12, 4)
    }
}

/// What parsing `m` as a reply to transaction `transaction_id` of client `mac` gives.
pub open spec fn parse_reply_spec(m: Seq<u8>, transaction_id: u32, mac: Seq<u8>) -> Result<
    DhcpReplyView,
    DhcpError,
> {
    if m.len() < 240 {
        Err(DhcpError::TooShort { length: m.len() as usize })
    } else if m[0] != 2 || m[1] != 1 || m[2] != 6 {
        Err(DhcpError::InvalidHeader)
    } else if be_at(m, 4, 4) != transaction_id {
        Err(DhcpError::TransactionMismatch)
    } else if field(m, 28, 6) != mac {
        Err(DhcpError::ClientMismatch)
    } else if field(m, 236, 4) != dhcp_cookie() {
        Err(DhcpError::InvalidCookie)
    } else {
        match scan_options(m, 240, no_options()) {
            Err(e) => Err(e),
            Ok(seen) => if seen.message_type is None {
                Err(DhcpError::MissingMessageType)
            } else if reply_address(m) == zeros(4) {
                Err(DhcpError::MissingAddress)
            } else {
                Ok(
                    DhcpReplyView {
                        message_type: seen.message_type->0,
                        address: reply_address(m),
                        subnet_mask: seen.subnet_mask,
                        gateway: seen.gateway,
                        dns: seen.dns,
                        server: seen.server,
                        lease_seconds: seen.lease_seconds,
                    },
                )
            },
        }
    }
}

/// A message the client itself sends is a BOOTREQUEST, so it is never accepted as a reply.
pub proof fn lemma_client_message_is_not_a_reply(
    transaction_id: u32,
    mac: Seq<u8>,
    options: Seq<u8>,
    expected_transaction: u32,
    expected_mac: Seq<u8>,
)
    requires
        mac.len() == 6,
        options.len() < 60,
    ensures
        parse_reply_spec(
            with_options(base_message_spec(transaction_id, mac), options),
            expected_transaction,
            expected_mac,
        ) == Err::<DhcpReplyView, DhcpError>(DhcpError::InvalidHeader),
{
    let m = with_options(base_message_spec(transaction_id, mac), options);
    crate::bytes::lemma_be_bytes_len(transaction_id as nat, 4);
    crate::bytes::lemma_be_bytes_len(0x8000, 2);
    assert(m.len() == 300);
    assert(m[0] == 1);
}

/// A reply from the server: the client's base message turned into a BOOTREPLY that assigns
/// `address` in `yiaddr`, carrying `options`.
pub open spec fn server_reply(
    transaction_id: u32,
    mac: Seq<u8>,
    address: Seq<u8>,
    options: Seq<u8>,
) -> Seq<u8> {
    with_options(splice(base_message_spec(transaction_id, mac).update(0, 2u8), 16, address), options)
}

/// A reply to the client's own transaction that assigns a nonzero address and names its message
/// type is accepted, with that type and address and nothing else.
pub proof fn lemma_reply_roundtrip(transaction_id: u32, mac: Seq<u8>, address: Seq<u8>, kind: u8)
    requires
        mac.len() == 6,
        address.len() == 4,
        address != zeros(4),
    ensures
        parse_reply_spec(
            server_reply(transaction_id, mac, address, option_bytes(53, seq![kind])),
            transaction_id,
            mac,
        ) == Ok::<DhcpReplyView, DhcpError>(
            DhcpReplyView {
                message_type: kind,
                address,
                subnet_mask: None,
                gateway: None,
                dns: None,
                server: None,
                lease_seconds: None,
            },
        ),
{
    let options = option_bytes(53, seq![kind]);
    let m = server_reply(transaction_id, mac, address, options);
    crate::bytes::lemma_be_bytes_len(transaction_id as nat, 4);
    crate::bytes::lemma_be_bytes_len(0x8000, 2);
    crate::bytes::lemma_pow256_values();
    crate::bytes::lemma_be_roundtrip(transaction_id as nat, 4);
    assert(m.len() == 300);
    assert(field(m, 4, 4) =~= be_bytes(transaction_id as nat, 4));
    assert(field(m, 28, 6) =~= mac);
    assert(field(m, 236, 4) =~= dhcp_cookie());
    assert(field(m, 16, 4) =~= address);
    assert(m[240] == 53 && m[241] == 1 && m[242] == kind && m[243] == 255);
    assert(m.subrange(242, 243) =~= seq![kind]);
    let seen = apply_option(no_options(), 53, seq![kind]);
    assert(scan_options(m, 243, seen) == Ok::<DhcpOptionsView, DhcpError>(seen));
    assert(scan_options(m, 240, no_options()) == scan_options(m, 243, seen));
}

pub open spec fn reply_result_view(r: Result<DhcpReply, DhcpError>) -> Result<DhcpReplyView, DhcpError> {
    match r {
        Ok(reply) => Ok(reply@),
        Err(e) => Err(e),
    }
}

/// The fixed part of a client message.
pub fn base_message(transaction_id: u32, mac_address: [u8; 6]) -> (m: [u8; DHCP_MESSAGE_BUFFER_LENGTH])
    ensures
        m@ == base_message_spec(transaction_id, mac_address@),
{
    let mut message = [0u8; DHCP_MESSAGE_BUFFER_LENGTH];
    assert(message@ =~= zeros(300));
    message[0] = 1;
    message[1] = 1;
    message[2] = 6;
    write_be(&mut message, 4, transaction_id as u64, 4);
    write_be(&mut message, 10, 0x8000, 2);
    copy_into(&mut message, 28, &mac_address);
    let cookie: [u8; 4] = [99, 130, 83, 99];
    assert(cookie@ =~= dhcp_cookie());
    copy_into(&mut message, 236, &cookie);
    message
}

/// Writes option `code` with `value` at `*cursor` and moves the cursor past it.
pub fn append_option(
    message: &mut [u8; DHCP_MESSAGE_BUFFER_LENGTH],
    cursor: &mut usize,
    code: u8,
    value: &[u8],
)
    requires
        *old(cursor) + 2 + value@.len() <= 300,
    ensures
        final(message)@ == splice(old(message)@, *old(cursor) as int, option_bytes(code, value@)),
        *final(cursor) == *old(cursor) + 2 + value@.len(),
{
    let ghost initial = message@;
    let start = *cursor;
    message[start] = code;
    message[start + 1] = (value.len() % 256) as u8;
    copy_into(message, start + 2, value);
    *cursor = start + 2 + value.len();
    assert(message@ =~= splice(initial, start as int, option_bytes(code, value@)));
}

/// Writes the end option at `cursor`; gives the message and its length.
pub fn finish_options(message: &mut [u8; DHCP_MESSAGE_BUFFER_LENGTH], cursor: usize) -> (r: (
    [u8; DHCP_MESSAGE_BUFFER_LENGTH],
    usize,
))
    requires
        cursor < 300,
    ensures
        final(message)@ == old(message)@.update(cursor as int, 255u8),
        r.0@ == final(message)@,
        r.1 == cursor + 1,
{
    message[cursor] = 255;
    (*message, cursor + 1)
}

fn append_requested_parameters(message: &mut [u8; DHCP_MESSAGE_BUFFER_LENGTH], cursor: &mut usize)
    requires
        *old(cursor) + 7 <= 300,
    ensures
        final(message)@ == splice(
            old(message)@,
            *old(cursor) as int,
            option_bytes(55, requested_parameters()),
        ),
        *final(cursor) == *old(cursor) + 7,
{
    let parameters: [u8; 5] = [1, 3, 6, 51, 54];
    assert(parameters@ =~= requested_parameters());
    append_option(message, cursor, 55, &parameters);
}

proof fn lemma_two_options(base: Seq<u8>, a: Seq<u8>, b: Seq<u8>)
    requires
        base.len() == 300,
        240 + a.len() + b.len() < 300,
    ensures
        splice(splice(base, 240, a), 240 + a.len() as int, b).update(240 + a.len() as int + b.len() as int, 255u8)
            == with_options(base, a + b),
{
    assert(splice(splice(base, 240, a), 240 + a.len() as int, b).update(240 + a.len() as int + b.len() as int, 255u8)
        =~= with_options(base, a + b));
}

/// A DHCPDISCOVER from `mac_address`: the message buffer and the length of the message in it.
pub fn build_discover(transaction_id: u32, mac_address: [u8; 6]) -> (r: (
    [u8; DHCP_MESSAGE_BUFFER_LENGTH],
    usize,
))
    ensures
        r.0@ == with_options(base_message_spec(transaction_id, mac_address@), discover_options()),
        r.1 == 241 + discover_options().len(),
        r.1 == 251,
{
    let mut message = base_message(transaction_id, mac_address);
    let ghost base = message@;
    let mut cursor = DHCP_OPTIONS_OFFSET;
    let kind: [u8; 1] = [DHCP_DISCOVER];
    append_option(&mut message, &mut cursor, 53, &kind);
    append_requested_parameters(&mut message, &mut cursor);
    proof {
        assert(kind@ =~= seq![DHCP_DISCOVER]);
        lemma_two_options(base, option_bytes(53, kind@), option_bytes(55, requested_parameters()));
    }
    finish_options(&mut message, cursor)
}

/// A DHCPREQUEST for `requested_address` from `server`.
pub fn build_request(
    transaction_id: u32,
    mac_address: [u8; 6],
    requested_address: Ipv4Address,
    server: Ipv4Address,
) -> (r: ([u8; DHCP_MESSAGE_BUFFER_LENGTH], usize))
    ensures
        r.0@ == with_options(
            base_message_spec(transaction_id, mac_address@),
            request_options(requested_address@, server@),
        ),
        r.1 == 241 + request_options(requested_address@, server@).len(),
        r.1 == 263,
{
    let mut message = base_message(transaction_id, mac_address);
    let ghost base = message@;
    let mut cursor = DHCP_OPTIONS_OFFSET;
    let kind: [u8; 1] = [DHCP_REQUEST];
    append_option(&mut message, &mut cursor, 53, &kind);
    let ghost m1 = message@;
    append_option(&mut message, &mut cursor, 50, &requested_address);
    append_option(&mut message, &mut cursor, 54, &server);
    append_requested_parameters(&mut message, &mut cursor);
    proof {
        assert(kind@ =~= seq![DHCP_REQUEST]);
        let a = option_bytes(53, kind@);
        let b = option_bytes(50, requested_address@);
        let c = option_bytes(54, server@);
        let d = option_bytes(55, requested_parameters());
        assert(splice(splice(splice(splice(base, 240, a), 243, b), 249, c), 255, d)
            =~= splice(base, 240, a + b + c + d));
        assert(message@.update(262, 255u8) =~= with_options(base, a + b + c + d));
    }
    finish_options(&mut message, cursor)
}

/// A DHCPREQUEST in the RENEWING state: the client names its lease in `ciaddr`, clears the
/// broadcast flag, and sends no requested-address or server option.
pub fn build_renew_request(transaction_id: u32, mac_address: [u8; 6], address: Ipv4Address) -> (r: (
    [u8; DHCP_MESSAGE_BUFFER_LENGTH],
    usize,
))
    ensures
        r.0@ == with_options(renew_base(transaction_id, mac_address@, address@), renew_options()),
        r.1 == 241 + renew_options().len(),
        r.1 == 251,
{
    let mut message = base_message(transaction_id, mac_address);
    write_be(&mut message, 10, 0, 2);
    copy_into(&mut message, 12, &address);
    let ghost base = message@;
    proof {
        assert(be_bytes(0, 2) =~= seq![0u8, 0]) by {
            reveal_with_fuel(be_bytes, 3);
        }
    }
    let mut cursor = DHCP_OPTIONS_OFFSET;
    let kind: [u8; 1] = [DHCP_REQUEST];
    append_option(&mut message, &mut cursor, 53, &kind);
    append_requested_parameters(&mut message, &mut cursor);
    proof {
        assert(kind@ =~= seq![DHCP_REQUEST]);
        lemma_two_options(base, option_bytes(53, kind@), option_bytes(55, requested_parameters()));
    }
    finish_options(&mut message, cursor)
}

/// An address option's value: its first four bytes, if it has them.
pub fn parse_ipv4_option(value: &[u8]) -> (r: Option<Ipv4Address>)
    ensures
        address_view(r) == ipv4_option(value@),
{
    if value.len() >= 4 {
        let address: Ipv4Address = [value[0], value[1], value[2], value[3]];
        assert(address@ =~= value@.take(4));
        Some(address)
    } else {
        None
    }
}

/// The four bytes of `m` at `offset`.
fn address_at(m: &[u8], offset: usize) -> (r: Ipv4Address)
    requires
        offset + 4 <= m@.len(),
    ensures
        r@ == field(m@, offset as int, 4),
{
    let address: Ipv4Address = [m[offset], m[offset + 1], m[offset + 2], m[offset + 3]];
    assert(address@ =~= field(m@, offset as int, 4));
    address
}

fn is_zero_address(a: Ipv4Address) -> (r: bool)
    ensures
        r == (a@ == zeros(4)),
{
    let r = a[0] == 0 && a[1] == 0 && a[2] == 0 && a[3] == 0;
    if r {
        assert(a@ =~= zeros(4));
    } else {
        assert(a@ != zeros(4)) by {
            if a@ == zeros(4) {
                assert(a@[0] == 0 && a@[1] == 0 && a@[2] == 0 && a@[3] == 0);
            }
        }
    }
    r
}

/// The options that follow the cookie of `message`.
fn scan_reply_options(message: &[u8]) -> (r: Result<
    (Option<u8>, Option<Ipv4Address>, Option<Ipv4Address>, Option<Ipv4Address>, Option<Ipv4Address>, Option<u32>),
    DhcpError,
>)
    requires
        message@.len() >= 240,
    ensures
        match scan_options(message@, 240, no_options()) {
            Err(e) => r == Err::<
                (Option<u8>, Option<Ipv4Address>, Option<Ipv4Address>, Option<Ipv4Address>, Option<Ipv4Address>, Option<u32>),
                DhcpError,
            >(e),
            Ok(seen) => r matches Ok(found) && found.0 == seen.message_type && address_view(found.1)
                == seen.subnet_mask && address_view(found.2) == seen.gateway && address_view(found.3)
                == seen.dns && address_view(found.4) == seen.server && found.5 == seen.lease_seconds,
        },
{
    let len = message.len();
    let mut message_type: Option<u8> = None;
    let mut subnet_mask: Option<Ipv4Address> = None;
    let mut gateway: Option<Ipv4Address> = None;
    let mut dns: Option<Ipv4Address> = None;
    let mut server: Option<Ipv4Address> = None;
    let mut lease_seconds: Option<u32> = None;
    let mut cursor = DHCP_OPTIONS_OFFSET;
    loop
        invariant
            240 <= cursor <= len == message@.len(),
            scan_options(message@, 240, no_options()) == scan_options(
                message@,
                cursor as int,
                DhcpOptionsView {
                    message_type,
                    subnet_mask: address_view(subnet_mask),
                    gateway: address_view(gateway),
                    dns: address_view(dns),
                    server: address_view(server),
                    lease_seconds,
                },
            ),
        ensures
            scan_options(message@, 240, no_options()) == Ok::<DhcpOptionsView, DhcpError>(
                DhcpOptionsView {
                    message_type,
                    subnet_mask: address_view(subnet_mask),
                    gateway: address_view(gateway),
                    dns: address_view(dns),
                    server: address_view(server),
                    lease_seconds,
                },
            ),
        decreases len - cursor,
    {
        let ghost seen = DhcpOptionsView {
            message_type,
            subnet_mask: address_view(subnet_mask),
            gateway: address_view(gateway),
            dns: address_view(dns),
            server: address_view(server),
            lease_seconds,
        };
        if cursor >= len {
            break;
        }
        let code = message[cursor];
        if code == 0 {
            cursor = cursor + 1;
            continue;
        }
        if code == 255 {
            break;
        }
        if cursor + 1 >= len {
            return Err(DhcpError::MalformedOptions);
        }
        let length = message[cursor + 1] as usize;
        let start = cursor + 2;
        if length > len - start {
            return Err(DhcpError::MalformedOptions);
        }
        let end = start + length;
        let value = &message[start..end];
        assert(value@ == message@.subrange(start as int, end as int));
        if code == 1 {
            subnet_mask = parse_ipv4_option(value);
        } else if code == 3 {
            gateway = parse_ipv4_option(value);
        } else if code == 6 {
            dns = parse_ipv4_option(value);
        } else if code == 51 && length == 4 {
            lease_seconds = Some(read_be(value, 0, 4) as u32);
            assert(field(value@, 0, 4) =~= value@);
        } else if code == 53 && length == 1 {
            message_type = Some(value[0]);
        } else if code == 54 {
            server = parse_ipv4_option(value);
        }
        assert(DhcpOptionsView {
            message_type,
            subnet_mask: address_view(subnet_mask),
            gateway: address_view(gateway),
            dns: address_view(dns),
            server: address_view(server),
            lease_seconds,
        } == apply_option(seen, code, value@));
        cursor = end;
    }
    Ok((message_type, subnet_mask, gateway, dns, server, lease_seconds))
}

/// Parses `message` as the server's reply to transaction `transaction_id` of client
/// `mac_address`.
pub fn parse_reply(message: &[u8], transaction_id: u32, mac_address: [u8; 6]) -> (r: Result<
    DhcpReply,
    DhcpError,
>)
    ensures
        reply_result_view(r) == parse_reply_spec(message@, transaction_id, mac_address@),
{
    let len = message.len();
    if len < DHCP_OPTIONS_OFFSET {
        return Err(DhcpError::TooShort { length: len });
    }
    if message[0] != 2 || message[1] != 1 || message[2] != 6 {
        return Err(DhcpError::InvalidHeader);
    }
    if read_be(message, 4, 4) != transaction_id as u64 {
        return Err(DhcpError::TransactionMismatch);
    }
    if !range_equals(message, 28, 34, &mac_address) {
        return Err(DhcpError::ClientMismatch);
    }
    let cookie: [u8; 4] = [99, 130, 83, 99];
    assert(cookie@ =~= dhcp_cookie());
    if !range_equals(message, 236, 240, &cookie) {
        return Err(DhcpError::InvalidCookie);
    }
    let found = scan_reply_options(message);
    let (message_type, subnet_mask, gateway, dns, server, lease_seconds) = match found {
        Err(e) => return Err(e),
        Ok(found) => found,
    };
    let message_type = match message_type {
        None => return Err(DhcpError::MissingMessageType),
        Some(t) => t,
    };
    let offered = address_at(message, 16);
    let client = address_at(message, 12);
    let address = if !is_zero_address(offered) {
        offered
    } else {
        client
    };
    if is_zero_address(address) {
        return Err(DhcpError::MissingAddress);
    }
    Ok(DhcpReply { message_type, address, subnet_mask, gateway, dns, server, lease_seconds })
}

} // verus!
