//! Ethernet frames, IPv4 packets and UDP datagrams, with the Internet checksum.
use vstd::prelude::*;
use crate::bytes::{be_at, be_bytes, copy_into, field, read_be, splice, write_be, zeros};

verus! {

pub const ETHERNET_HEADER_LENGTH: usize = 14;
pub const ETHERNET_MIN_FRAME_LENGTH: usize = 60;
pub const ETHERNET_MAX_FRAME_LENGTH: usize = 1518;
pub const ETHERNET_MAX_PAYLOAD_LENGTH: usize = 1504;
pub const ETHER_TYPE_IPV4: u16 = 0x0800;
pub const ETHER_TYPE_ARP: u16 = 0x0806;
pub const IP_PROTOCOL_UDP: u8 = 17;
pub const IPV4_HEADER_LENGTH: usize = 20;
pub const IPV4_MAX_PACKET_LENGTH: usize = 1500;
pub const UDP_HEADER_LENGTH: usize = 8;
pub const UDP_MAX_PACKET_LENGTH: usize = 1480;
pub const UDP_MAX_PAYLOAD_LENGTH: usize = 1472;

pub type MacAddress = [u8; 6];

pub type Ipv4Address = [u8; 4];

/// The big-endian 16-bit word `i` of `s`.
pub open spec fn word16(s: Seq<u8>, i: int) -> int {
    s[2 * i] * 256 + s[2 * i + 1]
}

/// The sum of the first `n` big-endian 16-bit words of `s`.
pub open spec fn word_sum(s: Seq<u8>, n: nat) -> int
    decreases n,
{
    if n == 0 {
        0
    } else {
        word_sum(s, (n - 1) as nat) + word16(s, n - 1)
    }
}

/// The sum the Internet checksum folds: the 16-bit words of `s`, a trailing odd byte counting
/// as the high byte of a word.
pub open spec fn byte_sum(s: Seq<u8>) -> int {
    word_sum(s, s.len() / 2) + if s.len() % 2 == 1 {
        s[s.len() - 1] * 256
    } else {
        0
    }
}

/// A sum folded to 16 bits by adding its carries back in (ones'-complement addition).
pub open spec fn fold(sum: nat) -> nat
    decreases sum,
{
    if sum < 0x10000 {
        sum
    } else {
        fold(sum % 0x10000 + sum / 0x10000)
    }
}

/// The ones' complement of a folded sum: the checksum field's value.
pub open spec fn complement(sum: nat) -> u16 {
    (0xffff - fold(sum)) as u16
}

proof fn lemma_word_sum_bound(s: Seq<u8>, n: nat)
    requires
        2 * n <= s.len(),
    ensures
        0 <= word_sum(s, n) <= 0xffff * n,
    decreases n,
{
    if n > 0 {
        lemma_word_sum_bound(s, (n - 1) as nat);
    }
}

proof fn lemma_fold_bound(sum: nat)
    ensures
        fold(sum) < 0x10000,
    decreases sum,
{
    if sum >= 0x10000 {
        lemma_fold_bound(sum % 0x10000 + sum / 0x10000);
    }
}

proof fn lemma_fold_mod(x: nat)
    ensures
        fold(x) % 0xffff == x % 0xffff,
        x > 0 ==> fold(x) > 0,
    decreases x,
{
    if x >= 0x10000 {
        let q = x / 0x10000;
        let y = x % 0x10000 + q;
        assert(x == 0x10000 * q + x % 0x10000);
        assert(x == 0xffff * q + y);
        assert((0xffff * q + y) % 0xffff == y % 0xffff) by (nonlinear_arith);
        lemma_fold_mod(y);
    }
}

/// A positive sum that is a multiple of `0xffff` has a checksum of zero.
proof fn lemma_complement_of_multiple(y: nat)
    requires
        y > 0,
        y % 0xffff == 0,
    ensures
        complement(y) == 0,
{
    lemma_fold_mod(y);
    lemma_fold_bound(y);
}

/// Adding a checksum field to the sum it was computed from makes the checksum of the whole
/// zero; so does adding all ones in place of a zero checksum.
pub proof fn lemma_checksum_closes(sum: nat, field: nat)
    requires
        field == complement(sum) || (complement(sum) == 0 && field == 0xffff),
    ensures
        complement(sum + field) == 0,
{
    lemma_fold_mod(sum);
    lemma_fold_bound(sum);
    if field == complement(sum) {
        assert(field == 0xffff - fold(sum));
        assert((sum + field) % 0xffff == 0);
    } else {
        assert(fold(sum) == 0xffff);
        assert(sum % 0xffff == 0);
        assert((sum + field) % 0xffff == 0);
    }
    lemma_complement_of_multiple(sum + field);
}

/// Writing a word into a zero word of a sequence adds that word to the word sum.
proof fn lemma_word_sum_update(s0: Seq<u8>, s1: Seq<u8>, k: int, n: nat)
    requires
        0 <= k,
        s0.len() == s1.len(),
        2 * n <= s0.len(),
        2 * k + 1 < s0.len(),
        forall|i: int| 0 <= i < s0.len() && i != 2 * k && i != 2 * k + 1 ==> s0[i] == s1[i],
        s0[2 * k] == 0,
        s0[2 * k + 1] == 0,
    ensures
        word_sum(s1, n) == word_sum(s0, n) + if k < n {
            word16(s1, k)
        } else {
            0
        },
    decreases n,
{
    if n > 0 {
        lemma_word_sum_update(s0, s1, k, (n - 1) as nat);
        let j = n - 1;
        if j != k {
            assert(s0[2 * j] == s1[2 * j]);
            assert(s0[2 * j + 1] == s1[2 * j + 1]);
        }
    }
}

/// Writing a word into a zero word of a sequence adds that word to its byte sum.
proof fn lemma_byte_sum_update(s0: Seq<u8>, s1: Seq<u8>, k: int)
    requires
        0 <= k,
        s0.len() == s1.len(),
        2 * k + 1 < s0.len(),
        forall|i: int| 0 <= i < s0.len() && i != 2 * k && i != 2 * k + 1 ==> s0[i] == s1[i],
        s0[2 * k] == 0,
        s0[2 * k + 1] == 0,
    ensures
        byte_sum(s1) == byte_sum(s0) + word16(s1, k),
{
    lemma_word_sum_update(s0, s1, k, s0.len() / 2);
    if s0.len() % 2 == 1 {
        assert(s0[s0.len() - 1] == s1[s1.len() - 1]);
    }
}

/// Folds a 32-bit sum and complements it.
fn fold_checksum(sum: u32) -> (r: u16)
    ensures
        r == complement(sum as nat),
{
    let mut sum = sum;
    let ghost initial = sum;
    while sum >> 16 != 0
        invariant
            fold(sum as nat) == fold(initial as nat),
        decreases sum,
    {
        assert(sum & 0xffff == sum % 0x10000 && sum >> 16u32 == sum / 0x10000) by (bit_vector);
        sum = (sum & 0xffff) + (sum >> 16);
    }
    assert(sum >> 16u32 == 0 ==> sum < 0x10000) by (bit_vector);
    let low = sum as u16;
    assert(low < 0x10000 ==> !low == 0xffff - low) by (bit_vector);
    !low
}

/// The sum of the 16-bit words of `bytes`, plus `start`.
fn add_words(bytes: &[u8], start: u32) -> (r: u32)
    requires
        bytes@.len() <= 0x10000,
        start <= 0x10000 * 8,
    ensures
        r == start + byte_sum(bytes@),
{
    let n = bytes.len();
    let mut sum = start;
    let mut i: usize = 0;
    while i + 1 < n
        invariant
            i % 2 == 0,
            i <= n,
            n == bytes@.len() <= 0x10000,
            start <= 0x10000 * 8,
            sum == start + word_sum(bytes@, (i / 2) as nat),
            word_sum(bytes@, (i / 2) as nat) <= 0xffff * (i / 2),
        decreases n - i,
    {
        proof {
            lemma_word_sum_bound(bytes@, (i / 2) as nat);
        }
        let word = (bytes[i] as u32) * 256 + bytes[i + 1] as u32;
        sum = sum + word;
        i = i + 2;
        assert(((i / 2) as nat - 1) as nat == ((i - 2) / 2) as nat);
    }
    proof {
        lemma_word_sum_bound(bytes@, (i / 2) as nat);
    }
    if i < n {
        sum = sum + (bytes[i] as u32) * 256;
    }
    sum
}

/// The Internet checksum of `bytes` (at most 64 KiB).
pub fn internet_checksum(bytes: &[u8]) -> (r: u16)
    requires
        bytes@.len() <= 0x10000,
    ensures
        r == complement(byte_sum(bytes@) as nat),
{
    proof {
        lemma_word_sum_bound(bytes@, bytes@.len() / 2);
    }
    let sum = add_words(bytes, 0);
    fold_checksum(sum)
}

/// The sum of a UDP pseudo-header: the two addresses, the protocol and the length.
pub open spec fn pseudo_header_sum(source: Seq<u8>, destination: Seq<u8>, length: nat) -> int {
    word16(source, 0) + word16(source, 1) + word16(destination, 0) + word16(destination, 1) + 17
        + length % 0x10000
}

/// The UDP checksum of `datagram` between `source` and `destination`.
pub open spec fn udp_checksum_spec(source: Seq<u8>, destination: Seq<u8>, datagram: Seq<u8>) -> u16 {
    complement((pseudo_header_sum(source, destination, datagram.len()) + byte_sum(datagram)) as nat)
}

/// The UDP checksum of `datagram` (at most 64 KiB) between `source` and `destination`.
pub fn udp_checksum(source: Ipv4Address, destination: Ipv4Address, datagram: &[u8]) -> (r: u16)
    requires
        datagram@.len() <= 0x10000,
    ensures
        r == udp_checksum_spec(source@, destination@, datagram@),
{
    let mut sum: u32 = 0;
    sum = sum + (source[0] as u32) * 256 + source[1] as u32;
    sum = sum + (source[2] as u32) * 256 + source[3] as u32;
    sum = sum + (destination[0] as u32) * 256 + destination[1] as u32;
    sum = sum + (destination[2] as u32) * 256 + destination[3] as u32;
    sum = sum + IP_PROTOCOL_UDP as u32;
    let length = datagram.len();
    let truncated = (length % 0x10000) as u32;
    sum = sum + truncated;
    proof {
        lemma_word_sum_bound(datagram@, datagram@.len() / 2);
    }
    let total = add_words(datagram, sum);
    fold_checksum(total)
}

#[derive(Debug, Clone, Copy, PartialEq, Eq, Structural)]
pub enum EthernetFrameError {
    TooShort { length: usize },
    TooLarge { length: usize },
    PayloadTooLarge { length: usize },
}

/// An Ethernet frame of 60 to 1518 bytes, without its frame check sequence.
#[derive(Debug, PartialEq, Eq)]
pub struct EthernetFrame {
    bytes: [u8; ETHERNET_MAX_FRAME_LENGTH],
    length: usize,
}

impl Clone for EthernetFrame {
    fn clone(&self) -> (r: Self)
        ensures
            r@ == self@,
    {
        proof {
            use_type_invariant(self);
        }
        Self { bytes: self.bytes, length: self.length }
    }
}

impl View for EthernetFrame {
    type V = Seq<u8>;

    closed spec fn view(&self) -> Seq<u8> {
        self.bytes@.take(self.length as int)
    }
}

/// The frame carrying `payload`: the addresses, the EtherType, the payload, and zero padding up
/// to the minimum frame length.
pub open spec fn frame_wire(
    destination: Seq<u8>,
    source: Seq<u8>,
    ether_type: u16,
    payload: Seq<u8>,
) -> Seq<u8> {
    let unpadded = destination + source + be_bytes(ether_type as nat, 2) + payload;
    if unpadded.len() < 60 {
        unpadded + zeros((60 - unpadded.len()) as nat)
    } else {
        unpadded
    }
}

/// A frame that `EthernetFrame::new` builds has a length that `EthernetFrame::parse` accepts, and
/// its header fields read back as the addresses and EtherType it was built with.
pub proof fn lemma_frame_roundtrip(
    destination: Seq<u8>,
    source: Seq<u8>,
    ether_type: u16,
    payload: Seq<u8>,
)
    requires
        destination.len() == 6,
        source.len() == 6,
        payload.len() <= 1504,
    ensures
        ({
            let f = frame_wire(destination, source, ether_type, payload);
            &&& 60 <= f.len() <= 1518
            &&& f.subrange(0, 6) == destination
            &&& f.subrange(6, 12) == source
            &&& be_at(f, 12, 2) == ether_type
            &&& f.skip(14).take(payload.len() as int) == payload
        }),
{
    let f = frame_wire(destination, source, ether_type, payload);
    crate::bytes::lemma_pow256_values();
    crate::bytes::lemma_be_roundtrip(ether_type as nat, 2);
    assert(f.subrange(0, 6) =~= destination);
    assert(f.subrange(6, 12) =~= source);
    assert(field(f, 12, 2) =~= be_bytes(ether_type as nat, 2));
    assert(f.skip(14).take(payload.len() as int) =~= payload);
}

impl EthernetFrame {
    #[verifier::type_invariant]
    closed spec fn well_formed(self) -> bool {
        &&& 60 <= self.length <= 1518
        &&& forall|i: int| self.length <= i < 1518 ==> self.bytes@[i] == 0
    }

    pub fn new(
        destination: MacAddress,
        source: MacAddress,
        ether_type: u16,
        payload: &[u8],
    ) -> (r: Result<Self, EthernetFrameError>)
        ensures
            payload@.len() > 1504 ==> r == Err::<Self, EthernetFrameError>(
                EthernetFrameError::PayloadTooLarge { length: payload@.len() as usize },
            ),
            payload@.len() <= 1504 ==> (r matches Ok(frame) && frame@ == frame_wire(
                destination@,
                source@,
                ether_type,
                payload@,
            )),
    {
        let payload_len = payload.len();
        if payload_len > ETHERNET_MAX_PAYLOAD_LENGTH {
            return Err(EthernetFrameError::PayloadTooLarge { length: payload_len });
        }
        let unpadded_length = ETHERNET_HEADER_LENGTH + payload_len;
        let length = if unpadded_length >= ETHERNET_MIN_FRAME_LENGTH {
            unpadded_length
        } else {
            ETHERNET_MIN_FRAME_LENGTH
        };
        let mut bytes = [0u8; ETHERNET_MAX_FRAME_LENGTH];
        assert(bytes@ =~= zeros(1518));
        copy_into(&mut bytes, 0, &destination);
        copy_into(&mut bytes, 6, &source);
        write_be(&mut bytes, 12, ether_type as u64, 2);
        copy_into(&mut bytes, ETHERNET_HEADER_LENGTH, payload);
        proof {
            crate::bytes::lemma_be_bytes_len(ether_type as nat, 2);
            let unpadded = destination@ + source@ + be_bytes(ether_type as nat, 2) + payload@;
            assert(bytes@.take(unpadded_length as int) =~= unpadded);
            assert forall|i: int| unpadded_length <= i < 1518 implies bytes@[i] == 0 by {}
            assert(bytes@.take(length as int) =~= frame_wire(
                destination@,
                source@,
                ether_type,
                payload@,
            ));
        }
        Ok(Self { bytes, length })
    }

    pub fn parse(bytes: &[u8]) -> (r: Result<Self, EthernetFrameError>)
        ensures
            bytes@.len() < 60 ==> r == Err::<Self, EthernetFrameError>(
                EthernetFrameError::TooShort { length: bytes@.len() as usize },
            ),
            bytes@.len() > 1518 ==> r == Err::<Self, EthernetFrameError>(
                EthernetFrameError::TooLarge { length: bytes@.len() as usize },
            ),
            60 <= bytes@.len() <= 1518 ==> (r matches Ok(frame) && frame@ == bytes@),
    {
        let len = bytes.len();
        if len < ETHERNET_MIN_FRAME_LENGTH {
            return Err(EthernetFrameError::TooShort { length: len });
        }
        if len > ETHERNET_MAX_FRAME_LENGTH {
            return Err(EthernetFrameError::TooLarge { length: len });
        }
        let mut frame_bytes = [0u8; ETHERNET_MAX_FRAME_LENGTH];
        assert(frame_bytes@ =~= zeros(1518));
        copy_into(&mut frame_bytes, 0, bytes);
        assert(frame_bytes@.take(len as int) =~= bytes@);
        Ok(Self { bytes: frame_bytes, length: len })
    }

    pub fn len(&self) -> (r: usize)
        ensures
            r == self@.len(),
            60 <= r <= 1518,
    {
        proof {
            use_type_invariant(self);
        }
        self.length
    }

    pub fn as_bytes(&self) -> (r: &[u8])
        ensures
            r@ == self@,
    {
        proof {
            use_type_invariant(self);
        }
        &self.bytes[0..self.length]
    }

    pub fn destination(&self) -> (r: MacAddress)
        ensures
            r@ == self@.take(6),
    {
        proof {
            use_type_invariant(self);
        }
        let r = [self.bytes[0], self.bytes[1], self.bytes[2], self.bytes[3], self.bytes[4], self.bytes[5]];
        assert(r@ =~= self@.take(6));
        r
    }

    pub fn source(&self) -> (r: MacAddress)
        ensures
            r@ == self@.subrange(6, 12),
    {
        proof {
            use_type_invariant(self);
        }
        let r = [
            self.bytes[6],
            self.bytes[7],
            self.bytes[8],
            self.bytes[9],
            self.bytes[10],
            self.bytes[11],
        ];
        assert(r@ =~= self@.subrange(6, 12));
        r
    }

    pub fn ether_type(&self) -> (r: u16)
        ensures
            r == be_at(self@, 12, 2),
    {
        proof {
            use_type_invariant(self);
        }
        let r = read_be(&self.bytes, 12, 2) as u16;
        assert(crate::bytes::field(self.bytes@, 12, 2) =~= crate::bytes::field(self@, 12, 2));
        r
    }

    pub fn payload(&self) -> (r: &[u8])
        ensures
            r@ == self@.skip(14),
    {
        proof {
            use_type_invariant(self);
        }
        &self.bytes[ETHERNET_HEADER_LENGTH..self.length]
    }
}

/// `s` with the `width` low-order big-endian bytes of `v` written at `offset`.
pub open spec fn put_be(s: Seq<u8>, offset: int, v: nat, width: nat) -> Seq<u8> {
    splice(s, offset, be_bytes(v, width))
}

#[derive(Debug, Clone, Copy, PartialEq, Eq, Structural)]
pub enum Ipv4PacketError {
    TooShort { length: usize },
    TooLarge { length: usize },
    InvalidVersion { version: u8 },
    InvalidHeaderLength { length: usize },
    LengthMismatch { declared: usize, available: usize },
    PayloadTooLarge { length: usize },
    InvalidChecksum,
}

/// An IPv4 packet of at most 1500 bytes whose header checksum has been verified.
#[derive(Debug, PartialEq, Eq)]
pub struct Ipv4Packet {
    bytes: [u8; IPV4_MAX_PACKET_LENGTH],
    length: usize,
    header_length: usize,
}

impl View for Ipv4Packet {
    type V = Seq<u8>;

    closed spec fn view(&self) -> Seq<u8> {
        self.bytes@.take(self.length as int)
    }
}

/// The packet buffer of a new IPv4 packet before its header checksum: a 20-byte header (version
/// 4, no options, don't fragment, TTL 64), then the payload, then zeros.
pub open spec fn ipv4_unsigned(
    source: Seq<u8>,
    destination: Seq<u8>,
    protocol: u8,
    payload: Seq<u8>,
    identification: u16,
) -> Seq<u8> {
    let s = zeros(1500);
    let s = put_be(s, 0, 0x45, 1);
    let s = put_be(s, 2, (20 + payload.len()) as nat, 2);
    let s = put_be(s, 4, identification as nat, 2);
    let s = put_be(s, 6, 0x4000, 2);
    let s = put_be(s, 8, 64, 1);
    let s = put_be(s, 9, protocol as nat, 1);
    let s = splice(s, 12, source);
    let s = splice(s, 16, destination);
    splice(s, 20, payload)
}

/// The packet buffer of a new IPv4 packet: the header with its checksum, the payload, zeros.
pub open spec fn ipv4_image(
    source: Seq<u8>,
    destination: Seq<u8>,
    protocol: u8,
    payload: Seq<u8>,
    identification: u16,
) -> Seq<u8> {
    let s = ipv4_unsigned(source, destination, protocol, payload, identification);
    put_be(s, 10, complement(byte_sum(s.take(20)) as nat) as nat, 2)
}

/// A packet that `Ipv4Packet::new` builds carries the addresses, protocol and payload it was
/// built with.
pub proof fn lemma_ipv4_fields(
    source: Seq<u8>,
    destination: Seq<u8>,
    protocol: u8,
    payload: Seq<u8>,
    identification: u16,
)
    requires
        source.len() == 4,
        destination.len() == 4,
        payload.len() <= 1480,
    ensures
        ({
            let p = ipv4_image(source, destination, protocol, payload, identification).take(
                20 + payload.len() as int,
            );
            &&& p.len() == 20 + payload.len()
            &&& p.subrange(12, 16) == source
            &&& p.subrange(16, 20) == destination
            &&& p[9] == protocol
            &&& be_at(p, 4, 2) == identification
            &&& p.skip(20) == payload
        }),
{
    let n = payload.len();
    let u = ipv4_unsigned(source, destination, protocol, payload, identification);
    let c = complement(byte_sum(u.take(20)) as nat);
    let p = ipv4_image(source, destination, protocol, payload, identification).take(20 + n as int);
    crate::bytes::lemma_pow256_values();
    crate::bytes::lemma_be_bytes_len(0x45, 1);
    crate::bytes::lemma_be_bytes_len((20 + n) as nat, 2);
    crate::bytes::lemma_be_bytes_len(0x4000, 2);
    crate::bytes::lemma_be_bytes_len(64, 1);
    crate::bytes::lemma_be_bytes_len(c as nat, 2);
    crate::bytes::lemma_be_roundtrip(protocol as nat, 1);
    crate::bytes::lemma_be_roundtrip(identification as nat, 2);
    assert(be_bytes(protocol as nat, 1) =~= seq![protocol]) by {
        reveal_with_fuel(be_bytes, 2);
    }
    assert(u.len() == 1500);
    assert(u.subrange(12, 16) =~= source);
    assert(u.subrange(16, 20) =~= destination);
    assert(u[9] == protocol);
    assert(field(u, 4, 2) =~= be_bytes(identification as nat, 2));
    assert(u.subrange(20, 20 + n as int) =~= payload);
    assert(p.subrange(12, 16) =~= u.subrange(12, 16));
    assert(p.subrange(16, 20) =~= u.subrange(16, 20));
    assert(field(p, 4, 2) =~= field(u, 4, 2));
    assert(p.skip(20) =~= u.subrange(20, 20 + n as int));
}

/// A packet that `Ipv4Packet::new` builds passes every check of `Ipv4Packet::parse`: its header
/// checksum verifies, and it declares its own length and a 20-byte header.
pub proof fn lemma_ipv4_roundtrip(
    source: Seq<u8>,
    destination: Seq<u8>,
    protocol: u8,
    payload: Seq<u8>,
    identification: u16,
)
    requires
        source.len() == 4,
        destination.len() == 4,
        payload.len() <= 1480,
    ensures
        ({
            let p = ipv4_image(source, destination, protocol, payload, identification).take(
                20 + payload.len() as int,
            );
            &&& ipv4_check(p) is None
            &&& be_at(p, 2, 2) == 20 + payload.len()
            &&& (p[0] % 16) * 4 == 20
        }),
{
    let n = 20 + payload.len();
    let u = ipv4_unsigned(source, destination, protocol, payload, identification);
    let h0 = u.take(20);
    let c = complement(byte_sum(h0) as nat);
    let img = ipv4_image(source, destination, protocol, payload, identification);
    let p = img.take(n as int);
    crate::bytes::lemma_pow256_values();
    crate::bytes::lemma_be_roundtrip(0x45, 1);
    crate::bytes::lemma_be_roundtrip(n as nat, 2);
    crate::bytes::lemma_be_roundtrip(identification as nat, 2);
    crate::bytes::lemma_be_roundtrip(0x4000, 2);
    crate::bytes::lemma_be_roundtrip(64, 1);
    crate::bytes::lemma_be_roundtrip(protocol as nat, 1);
    crate::bytes::lemma_be_roundtrip(c as nat, 2);
    assert(be_bytes(0x45, 1) =~= seq![0x45u8]) by {
        reveal_with_fuel(be_bytes, 2);
    }
    assert(u.len() == 1500);
    assert(u[0] == 0x45);
    assert(field(u, 2, 2) =~= be_bytes(n as nat, 2));
    assert(u[10] == 0 && u[11] == 0);
    let h1 = img.take(20);
    assert(h1 =~= splice(h0, 10, be_bytes(c as nat, 2)));
    assert(field(h1, 10, 2) =~= be_bytes(c as nat, 2));
    assert(crate::bytes::be_num(field(h1, 10, 2)) == h1[10] * 256 + h1[11]) by {
        let f = field(h1, 10, 2);
        reveal_with_fuel(crate::bytes::be_num, 3);
        assert(f.drop_last().drop_last() =~= Seq::<u8>::empty());
    }
    lemma_byte_sum_update(h0, h1, 5);
    lemma_word_sum_bound(h0, 10);
    assert(word16(h1, 5) == c);
    assert(byte_sum(h1) == byte_sum(h0) + c);
    lemma_checksum_closes(byte_sum(h0) as nat, c as nat);
    assert(p.take(20) =~= h1);
    assert(field(p, 2, 2) =~= field(u, 2, 2));
    assert(p[0] == u[0]);
    assert(be_at(p, 2, 2) == n);
    assert((p[0] % 16) * 4 == 20);
    assert(complement(byte_sum(p.take(20)) as nat) == 0);
    assert(ipv4_check(p) is None);
}

/// The error, if any, that parsing `s` as an IPv4 packet gives, in the order the checks are
/// made.
pub open spec fn ipv4_check(s: Seq<u8>) -> Option<Ipv4PacketError> {
    let header_length = (s[0] % 16) * 4;
    let declared = be_at(s, 2, 2);
    if s.len() < 20 {
        Some(Ipv4PacketError::TooShort { length: s.len() as usize })
    } else if s[0] / 16 != 4 {
        Some(Ipv4PacketError::InvalidVersion { version: (s[0] / 16) as u8 })
    } else if header_length < 20 || header_length > s.len() {
        Some(Ipv4PacketError::InvalidHeaderLength { length: header_length as usize })
    } else if declared > 1500 {
        Some(Ipv4PacketError::TooLarge { length: declared as usize })
    } else if declared < header_length || declared > s.len() {
        Some(
            Ipv4PacketError::LengthMismatch {
                declared: declared as usize,
                available: s.len() as usize,
            },
        )
    } else if complement(byte_sum(s.take(header_length)) as nat) != 0 {
        Some(Ipv4PacketError::InvalidChecksum)
    } else {
        None
    }
}

impl Ipv4Packet {
    #[verifier::type_invariant]
    closed spec fn well_formed(self) -> bool {
        &&& 20 <= self.header_length <= self.length <= 1500
        &&& forall|i: int| self.length <= i < 1500 ==> self.bytes@[i] == 0
    }

    /// The length of the packet's header.
    pub closed spec fn header_len(&self) -> nat {
        self.header_length as nat
    }

    pub fn new(
        source: Ipv4Address,
        destination: Ipv4Address,
        protocol: u8,
        payload: &[u8],
        identification: u16,
    ) -> (r: Result<Self, Ipv4PacketError>)
        ensures
            payload@.len() > 1480 ==> r == Err::<Self, Ipv4PacketError>(
                Ipv4PacketError::PayloadTooLarge { length: payload@.len() as usize },
            ),
            payload@.len() <= 1480 ==> (r matches Ok(packet) && packet@ == ipv4_image(
                source@,
                destination@,
                protocol,
                payload@,
                identification,
            ).take(20 + payload@.len() as int) && packet.header_len() == 20 && whole_ipv4_packet(
                packet@,
            )),
    {
        proof {
            if payload@.len() <= 1480 {
                lemma_ipv4_roundtrip(source@, destination@, protocol, payload@, identification);
            }
        }
        let payload_len = payload.len();
        if payload_len > IPV4_MAX_PACKET_LENGTH - IPV4_HEADER_LENGTH {
            return Err(Ipv4PacketError::PayloadTooLarge { length: payload_len });
        }
        let length = IPV4_HEADER_LENGTH + payload_len;
        let mut bytes = [0u8; IPV4_MAX_PACKET_LENGTH];
        assert(bytes@ =~= zeros(1500));
        write_be(&mut bytes, 0, 0x45, 1);
        write_be(&mut bytes, 2, length as u64, 2);
        write_be(&mut bytes, 4, identification as u64, 2);
        write_be(&mut bytes, 6, 0x4000, 2);
        write_be(&mut bytes, 8, 64, 1);
        write_be(&mut bytes, 9, protocol as u64, 1);
        copy_into(&mut bytes, 12, &source);
        copy_into(&mut bytes, 16, &destination);
        copy_into(&mut bytes, IPV4_HEADER_LENGTH, payload);
        let checksum = internet_checksum(&bytes[0..IPV4_HEADER_LENGTH]);
        write_be(&mut bytes, 10, checksum as u64, 2);
        proof {
            crate::bytes::lemma_be_bytes_len(checksum as nat, 2);
            assert forall|i: int| length <= i < 1500 implies bytes@[i] == 0 by {}
        }
        Ok(Self { bytes, length, header_length: IPV4_HEADER_LENGTH })
    }

    pub fn parse(bytes: &[u8]) -> (r: Result<Self, Ipv4PacketError>)
        ensures
            match ipv4_check(bytes@) {
                Some(e) => r == Err::<Self, Ipv4PacketError>(e),
                None => r matches Ok(packet) && packet@ == bytes@.take(be_at(bytes@, 2, 2) as int)
                    && packet.header_len() == (bytes@[0] % 16) * 4,
            },
    {
        let len = bytes.len();
        if len < IPV4_HEADER_LENGTH {
            return Err(Ipv4PacketError::TooShort { length: len });
        }
        let first = bytes[0];
        assert(first >> 4u8 == first / 16 && first & 0x0fu8 == first % 16) by (bit_vector);
        let version = first >> 4;
        if version != 4 {
            return Err(Ipv4PacketError::InvalidVersion { version });
        }
        let header_length = ((first & 0x0f) as usize) * 4;
        if header_length < IPV4_HEADER_LENGTH || header_length > len {
            return Err(Ipv4PacketError::InvalidHeaderLength { length: header_length });
        }
        let declared_length = read_be(bytes, 2, 2) as usize;
        if declared_length > IPV4_MAX_PACKET_LENGTH {
            return Err(Ipv4PacketError::TooLarge { length: declared_length });
        }
        if declared_length < header_length || declared_length > len {
            return Err(Ipv4PacketError::LengthMismatch { declared: declared_length, available: len });
        }
        if internet_checksum(&bytes[0..header_length]) != 0 {
            assert(bytes@.subrange(0, header_length as int) =~= bytes@.take(header_length as int));
            return Err(Ipv4PacketError::InvalidChecksum);
        }
        assert(bytes@.subrange(0, header_length as int) =~= bytes@.take(header_length as int));
        let mut packet_bytes = [0u8; IPV4_MAX_PACKET_LENGTH];
        assert(packet_bytes@ =~= zeros(1500));
        let prefix = &bytes[0..declared_length];
        copy_into(&mut packet_bytes, 0, prefix);
        assert(packet_bytes@.take(declared_length as int) =~= bytes@.take(declared_length as int));
        Ok(Self { bytes: packet_bytes, length: declared_length, header_length })
    }

    pub fn len(&self) -> (r: usize)
        ensures
            r == self@.len(),
            20 <= r <= 1500,
    {
        proof {
            use_type_invariant(self);
        }
        self.length
    }

    pub fn as_bytes(&self) -> (r: &[u8])
        ensures
            r@ == self@,
    {
        proof {
            use_type_invariant(self);
        }
        &self.bytes[0..self.length]
    }

    pub fn source(&self) -> (r: Ipv4Address)
        ensures
            r@ == self@.subrange(12, 16),
    {
        proof {
            use_type_invariant(self);
        }
        let r = [self.bytes[12], self.bytes[13], self.bytes[14], self.bytes[15]];
        assert(r@ =~= self@.subrange(12, 16));
        r
    }

    pub fn destination(&self) -> (r: Ipv4Address)
        ensures
            r@ == self@.subrange(16, 20),
    {
        proof {
            use_type_invariant(self);
        }
        let r = [self.bytes[16], self.bytes[17], self.bytes[18], self.bytes[19]];
        assert(r@ =~= self@.subrange(16, 20));
        r
    }

    pub fn protocol(&self) -> (r: u8)
        ensures
            r == self@[9],
    {
        proof {
            use_type_invariant(self);
        }
        self.bytes[9]
    }

    pub fn identification(&self) -> (r: u16)
        ensures
            r == be_at(self@, 4, 2),
    {
        proof {
            use_type_invariant(self);
        }
        let r = read_be(&self.bytes, 4, 2) as u16;
        assert(crate::bytes::field(self.bytes@, 4, 2) =~= crate::bytes::field(self@, 4, 2));
        r
    }

    /// The bytes after the header.
    pub fn payload(&self) -> (r: &[u8])
        ensures
            r@ == self@.skip(self.header_len() as int),
    {
        proof {
            use_type_invariant(self);
        }
        &self.bytes[self.header_length..self.length]
    }
}

impl Clone for Ipv4Packet {
    fn clone(&self) -> (r: Self)
        ensures
            r@ == self@,
            r.header_len() == self.header_len(),
    {
        proof {
            use_type_invariant(self);
        }
        Self { bytes: self.bytes, length: self.length, header_length: self.header_length }
    }
}

#[derive(Debug, Clone, Copy, PartialEq, Eq, Structural)]
pub enum UdpDatagramError {
    TooShort { length: usize },
    TooLarge { length: usize },
    LengthMismatch { declared: usize, available: usize },
    PayloadTooLarge { length: usize },
    InvalidChecksum,
}

/// A UDP datagram of at most 1480 bytes whose checksum has been verified (or is absent).
#[derive(Debug, PartialEq, Eq)]
pub struct UdpDatagram {
    bytes: [u8; UDP_MAX_PACKET_LENGTH],
    length: usize,
}

impl View for UdpDatagram {
    type V = Seq<u8>;

    closed spec fn view(&self) -> Seq<u8> {
        self.bytes@.take(self.length as int)
    }
}

/// The datagram buffer before its checksum: the ports, the length and the payload.
pub open spec fn udp_unsigned(source_port: u16, destination_port: u16, payload: Seq<u8>) -> Seq<u8> {
    let s = zeros(1480);
    let s = put_be(s, 0, source_port as nat, 2);
    let s = put_be(s, 2, destination_port as nat, 2);
    let s = put_be(s, 4, (8 + payload.len()) as nat, 2);
    splice(s, 8, payload)
}

/// The checksum field of a new datagram: the UDP checksum, with zero sent as all ones.
pub open spec fn udp_checksum_field(
    source: Seq<u8>,
    destination: Seq<u8>,
    datagram: Seq<u8>,
) -> u16 {
    if udp_checksum_spec(source, destination, datagram) == 0 {
        0xffff
    } else {
        udp_checksum_spec(source, destination, datagram)
    }
}

/// The buffer of a new datagram from `source` to `destination`.
pub open spec fn udp_image(
    source_port: u16,
    destination_port: u16,
    source: Seq<u8>,
    destination: Seq<u8>,
    payload: Seq<u8>,
) -> Seq<u8> {
    let s = udp_unsigned(source_port, destination_port, payload);
    put_be(
        s,
        6,
        udp_checksum_field(source, destination, s.take(8 + payload.len() as int)) as nat,
        2,
    )
}

/// A datagram that `UdpDatagram::new` builds passes every check of `UdpDatagram::parse` between
/// the same addresses: it declares its own length and its checksum verifies.
pub proof fn lemma_udp_roundtrip(
    source_port: u16,
    destination_port: u16,
    source: Seq<u8>,
    destination: Seq<u8>,
    payload: Seq<u8>,
)
    requires
        source.len() == 4,
        destination.len() == 4,
        payload.len() <= 1472,
    ensures
        ({
            let p = udp_image(source_port, destination_port, source, destination, payload).take(
                8 + payload.len() as int,
            );
            &&& udp_check(p, source, destination) is None
            &&& be_at(p, 4, 2) == 8 + payload.len()
            &&& be_at(p, 6, 2) != 0
            &&& udp_checksum_spec(source, destination, p) == 0
        }),
{
    let n = 8 + payload.len();
    let u = udp_unsigned(source_port, destination_port, payload);
    let d = u.take(n as int);
    let c = udp_checksum_field(source, destination, d);
    let img = udp_image(source_port, destination_port, source, destination, payload);
    let p = img.take(n as int);
    crate::bytes::lemma_pow256_values();
    crate::bytes::lemma_be_roundtrip(source_port as nat, 2);
    crate::bytes::lemma_be_roundtrip(destination_port as nat, 2);
    crate::bytes::lemma_be_roundtrip(n as nat, 2);
    crate::bytes::lemma_be_roundtrip(c as nat, 2);
    assert(u.len() == 1480);
    assert(field(u, 4, 2) =~= be_bytes(n as nat, 2));
    assert(u[6] == 0 && u[7] == 0);
    assert(p =~= splice(d, 6, be_bytes(c as nat, 2)));
    assert(field(p, 6, 2) =~= be_bytes(c as nat, 2));
    assert(crate::bytes::be_num(field(p, 6, 2)) == p[6] * 256 + p[7]) by {
        let f = field(p, 6, 2);
        reveal_with_fuel(crate::bytes::be_num, 3);
        assert(f.drop_last().drop_last() =~= Seq::<u8>::empty());
    }
    lemma_byte_sum_update(d, p, 3);
    lemma_word_sum_bound(d, d.len() / 2);
    assert(word16(p, 3) == c);
    let sum0 = pseudo_header_sum(source, destination, n as nat) + byte_sum(d);
    assert(sum0 >= 0);
    assert(pseudo_header_sum(source, destination, p.len()) + byte_sum(p) == sum0 + c);
    lemma_checksum_closes(sum0 as nat, c as nat);
    assert(p.take(n as int) =~= p);
    assert(field(p, 4, 2) =~= field(u, 4, 2));
    assert(be_at(p, 4, 2) == n);
    assert(udp_checksum_spec(source, destination, p) == 0);
    assert(be_at(p, 6, 2) == c);
}

/// A datagram that `UdpDatagram::new` builds carries the ports and payload it was built with.
pub proof fn lemma_udp_fields(
    source_port: u16,
    destination_port: u16,
    source: Seq<u8>,
    destination: Seq<u8>,
    payload: Seq<u8>,
)
    requires
        payload.len() <= 1472,
    ensures
        ({
            let d = udp_image(source_port, destination_port, source, destination, payload).take(
                8 + payload.len() as int,
            );
            &&& d.len() == 8 + payload.len()
            &&& field(d, 0, 2) == be_bytes(source_port as nat, 2)
            &&& field(d, 2, 2) == be_bytes(destination_port as nat, 2)
            &&& d.skip(8) == payload
        }),
{
    let n = payload.len();
    let u = udp_unsigned(source_port, destination_port, payload);
    let d = udp_image(source_port, destination_port, source, destination, payload).take(8 + n as int);
    let c = udp_checksum_field(source, destination, u.take(8 + n as int));
    crate::bytes::lemma_be_bytes_len(source_port as nat, 2);
    crate::bytes::lemma_be_bytes_len(destination_port as nat, 2);
    crate::bytes::lemma_be_bytes_len((8 + n) as nat, 2);
    crate::bytes::lemma_be_bytes_len(c as nat, 2);
    assert(u.len() == 1480);
    assert(field(u, 0, 2) =~= be_bytes(source_port as nat, 2));
    assert(field(u, 2, 2) =~= be_bytes(destination_port as nat, 2));
    assert(u.subrange(8, 8 + n as int) =~= payload);
    assert(field(d, 0, 2) =~= field(u, 0, 2));
    assert(field(d, 2, 2) =~= field(u, 2, 2));
    assert(d.skip(8) =~= u.subrange(8, 8 + n as int));
}

/// The error, if any, that parsing `s` as a UDP datagram between `source` and `destination`
/// gives, in the order the checks are made.
pub open spec fn udp_check(s: Seq<u8>, source: Seq<u8>, destination: Seq<u8>) -> Option<
    UdpDatagramError,
> {
    let declared = be_at(s, 4, 2);
    if s.len() < 8 {
        Some(UdpDatagramError::TooShort { length: s.len() as usize })
    } else if declared > 1480 {
        Some(UdpDatagramError::TooLarge { length: declared as usize })
    } else if declared < 8 || declared > s.len() {
        Some(
            UdpDatagramError::LengthMismatch {
                declared: declared as usize,
                available: s.len() as usize,
            },
        )
    } else if be_at(s, 6, 2) != 0 && udp_checksum_spec(source, destination, s.take(declared as int))
        != 0 {
        Some(UdpDatagramError::InvalidChecksum)
    } else {
        None
    }
}

impl UdpDatagram {
    #[verifier::type_invariant]
    closed spec fn well_formed(self) -> bool {
        &&& 8 <= self.length <= 1480
        &&& forall|i: int| self.length <= i < 1480 ==> self.bytes@[i] == 0
    }

    pub fn new(
        source_port: u16,
        destination_port: u16,
        source: Ipv4Address,
        destination: Ipv4Address,
        payload: &[u8],
    ) -> (r: Result<Self, UdpDatagramError>)
        ensures
            payload@.len() > 1472 ==> r == Err::<Self, UdpDatagramError>(
                UdpDatagramError::PayloadTooLarge { length: payload@.len() as usize },
            ),
            payload@.len() <= 1472 ==> (r matches Ok(datagram) && datagram@ == udp_image(
                source_port,
                destination_port,
                source@,
                destination@,
                payload@,
            ).take(8 + payload@.len() as int)),
    {
        let payload_len = payload.len();
        if payload_len > UDP_MAX_PAYLOAD_LENGTH {
            return Err(UdpDatagramError::PayloadTooLarge { length: payload_len });
        }
        let length = UDP_HEADER_LENGTH + payload_len;
        let mut bytes = [0u8; UDP_MAX_PACKET_LENGTH];
        assert(bytes@ =~= zeros(1480));
        write_be(&mut bytes, 0, source_port as u64, 2);
        write_be(&mut bytes, 2, destination_port as u64, 2);
        write_be(&mut bytes, 4, length as u64, 2);
        copy_into(&mut bytes, UDP_HEADER_LENGTH, payload);
        let mut checksum = udp_checksum(source, destination, &bytes[0..length]);
        assert(bytes@.subrange(0, length as int) =~= bytes@.take(length as int));
        if checksum == 0 {
            checksum = u16::MAX;
        }
        write_be(&mut bytes, 6, checksum as u64, 2);
        proof {
            crate::bytes::lemma_be_bytes_len(checksum as nat, 2);
            assert forall|i: int| length <= i < 1480 implies bytes@[i] == 0 by {}
        }
        Ok(Self { bytes, length })
    }

    pub fn parse(bytes: &[u8], source: Ipv4Address, destination: Ipv4Address) -> (r: Result<
        Self,
        UdpDatagramError,
    >)
        ensures
            match udp_check(bytes@, source@, destination@) {
                Some(e) => r == Err::<Self, UdpDatagramError>(e),
                None => r matches Ok(datagram) && datagram@ == bytes@.take(
                    be_at(bytes@, 4, 2) as int,
                ),
            },
    {
        let len = bytes.len();
        if len < UDP_HEADER_LENGTH {
            return Err(UdpDatagramError::TooShort { length: len });
        }
        let declared_length = read_be(bytes, 4, 2) as usize;
        if declared_length > UDP_MAX_PACKET_LENGTH {
            return Err(UdpDatagramError::TooLarge { length: declared_length });
        }
        if declared_length < UDP_HEADER_LENGTH || declared_length > len {
            return Err(UdpDatagramError::LengthMismatch { declared: declared_length, available: len });
        }
        let checksum = read_be(bytes, 6, 2) as u16;
        let prefix = &bytes[0..declared_length];
        assert(prefix@ =~= bytes@.take(declared_length as int));
        if checksum != 0 && udp_checksum(source, destination, prefix) != 0 {
            return Err(UdpDatagramError::InvalidChecksum);
        }
        let mut datagram_bytes = [0u8; UDP_MAX_PACKET_LENGTH];
        assert(datagram_bytes@ =~= zeros(1480));
        copy_into(&mut datagram_bytes, 0, prefix);
        assert(datagram_bytes@.take(declared_length as int) =~= prefix@);
        Ok(Self { bytes: datagram_bytes, length: declared_length })
    }

    pub fn len(&self) -> (r: usize)
        ensures
            r == self@.len(),
            8 <= r <= 1480,
    {
        proof {
            use_type_invariant(self);
        }
        self.length
    }

    pub fn as_bytes(&self) -> (r: &[u8])
        ensures
            r@ == self@,
    {
        proof {
            use_type_invariant(self);
        }
        &self.bytes[0..self.length]
    }

    fn field16(&self, offset: usize) -> (r: u16)
        requires
            offset + 2 <= 8,
        ensures
            r == be_at(self@, offset as int, 2),
    {
        proof {
            use_type_invariant(self);
        }
        let r = read_be(&self.bytes, offset, 2) as u16;
        assert(crate::bytes::field(self.bytes@, offset as int, 2) =~= crate::bytes::field(
            self@,
            offset as int,
            2,
        ));
        r
    }

    pub fn source_port(&self) -> (r: u16)
        ensures
            r == be_at(self@, 0, 2),
    {
        self.field16(0)
    }

    pub fn destination_port(&self) -> (r: u16)
        ensures
            r == be_at(self@, 2, 2),
    {
        self.field16(2)
    }

    pub fn checksum(&self) -> (r: u16)
        ensures
            r == be_at(self@, 6, 2),
    {
        self.field16(6)
    }

    /// The bytes after the header.
    pub fn payload(&self) -> (r: &[u8])
        ensures
            r@ == self@.skip(8),
    {
        proof {
            use_type_invariant(self);
        }
        &self.bytes[UDP_HEADER_LENGTH..self.length]
    }
}

impl Clone for UdpDatagram {
    fn clone(&self) -> (r: Self)
        ensures
            r@ == self@,
    {
        proof {
            use_type_invariant(self);
        }
        Self { bytes: self.bytes, length: self.length }
    }
}

/// A network device that sends and receives Ethernet frames.
pub trait NetworkInterface {
    type Error;

    fn mac_address(&self) -> MacAddress;

    fn transmit(&mut self, frame: &EthernetFrame) -> Result<(), Self::Error>;

    fn receive(&mut self) -> Result<EthernetFrame, Self::Error>;
}

/// The weight of byte `i` in the Internet checksum: the high byte of a word (even index) counts
/// 256, the low byte 1.
pub open spec fn byte_weight(i: int) -> int {
    if i % 2 == 0 {
        256
    } else {
        1
    }
}

proof fn lemma_word_sum_change(s: Seq<u8>, t: Seq<u8>, i: int, n: nat)
    requires
        s.len() == t.len(),
        2 * n <= s.len(),
        0 <= i < s.len(),
        forall|k: int| 0 <= k < s.len() && k != i ==> s[k] == t[k],
    ensures
        word_sum(t, n) - word_sum(s, n) == if i < 2 * n {
            (t[i] - s[i]) * byte_weight(i)
        } else {
            0
        },
    decreases n,
{
    if n > 0 {
        lemma_word_sum_change(s, t, i, (n - 1) as nat);
        let j = n - 1;
        if i != 2 * j {
            assert(s[2 * j] == t[2 * j]);
        }
        if i != 2 * j + 1 {
            assert(s[2 * j + 1] == t[2 * j + 1]);
        }
    }
}

/// Changing one byte of `s` changes its checksum sum by that byte's change times its weight.
pub proof fn lemma_byte_sum_change(s: Seq<u8>, i: int, b: u8)
    requires
        0 <= i < s.len(),
    ensures
        byte_sum(s.update(i, b)) - byte_sum(s) == (b - s[i]) * byte_weight(i),
{
    let t = s.update(i, b);
    lemma_word_sum_change(s, t, i, s.len() / 2);
    if s.len() % 2 == 1 && i != s.len() - 1 {
        assert(s[s.len() - 1] == t[t.len() - 1]);
    }
}

/// A sum whose checksum closes stops closing when it changes by a nonzero amount smaller than
/// `0xffff`: the Internet checksum catches it.
pub proof fn lemma_checksum_catches_change(sum: nat, changed: nat)
    requires
        complement(sum) == 0,
        changed != sum,
        -0xffff < changed - sum < 0xffff,
    ensures
        complement(changed) != 0,
{
    lemma_fold_mod(sum);
    lemma_fold_bound(sum);
    lemma_fold_mod(changed);
    lemma_fold_bound(changed);
    assert(fold(sum) == 0xffff);
    assert(sum % 0xffff == 0);
    if complement(changed) == 0 {
        assert(fold(changed) == 0xffff);
        assert(changed % 0xffff == 0);
        assert(false) by (nonlinear_arith)
            requires
                sum % 0xffff == 0,
                changed % 0xffff == 0,
                changed != sum,
                -0xffff < changed - sum < 0xffff,
        {
            let a = sum / 0xffff;
            let c = changed / 0xffff;
            assert(sum == 0xffff * a);
            assert(changed == 0xffff * c);
        }
    }
}

/// A byte changed anywhere in a UDP datagram built by `UdpDatagram::new` (outside its length and
/// checksum fields, whose changes earlier checks or the absent-checksum rule meet) makes parsing
/// between the same addresses fail its checksum.
pub proof fn lemma_udp_corruption_detected(
    source_port: u16,
    destination_port: u16,
    source: Seq<u8>,
    destination: Seq<u8>,
    payload: Seq<u8>,
    i: int,
    b: u8,
)
    requires
        source.len() == 4,
        destination.len() == 4,
        payload.len() <= 1472,
        0 <= i < 8 + payload.len(),
        !(4 <= i < 8),
        b != udp_image(source_port, destination_port, source, destination, payload)[i],
    ensures
        udp_check(
            udp_image(source_port, destination_port, source, destination, payload).take(
                8 + payload.len() as int,
            ).update(i, b),
            source,
            destination,
        ) == Some(UdpDatagramError::InvalidChecksum),
{
    let n = 8 + payload.len();
    lemma_udp_roundtrip(source_port, destination_port, source, destination, payload);
    let d = udp_image(source_port, destination_port, source, destination, payload).take(n as int);
    let c = d.update(i, b);
    assert(field(c, 4, 2) =~= field(d, 4, 2));
    assert(field(c, 6, 2) =~= field(d, 6, 2));
    assert(c.take(n as int) =~= c);
    assert(d.take(n as int) =~= d);
    lemma_byte_sum_change(d, i, b);
    lemma_word_sum_bound(d, d.len() / 2);
    lemma_word_sum_bound(c, c.len() / 2);
    let sum = pseudo_header_sum(source, destination, n as nat) + byte_sum(d);
    let changed = pseudo_header_sum(source, destination, n as nat) + byte_sum(c);
    assert(b - d[i] != 0);
    assert(-0xffff < (b - d[i]) * byte_weight(i) < 0xffff) by (nonlinear_arith)
        requires
            -255 <= b - d[i] <= 255,
            byte_weight(i) == 256 || byte_weight(i) == 1,
    ;
    assert((b - d[i]) * byte_weight(i) != 0) by (nonlinear_arith)
        requires
            b - d[i] != 0,
            byte_weight(i) == 256 || byte_weight(i) == 1,
    ;
    lemma_checksum_catches_change(sum as nat, changed as nat);
}

/// A byte changed in the header of a packet built by `Ipv4Packet::new` (outside the version,
/// header-length and total-length fields, whose changes earlier checks meet) makes parsing fail
/// its header checksum.
pub proof fn lemma_ipv4_corruption_detected(
    source: Seq<u8>,
    destination: Seq<u8>,
    protocol: u8,
    payload: Seq<u8>,
    identification: u16,
    i: int,
    b: u8,
)
    requires
        source.len() == 4,
        destination.len() == 4,
        payload.len() <= 1480,
        i == 1 || 4 <= i < 20,
        b != ipv4_image(source, destination, protocol, payload, identification)[i],
    ensures
        ipv4_check(
            ipv4_image(source, destination, protocol, payload, identification).take(
                20 + payload.len() as int,
            ).update(i, b),
        ) == Some(Ipv4PacketError::InvalidChecksum),
{
    let n = 20 + payload.len();
    lemma_ipv4_roundtrip(source, destination, protocol, payload, identification);
    let p = ipv4_image(source, destination, protocol, payload, identification).take(n as int);
    let c = p.update(i, b);
    assert(field(c, 2, 2) =~= field(p, 2, 2));
    assert(c[0] == p[0]);
    let h = p.take(20);
    assert(c.take(20) =~= h.update(i, b));
    lemma_byte_sum_change(h, i, b);
    lemma_word_sum_bound(h, 10);
    lemma_word_sum_bound(h.update(i, b), 10);
    assert(-0xffff < (b - h[i]) * byte_weight(i) < 0xffff) by (nonlinear_arith)
        requires
            -255 <= b - h[i] <= 255,
            byte_weight(i) == 256 || byte_weight(i) == 1,
    ;
    assert((b - h[i]) * byte_weight(i) != 0) by (nonlinear_arith)
        requires
            b - h[i] != 0,
            byte_weight(i) == 256 || byte_weight(i) == 1,
    ;
    lemma_checksum_catches_change(byte_sum(h) as nat, byte_sum(h.update(i, b)) as nat);
}

/// A packet built by `Ipv4Packet::new` still parses, to the same bytes, with anything after it
/// in the buffer (the padding of a short Ethernet frame, say).
pub proof fn lemma_ipv4_padded_parse(
    source: Seq<u8>,
    destination: Seq<u8>,
    protocol: u8,
    payload: Seq<u8>,
    identification: u16,
    padding: Seq<u8>,
)
    requires
        source.len() == 4,
        destination.len() == 4,
        payload.len() <= 1480,
    ensures
        ({
            let p = ipv4_image(source, destination, protocol, payload, identification).take(
                20 + payload.len() as int,
            );
            let b = p + padding;
            &&& ipv4_check(b) is None
            &&& b.take(be_at(b, 2, 2) as int) == p
            &&& (b[0] % 16) * 4 == 20
        }),
{
    let n = 20 + payload.len();
    lemma_ipv4_roundtrip(source, destination, protocol, payload, identification);
    let p = ipv4_image(source, destination, protocol, payload, identification).take(n as int);
    let b = p + padding;
    assert(field(b, 2, 2) =~= field(p, 2, 2));
    assert(b.take(20) =~= p.take(20));
    assert(b.take(n as int) =~= p);
}

/// `p` is a whole IPv4 packet: it passes every check of `Ipv4Packet::parse` and declares
/// exactly its own length.
pub open spec fn whole_ipv4_packet(p: Seq<u8>) -> bool {
    ipv4_check(p) is None && be_at(p, 2, 2) == p.len()
}

/// A whole packet followed by anything (the padding of a short Ethernet frame, say) parses to
/// the same packet, with the same header length.
pub proof fn lemma_whole_packet_with_padding(p: Seq<u8>, padding: Seq<u8>)
    requires
        whole_ipv4_packet(p),
    ensures
        ipv4_check(p + padding) is None,
        (p + padding).take(be_at(p + padding, 2, 2) as int) == p,
        (p + padding)[0] == p[0],
{
    let b = p + padding;
    let h = (p[0] % 16) * 4;
    assert(field(b, 2, 2) =~= field(p, 2, 2));
    assert(b.take(h as int) =~= p.take(h as int));
    assert(b.take(p.len() as int) =~= p);
}

/// Changing a header byte of a whole packet, other than the version and header-length byte and
/// the total-length field (whose changes earlier checks meet), makes parsing fail its header
/// checksum.
pub proof fn lemma_whole_packet_corruption(p: Seq<u8>, i: int, b: u8)
    requires
        whole_ipv4_packet(p),
        i == 1 || 4 <= i < (p[0] % 16) * 4,
        b != p[i],
    ensures
        ipv4_check(p.update(i, b)) == Some(Ipv4PacketError::InvalidChecksum),
{
    let h = (p[0] % 16) * 4;
    let c = p.update(i, b);
    assert(field(c, 2, 2) =~= field(p, 2, 2));
    assert(c[0] == p[0]);
    let head = p.take(h as int);
    assert(c.take(h as int) =~= head.update(i, b));
    lemma_byte_sum_change(head, i, b);
    lemma_word_sum_bound(head, head.len() / 2);
    lemma_word_sum_bound(head.update(i, b), head.len() / 2);
    assert(-0xffff < (b - head[i]) * byte_weight(i) < 0xffff) by (nonlinear_arith)
        requires
            -255 <= b - head[i] <= 255,
            byte_weight(i) == 256 || byte_weight(i) == 1,
    ;
    assert((b - head[i]) * byte_weight(i) != 0) by (nonlinear_arith)
        requires
            b - head[i] != 0,
            byte_weight(i) == 256 || byte_weight(i) == 1,
    ;
    if head.len() % 2 == 1 {
        assert(head[head.len() - 1] >= 0);
    }
    lemma_checksum_catches_change(byte_sum(head) as nat, byte_sum(head.update(i, b)) as nat);
}

} // verus!
