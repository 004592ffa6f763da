//! RPC messages exchanged with the GSP: a 48-byte transport header, a 32-byte RPC header and the
//! payload, padded to whole pages and protected by an XOR checksum.
use vstd::prelude::*;
use crate::bytes::{
    field, le_at, le_bytes, le_num, lemma_field_outside_splice, lemma_le_bytes_len,
    lemma_le_roundtrip, lemma_pow256_values, lemma_splice, pow256, read_le, splice, write_le,
    copy_into, zeroed_vec, zeros,
};
use crate::gpu::{
    align_page, lemma_mask_usize, round_down, round_up, NVIDIA_GSP_MAX_MESSAGE_PAGES,
    NVIDIA_GSP_MESSAGE_HEADER_SIZE, NVIDIA_GSP_PAGE_SIZE, NVIDIA_GSP_RPC_HEADER_SIZE,
    NVIDIA_GSP_RPC_HEADER_VERSION, NVIDIA_GSP_RPC_SIGNATURE,
};
use crate::gpu::layout::put;

verus! {

#[derive(Debug, Clone, Copy, PartialEq, Eq, Structural)]
pub enum GspRpcError {
    PayloadTooLarge { size: usize, limit: usize },
    MessageTooLarge { pages: usize, limit: usize },
    InvalidHeaderVersion { actual: u32 },
    InvalidSignature { actual: u32 },
    InvalidRpcLength { length: u32 },
    InvalidElementCount { count: u32, pages: usize },
    ChecksumMismatch { expected: u32, actual: u32 },
    SizeOverflow,
}

/// The little-endian `u32` at `offset` of `s`.
pub open spec fn u32_at(s: Seq<u8>, offset: int) -> u32 {
    le_at(s, offset, 4) as u32
}

/// The error, if any, that parsing `s` as an RPC message gives, in the order the checks are
/// made.
pub open spec fn rpc_check(s: Seq<u8>) -> Option<GspRpcError> {
    let pages = s.len() / 4096;
    if s.len() < 80 || s.len() % 4096 != 0 {
        Some(GspRpcError::SizeOverflow)
    } else if pages > 16 {
        Some(GspRpcError::MessageTooLarge { pages: pages as usize, limit: 16 })
    } else if u32_at(s, 40) != pages {
        Some(GspRpcError::InvalidElementCount { count: u32_at(s, 40), pages: pages as usize })
    } else if u32_at(s, 48) != 0x0300_0000 {
        Some(GspRpcError::InvalidHeaderVersion { actual: u32_at(s, 48) })
    } else if u32_at(s, 52) != 0x4352_5056 {
        Some(GspRpcError::InvalidSignature { actual: u32_at(s, 52) })
    } else if 48 + u32_at(s, 56) > usize::MAX {
        Some(GspRpcError::SizeOverflow)
    } else if u32_at(s, 56) < 32 || 48 + u32_at(s, 56) > s.len() {
        Some(GspRpcError::InvalidRpcLength { length: u32_at(s, 56) })
    } else {
        None
    }
}

/// The byte of `s` at `i`, reading zero past either end.
pub open spec fn padded_byte(s: Seq<u8>, i: int) -> u8 {
    if 0 <= i < s.len() {
        s[i]
    } else {
        0
    }
}

/// Byte `j` of the checksum word at `offset`: the word at offset 32 holds the checksum itself,
/// whose four bytes count as zero.
pub open spec fn word_byte(s: Seq<u8>, offset: int, j: int) -> u8 {
    if offset == 32 && j < 4 {
        0
    } else {
        padded_byte(s, offset + j)
    }
}

/// The eight bytes of the checksum word at `offset`.
pub open spec fn word_bytes(s: Seq<u8>, offset: int) -> Seq<u8> {
    Seq::new(8, |j: int| word_byte(s, offset, j))
}

/// The little-endian checksum word at `offset`.
pub open spec fn checksum_word(s: Seq<u8>, offset: int) -> u64 {
    le_num(word_bytes(s, offset)) as u64
}

/// The XOR of the first `n` checksum words of `s`.
pub open spec fn xor_words(s: Seq<u8>, n: nat) -> u64
    decreases n,
{
    if n == 0 {
        0
    } else {
        xor_words(s, (n - 1) as nat) ^ checksum_word(s, 8 * (n - 1))
    }
}

/// A 64-bit XOR folded to 32 bits.
pub open spec fn fold32(r: u64) -> u32 {
    (r as u32) ^ ((r >> 32u64) as u32)
}

/// The checksum of the first `padded_length` bytes of `s` (a multiple of eight).
pub open spec fn checksum_padded_spec(s: Seq<u8>, padded_length: int) -> u32 {
    fold32(xor_words(s, (padded_length / 8) as nat))
}

/// `a + b`, saturating at `usize::MAX`.
pub open spec fn sat_add(a: int, b: int) -> int {
    if a + b > usize::MAX {
        usize::MAX as int
    } else {
        a + b
    }
}

/// The number of bytes the checksum of a message with RPC length `rpc_length` covers.
pub open spec fn checksum_length(rpc_length: u32) -> int {
    round_down(sat_add(sat_add(48, rpc_length as int), 7), 8)
}

/// The checksum of a message whose RPC header declares `rpc_length`.
pub open spec fn rpc_checksum(s: Seq<u8>, rpc_length: u32) -> u32 {
    checksum_padded_spec(s, checksum_length(rpc_length))
}

/// Whether the checksum field of a message is the checksum of its contents.
pub open spec fn rpc_checksum_valid(s: Seq<u8>) -> bool {
    rpc_checksum(s, u32_at(s, 56)) == u32_at(s, 32)
}

/// The checksum word of `bytes` at `offset`.
fn checksum_word_at(bytes: &[u8], offset: usize) -> (r: u64)
    requires
        offset + 8 <= usize::MAX,
    ensures
        r == checksum_word(bytes@, offset as int),
{
    let ghost w = word_bytes(bytes@, offset as int);
    let mut acc: u64 = 0;
    let mut k: usize = 8;
    let n = bytes.len();
    proof {
        lemma_pow256_values();
        reveal_with_fuel(pow256, 9);
        assert(w.subrange(8, 8) =~= Seq::<u8>::empty());
    }
    while k > 0
        invariant
            k <= 8,
            n == bytes@.len(),
            offset + 8 <= usize::MAX,
            w == word_bytes(bytes@, offset as int),
            acc == le_num(w.subrange(k as int, 8)),
            acc < pow256((8 - k) as nat),
            pow256(8) == 0x1_0000_0000_0000_0000,
            forall|j: nat| j < 8 ==> #[trigger] pow256(j + 1) == 256 * pow256(j),
        decreases k,
    {
        let j = k - 1;
        let byte: u8 = if offset == 32 && j < 4 {
            0
        } else if offset + j < n {
            bytes[offset + j]
        } else {
            0
        };
        assert(byte == w[j as int]);
        let ghost tail = w.subrange(k as int, 8);
        let ghost whole = w.subrange(j as int, 8);
        assert(whole.drop_first() =~= tail);
        proof {
            assert(pow256((8 - k) as nat) <= pow256(7)) by {
                lemma_pow256_monotone((8 - k) as nat, 7);
            }
        }
        acc = acc * 256 + byte as u64;
        k = j;
        assert(pow256((8 - k) as nat) == 256 * pow256((8 - k - 1) as nat));
    }
    assert(w.subrange(0, 8) =~= w);
    acc
}

proof fn lemma_pow256_monotone(a: nat, b: nat)
    requires
        a <= b,
    ensures
        pow256(a) <= pow256(b),
    decreases b,
{
    if a < b {
        lemma_pow256_monotone(a, (b - 1) as nat);
    }
}

/// The checksum of the first `padded_length` bytes, reading zero past the end of `bytes`.
fn checksum_padded(bytes: &[u8], padded_length: usize) -> (r: u32)
    requires
        padded_length % 8 == 0,
    ensures
        r == checksum_padded_spec(bytes@, padded_length as int),
{
    let mut result: u64 = 0;
    let mut offset: usize = 0;
    while offset < padded_length
        invariant
            offset % 8 == 0,
            offset <= padded_length,
            padded_length % 8 == 0,
            result == xor_words(bytes@, (offset / 8) as nat),
        decreases padded_length - offset,
    {
        let word = checksum_word_at(bytes, offset);
        result = result ^ word;
        offset = offset + 8;
        assert(((offset / 8) as nat - 1) as nat == ((offset - 8) / 8) as nat);
    }
    (result as u32) ^ ((result >> 32) as u32)
}

/// The checksum of a message whose RPC header declares `rpc_length`.
pub fn checksum_for_rpc(bytes: &[u8], rpc_length: u32) -> (r: u32)
    ensures
        r == rpc_checksum(bytes@, rpc_length),
{
    let rpc_length = rpc_length as usize;
    let message_length = NVIDIA_GSP_MESSAGE_HEADER_SIZE.saturating_add(rpc_length);
    let with_slack = message_length.saturating_add(7);
    proof {
        lemma_mask_usize(with_slack);
    }
    let padded_length = with_slack & !7usize;
    checksum_padded(bytes, padded_length)
}

/// A parsed RPC message borrowed from its bytes.
#[derive(Debug, Clone, Copy, PartialEq, Eq)]
pub struct GspRpcMessage<'a> {
    bytes: &'a [u8],
}

impl<'a> View for GspRpcMessage<'a> {
    type V = Seq<u8>;

    closed spec fn view(&self) -> Seq<u8> {
        self.bytes@
    }
}

impl<'a> GspRpcMessage<'a> {
    #[verifier::type_invariant]
    closed spec fn well_formed(self) -> bool {
        rpc_check(self.bytes@) is None
    }

    pub fn parse(bytes: &'a [u8]) -> (r: Result<Self, GspRpcError>)
        ensures
            match rpc_check(bytes@) {
                Some(e) => r == Err::<Self, GspRpcError>(e),
                None => r matches Ok(m) && m@ == bytes@,
            },
    {
        let len = bytes.len();
        if len < NVIDIA_GSP_MESSAGE_HEADER_SIZE + NVIDIA_GSP_RPC_HEADER_SIZE
            || len % NVIDIA_GSP_PAGE_SIZE != 0 {
            return Err(GspRpcError::SizeOverflow);
        }
        let pages = len / NVIDIA_GSP_PAGE_SIZE;
        if pages > NVIDIA_GSP_MAX_MESSAGE_PAGES {
            return Err(
                GspRpcError::MessageTooLarge { pages, limit: NVIDIA_GSP_MAX_MESSAGE_PAGES },
            );
        }
        let element_count = read_le(bytes, 40, 4) as u32;
        if element_count as usize != pages {
            return Err(GspRpcError::InvalidElementCount { count: element_count, pages });
        }
        let rpc_offset = NVIDIA_GSP_MESSAGE_HEADER_SIZE;
        let header_version = read_le(bytes, rpc_offset, 4) as u32;
        if header_version != NVIDIA_GSP_RPC_HEADER_VERSION {
            return Err(GspRpcError::InvalidHeaderVersion { actual: header_version });
        }
        let signature = read_le(bytes, rpc_offset + 4, 4) as u32;
        if signature != NVIDIA_GSP_RPC_SIGNATURE {
            return Err(GspRpcError::InvalidSignature { actual: signature });
        }
        let rpc_length = read_le(bytes, rpc_offset + 8, 4) as u32;
        let rpc_length_usize = rpc_length as usize;
        let rpc_end = match rpc_offset.checked_add(rpc_length_usize) {
            Some(v) => v,
            None => {
                return Err(GspRpcError::SizeOverflow);
            },
        };
        if rpc_length_usize < NVIDIA_GSP_RPC_HEADER_SIZE || rpc_end > len {
            return Err(GspRpcError::InvalidRpcLength { length: rpc_length });
        }
        Ok(Self { bytes })
    }

    pub fn bytes(self) -> (r: &'a [u8])
        ensures
            r@ == self@,
    {
        self.bytes
    }

    fn field_u32(self, offset: usize) -> (r: u32)
        requires
            offset + 4 <= 80,
        ensures
            r == u32_at(self@, offset as int),
    {
        proof {
            use_type_invariant(self);
        }
        read_le(self.bytes, offset, 4) as u32
    }

    pub fn sequence(self) -> (r: u32)
        ensures
            r == u32_at(self@, 36),
    {
        self.transport_sequence()
    }

    pub fn transport_sequence(self) -> (r: u32)
        ensures
            r == u32_at(self@, 36),
    {
        self.field_u32(36)
    }

    pub fn element_count(self) -> (r: u32)
        ensures
            r == u32_at(self@, 40),
    {
        self.field_u32(40)
    }

    pub fn checksum(self) -> (r: u32)
        ensures
            r == u32_at(self@, 32),
    {
        self.field_u32(32)
    }

    pub fn rpc_length(self) -> (r: u32)
        ensures
            r == u32_at(self@, 56),
    {
        self.field_u32(NVIDIA_GSP_MESSAGE_HEADER_SIZE + 8)
    }

    pub fn function(self) -> (r: u32)
        ensures
            r == u32_at(self@, 60),
    {
        self.field_u32(NVIDIA_GSP_MESSAGE_HEADER_SIZE + 12)
    }

    pub fn rpc_result(self) -> (r: u32)
        ensures
            r == u32_at(self@, 64),
    {
        self.field_u32(NVIDIA_GSP_MESSAGE_HEADER_SIZE + 16)
    }

    pub fn rpc_result_private(self) -> (r: u32)
        ensures
            r == u32_at(self@, 68),
    {
        self.field_u32(NVIDIA_GSP_MESSAGE_HEADER_SIZE + 20)
    }

    pub fn rpc_sequence(self) -> (r: u32)
        ensures
            r == u32_at(self@, 72),
    {
        self.field_u32(NVIDIA_GSP_MESSAGE_HEADER_SIZE + 24)
    }

    pub fn message_length(self) -> (r: usize)
        ensures
            r == self@.len(),
    {
        self.bytes.len()
    }

    /// The payload: the bytes after both headers, up to the end the RPC length declares.
    pub fn payload(self) -> (r: &'a [u8])
        ensures
            r@ == self@.subrange(80, 48 + u32_at(self@, 56)),
    {
        proof {
            use_type_invariant(self);
        }
        let start = NVIDIA_GSP_MESSAGE_HEADER_SIZE + NVIDIA_GSP_RPC_HEADER_SIZE;
        let length = self.rpc_length() as usize;
        let end = length - NVIDIA_GSP_RPC_HEADER_SIZE + start;
        &self.bytes[start..end]
    }

    /// Whether the checksum field matches the message's contents.
    pub fn checksum_valid(self) -> (r: bool)
        ensures
            r == rpc_checksum_valid(self@),
    {
        checksum_for_rpc(self.bytes, self.rpc_length()) == self.checksum()
    }
}

/// The largest payload an RPC message can carry.
pub open spec fn max_rpc_payload() -> int {
    16 * 4096 - 48 - 32
}

/// The pages of an encoded RPC message with `payload_len` payload bytes.
pub open spec fn rpc_total_length(payload_len: int) -> int {
    round_up(48 + 32 + payload_len, 4096)
}

/// An encoded message before its checksum is filled in.
pub open spec fn rpc_unsigned(
    function: u32,
    transport_sequence: u32,
    rpc_sequence: u32,
    payload: Seq<u8>,
) -> Seq<u8> {
    let total = rpc_total_length(payload.len() as int);
    let s = zeros(total as nat);
    let s = put(s, 36, transport_sequence as nat, 4);
    let s = put(s, 40, (total / 4096) as nat, 4);
    let s = put(s, 48, 0x0300_0000, 4);
    let s = put(s, 52, 0x4352_5056, 4);
    let s = put(s, 56, (32 + payload.len()) as nat, 4);
    let s = put(s, 60, function as nat, 4);
    let s = put(s, 64, 0xffff_ffff, 4);
    let s = put(s, 68, 0xffff_ffff, 4);
    let s = put(s, 72, rpc_sequence as nat, 4);
    splice(s, 80, payload)
}

/// An encoded RPC message: both headers, the payload, zero padding to a whole page, and the
/// checksum of it all at offset 32.
pub open spec fn rpc_wire(
    function: u32,
    transport_sequence: u32,
    rpc_sequence: u32,
    payload: Seq<u8>,
) -> Seq<u8> {
    let s = rpc_unsigned(function, transport_sequence, rpc_sequence, payload);
    put(s, 32, rpc_checksum(s, (32 + payload.len()) as u32) as nat, 4)
}

/// The result of encoding an RPC message.
pub open spec fn rpc_encode_result(
    function: u32,
    transport_sequence: u32,
    rpc_sequence: u32,
    payload: Seq<u8>,
) -> Result<Seq<u8>, GspRpcError> {
    if 32 + payload.len() > usize::MAX {
        Err(GspRpcError::SizeOverflow)
    } else if 32 + payload.len() > 16 * 4096 - 48 {
        Err(
            GspRpcError::PayloadTooLarge {
                size: payload.len() as usize,
                limit: max_rpc_payload() as usize,
            },
        )
    } else {
        Ok(rpc_wire(function, transport_sequence, rpc_sequence, payload))
    }
}

pub fn encode_gsp_rpc(function: u32, sequence: u32, payload: &[u8]) -> (r: Result<
    Vec<u8>,
    GspRpcError,
>)
    ensures
        match rpc_encode_result(function, sequence, 0, payload@) {
            Ok(s) => r matches Ok(v) && v@ == s,
            Err(e) => r == Err::<Vec<u8>, GspRpcError>(e),
        },
{
    encode_gsp_rpc_with_sequences(function, sequence, 0, payload)
}

#[verifier::rlimit(100)]
#[verifier::spinoff_prover]
#[verifier::spinoff_prover]
pub fn encode_gsp_rpc_with_sequences(
    function: u32,
    transport_sequence: u32,
    rpc_sequence: u32,
    payload: &[u8],
) -> (r: Result<Vec<u8>, GspRpcError>)
    ensures
        match rpc_encode_result(function, transport_sequence, rpc_sequence, payload@) {
            Ok(s) => r matches Ok(v) && v@ == s,
            Err(e) => r == Err::<Vec<u8>, GspRpcError>(e),
        },
{
    let rpc_length = match NVIDIA_GSP_RPC_HEADER_SIZE.checked_add(payload.len()) {
        Some(v) => v,
        None => {
            return Err(GspRpcError::SizeOverflow);
        },
    };
    let maximum_rpc_length = NVIDIA_GSP_MAX_MESSAGE_PAGES * NVIDIA_GSP_PAGE_SIZE
        - NVIDIA_GSP_MESSAGE_HEADER_SIZE;
    if rpc_length > maximum_rpc_length {
        return Err(
            GspRpcError::PayloadTooLarge {
                size: payload.len(),
                limit: maximum_rpc_length - NVIDIA_GSP_RPC_HEADER_SIZE,
            },
        );
    }
    let total_length = match align_page(NVIDIA_GSP_MESSAGE_HEADER_SIZE + rpc_length) {
        Some(v) => v,
        None => {
            return Err(GspRpcError::SizeOverflow);
        },
    };
    let ghost pl = payload@;
    let mut bytes = zeroed_vec(total_length);
    let element_count = (total_length / NVIDIA_GSP_PAGE_SIZE) as u32;
    let rpc_offset = NVIDIA_GSP_MESSAGE_HEADER_SIZE;
    write_le(bytes.as_mut_slice(), 36, transport_sequence as u64, 4);
    write_le(bytes.as_mut_slice(), 40, element_count as u64, 4);
    write_le(bytes.as_mut_slice(), rpc_offset, NVIDIA_GSP_RPC_HEADER_VERSION as u64, 4);
    write_le(bytes.as_mut_slice(), rpc_offset + 4, NVIDIA_GSP_RPC_SIGNATURE as u64, 4);
    write_le(bytes.as_mut_slice(), rpc_offset + 8, rpc_length as u64, 4);
    write_le(bytes.as_mut_slice(), rpc_offset + 12, function as u64, 4);
    write_le(bytes.as_mut_slice(), rpc_offset + 16, u32::MAX as u64, 4);
    write_le(bytes.as_mut_slice(), rpc_offset + 20, u32::MAX as u64, 4);
    write_le(bytes.as_mut_slice(), rpc_offset + 24, rpc_sequence as u64, 4);
    let payload_offset = rpc_offset + NVIDIA_GSP_RPC_HEADER_SIZE;
    copy_into(bytes.as_mut_slice(), payload_offset, payload);
    assert(bytes@ == rpc_unsigned(function, transport_sequence, rpc_sequence, pl));
    let message_checksum = checksum_for_rpc(bytes.as_slice(), rpc_length as u32);
    write_le(bytes.as_mut_slice(), 32, message_checksum as u64, 4);
    Ok(bytes)
}

/// The checksum does not read the four bytes at offset 32, where it is stored.
pub proof fn lemma_checksum_ignores_its_field(s1: Seq<u8>, s2: Seq<u8>, n: nat)
    requires
        s1.len() == s2.len(),
        forall|i: int| 0 <= i < s1.len() && !(32 <= i < 36) ==> s1[i] == s2[i],
    ensures
        xor_words(s1, n) == xor_words(s2, n),
    decreases n,
{
    if n > 0 {
        lemma_checksum_ignores_its_field(s1, s2, (n - 1) as nat);
        let o = 8 * (n - 1);
        assert(word_bytes(s1, o) =~= word_bytes(s2, o)) by {
            assert forall|j: int| 0 <= j < 8 implies word_byte(s1, o, j) == word_byte(s2, o, j) by {
                if !(o == 32 && j < 4) && 0 <= o + j < s1.len() {
                    assert(!(32 <= o + j < 36));
                }
            }
        }
    }
}

/// Reading back a four-byte little-endian field gives the value written.
proof fn lemma_u32_field(s: Seq<u8>, offset: int, v: u32)
    requires
        0 <= offset,
        offset + 4 <= s.len(),
        field(s, offset, 4) == le_bytes(v as nat, 4),
    ensures
        u32_at(s, offset) == v,
{
    lemma_pow256_values();
    lemma_le_roundtrip(v as nat, 4);
}

/// A four-byte field is unchanged by a splice that does not overlap it.
proof fn lemma_keep(s: Seq<u8>, offset: int, q: Seq<u8>, o2: int)
    requires
        0 <= offset,
        offset + q.len() <= s.len(),
        0 <= o2,
        o2 + 4 <= s.len(),
        o2 + 4 <= offset || offset + q.len() <= o2,
    ensures
        field(splice(s, offset, q), o2, 4) == field(s, o2, 4),
        splice(s, offset, q).len() == s.len(),
{
    lemma_field_outside_splice(s, offset, q, o2, 4);
    lemma_splice(s, offset, q);
}

#[verifier::rlimit(100)]
#[verifier::spinoff_prover]
/// An encoded message parses, carries the function and sequence numbers it was built with,
/// gives back its payload, and has a valid checksum.
pub proof fn lemma_rpc_roundtrip(
    function: u32,
    transport_sequence: u32,
    rpc_sequence: u32,
    payload: Seq<u8>,
)
    requires
        payload.len() <= max_rpc_payload(),
    ensures
        ({
            let s = rpc_wire(function, transport_sequence, rpc_sequence, payload);
            &&& rpc_check(s) is None
            &&& u32_at(s, 36) == transport_sequence
            &&& u32_at(s, 40) == s.len() / 4096
            &&& u32_at(s, 56) == 32 + payload.len()
            &&& u32_at(s, 60) == function
            &&& u32_at(s, 64) == u32::MAX
            &&& u32_at(s, 68) == u32::MAX
            &&& u32_at(s, 72) == rpc_sequence
            &&& s.subrange(80, 48 + u32_at(s, 56)) == payload
            &&& rpc_checksum_valid(s)
        }),
{
    lemma_pow256_values();
    let total = rpc_total_length(payload.len() as int);
    assert(total % 4096 == 0);
    assert(80 + payload.len() <= total <= 16 * 4096);
    let l = (32 + payload.len()) as nat;
    let pages = (total / 4096) as nat;
    let q36 = le_bytes(transport_sequence as nat, 4);
    let q40 = le_bytes(pages, 4);
    let q48 = le_bytes(0x0300_0000, 4);
    let q52 = le_bytes(0x4352_5056, 4);
    let q56 = le_bytes(l, 4);
    let q60 = le_bytes(function as nat, 4);
    let q64 = le_bytes(0xffff_ffff, 4);
    let q68 = le_bytes(0xffff_ffff, 4);
    let q72 = le_bytes(rpc_sequence as nat, 4);
    lemma_le_bytes_len(transport_sequence as nat, 4);
    lemma_le_bytes_len(pages, 4);
    lemma_le_bytes_len(0x0300_0000, 4);
    lemma_le_bytes_len(0x4352_5056, 4);
    lemma_le_bytes_len(l, 4);
    lemma_le_bytes_len(function as nat, 4);
    lemma_le_bytes_len(0xffff_ffff, 4);
    lemma_le_bytes_len(rpc_sequence as nat, 4);
    let s0 = zeros(total as nat);
    let s1 = splice(s0, 36, q36);
    lemma_splice(s0, 36, q36);
    let s2 = splice(s1, 40, q40);
    lemma_splice(s1, 40, q40);
    lemma_keep(s1, 40, q40, 36);
    let s3 = splice(s2, 48, q48);
    lemma_splice(s2, 48, q48);
    lemma_keep(s2, 48, q48, 36);
    lemma_keep(s2, 48, q48, 40);
    let s4 = splice(s3, 52, q52);
    lemma_splice(s3, 52, q52);
    lemma_keep(s3, 52, q52, 36);
    lemma_keep(s3, 52, q52, 40);
    lemma_keep(s3, 52, q52, 48);
    let s5 = splice(s4, 56, q56);
    lemma_splice(s4, 56, q56);
    lemma_keep(s4, 56, q56, 36);
    lemma_keep(s4, 56, q56, 40);
    lemma_keep(s4, 56, q56, 48);
    lemma_keep(s4, 56, q56, 52);
    let s6 = splice(s5, 60, q60);
    lemma_splice(s5, 60, q60);
    lemma_keep(s5, 60, q60, 36);
    lemma_keep(s5, 60, q60, 40);
    lemma_keep(s5, 60, q60, 48);
    lemma_keep(s5, 60, q60, 52);
    lemma_keep(s5, 60, q60, 56);
    let s7 = splice(s6, 64, q64);
    lemma_splice(s6, 64, q64);
    lemma_keep(s6, 64, q64, 36);
    lemma_keep(s6, 64, q64, 40);
    lemma_keep(s6, 64, q64, 48);
    lemma_keep(s6, 64, q64, 52);
    lemma_keep(s6, 64, q64, 56);
    lemma_keep(s6, 64, q64, 60);
    let s8 = splice(s7, 68, q68);
    lemma_splice(s7, 68, q68);
    lemma_keep(s7, 68, q68, 36);
    lemma_keep(s7, 68, q68, 40);
    lemma_keep(s7, 68, q68, 48);
    lemma_keep(s7, 68, q68, 52);
    lemma_keep(s7, 68, q68, 56);
    lemma_keep(s7, 68, q68, 60);
    lemma_keep(s7, 68, q68, 64);
    let s9 = splice(s8, 72, q72);
    lemma_splice(s8, 72, q72);
    lemma_keep(s8, 72, q72, 36);
    lemma_keep(s8, 72, q72, 40);
    lemma_keep(s8, 72, q72, 48);
    lemma_keep(s8, 72, q72, 52);
    lemma_keep(s8, 72, q72, 56);
    lemma_keep(s8, 72, q72, 60);
    lemma_keep(s8, 72, q72, 64);
    lemma_keep(s8, 72, q72, 68);
    let u = splice(s9, 80, payload);
    lemma_splice(s9, 80, payload);
    lemma_keep(s9, 80, payload, 36);
    lemma_keep(s9, 80, payload, 40);
    lemma_keep(s9, 80, payload, 48);
    lemma_keep(s9, 80, payload, 52);
    lemma_keep(s9, 80, payload, 56);
    lemma_keep(s9, 80, payload, 60);
    lemma_keep(s9, 80, payload, 64);
    lemma_keep(s9, 80, payload, 68);
    lemma_keep(s9, 80, payload, 72);
    assert(u == rpc_unsigned(function, transport_sequence, rpc_sequence, payload));
    let c = rpc_checksum(u, l as u32);
    let qc = le_bytes(c as nat, 4);
    lemma_le_bytes_len(c as nat, 4);
    let s = splice(u, 32, qc);
    lemma_splice(u, 32, qc);
    lemma_keep(u, 32, qc, 36);
    lemma_keep(u, 32, qc, 40);
    lemma_keep(u, 32, qc, 48);
    lemma_keep(u, 32, qc, 52);
    lemma_keep(u, 32, qc, 56);
    lemma_keep(u, 32, qc, 60);
    lemma_keep(u, 32, qc, 64);
    lemma_keep(u, 32, qc, 68);
    lemma_keep(u, 32, qc, 72);
    assert(s == rpc_wire(function, transport_sequence, rpc_sequence, payload));
    lemma_u32_field(s, 36, transport_sequence);
    lemma_u32_field(s, 40, pages as u32);
    lemma_u32_field(s, 48, 0x0300_0000);
    lemma_u32_field(s, 52, 0x4352_5056);
    lemma_u32_field(s, 56, l as u32);
    lemma_u32_field(s, 60, function);
    lemma_u32_field(s, 64, 0xffff_ffff);
    lemma_u32_field(s, 68, 0xffff_ffff);
    lemma_u32_field(s, 72, rpc_sequence);
    lemma_u32_field(s, 32, c);
    assert(s.subrange(80, 48 + l as int) =~= payload);
    assert forall|i: int| 0 <= i < u.len() && !(32 <= i < 36) implies u[i] == s[i] by {}
    lemma_checksum_ignores_its_field(u, s, (checksum_length(l as u32) / 8) as nat);
}

/// Two checksum words whose little-endian bytes differ in exactly one place leave different
/// folded checksums, whatever the other words XOR to.
proof fn lemma_one_byte_changes_fold(x: u64, ws: u64, wt: u64, b0: u64, b1: u64, b2: u64, b3: u64, b4: u64, b5: u64, b6: u64, b7: u64, c0: u64, c1: u64, c2: u64, c3: u64, c4: u64, c5: u64, c6: u64, c7: u64)
    by (bit_vector)
    requires
        b0 < 256,
        c0 < 256,
        b1 < 256,
        c1 < 256,
        b2 < 256,
        c2 < 256,
        b3 < 256,
        c3 < 256,
        b4 < 256,
        c4 < 256,
        b5 < 256,
        c5 < 256,
        b6 < 256,
        c6 < 256,
        b7 < 256,
        c7 < 256,
        ws == b0 + 256 * (b1 + 256 * (b2 + 256 * (b3 + 256 * (b4 + 256 * (b5 + 256 * (b6 + 256 * (b7))))))),
        wt == c0 + 256 * (c1 + 256 * (c2 + 256 * (c3 + 256 * (c4 + 256 * (c5 + 256 * (c6 + 256 * (c7))))))),
        (b0 != c0 && b1 == c1 && b2 == c2 && b3 == c3 && b4 == c4 && b5 == c5 && b6 == c6 && b7 == c7) || (b0 == c0 && b1 != c1 && b2 == c2 && b3 == c3 && b4 == c4 && b5 == c5 && b6 == c6 && b7 == c7) || (b0 == c0 && b1 == c1 && b2 != c2 && b3 == c3 && b4 == c4 && b5 == c5 && b6 == c6 && b7 == c7) || (b0 == c0 && b1 == c1 && b2 == c2 && b3 != c3 && b4 == c4 && b5 == c5 && b6 == c6 && b7 == c7) || (b0 == c0 && b1 == c1 && b2 == c2 && b3 == c3 && b4 != c4 && b5 == c5 && b6 == c6 && b7 == c7) || (b0 == c0 && b1 == c1 && b2 == c2 && b3 == c3 && b4 == c4 && b5 != c5 && b6 == c6 && b7 == c7) || (b0 == c0 && b1 == c1 && b2 == c2 && b3 == c3 && b4 == c4 && b5 == c5 && b6 != c6 && b7 == c7) || (b0 == c0 && b1 == c1 && b2 == c2 && b3 == c3 && b4 == c4 && b5 == c5 && b6 == c6 && b7 != c7),
    ensures
        fold32(x ^ wt) != fold32(x ^ ws),
{
}

proof fn lemma_xor_facts(a: u64, b: u64, c: u64)
    by (bit_vector)
    ensures
        a ^ 0u64 == a,
        (a ^ b) ^ c == (a ^ c) ^ b,
{
}

/// The XOR of the first `n` checksum words of `s` with word `k` left out.
pub open spec fn xor_words_except(s: Seq<u8>, n: nat, k: int) -> u64
    decreases n,
{
    if n == 0 {
        0
    } else {
        xor_words_except(s, (n - 1) as nat, k) ^ if n - 1 == k {
            0u64
        } else {
            checksum_word(s, 8 * (n - 1))
        }
    }
}

proof fn lemma_xor_split(s: Seq<u8>, n: nat, k: int)
    requires
        0 <= k,
    ensures
        xor_words(s, n) == xor_words_except(s, n, k) ^ if k < n {
            checksum_word(s, 8 * k)
        } else {
            0u64
        },
    decreases n,
{
    if n == 0 {
        lemma_xor_facts(0, 0, 0);
    } else {
        lemma_xor_split(s, (n - 1) as nat, k);
        let e = xor_words_except(s, (n - 1) as nat, k);
        let before = if k < n - 1 {
            checksum_word(s, 8 * k)
        } else {
            0u64
        };
        let c = checksum_word(s, 8 * (n - 1));
        lemma_xor_facts(e, before, c);
        lemma_xor_facts(e, c, 0);
        lemma_xor_facts(e ^ c, 0, 0);
    }
}

proof fn lemma_except_same(s: Seq<u8>, t: Seq<u8>, n: nat, i: int)
    requires
        s.len() == t.len(),
        0 <= i < s.len(),
        forall|m: int| 0 <= m < s.len() && m != i ==> s[m] == t[m],
    ensures
        xor_words_except(s, n, i / 8) == xor_words_except(t, n, i / 8),
    decreases n,
{
    if n > 0 {
        lemma_except_same(s, t, (n - 1) as nat, i);
        let o = 8 * (n - 1);
        if n - 1 != i / 8 {
            assert(word_bytes(s, o) =~= word_bytes(t, o)) by {
                assert forall|j: int| 0 <= j < 8 implies word_byte(s, o, j) == word_byte(t, o, j) by {
                    if 0 <= o + j < s.len() {
                        assert(o + j != i);
                    }
                }
            }
        }
    }
}

proof fn lemma_le_num8(q: Seq<u8>)
    requires
        q.len() == 8,
    ensures
        le_num(q) == q[0] + 256 * (q[1] + 256 * (q[2] + 256 * (q[3] + 256 * (q[4] + 256 * (q[5]
            + 256 * (q[6] + 256 * q[7])))))),
{
    let q1 = q.drop_first();
    let q2 = q1.drop_first();
    let q3 = q2.drop_first();
    let q4 = q3.drop_first();
    let q5 = q4.drop_first();
    let q6 = q5.drop_first();
    let q7 = q6.drop_first();
    let q8 = q7.drop_first();
    assert(q8.len() == 0);
    assert(le_num(q8) == 0);
    assert(le_num(q7) == q[7] + 256 * le_num(q8));
    assert(le_num(q6) == q[6] + 256 * le_num(q7));
    assert(le_num(q5) == q[5] + 256 * le_num(q6));
    assert(le_num(q4) == q[4] + 256 * le_num(q5));
    assert(le_num(q3) == q[3] + 256 * le_num(q4));
    assert(le_num(q2) == q[2] + 256 * le_num(q3));
    assert(le_num(q1) == q[1] + 256 * le_num(q2));
}

/// Changing one byte of the first `8 * n` bytes of `s`, outside the checksum field, changes
/// the folded XOR of its first `n` checksum words.
proof fn lemma_fold_catches_byte(s: Seq<u8>, n: nat, i: int, b: u8)
    requires
        0 <= i < s.len(),
        i < 8 * n,
        !(32 <= i < 40),
        b != s[i],
    ensures
        fold32(xor_words(s.update(i, b), n)) != fold32(xor_words(s, n)),
{
    let t = s.update(i, b);
    let k = i / 8;
    lemma_xor_split(s, n, k);
    lemma_xor_split(t, n, k);
    lemma_except_same(s, t, n, i);
    let e = xor_words_except(s, n, k);
    let ws = word_bytes(s, 8 * k);
    let wt = word_bytes(t, 8 * k);
    let m0 = i - 8 * k;
    assert(0 <= m0 < 8);
    assert(k != 4);
    assert forall|m: int| 0 <= m < 8 && m != m0 implies ws[m] == wt[m] by {
        if 0 <= 8 * k + m < s.len() {
            assert(8 * k + m != i);
        }
    }
    assert(ws[m0] == s[i] && wt[m0] == b);
    lemma_le_num8(ws);
    lemma_le_num8(wt);
    lemma_one_byte_changes_fold(
        e,
        checksum_word(s, 8 * k),
        checksum_word(t, 8 * k),
        ws[0] as u64,
        ws[1] as u64,
        ws[2] as u64,
        ws[3] as u64,
        ws[4] as u64,
        ws[5] as u64,
        ws[6] as u64,
        ws[7] as u64,
        wt[0] as u64,
        wt[1] as u64,
        wt[2] as u64,
        wt[3] as u64,
        wt[4] as u64,
        wt[5] as u64,
        wt[6] as u64,
        wt[7] as u64,
    );
}

/// A message whose checksum is valid stops being valid when any byte its checksum covers
/// changes, other than the checksum field and the RPC length: the transport header before the
/// checksum field, or anything from the RPC header's end to the end the RPC length gives.
pub proof fn lemma_checksum_catches_byte(s: Seq<u8>, i: int, b: u8)
    requires
        rpc_check(s) is None,
        rpc_checksum_valid(s),
        0 <= i < 32 || 80 <= i < 48 + u32_at(s, 56),
        b != s[i],
    ensures
        !rpc_checksum_valid(s.update(i, b)),
{
    let t = s.update(i, b);
    let l = u32_at(s, 56);
    assert(field(t, 56, 4) =~= field(s, 56, 4));
    assert(field(t, 32, 4) =~= field(s, 32, 4));
    assert(s.len() <= 16 * 4096);
    assert(sat_add(48, l as int) == 48 + l);
    assert(sat_add(48 + l, 7) == 55 + l);
    let n = (checksum_length(l) / 8) as nat;
    assert(checksum_length(l) == (55 + l) / 8 * 8);
    assert(i < 8 * n);
    lemma_fold_catches_byte(s, n, i, b);
}

/// Changing any byte of an encoded RPC message that its checksum covers (the transport header
/// before the checksum field, or the payload) makes its checksum invalid.
pub proof fn lemma_rpc_corruption_detected(
    function: u32,
    transport_sequence: u32,
    rpc_sequence: u32,
    payload: Seq<u8>,
    i: int,
    b: u8,
)
    requires
        payload.len() <= max_rpc_payload(),
        0 <= i < 32 || 80 <= i < 80 + payload.len(),
        b != rpc_wire(function, transport_sequence, rpc_sequence, payload)[i],
    ensures
        !rpc_checksum_valid(
            rpc_wire(function, transport_sequence, rpc_sequence, payload).update(i, b),
        ),
{
    lemma_rpc_roundtrip(function, transport_sequence, rpc_sequence, payload);
    let s = rpc_wire(function, transport_sequence, rpc_sequence, payload);
    assert(48 + u32_at(s, 56) == 80 + payload.len());
    lemma_checksum_catches_byte(s, i, b);
}

} // verus!
