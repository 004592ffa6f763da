//! The shared-memory message queues: a ring of page-sized slots after a one-page header that
//! holds the write pointer (offset 16) and the read pointer (offset 32).
use vstd::prelude::*;
use crate::bytes::{
    copy_sized_into, field, le_bytes, lemma_field_outside_splice, lemma_le_bytes_len, lemma_splice,
    read_le, splice, write_le, zeroed_vec,
};
use crate::gpu::layout::put;
use crate::gpu::rpc::{
    checksum_for_rpc, rpc_check, rpc_checksum, rpc_checksum_valid, u32_at, GspRpcError,
    GspRpcMessage,
};
use crate::gpu::{
    NVIDIA_GSP_MAX_MESSAGE_PAGES, NVIDIA_GSP_PAGE_SIZE, NVIDIA_GSP_QUEUE_ENTRY_COUNT,
    NVIDIA_GSP_QUEUE_ENTRY_OFFSET, NVIDIA_GSP_QUEUE_ENTRY_SIZE,
    NVIDIA_GSP_QUEUE_RX_READ_POINTER_OFFSET, NVIDIA_GSP_QUEUE_TX_WRITE_POINTER_OFFSET,
    NVIDIA_GSP_SHARED_QUEUE_BYTES,
};

verus! {

#[derive(Debug, Clone, Copy, PartialEq, Eq, Structural)]
pub enum GspQueueError {
    BufferTooSmall { required: usize, actual: usize },
    PointerOutOfRange { pointer: u32, count: usize },
    QueueFull { write_pointer: u32, read_pointer: u32 },
    MessageNotReady { required: usize, available: usize },
    Rpc(GspRpcError),
}

impl From<GspRpcError> for GspQueueError {
    fn from(error: GspRpcError) -> (r: Self) {
        Self::Rpc(error)
    }
}

impl vstd::std_specs::convert::FromSpecImpl<GspRpcError> for GspQueueError {
    open spec fn obeys_from_spec() -> bool {
        true
    }

    open spec fn from_spec(error: GspRpcError) -> Self {
        Self::Rpc(error)
    }
}

/// The write pointer of a queue.
pub open spec fn write_pointer_of(s: Seq<u8>) -> u32 {
    u32_at(s, 16)
}

/// The read pointer of a queue.
pub open spec fn read_pointer_of(s: Seq<u8>) -> u32 {
    u32_at(s, 32)
}

/// The error for a pointer outside the ring.
pub open spec fn out_of_range(pointer: u32) -> GspQueueError {
    GspQueueError::PointerOutOfRange { pointer, count: 63 }
}

/// The error, if any, of reading the two pointers (the write pointer is read first).
pub open spec fn pointers_check(s: Seq<u8>) -> Option<GspQueueError> {
    if write_pointer_of(s) >= 63 {
        Some(out_of_range(write_pointer_of(s)))
    } else if read_pointer_of(s) >= 63 {
        Some(out_of_range(read_pointer_of(s)))
    } else {
        None
    }
}

/// The number of slots from `from` forward to `to` around the ring.
pub open spec fn distance(from: int, to: int) -> int {
    if to >= from {
        to - from
    } else {
        63 - from + to
    }
}

/// The slot `n` places after `pointer` around the ring.
pub open spec fn advance(pointer: int, n: int) -> int {
    (pointer + n) % 63
}

/// The byte offset of slot `i`.
pub open spec fn slot_offset(i: int) -> int {
    4096 + 4096 * i
}

/// The bytes of slot `i`.
pub open spec fn slot(s: Seq<u8>, i: int) -> Seq<u8> {
    field(s, slot_offset(i), 4096)
}

/// Page `k` of a message.
pub open spec fn page(m: Seq<u8>, k: int) -> Seq<u8> {
    field(m, 4096 * k, 4096)
}

/// The queue after the first `k` pages of `m` are copied into the slots from `w` on.
pub open spec fn write_pages(s: Seq<u8>, m: Seq<u8>, w: int, k: nat) -> Seq<u8>
    decreases k,
{
    if k == 0 {
        s
    } else {
        let t = write_pages(s, m, w, (k - 1) as nat);
        splice(t, slot_offset(advance(w, k - 1)), page(m, k - 1))
    }
}

/// The `n` slots from `r` on, concatenated.
pub open spec fn gather(s: Seq<u8>, r: int, n: nat) -> Seq<u8>
    decreases n,
{
    if n == 0 {
        Seq::empty()
    } else {
        gather(s, r, (n - 1) as nat) + slot(s, advance(r, n - 1))
    }
}

/// The error, if any, of enqueueing `m` on the queue `s`, in the order the checks are made.
pub open spec fn write_check(s: Seq<u8>, m: Seq<u8>) -> Option<GspQueueError> {
    let w = write_pointer_of(s);
    let r = read_pointer_of(s);
    if rpc_check(m) is Some {
        Some(GspQueueError::Rpc(rpc_check(m)->Some_0))
    } else if !rpc_checksum_valid(m) {
        Some(
            GspQueueError::Rpc(
                GspRpcError::ChecksumMismatch {
                    expected: rpc_checksum(m, u32_at(m, 56)),
                    actual: u32_at(m, 32),
                },
            ),
        )
    } else if pointers_check(s) is Some {
        pointers_check(s)
    } else if m.len() / 4096 > 63 - distance(r as int, w as int) - 1 {
        Some(GspQueueError::QueueFull { write_pointer: w, read_pointer: r })
    } else {
        None
    }
}

/// The queue after `m` is enqueued: its pages in the slots from the write pointer on, and the
/// write pointer moved past them.
pub open spec fn queue_after_write(s: Seq<u8>, m: Seq<u8>) -> Seq<u8> {
    let w = write_pointer_of(s) as int;
    let pages = m.len() / 4096;
    put(write_pages(s, m, w, pages as nat), 16, advance(w, pages as int) as nat, 4)
}

/// The number of pages the message at the read pointer declares.
pub open spec fn head_pages(s: Seq<u8>) -> u32 {
    u32_at(s, slot_offset(read_pointer_of(s) as int) + 40)
}

/// The message at the read pointer: the slots it declares, concatenated.
pub open spec fn head_message(s: Seq<u8>) -> Seq<u8> {
    gather(s, read_pointer_of(s) as int, head_pages(s) as nat)
}

/// The result of trying to dequeue from the queue `s`, in the order the checks are made; where
/// a message is taken it is `Ok(Some(..))`.
pub open spec fn receive_check(s: Seq<u8>) -> Result<Option<Seq<u8>>, GspQueueError> {
    let w = write_pointer_of(s) as int;
    let r = read_pointer_of(s) as int;
    let pages = head_pages(s);
    let m = head_message(s);
    if pointers_check(s) is Some {
        Err(pointers_check(s)->Some_0)
    } else if w == r {
        Ok(None)
    } else if pages == 0 || pages > 16 {
        Err(GspQueueError::Rpc(GspRpcError::InvalidElementCount { count: pages, pages: pages as usize }))
    } else if pages > distance(r, w) {
        Err(GspQueueError::MessageNotReady { required: pages as usize, available: distance(r, w) as usize })
    } else if rpc_check(m) is Some {
        Err(GspQueueError::Rpc(rpc_check(m)->Some_0))
    } else if !rpc_checksum_valid(m) {
        Err(
            GspQueueError::Rpc(
                GspRpcError::ChecksumMismatch {
                    expected: rpc_checksum(m, u32_at(m, 56)),
                    actual: u32_at(m, 32),
                },
            ),
        )
    } else {
        Ok(Some(m))
    }
}

/// The queue after its head message is taken: the read pointer moved past it.
pub open spec fn queue_after_receive(s: Seq<u8>) -> Seq<u8> {
    let r = read_pointer_of(s) as int;
    put(s, 32, advance(r, head_pages(s) as int) as nat, 4)
}

/// The byte offset of slot `slot`, for a slot inside the ring.
pub fn queue_slot_offset(slot: u32) -> (r: Result<usize, GspQueueError>)
    ensures
        r == (if slot < 63 {
            Ok::<usize, GspQueueError>(slot_offset(slot as int) as usize)
        } else {
            Err(out_of_range(slot))
        }),
{
    let slot = slot as usize;
    if slot >= NVIDIA_GSP_QUEUE_ENTRY_COUNT {
        return Err(
            GspQueueError::PointerOutOfRange {
                pointer: slot as u32,
                count: NVIDIA_GSP_QUEUE_ENTRY_COUNT,
            },
        );
    }
    Ok(NVIDIA_GSP_QUEUE_ENTRY_OFFSET + slot * NVIDIA_GSP_QUEUE_ENTRY_SIZE)
}

/// The number of slots from `from` forward to `to`, for pointers inside the ring.
pub fn queue_distance(from: u32, to: u32) -> (r: Result<usize, GspQueueError>)
    ensures
        r == (if from >= 63 {
            Err(out_of_range(from))
        } else if to >= 63 {
            Err(out_of_range(to))
        } else {
            Ok::<usize, GspQueueError>(distance(from as int, to as int) as usize)
        }),
{
    let from_index = from as usize;
    let to_index = to as usize;
    if from_index >= NVIDIA_GSP_QUEUE_ENTRY_COUNT {
        return Err(
            GspQueueError::PointerOutOfRange {
                pointer: from_index as u32,
                count: NVIDIA_GSP_QUEUE_ENTRY_COUNT,
            },
        );
    }
    if to_index >= NVIDIA_GSP_QUEUE_ENTRY_COUNT {
        return Err(
            GspQueueError::PointerOutOfRange {
                pointer: to_index as u32,
                count: NVIDIA_GSP_QUEUE_ENTRY_COUNT,
            },
        );
    }
    Ok(
        if to_index >= from_index {
            to_index - from_index
        } else {
            NVIDIA_GSP_QUEUE_ENTRY_COUNT - from_index + to_index
        },
    )
}

/// The slot `entries` places after `pointer`, for a pointer inside the ring.
pub fn queue_advance(pointer: u32, entries: usize) -> (r: Result<u32, GspQueueError>)
    requires
        entries <= usize::MAX - 63,
    ensures
        r == (if pointer >= 63 {
            Err(out_of_range(pointer))
        } else {
            Ok::<u32, GspQueueError>(advance(pointer as int, entries as int) as u32)
        }),
{
    let index = pointer as usize;
    if index >= NVIDIA_GSP_QUEUE_ENTRY_COUNT {
        return Err(
            GspQueueError::PointerOutOfRange {
                pointer: index as u32,
                count: NVIDIA_GSP_QUEUE_ENTRY_COUNT,
            },
        );
    }
    let next = (index + entries) % NVIDIA_GSP_QUEUE_ENTRY_COUNT;
    Ok(next as u32)
}

/// A message queue over a borrowed shared-memory buffer.
pub struct GspQueue<'a> {
    bytes: &'a mut [u8],
}

impl<'a> View for GspQueue<'a> {
    type V = Seq<u8>;

    closed spec fn view(&self) -> Seq<u8> {
        self.bytes@
    }
}

impl<'a> GspQueue<'a> {
    #[verifier::type_invariant]
    closed spec fn large_enough(self) -> bool {
        0x40000 <= self.bytes@.len() <= usize::MAX
    }

    /// The caller's buffer that the queue works in.
    pub closed spec fn buffer(self) -> &'a mut [u8] {
        self.bytes
    }

    /// Works in the caller's buffer: the queue starts as its bytes, and whatever the queue
    /// finally holds is what the buffer holds once the queue is done with it.
    pub fn new(bytes: &'a mut [u8]) -> (r: Result<Self, GspQueueError>)
        ensures
            old(bytes)@.len() >= 0x40000 ==> (r matches Ok(q) && q@ == old(bytes)@
                && final(bytes)@ == final(q.buffer())@),
            old(bytes)@.len() < 0x40000 ==> r == Err::<Self, GspQueueError>(
                GspQueueError::BufferTooSmall {
                    required: 0x40000,
                    actual: old(bytes)@.len() as usize,
                },
            ) && final(bytes)@ == old(bytes)@,
    {
        let len = bytes.len();
        if len < NVIDIA_GSP_SHARED_QUEUE_BYTES {
            return Err(
                GspQueueError::BufferTooSmall {
                    required: NVIDIA_GSP_SHARED_QUEUE_BYTES,
                    actual: len,
                },
            );
        }
        Ok(Self { bytes })
    }

    /// Hands the caller's buffer back, holding what the queue holds.
    pub fn into_buffer(self) -> (r: &'a mut [u8])
        ensures
            r@ == self@,
            final(r)@ == final(self.buffer())@,
    {
        let GspQueue { bytes } = self;
        bytes
    }

    fn pointer(&self, offset: usize) -> (r: Result<u32, GspQueueError>)
        requires
            offset + 4 <= 4096,
        ensures
            r == (if u32_at(self@, offset as int) < 63 {
                Ok::<u32, GspQueueError>(u32_at(self@, offset as int))
            } else {
                Err(out_of_range(u32_at(self@, offset as int)))
            }),
    {
        proof {
            use_type_invariant(self);
        }
        let pointer = read_le(self.bytes, offset, 4) as u32;
        if pointer as usize >= NVIDIA_GSP_QUEUE_ENTRY_COUNT {
            return Err(
                GspQueueError::PointerOutOfRange {
                    pointer,
                    count: NVIDIA_GSP_QUEUE_ENTRY_COUNT,
                },
            );
        }
        Ok(pointer)
    }

    pub fn write_pointer(&self) -> (r: Result<u32, GspQueueError>)
        ensures
            r == (if write_pointer_of(self@) < 63 {
                Ok::<u32, GspQueueError>(write_pointer_of(self@))
            } else {
                Err(out_of_range(write_pointer_of(self@)))
            }),
    {
        self.pointer(NVIDIA_GSP_QUEUE_TX_WRITE_POINTER_OFFSET)
    }

    pub fn read_pointer(&self) -> (r: Result<u32, GspQueueError>)
        ensures
            r == (if read_pointer_of(self@) < 63 {
                Ok::<u32, GspQueueError>(read_pointer_of(self@))
            } else {
                Err(out_of_range(read_pointer_of(self@)))
            }),
    {
        self.pointer(NVIDIA_GSP_QUEUE_RX_READ_POINTER_OFFSET)
    }

    /// The number of free slots, keeping one free to tell a full ring from an empty one.
    pub fn available_entries(&self) -> (r: Result<usize, GspQueueError>)
        ensures
            match pointers_check(self@) {
                Some(e) => r == Err::<usize, GspQueueError>(e),
                None => r == Ok::<usize, GspQueueError>(
                    (63 - distance(
                        read_pointer_of(self@) as int,
                        write_pointer_of(self@) as int,
                    ) - 1) as usize,
                ),
            },
    {
        let write = match self.write_pointer() {
            Ok(v) => v,
            Err(e) => {
                return Err(e);
            },
        };
        let read = match self.read_pointer() {
            Ok(v) => v,
            Err(e) => {
                return Err(e);
            },
        };
        let used = match queue_distance(read, write) {
            Ok(v) => v,
            Err(e) => {
                return Err(e);
            },
        };
        Ok(NVIDIA_GSP_QUEUE_ENTRY_COUNT - used - 1)
    }

    /// Copies `message` into the slots from the write pointer on and moves the write pointer
    /// past them; the message must parse, carry a valid checksum and fit in the free slots.
    pub fn write_message(&mut self, message: &[u8]) -> (r: Result<u32, GspQueueError>)
        ensures
            final(final(self).buffer())@ == final(old(self).buffer())@,
            match write_check(old(self)@, message@) {
                Some(e) => r == Err::<u32, GspQueueError>(e) && final(self)@ == old(self)@,
                None => {
                    &&& r == Ok::<u32, GspQueueError>(
                        advance(
                            write_pointer_of(old(self)@) as int,
                            (message@.len() / 4096) as int,
                        ) as u32,
                    )
                    &&& final(self)@ == queue_after_write(old(self)@, message@)
                },
            },
    {
        proof {
            use_type_invariant(&*self);
        }
        let parsed = match GspRpcMessage::parse(message) {
            Ok(p) => p,
            Err(e) => {
                return Err(GspQueueError::Rpc(e));
            },
        };
        if !parsed.checksum_valid() {
            return Err(
                GspQueueError::Rpc(
                    GspRpcError::ChecksumMismatch {
                        expected: checksum_for_rpc(message, parsed.rpc_length()),
                        actual: parsed.checksum(),
                    },
                ),
            );
        }
        let pages = message.len() / NVIDIA_GSP_PAGE_SIZE;
        let write = match self.write_pointer() {
            Ok(v) => v,
            Err(e) => {
                return Err(e);
            },
        };
        let read = match self.read_pointer() {
            Ok(v) => v,
            Err(e) => {
                return Err(e);
            },
        };
        let available = match self.available_entries() {
            Ok(v) => v,
            Err(e) => {
                return Err(e);
            },
        };
        if pages > available {
            return Err(GspQueueError::QueueFull { write_pointer: write, read_pointer: read });
        }
        let ghost s0 = self@;
        let ghost m = message@;
        let mut index: usize = 0;
        assert(write_pages(s0, m, write as int, 0) == s0);
        while index < pages
            invariant
                index <= pages <= 16,
                pages == m.len() / 4096,
                m.len() % 4096 == 0,
                m == message@,
                write < 63,
                0x40000 <= s0.len() <= usize::MAX,
                self.bytes@.len() == s0.len(),
                self@ == write_pages(s0, m, write as int, index as nat),
                final(self.buffer())@ == final(old(self).buffer())@,
            decreases pages - index,
        {
            let slot = match queue_advance(write, index) {
                Ok(v) => v,
                Err(e) => {
                    return Err(e);
                },
            };
            let offset = match queue_slot_offset(slot) {
                Ok(v) => v,
                Err(e) => {
                    return Err(e);
                },
            };
            let start = index * NVIDIA_GSP_PAGE_SIZE;
            let source = &message[start..start + NVIDIA_GSP_PAGE_SIZE];
            assert(source@ == page(m, index as int));
            let ghost before = self@;
            copy_sized_into(self.bytes, offset, source, NVIDIA_GSP_PAGE_SIZE);
            proof {
                lemma_splice(before, offset as int, source@);
            }
            index = index + 1;
        }
        let next = match queue_advance(write, pages) {
            Ok(v) => v,
            Err(e) => {
                return Err(e);
            },
        };
        let ghost before = self@;
        write_le(self.bytes, NVIDIA_GSP_QUEUE_TX_WRITE_POINTER_OFFSET, next as u64, 4);
        proof {
            lemma_le_bytes_len(next as nat, 4);
            lemma_splice(before, 16, le_bytes(next as nat, 4));
        }
        Ok(next)
    }

    /// Takes the message at the read pointer, if one has been written, and moves the read
    /// pointer past it.
    pub fn try_receive_message(&mut self) -> (r: Result<Option<Vec<u8>>, GspQueueError>)
        ensures
            final(final(self).buffer())@ == final(old(self).buffer())@,
            match receive_check(old(self)@) {
                Err(e) => r == Err::<Option<Vec<u8>>, GspQueueError>(e) && final(self)@ == old(
                    self,
                )@,
                Ok(None) => r == Ok::<Option<Vec<u8>>, GspQueueError>(None) && final(self)@
                    == old(self)@,
                Ok(Some(m)) => (r matches Ok(Some(v)) && v@ == m) && final(self)@
                    == queue_after_receive(old(self)@),
            },
    {
        proof {
            use_type_invariant(&*self);
        }
        let write = match self.write_pointer() {
            Ok(v) => v,
            Err(e) => {
                return Err(e);
            },
        };
        let read = match self.read_pointer() {
            Ok(v) => v,
            Err(e) => {
                return Err(e);
            },
        };
        if write == read {
            return Ok(None);
        }
        let available = match queue_distance(read, write) {
            Ok(v) => v,
            Err(e) => {
                return Err(e);
            },
        };
        let first_offset = match queue_slot_offset(read) {
            Ok(v) => v,
            Err(e) => {
                return Err(e);
            },
        };
        let element_count = read_le(self.bytes, first_offset + 40, 4) as u32;
        let pages = element_count as usize;
        if pages == 0 || pages > NVIDIA_GSP_MAX_MESSAGE_PAGES {
            return Err(
                GspQueueError::Rpc(GspRpcError::InvalidElementCount { count: element_count, pages }),
            );
        }
        if pages > available {
            return Err(GspQueueError::MessageNotReady { required: pages, available });
        }
        let ghost s0 = self@;
        let mut message: Vec<u8> = Vec::new();
        let mut page: usize = 0;
        while page < pages
            invariant
                page <= pages <= 16,
                read < 63,
                s0 == self@,
                s0.len() >= 0x40000,
                message@ == gather(s0, read as int, page as nat),
            decreases pages - page,
        {
            let slot = match queue_advance(read, page) {
                Ok(v) => v,
                Err(e) => {
                    return Err(e);
                },
            };
            let offset = match queue_slot_offset(slot) {
                Ok(v) => v,
                Err(e) => {
                    return Err(e);
                },
            };
            let source = &self.bytes[offset..offset + NVIDIA_GSP_PAGE_SIZE];
            message.extend_from_slice(source);
            page = page + 1;
        }
        let parsed = match GspRpcMessage::parse(message.as_slice()) {
            Ok(p) => p,
            Err(e) => {
                return Err(GspQueueError::Rpc(e));
            },
        };
        if !parsed.checksum_valid() {
            return Err(
                GspQueueError::Rpc(
                    GspRpcError::ChecksumMismatch {
                        expected: checksum_for_rpc(message.as_slice(), parsed.rpc_length()),
                        actual: parsed.checksum(),
                    },
                ),
            );
        }
        let next = match queue_advance(read, pages) {
            Ok(v) => v,
            Err(e) => {
                return Err(e);
            },
        };
        let ghost before = self@;
        write_le(self.bytes, NVIDIA_GSP_QUEUE_RX_READ_POINTER_OFFSET, next as u64, 4);
        proof {
            lemma_le_bytes_len(next as nat, 4);
            lemma_splice(before, 32, le_bytes(next as nat, 4));
        }
        Ok(Some(message))
    }
}

/// Copying pages into slots leaves the header page, and the buffer's length, as they were.
proof fn lemma_write_pages_header(s: Seq<u8>, m: Seq<u8>, w: int, k: nat, a: int, n: int)
    requires
        0x40000 <= s.len(),
        0 <= w < 63,
        k <= 63,
        m.len() >= 4096 * k,
        0 <= a,
        0 <= n,
        a + n <= 4096,
    ensures
        write_pages(s, m, w, k).len() == s.len(),
        field(write_pages(s, m, w, k), a, n) == field(s, a, n),
    decreases k,
{
    if k > 0 {
        lemma_write_pages_header(s, m, w, (k - 1) as nat, a, n);
        let t = write_pages(s, m, w, (k - 1) as nat);
        let i = advance(w, k - 1);
        lemma_splice(t, slot_offset(i), page(m, k - 1));
        lemma_field_outside_splice(t, slot_offset(i), page(m, k - 1), a, n);
    }
}

/// Distinct steps of fewer than a full turn land on distinct slots.
proof fn lemma_advance_distinct(w: int, j: int, k: int)
    requires
        0 <= w < 63,
        0 <= j < k < 63,
    ensures
        advance(w, j) != advance(w, k),
        0 <= advance(w, j) < 63,
{
    if w + k < 63 {
    } else if w + j < 63 {
        assert(advance(w, k) == w + k - 63);
    } else {
        assert(advance(w, k) == w + k - 63);
        assert(advance(w, j) == w + j - 63);
    }
}

/// After the first `k` pages are copied, each slot reached from `w` holds its page.
proof fn lemma_write_pages_slots(s: Seq<u8>, m: Seq<u8>, w: int, k: nat, j: int)
    requires
        0x40000 <= s.len(),
        0 <= w < 63,
        k <= 63,
        m.len() >= 4096 * k,
        0 <= j < k,
    ensures
        slot(write_pages(s, m, w, k), advance(w, j)) == page(m, j),
    decreases k,
{
    let t = write_pages(s, m, w, (k - 1) as nat);
    let i = advance(w, k - 1);
    lemma_write_pages_header(s, m, w, (k - 1) as nat, 0, 0);
    lemma_splice(t, slot_offset(i), page(m, k - 1));
    if j < k - 1 {
        lemma_write_pages_slots(s, m, w, (k - 1) as nat, j);
        lemma_advance_distinct(w, j, k - 1);
        lemma_field_outside_splice(
            t,
            slot_offset(i),
            page(m, k - 1),
            slot_offset(advance(w, j)),
            4096,
        );
    }
}

/// The slots from `r` on read back the first pages of `m` when they hold them.
proof fn lemma_gather_pages(t: Seq<u8>, m: Seq<u8>, r: int, n: nat)
    requires
        m.len() >= 4096 * n,
        forall|j: int| 0 <= j < n ==> #[trigger] slot(t, advance(r, j)) == page(m, j),
    ensures
        gather(t, r, n) == m.subrange(0, 4096 * n as int),
    decreases n,
{
    if n > 0 {
        lemma_gather_pages(t, m, r, (n - 1) as nat);
        assert(slot(t, advance(r, n - 1)) == page(m, n - 1));
        assert(m.subrange(0, 4096 * (n - 1)) + page(m, n - 1) =~= m.subrange(0, 4096 * n as int));
    }
}

/// On an empty queue, the message that is enqueued is the message that is dequeued next, and
/// the queue is empty again once it has been taken.
pub proof fn lemma_queue_roundtrip(s: Seq<u8>, m: Seq<u8>)
    requires
        0x40000 <= s.len(),
        write_pointer_of(s) == read_pointer_of(s),
        write_check(s, m) is None,
    ensures
        receive_check(queue_after_write(s, m)) == Ok::<Option<Seq<u8>>, GspQueueError>(Some(m)),
        read_pointer_of(queue_after_receive(queue_after_write(s, m))) == write_pointer_of(
            queue_after_receive(queue_after_write(s, m)),
        ),
        write_pointer_of(queue_after_write(s, m)) == advance(
            write_pointer_of(s) as int,
            (m.len() / 4096) as int,
        ),
        read_pointer_of(queue_after_receive(queue_after_write(s, m))) == advance(
            write_pointer_of(s) as int,
            (m.len() / 4096) as int,
        ),
        write_pointer_of(s) == 0 ==> advance(write_pointer_of(s) as int, (m.len() / 4096) as int) == m.len()
            / 4096,
        receive_check(queue_after_receive(queue_after_write(s, m))) == Ok::<
            Option<Seq<u8>>,
            GspQueueError,
        >(None),
{
    crate::bytes::lemma_pow256_values();
    let p = write_pointer_of(s) as int;
    let pages = m.len() / 4096;
    let next = advance(p, pages as int);
    let u = write_pages(s, m, p, pages as nat);
    let t = queue_after_write(s, m);
    assert(pages >= 1 && pages <= 16);
    assert(m.len() == 4096 * pages);
    lemma_write_pages_header(s, m, p, pages as nat, 32, 4);
    lemma_write_pages_header(s, m, p, pages as nat, 16, 4);
    crate::bytes::lemma_le_bytes_len(next as nat, 4);
    lemma_splice(u, 16, le_bytes(next as nat, 4));
    lemma_field_outside_splice(u, 16, le_bytes(next as nat, 4), 32, 4);
    crate::bytes::lemma_le_roundtrip(next as nat, 4);
    assert(write_pointer_of(t) == next);
    assert(read_pointer_of(t) == p);
    assert(next != p) by {
        lemma_advance_distinct(p, 0, pages as int);
    }
    assert(distance(p, next) == pages);
    assert forall|j: int| 0 <= j < pages implies #[trigger] slot(t, advance(p, j)) == page(m, j) by {
        lemma_write_pages_slots(s, m, p, pages as nat, j);
        lemma_advance_distinct(p, j, 62);
        lemma_field_outside_splice(
            u,
            16,
            le_bytes(next as nat, 4),
            slot_offset(advance(p, j)),
            4096,
        );
    }
    assert(slot(t, p) == page(m, 0)) by {
        assert(advance(p, 0) == p);
    }
    assert(field(t, slot_offset(p) + 40, 4) =~= field(m, 40, 4)) by {
        assert forall|i: int| 0 <= i < 4 implies field(t, slot_offset(p) + 40, 4)[i] == field(
            m,
            40,
            4,
        )[i] by {
            assert(slot(t, p)[40 + i] == page(m, 0)[40 + i]);
        }
    }
    assert(head_pages(t) == pages);
    lemma_gather_pages(t, m, p, pages as nat);
    assert(m.subrange(0, 4096 * pages as int) =~= m);
    assert(head_message(t) == m);
    let v = queue_after_receive(t);
    lemma_splice(t, 32, le_bytes(next as nat, 4));
    lemma_field_outside_splice(t, 32, le_bytes(next as nat, 4), 16, 4);
    assert(field(v, 32, 4) =~= le_bytes(next as nat, 4));
    assert(read_pointer_of(v) == next);
    assert(write_pointer_of(v) == next);
    assert(pointers_check(v) is None);
}

/// Copying pages into slots leaves every other slot as it was.
proof fn lemma_write_pages_other_slot(s: Seq<u8>, m: Seq<u8>, w: int, k: nat, i: int)
    requires
        0x40000 <= s.len(),
        0 <= w < 63,
        0 <= i < 63,
        k <= 63,
        m.len() >= 4096 * k,
        forall|j: int| 0 <= j < k ==> advance(w, j) != i,
    ensures
        slot(write_pages(s, m, w, k), i) == slot(s, i),
    decreases k,
{
    if k > 0 {
        let t = write_pages(s, m, w, (k - 1) as nat);
        let a = advance(w, k - 1);
        lemma_write_pages_other_slot(s, m, w, (k - 1) as nat, i);
        lemma_write_pages_header(s, m, w, (k - 1) as nat, 0, 0);
        assert(a != i);
        lemma_field_outside_splice(t, slot_offset(a), page(m, k - 1), slot_offset(i), 4096);
    }
}

/// Slots that agree give the same concatenation.
proof fn lemma_gather_same(s: Seq<u8>, t: Seq<u8>, r: int, n: nat)
    requires
        forall|i: int| 0 <= i < n ==> #[trigger] slot(t, advance(r, i)) == slot(s, advance(r, i)),
    ensures
        gather(t, r, n) == gather(s, r, n),
    decreases n,
{
    if n > 0 {
        lemma_gather_same(s, t, r, (n - 1) as nat);
    }
}

/// Stepping `j` from the slot `d` steps after `r` is stepping `d + j` from `r`.
proof fn lemma_advance_add(r: int, d: int, j: int)
    requires
        0 <= r < 63,
        0 <= d < 63,
        0 <= j < 63,
    ensures
        advance(advance(r, d), j) == advance(r, d + j),
{
}

/// The write pointer is `distance(r, w)` steps after the read pointer.
proof fn lemma_distance_advance(r: int, w: int)
    requires
        0 <= r < 63,
        0 <= w < 63,
    ensures
        advance(r, distance(r, w)) == w,
        0 <= distance(r, w) < 63,
{
}

/// Where enqueueing `m` leaves the pointers: the read pointer stays, the write pointer moves
/// `pages` further from it; and the slots of the messages that are waiting are left as they
/// were.
proof fn lemma_write_behind(s: Seq<u8>, m: Seq<u8>)
    requires
        0x40000 <= s.len(),
        write_check(s, m) is None,
    ensures
        ({
            let t = queue_after_write(s, m);
            let r = read_pointer_of(s) as int;
            let d = distance(r, write_pointer_of(s) as int);
            &&& t.len() == s.len()
            &&& read_pointer_of(t) == read_pointer_of(s)
            &&& write_pointer_of(t) < 63
            &&& distance(r, write_pointer_of(t) as int) == d + m.len() / 4096
            &&& forall|i: int|
                0 <= i < d ==> #[trigger] slot(t, advance(r, i)) == slot(s, advance(r, i))
        }),
{
    crate::bytes::lemma_pow256_values();
    let w = write_pointer_of(s) as int;
    let r = read_pointer_of(s) as int;
    let d = distance(r, w);
    let pages = m.len() / 4096;
    let next = advance(w, pages as int);
    let u = write_pages(s, m, w, pages as nat);
    let t = queue_after_write(s, m);
    assert(1 <= pages <= 16);
    assert(m.len() == 4096 * pages);
    assert(pages + d <= 62);
    lemma_distance_advance(r, w);
    lemma_write_pages_header(s, m, w, pages as nat, 32, 4);
    lemma_write_pages_header(s, m, w, pages as nat, 16, 4);
    crate::bytes::lemma_le_bytes_len(next as nat, 4);
    lemma_splice(u, 16, le_bytes(next as nat, 4));
    lemma_field_outside_splice(u, 16, le_bytes(next as nat, 4), 32, 4);
    crate::bytes::lemma_le_roundtrip(next as nat, 4);
    assert(write_pointer_of(t) == next);
    lemma_advance_add(r, d, pages as int);
    assert(distance(r, next) == d + pages) by {
        lemma_advance_distinct(r, 0, d + pages);
    }
    assert forall|i: int| 0 <= i < d implies #[trigger] slot(t, advance(r, i)) == slot(
        s,
        advance(r, i),
    ) by {
        assert forall|j: int| 0 <= j < pages implies advance(w, j) != advance(r, i) by {
            lemma_advance_add(r, d, j);
            lemma_advance_distinct(r, i, d + j);
        }
        lemma_advance_distinct(r, i, 62);
        lemma_write_pages_other_slot(s, m, w, pages as nat, advance(r, i));
        lemma_field_outside_splice(
            u,
            16,
            le_bytes(next as nat, 4),
            slot_offset(advance(r, i)),
            4096,
        );
    }
}

/// Enqueueing behind messages that are waiting leaves the next message to be received as it
/// was: a later message never overwrites an earlier one.
pub proof fn lemma_queue_fifo(s: Seq<u8>, m: Seq<u8>)
    requires
        0x40000 <= s.len(),
        write_check(s, m) is None,
        receive_check(s) matches Ok(Some(_)),
    ensures
        receive_check(queue_after_write(s, m)) == receive_check(s),
{
    let t = queue_after_write(s, m);
    let r = read_pointer_of(s) as int;
    let d = distance(r, write_pointer_of(s) as int);
    lemma_write_behind(s, m);
    assert(d > 0);
    assert(slot(t, r) == slot(s, r)) by {
        assert(advance(r, 0) == r);
    }
    assert(field(t, slot_offset(r) + 40, 4) =~= field(s, slot_offset(r) + 40, 4)) by {
        assert forall|i: int| 0 <= i < 4 implies #[trigger] field(t, slot_offset(r) + 40, 4)[i]
            == field(s, slot_offset(r) + 40, 4)[i] by {
            assert(slot(t, r)[40 + i] == slot(s, r)[40 + i]);
        }
    }
    assert(head_pages(t) == head_pages(s));
    lemma_gather_same(s, t, r, head_pages(s) as nat);
    assert(head_message(t) == head_message(s));
}

} // verus!
