//! Shared-memory, radix-3 and cached-argument layouts handed to the GSP, and the pointer tables
//! that describe them.
use vstd::prelude::*;
use crate::bytes::{
    field, le_bytes, lemma_field_outside_splice, lemma_le_bytes_len, lemma_splice, splice,
    write_le, zeroed_vec, zeros,
};
use crate::gpu::{
    NVIDIA_GSP_PAGE_SIZE, NVIDIA_GSP_QUEUE_ENTRY_COUNT, NVIDIA_GSP_QUEUE_ENTRY_OFFSET,
    NVIDIA_GSP_QUEUE_ENTRY_SIZE, NVIDIA_GSP_QUEUE_HEADER_SIZE,
    NVIDIA_GSP_R570_CACHED_ARGUMENTS_SIZE, NVIDIA_GSP_R570_QUEUE_RX_HEADER_OFFSET,
    NVIDIA_GSP_SHARED_PAGE_TABLE_ENTRY_SIZE, NVIDIA_GSP_SHARED_QUEUE_BYTES,
    NVIDIA_GSP_SHARED_QUEUE_COUNT,
};

verus! {

/// `s` with the `width` low-order little-endian bytes of `v` written at `offset`.
pub open spec fn put(s: Seq<u8>, offset: int, v: nat, width: nat) -> Seq<u8> {
    splice(s, offset, le_bytes(v, width))
}

/// Writing a field inside a buffer keeps its length.
pub proof fn lemma_put_len(s: Seq<u8>, offset: int, v: nat, width: nat)
    requires
        0 <= offset,
        offset + width <= s.len(),
    ensures
        put(s, offset, v, width).len() == s.len(),
{
    lemma_le_bytes_len(v, width);
}

#[derive(Debug, Clone, Copy, PartialEq, Eq, Structural)]
pub enum GspMemoryError {
    AddressUnaligned { address: u64 },
    AddressOverflow,
    BufferTooSmall { required: usize, actual: usize },
    PageCountMismatch { expected: usize, actual: usize },
    ValueTooLarge { value: usize, limit: usize },
}

/// A byte range `offset..offset + size` inside a firmware file.
#[derive(Debug, Clone, Copy, PartialEq, Eq, Structural)]
pub struct FirmwareSection {
    pub offset: usize,
    pub size: usize,
}

impl FirmwareSection {
    /// Whether the section lies inside a file of `len` bytes.
    pub open spec fn fits(self, len: int) -> bool {
        self.offset + self.size <= len
    }

    /// The section's bytes inside `firmware`.
    pub open spec fn spec_bytes(self, firmware: Seq<u8>) -> Seq<u8> {
        firmware.subrange(self.offset as int, self.offset + self.size)
    }

    pub fn bytes<'a>(self, firmware: &'a [u8]) -> (r: &'a [u8])
        requires
            self.fits(firmware@.len() as int),
        ensures
            r@ == self.spec_bytes(firmware@),
    {
        let _len = firmware.len();
        &firmware[self.offset..self.offset + self.size]
    }
}

/// A region of system memory: `size` bytes from `address`.
#[derive(Debug, Clone, Copy, PartialEq, Eq, Structural)]
pub struct GspMemoryRegion {
    pub address: u64,
    pub size: usize,
}

impl GspMemoryRegion {
    /// The first address past the region, where it is representable.
    pub fn end(self) -> (r: Option<u64>)
        ensures
            r == (if self.address + self.size <= u64::MAX {
                Some((self.address + self.size) as u64)
            } else {
                None::<u64>
            }),
    {
        let size = self.size as u64;
        self.address.checked_add(size)
    }
}

/// Whether `address` starts a page.
pub open spec fn page_aligned(address: u64) -> bool {
    address % 4096 == 0
}

/// Accepts exactly the page-aligned addresses.
pub fn validate_page_address(address: u64) -> (r: Result<(), GspMemoryError>)
    ensures
        r == (if page_aligned(address) {
            Ok::<(), GspMemoryError>(())
        } else {
            Err(GspMemoryError::AddressUnaligned { address })
        }),
{
    assert(address & 4095u64 == address % 4096) by (bit_vector);
    if address & (NVIDIA_GSP_PAGE_SIZE as u64 - 1) != 0 {
        return Err(GspMemoryError::AddressUnaligned { address });
    }
    Ok(())
}

/// The first address of `s` that does not start a page.
pub open spec fn first_unaligned(s: Seq<u64>) -> Option<u64>
    decreases s.len(),
{
    if s.len() == 0 {
        None
    } else if !page_aligned(s[0]) {
        Some(s[0])
    } else {
        first_unaligned(s.drop_first())
    }
}

/// The error, if any, that page-address validation gives for `s`.
pub open spec fn page_addresses_check(s: Seq<u64>) -> Result<(), GspMemoryError> {
    match first_unaligned(s) {
        Some(address) => Err(GspMemoryError::AddressUnaligned { address }),
        None => Ok(()),
    }
}

/// Accepts a list of addresses exactly when each starts a page; otherwise names the first that
/// does not.
pub fn validate_page_addresses(addresses: &[u64]) -> (r: Result<(), GspMemoryError>)
    ensures
        r == page_addresses_check(addresses@),
{
    let mut k: usize = 0;
    assert(addresses@.skip(0) =~= addresses@);
    while k < addresses.len()
        invariant
            k <= addresses@.len(),
            first_unaligned(addresses@) == first_unaligned(addresses@.skip(k as int)),
        decreases addresses@.len() - k,
    {
        let ghost rest = addresses@.skip(k as int);
        assert(rest[0] == addresses@[k as int]);
        let result = validate_page_address(addresses[k]);
        if result.is_err() {
            return Err(GspMemoryError::AddressUnaligned { address: addresses[k] });
        }
        assert(rest.drop_first() =~= addresses@.skip(k + 1));
        k = k + 1;
    }
    assert(addresses@.skip(k as int).len() == 0);
    Ok(())
}

/// The eight-byte entry `i` of a pointer table.
pub open spec fn entry(t: Seq<u8>, i: int) -> Seq<u8> {
    field(t, 8 * i, 8)
}

/// `t` is a table of `len` bytes whose leading little-endian eight-byte entries are `addresses`,
/// and whose remaining bytes are zero.
pub open spec fn is_pointer_table(t: Seq<u8>, addresses: Seq<u64>, len: int) -> bool {
    &&& t.len() == len
    &&& forall|i: int| 0 <= i < addresses.len() ==> #[trigger] entry(t, i) == le_bytes(addresses[i] as nat, 8)
    &&& forall|j: int| 8 * addresses.len() <= j < len ==> t[j] == 0
}

/// The table of `len` bytes whose leading little-endian eight-byte entries are `addresses` and
/// whose remaining bytes are zero.
pub open spec fn pointer_table_bytes(addresses: Seq<u64>, len: int) -> Seq<u8> {
    Seq::new(
        len as nat,
        |j: int|
            if j < 8 * addresses.len() {
                le_bytes(addresses[j / 8] as nat, 8)[j % 8]
            } else {
                0u8
            },
    )
}

/// A pointer table is determined by its entries and its length.
pub proof fn lemma_pointer_table_bytes(t: Seq<u8>, addresses: Seq<u64>, len: int)
    requires
        is_pointer_table(t, addresses, len),
        8 * addresses.len() <= len,
    ensures
        t == pointer_table_bytes(addresses, len),
{
    assert forall|j: int| 0 <= j < len implies t[j] == pointer_table_bytes(addresses, len)[j] by {
        if j < 8 * addresses.len() {
            let i = j / 8;
            assert(0 <= i < addresses.len());
            assert(entry(t, i) == le_bytes(addresses[i] as nat, 8));
            assert(entry(t, i)[j % 8] == t[8 * i + j % 8]);
        }
    }
    assert(t =~= pointer_table_bytes(addresses, len));
}

/// A zeroed table of `len` bytes with `addresses` written as its leading eight-byte entries.
pub fn pointer_table(len: usize, addresses: &[u64]) -> (t: Vec<u8>)
    requires
        8 * addresses@.len() <= len,
    ensures
        is_pointer_table(t@, addresses@, len as int),
        t@ == pointer_table_bytes(addresses@, len as int),
{
    let mut t = zeroed_vec(len);
    let mut k: usize = 0;
    while k < addresses.len()
        invariant
            k <= addresses@.len(),
            8 * addresses@.len() <= len,
            t@.len() == len,
            forall|i: int| 0 <= i < k ==> #[trigger] entry(t@, i) == le_bytes(addresses@[i] as nat, 8),
            forall|j: int| 8 * k <= j < len ==> t@[j] == 0,
        decreases addresses@.len() - k,
    {
        let ghost before = t@;
        proof {
            lemma_le_bytes_len(addresses@[k as int] as nat, 8);
        }
        write_le(t.as_mut_slice(), 8 * k, addresses[k], 8);
        proof {
            let q = le_bytes(addresses@[k as int] as nat, 8);
            lemma_splice(before, 8 * k, q);
            assert forall|i: int| 0 <= i < k + 1 implies #[trigger] entry(t@, i) == le_bytes(
                addresses@[i] as nat,
                8,
            ) by {
                assert(t@ == splice(before, 8 * k, q));
                if i < k {
                    lemma_field_outside_splice(before, 8 * k, q, 8 * i, 8);
                    assert(entry(before, i) == le_bytes(addresses@[i] as nat, 8));
                } else {
                    assert(entry(t@, i) == field(t@, 8 * k, 8));
                }
            }
        }
        k = k + 1;
    }
    proof {
        lemma_pointer_table_bytes(t@, addresses@, len as int);
    }
    t
}

#[derive(Debug, Clone, Copy, PartialEq, Eq, Structural)]
pub struct GspSharedMemoryLayout {
    pub page_table_entry_count: usize,
    pub page_table_bytes: usize,
    pub command_queue_offset: usize,
    pub status_queue_offset: usize,
    pub total_bytes: usize,
    pub queue_entry_count: usize,
}

/// The standard layout: one page of page table, then the command and status queues.
pub open spec fn standard_shared_memory_layout() -> GspSharedMemoryLayout {
    GspSharedMemoryLayout {
        page_table_entry_count: 129,
        page_table_bytes: 4096,
        command_queue_offset: 4096,
        status_queue_offset: 0x41000,
        total_bytes: 0x81000,
        queue_entry_count: 63,
    }
}

#[derive(Debug, Clone, Copy, PartialEq, Eq, Structural)]
pub struct GspQueueHeader {
    pub version: u32,
    pub size: u32,
    pub message_size: u32,
    pub message_count: u32,
    pub write_pointer: u32,
    pub flags: u32,
    pub rx_header_offset: u32,
    pub entry_offset: u32,
}

impl GspQueueHeader {
    /// The header's 32 bytes on the wire.
    pub open spec fn wire(self) -> Seq<u8> {
        let s = zeros(32);
        let s = put(s, 0, self.version as nat, 4);
        let s = put(s, 4, self.size as nat, 4);
        let s = put(s, 8, self.message_size as nat, 4);
        let s = put(s, 12, self.message_count as nat, 4);
        let s = put(s, 16, self.write_pointer as nat, 4);
        let s = put(s, 20, self.flags as nat, 4);
        let s = put(s, 24, self.rx_header_offset as nat, 4);
        put(s, 28, self.entry_offset as nat, 4)
    }

    /// The command-queue header for `layout` with `message_count` entries.
    pub open spec fn spec_r570_command(message_count: u32) -> GspQueueHeader {
        GspQueueHeader {
            version: 0,
            size: 0x40000,
            message_size: 4096,
            message_count,
            write_pointer: 0,
            flags: 1,
            rx_header_offset: 32,
            entry_offset: 4096,
        }
    }

    pub fn r570_command(layout: GspSharedMemoryLayout) -> (r: Result<Self, GspMemoryError>)
        ensures
            r == (if layout.queue_entry_count <= u32::MAX {
                Ok(Self::spec_r570_command(layout.queue_entry_count as u32))
            } else {
                Err(
                    GspMemoryError::ValueTooLarge {
                        value: layout.queue_entry_count,
                        limit: u32::MAX as usize,
                    },
                )
            }),
    {
        if layout.queue_entry_count > u32::MAX as usize {
            return Err(
                GspMemoryError::ValueTooLarge {
                    value: layout.queue_entry_count,
                    limit: u32::MAX as usize,
                },
            );
        }
        Ok(
            Self {
                version: 0,
                size: NVIDIA_GSP_SHARED_QUEUE_BYTES as u32,
                message_size: NVIDIA_GSP_QUEUE_ENTRY_SIZE as u32,
                message_count: layout.queue_entry_count as u32,
                write_pointer: 0,
                flags: 1,
                rx_header_offset: NVIDIA_GSP_R570_QUEUE_RX_HEADER_OFFSET,
                entry_offset: NVIDIA_GSP_QUEUE_ENTRY_OFFSET as u32,
            },
        )
    }

    pub fn encode(self) -> (r: [u8; NVIDIA_GSP_QUEUE_HEADER_SIZE])
        ensures
            r@ == self.wire(),
    {
        let mut bytes = [0u8; NVIDIA_GSP_QUEUE_HEADER_SIZE];
        assert(bytes@ =~= zeros(32));
        write_le(&mut bytes, 0, self.version as u64, 4);
        write_le(&mut bytes, 4, self.size as u64, 4);
        write_le(&mut bytes, 8, self.message_size as u64, 4);
        write_le(&mut bytes, 12, self.message_count as u64, 4);
        write_le(&mut bytes, 16, self.write_pointer as u64, 4);
        write_le(&mut bytes, 20, self.flags as u64, 4);
        write_le(&mut bytes, 24, self.rx_header_offset as u64, 4);
        write_le(&mut bytes, 28, self.entry_offset as u64, 4);
        bytes
    }
}

#[derive(Debug, Clone, PartialEq, Eq)]
pub struct GspSharedMemoryImage {
    pub page_table_address: u64,
    pub page_table: Vec<u8>,
    pub command_queue: Vec<u8>,
    pub status_queue: Vec<u8>,
}

/// The error, if any, that materialising `layout` over `pages` gives, in the order the checks
/// are made.
pub open spec fn shared_memory_check(layout: GspSharedMemoryLayout, pages: Seq<u64>) -> Option<
    GspMemoryError,
> {
    if pages.len() == 0 {
        Some(GspMemoryError::PageCountMismatch { expected: 1, actual: 0 })
    } else if pages.len() != layout.page_table_entry_count {
        Some(
            GspMemoryError::PageCountMismatch {
                expected: layout.page_table_entry_count,
                actual: pages.len() as usize,
            },
        )
    } else if layout.page_table_entry_count * 8 > usize::MAX {
        Some(GspMemoryError::AddressOverflow)
    } else if layout.page_table_entry_count * 8 > layout.page_table_bytes {
        Some(
            GspMemoryError::BufferTooSmall {
                required: (layout.page_table_entry_count * 8) as usize,
                actual: layout.page_table_bytes,
            },
        )
    } else if first_unaligned(pages) is Some {
        Some(GspMemoryError::AddressUnaligned { address: first_unaligned(pages)->Some_0 })
    } else if layout.queue_entry_count > u32::MAX {
        Some(
            GspMemoryError::ValueTooLarge {
                value: layout.queue_entry_count,
                limit: u32::MAX as usize,
            },
        )
    } else {
        None
    }
}

/// A queue header is 32 bytes long, and a fresh command queue as long as a queue.
pub proof fn lemma_fresh_command_queue_len(layout: GspSharedMemoryLayout)
    ensures
        GspQueueHeader::spec_r570_command(layout.queue_entry_count as u32).wire().len() == 32,
        fresh_command_queue(layout).len() == 0x40000,
{
    let h = GspQueueHeader::spec_r570_command(layout.queue_entry_count as u32);
    let s = zeros(32);
    lemma_put_len(s, 0, h.version as nat, 4);
    let s = put(s, 0, h.version as nat, 4);
    lemma_put_len(s, 4, h.size as nat, 4);
    let s = put(s, 4, h.size as nat, 4);
    lemma_put_len(s, 8, h.message_size as nat, 4);
    let s = put(s, 8, h.message_size as nat, 4);
    lemma_put_len(s, 12, h.message_count as nat, 4);
    let s = put(s, 12, h.message_count as nat, 4);
    lemma_put_len(s, 16, h.write_pointer as nat, 4);
    let s = put(s, 16, h.write_pointer as nat, 4);
    lemma_put_len(s, 20, h.flags as nat, 4);
    let s = put(s, 20, h.flags as nat, 4);
    lemma_put_len(s, 24, h.rx_header_offset as nat, 4);
    let s = put(s, 24, h.rx_header_offset as nat, 4);
    lemma_put_len(s, 28, h.entry_offset as nat, 4);
    lemma_splice(zeros(0x40000), 0, h.wire());
}

/// The command queue of a fresh shared-memory image: zeroed, with its header at the front.
pub open spec fn fresh_command_queue(layout: GspSharedMemoryLayout) -> Seq<u8> {
    splice(
        zeros(0x40000),
        0,
        GspQueueHeader::spec_r570_command(layout.queue_entry_count as u32).wire(),
    )
}

impl GspSharedMemoryLayout {
    pub fn standard() -> (r: Self)
        ensures
            r == standard_shared_memory_layout(),
    {
        let queue_pages = (NVIDIA_GSP_SHARED_QUEUE_BYTES * NVIDIA_GSP_SHARED_QUEUE_COUNT)
            / NVIDIA_GSP_PAGE_SIZE;
        let page_table_entry_count = queue_pages + 1;
        let page_table_bytes = NVIDIA_GSP_PAGE_SIZE;
        let command_queue_offset = page_table_bytes;
        let status_queue_offset = command_queue_offset + NVIDIA_GSP_SHARED_QUEUE_BYTES;
        let total_bytes = status_queue_offset + NVIDIA_GSP_SHARED_QUEUE_BYTES;
        Self {
            page_table_entry_count,
            page_table_bytes,
            command_queue_offset,
            status_queue_offset,
            total_bytes,
            queue_entry_count: NVIDIA_GSP_QUEUE_ENTRY_COUNT,
        }
    }

    /// Builds the page table, command queue and status queue of the shared memory, with
    /// `page_addresses` as the system pages backing it (the first holds the page table).
    pub fn materialize(self, page_addresses: &[u64]) -> (r: Result<
        GspSharedMemoryImage,
        GspMemoryError,
    >)
        ensures
            match shared_memory_check(self, page_addresses@) {
                Some(e) => r == Err::<GspSharedMemoryImage, GspMemoryError>(e),
                None => r matches Ok(image) && {
                    &&& image.page_table_address == page_addresses@[0]
                    &&& is_pointer_table(
                        image.page_table@,
                        page_addresses@,
                        self.page_table_bytes as int,
                    )
                    &&& image.command_queue@ == fresh_command_queue(self)
                    &&& image.status_queue@ == zeros(0x40000)
                },
            },
    {
        if page_addresses.len() == 0 {
            return Err(GspMemoryError::PageCountMismatch { expected: 1, actual: 0 });
        }
        if page_addresses.len() != self.page_table_entry_count {
            return Err(
                GspMemoryError::PageCountMismatch {
                    expected: self.page_table_entry_count,
                    actual: page_addresses.len(),
                },
            );
        }
        let page_table_required = match self.page_table_entry_count.checked_mul(
            NVIDIA_GSP_SHARED_PAGE_TABLE_ENTRY_SIZE,
        ) {
            Some(v) => v,
            None => {
                return Err(GspMemoryError::AddressOverflow);
            },
        };
        if page_table_required > self.page_table_bytes {
            return Err(
                GspMemoryError::BufferTooSmall {
                    required: page_table_required,
                    actual: self.page_table_bytes,
                },
            );
        }
        let checked = validate_page_addresses(page_addresses);
        if let Err(e) = checked {
            return Err(e);
        }
        let page_table = pointer_table(self.page_table_bytes, page_addresses);
        let command_header = match GspQueueHeader::r570_command(self) {
            Ok(h) => h,
            Err(e) => {
                return Err(e);
            },
        };
        let mut command_queue = zeroed_vec(NVIDIA_GSP_SHARED_QUEUE_BYTES);
        let header = command_header.encode();
        crate::bytes::copy_into(command_queue.as_mut_slice(), 0, &header);
        let status_queue = zeroed_vec(NVIDIA_GSP_SHARED_QUEUE_BYTES);
        Ok(
            GspSharedMemoryImage {
                page_table_address: page_addresses[0],
                page_table,
                command_queue,
                status_queue,
            },
        )
    }
}


#[derive(Debug, Clone, Copy, PartialEq, Eq, Structural)]
pub struct GspRadix3Layout {
    pub image_pages: usize,
    pub level0_bytes: usize,
    pub level1_bytes: usize,
    pub level2_bytes: usize,
    pub level2_pages: usize,
    pub total_bytes: usize,
}

#[derive(Debug, Clone, PartialEq, Eq)]
pub struct GspRadix3Tables {
    pub level0_address: u64,
    pub level1_address: u64,
    pub level2_addresses: Vec<u64>,
    pub level0: Vec<u8>,
    pub level1: Vec<u8>,
    pub level2: Vec<u8>,
}

/// The error, if any, that materialising the radix-3 tables of `layout` gives, in the order the
/// checks are made.
pub open spec fn radix3_check(
    layout: GspRadix3Layout,
    level0_address: u64,
    level1_address: u64,
    level2: Seq<u64>,
    image: Seq<u64>,
) -> Option<GspMemoryError> {
    if level2.len() != layout.level2_pages {
        Some(
            GspMemoryError::PageCountMismatch {
                expected: layout.level2_pages,
                actual: level2.len() as usize,
            },
        )
    } else if image.len() != layout.image_pages {
        Some(
            GspMemoryError::PageCountMismatch {
                expected: layout.image_pages,
                actual: image.len() as usize,
            },
        )
    } else if layout.level2_pages * 8 > usize::MAX || layout.image_pages * 8 > usize::MAX {
        Some(GspMemoryError::AddressOverflow)
    } else if 8 > layout.level0_bytes {
        Some(GspMemoryError::BufferTooSmall { required: 8, actual: layout.level0_bytes })
    } else if layout.level2_pages * 8 > layout.level1_bytes {
        Some(
            GspMemoryError::BufferTooSmall {
                required: (layout.level2_pages * 8) as usize,
                actual: layout.level1_bytes,
            },
        )
    } else if layout.image_pages * 8 > layout.level2_bytes {
        Some(
            GspMemoryError::BufferTooSmall {
                required: (layout.image_pages * 8) as usize,
                actual: layout.level2_bytes,
            },
        )
    } else if !page_aligned(level0_address) {
        Some(GspMemoryError::AddressUnaligned { address: level0_address })
    } else if !page_aligned(level1_address) {
        Some(GspMemoryError::AddressUnaligned { address: level1_address })
    } else if first_unaligned(level2) is Some {
        Some(GspMemoryError::AddressUnaligned { address: first_unaligned(level2)->Some_0 })
    } else if first_unaligned(image) is Some {
        Some(GspMemoryError::AddressUnaligned { address: first_unaligned(image)->Some_0 })
    } else {
        None
    }
}

impl GspRadix3Layout {
    /// Builds the three levels of page tables: level 0 points at level 1, level 1 at the
    /// level-2 pages, and level 2 at the pages of the image.
    pub fn materialize(
        self,
        level0_address: u64,
        level1_address: u64,
        level2_addresses: &[u64],
        image_page_addresses: &[u64],
    ) -> (r: Result<GspRadix3Tables, GspMemoryError>)
        ensures
            match radix3_check(
                self,
                level0_address,
                level1_address,
                level2_addresses@,
                image_page_addresses@,
            ) {
                Some(e) => r == Err::<GspRadix3Tables, GspMemoryError>(e),
                None => r matches Ok(tables) && {
                    &&& tables.level0_address == level0_address
                    &&& tables.level1_address == level1_address
                    &&& tables.level2_addresses@ == level2_addresses@
                    &&& is_pointer_table(
                        tables.level0@,
                        seq![level1_address],
                        self.level0_bytes as int,
                    )
                    &&& is_pointer_table(
                        tables.level1@,
                        level2_addresses@,
                        self.level1_bytes as int,
                    )
                    &&& is_pointer_table(
                        tables.level2@,
                        image_page_addresses@,
                        self.level2_bytes as int,
                    )
                },
            },
    {
        if level2_addresses.len() != self.level2_pages {
            return Err(
                GspMemoryError::PageCountMismatch {
                    expected: self.level2_pages,
                    actual: level2_addresses.len(),
                },
            );
        }
        if image_page_addresses.len() != self.image_pages {
            return Err(
                GspMemoryError::PageCountMismatch {
                    expected: self.image_pages,
                    actual: image_page_addresses.len(),
                },
            );
        }
        let level0_required = NVIDIA_GSP_SHARED_PAGE_TABLE_ENTRY_SIZE;
        let level1_required = match self.level2_pages.checked_mul(
            NVIDIA_GSP_SHARED_PAGE_TABLE_ENTRY_SIZE,
        ) {
            Some(v) => v,
            None => {
                return Err(GspMemoryError::AddressOverflow);
            },
        };
        let level2_required = match self.image_pages.checked_mul(
            NVIDIA_GSP_SHARED_PAGE_TABLE_ENTRY_SIZE,
        ) {
            Some(v) => v,
            None => {
                return Err(GspMemoryError::AddressOverflow);
            },
        };
        if level0_required > self.level0_bytes {
            return Err(
                GspMemoryError::BufferTooSmall {
                    required: level0_required,
                    actual: self.level0_bytes,
                },
            );
        }
        if level1_required > self.level1_bytes {
            return Err(
                GspMemoryError::BufferTooSmall {
                    required: level1_required,
                    actual: self.level1_bytes,
                },
            );
        }
        if level2_required > self.level2_bytes {
            return Err(
                GspMemoryError::BufferTooSmall {
                    required: level2_required,
                    actual: self.level2_bytes,
                },
            );
        }
        if let Err(e) = validate_page_address(level0_address) {
            return Err(e);
        }
        if let Err(e) = validate_page_address(level1_address) {
            return Err(e);
        }
        if let Err(e) = validate_page_addresses(level2_addresses) {
            return Err(e);
        }
        if let Err(e) = validate_page_addresses(image_page_addresses) {
            return Err(e);
        }
        let level0_entries = [level1_address];
        assert(level0_entries@ =~= seq![level1_address]);
        let level0 = pointer_table(self.level0_bytes, &level0_entries);
        let level1 = pointer_table(self.level1_bytes, level2_addresses);
        let level2 = pointer_table(self.level2_bytes, image_page_addresses);
        Ok(
            GspRadix3Tables {
                level0_address,
                level1_address,
                level2_addresses: vstd::slice::slice_to_vec(level2_addresses),
                level0,
                level1,
                level2,
            },
        )
    }
}

#[derive(Debug, Clone, Copy, PartialEq, Eq, Structural)]
pub struct GspCachedArguments {
    pub shared_mem_phys_addr: u64,
    pub page_table_entry_count: u32,
    pub command_queue_offset: u64,
    pub status_queue_offset: u64,
    pub old_power_level: u32,
    pub power_flags: u32,
    pub in_power_transition: bool,
    pub gpu_instance: u32,
    pub dmem_stack: bool,
    pub profiler_pa: u64,
    pub profiler_size: u64,
}

/// `1` for true and `0` for false.
pub open spec fn flag(b: bool) -> nat {
    if b {
        1
    } else {
        0
    }
}

impl GspCachedArguments {
    /// The cached arguments for shared memory at `address` laid out as `layout`.
    pub open spec fn spec_r570(address: u64, layout: GspSharedMemoryLayout) -> GspCachedArguments {
        GspCachedArguments {
            shared_mem_phys_addr: address,
            page_table_entry_count: layout.page_table_entry_count as u32,
            command_queue_offset: layout.command_queue_offset as u64,
            status_queue_offset: layout.status_queue_offset as u64,
            old_power_level: 0,
            power_flags: 0,
            in_power_transition: false,
            gpu_instance: 0,
            dmem_stack: true,
            profiler_pa: 0,
            profiler_size: 0,
        }
    }

    /// The result of [`GspCachedArguments::r570`].
    pub open spec fn spec_r570_result(address: u64, layout: GspSharedMemoryLayout) -> Result<
        GspCachedArguments,
        GspMemoryError,
    > {
        if !page_aligned(address) {
            Err(GspMemoryError::AddressUnaligned { address })
        } else if layout.page_table_entry_count > u32::MAX {
            Err(
                GspMemoryError::ValueTooLarge {
                    value: layout.page_table_entry_count,
                    limit: u32::MAX as usize,
                },
            )
        } else {
            Ok(Self::spec_r570(address, layout))
        }
    }

    pub fn r570(shared_mem_phys_addr: u64, layout: GspSharedMemoryLayout) -> (r: Result<
        Self,
        GspMemoryError,
    >)
        ensures
            r == Self::spec_r570_result(shared_mem_phys_addr, layout),
    {
        if let Err(e) = validate_page_address(shared_mem_phys_addr) {
            return Err(e);
        }
        if layout.page_table_entry_count > u32::MAX as usize {
            return Err(
                GspMemoryError::ValueTooLarge {
                    value: layout.page_table_entry_count,
                    limit: u32::MAX as usize,
                },
            );
        }
        Ok(
            Self {
                shared_mem_phys_addr,
                page_table_entry_count: layout.page_table_entry_count as u32,
                command_queue_offset: layout.command_queue_offset as u64,
                status_queue_offset: layout.status_queue_offset as u64,
                old_power_level: 0,
                power_flags: 0,
                in_power_transition: false,
                gpu_instance: 0,
                dmem_stack: true,
                profiler_pa: 0,
                profiler_size: 0,
            },
        )
    }

    /// The arguments' 72 bytes on the wire.
    pub open spec fn wire(self) -> Seq<u8> {
        let s = zeros(72);
        let s = put(s, 0, self.shared_mem_phys_addr as nat, 8);
        let s = put(s, 8, self.page_table_entry_count as nat, 4);
        let s = put(s, 16, self.command_queue_offset as nat, 8);
        let s = put(s, 24, self.status_queue_offset as nat, 8);
        let s = put(s, 32, self.old_power_level as nat, 4);
        let s = put(s, 36, self.power_flags as nat, 4);
        let s = put(s, 40, flag(self.in_power_transition), 1);
        let s = put(s, 44, self.gpu_instance as nat, 4);
        let s = put(s, 48, flag(self.dmem_stack), 1);
        let s = put(s, 56, self.profiler_pa as nat, 8);
        put(s, 64, self.profiler_size as nat, 8)
    }

    pub fn encode(self) -> (r: [u8; NVIDIA_GSP_R570_CACHED_ARGUMENTS_SIZE])
        ensures
            r@ == self.wire(),
    {
        let mut bytes = [0u8; NVIDIA_GSP_R570_CACHED_ARGUMENTS_SIZE];
        assert(bytes@ =~= zeros(72));
        write_le(&mut bytes, 0, self.shared_mem_phys_addr, 8);
        write_le(&mut bytes, 8, self.page_table_entry_count as u64, 4);
        write_le(&mut bytes, 16, self.command_queue_offset, 8);
        write_le(&mut bytes, 24, self.status_queue_offset, 8);
        write_le(&mut bytes, 32, self.old_power_level as u64, 4);
        write_le(&mut bytes, 36, self.power_flags as u64, 4);
        write_le(&mut bytes, 40, if self.in_power_transition { 1 } else { 0 }, 1);
        write_le(&mut bytes, 44, self.gpu_instance as u64, 4);
        write_le(&mut bytes, 48, if self.dmem_stack { 1 } else { 0 }, 1);
        write_le(&mut bytes, 56, self.profiler_pa, 8);
        write_le(&mut bytes, 64, self.profiler_size, 8);
        bytes
    }
}

/// Where the pieces of a GSP firmware go when it is booted.
#[derive(Debug, Clone, Copy, PartialEq, Eq, Structural)]
pub struct GspFirmwareLayout {
    pub image: FirmwareSection,
    pub signature: FirmwareSection,
    pub signature_allocation_bytes: usize,
    pub radix3: GspRadix3Layout,
    pub shared_memory: GspSharedMemoryLayout,
}

} // verus!
