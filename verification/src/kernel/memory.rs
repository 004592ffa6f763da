//! Physical memory: summarising the boot memory map and handing out 4 KiB frames from its usable
//! regions.
use vstd::prelude::*;

verus! {

pub const PAGE_SIZE: u64 = 4096;
pub const ALLOCATABLE_MEMORY_START: u64 = 0x100000;

/// What a region of the boot memory map holds.
#[derive(Debug, Clone, Copy, PartialEq, Eq, Structural)]
pub enum MemoryRegionKind {
    /// Unused conventional memory, free for the kernel.
    Usable,
    /// Mappings the bootloader made, such as its page tables.
    Bootloader,
    /// A region the UEFI firmware reported, with its memory type.
    UnknownUefi(u32),
    /// A region the BIOS reported, with its E820 type.
    UnknownBios(u32),
}

/// One region of the boot memory map: `start` inclusive, `end` exclusive.
#[derive(Debug, Clone, Copy, PartialEq, Eq, Structural)]
pub struct MemoryRegion {
    pub start: u64,
    pub end: u64,
    pub kind: MemoryRegionKind,
}

#[derive(Debug, Clone, Copy, PartialEq, Eq, Structural)]
pub struct MemorySummary {
    pub usable_regions: usize,
    pub usable_bytes: u64,
    pub reserved_regions: usize,
    pub reserved_bytes: u64,
}

impl Default for MemorySummary {
    fn default() -> (r: Self)
        ensures
            r == (MemorySummary {
                usable_regions: 0,
                usable_bytes: 0,
                reserved_regions: 0,
                reserved_bytes: 0,
            }),
    {
        MemorySummary { usable_regions: 0, usable_bytes: 0, reserved_regions: 0, reserved_bytes: 0 }
    }
}

/// `a + b`, or `u64::MAX` where that does not fit.
pub open spec fn sat_add_u64(a: u64, b: u64) -> u64 {
    if a + b > u64::MAX {
        u64::MAX
    } else {
        (a + b) as u64
    }
}

/// The size of a region, zero where its end lies before its start.
pub open spec fn region_bytes(r: MemoryRegion) -> u64 {
    if r.end >= r.start {
        (r.end - r.start) as u64
    } else {
        0
    }
}

/// The summary of the first `n` regions: how many are usable and how many are not, and the
/// bytes of each, the sums saturating.
pub open spec fn summary_of(regions: Seq<MemoryRegion>, n: nat) -> MemorySummary
    decreases n,
{
    if n == 0 || n > regions.len() {
        MemorySummary { usable_regions: 0, usable_bytes: 0, reserved_regions: 0, reserved_bytes: 0 }
    } else {
        let s = summary_of(regions, (n - 1) as nat);
        let r = regions[n - 1];
        if r.kind == MemoryRegionKind::Usable {
            MemorySummary {
                usable_regions: (s.usable_regions + 1) as usize,
                usable_bytes: sat_add_u64(s.usable_bytes, region_bytes(r)),
                ..s
            }
        } else {
            MemorySummary {
                reserved_regions: (s.reserved_regions + 1) as usize,
                reserved_bytes: sat_add_u64(s.reserved_bytes, region_bytes(r)),
                ..s
            }
        }
    }
}

proof fn lemma_summary_counts(regions: Seq<MemoryRegion>, n: nat)
    requires
        n <= regions.len() <= usize::MAX,
    ensures
        summary_of(regions, n).usable_regions + summary_of(regions, n).reserved_regions == n,
    decreases n,
{
    if n > 0 {
        lemma_summary_counts(regions, (n - 1) as nat);
    }
}

/// Counts the usable and reserved regions of a memory map and their bytes.
pub fn summarize(regions: &[MemoryRegion]) -> (r: MemorySummary)
    ensures
        r == summary_of(regions@, regions@.len()),
        r.usable_regions + r.reserved_regions == regions@.len(),
{
    let mut summary = MemorySummary::default();
    let n = regions.len();
    let mut i: usize = 0;
    while i < n
        invariant
            i <= n == regions@.len(),
            summary == summary_of(regions@, i as nat),
        decreases n - i,
    {
        proof {
            lemma_summary_counts(regions@, i as nat);
        }
        let region = regions[i];
        let bytes = region.end.saturating_sub(region.start);
        if region.kind == MemoryRegionKind::Usable {
            summary.usable_regions = summary.usable_regions + 1;
            summary.usable_bytes = summary.usable_bytes.saturating_add(bytes);
        } else {
            summary.reserved_regions = summary.reserved_regions + 1;
            summary.reserved_bytes = summary.reserved_bytes.saturating_add(bytes);
        }
        i = i + 1;
    }
    proof {
        lemma_summary_counts(regions@, n as nat);
    }
    summary
}

/// A 4 KiB physical frame.
#[derive(Debug, Clone, Copy, PartialEq, Eq, Structural)]
pub struct PhysicalFrame {
    start_address: u64,
}

impl PhysicalFrame {
    /// The frame's physical address.
    pub closed spec fn start(self) -> u64 {
        self.start_address
    }

    /// The physical address of the frame's first byte.
    pub fn start_address(self) -> (r: u64)
        ensures
            r == self.start(),
    {
        self.start_address
    }
}

/// `v` rounded down to a page boundary.
pub open spec fn page_down(v: int) -> int {
    v - v % 4096
}

proof fn lemma_page_down(v: int)
    requires
        v >= 0,
    ensures
        page_down(v) % 4096 == 0,
        0 <= page_down(v) <= v < page_down(v) + 4096,
{
}

proof fn lemma_pages_apart(a: int, e: int)
    requires
        a % 4096 == 0,
        e % 4096 == 0,
        a < e,
    ensures
        a + 4096 <= e,
{
}

fn page_floor(v: u64) -> (r: u64)
    ensures
        r == page_down(v as int),
{
    assert(v & !4095u64 == v - v % 4096) by (bit_vector);
    v & !(PAGE_SIZE - 1)
}

/// `v` rounded up to a page boundary, or `None` where that overflows.
fn page_ceil(v: u64) -> (r: Option<u64>)
    ensures
        v + 4095 > u64::MAX ==> r is None,
        v + 4095 <= u64::MAX ==> r == Some(page_down(v + 4095) as u64),
{
    match v.checked_add(PAGE_SIZE - 1) {
        None => None,
        Some(w) => Some(page_floor(w)),
    }
}

pub open spec fn max_u64(a: u64, b: u64) -> u64 {
    if a >= b {
        a
    } else {
        b
    }
}

pub open spec fn min_u64(a: u64, b: u64) -> u64 {
    if a <= b {
        a
    } else {
        b
    }
}

/// The whole frames of a usable region above the first megabyte, as a start and an exclusive
/// end; `None` where there are none (or rounding the start up overflows).
pub open spec fn usable_range(r: MemoryRegion) -> Option<(u64, u64)> {
    let low = max_u64(r.start, 0x100000);
    let start = page_down(low + 4095);
    let end = page_down(r.end as int);
    if r.kind != MemoryRegionKind::Usable || r.start >= r.end || low + 4095 > u64::MAX {
        None
    } else if start < end {
        Some((start as u64, end as u64))
    } else {
        None
    }
}

fn usable_frame_range(region: &MemoryRegion) -> (r: Option<(u64, u64)>)
    ensures
        r == usable_range(*region),
{
    if region.kind != MemoryRegionKind::Usable || region.start >= region.end {
        return None;
    }
    let low = if region.start >= ALLOCATABLE_MEMORY_START {
        region.start
    } else {
        ALLOCATABLE_MEMORY_START
    };
    let start = match page_ceil(low) {
        None => return None,
        Some(s) => s,
    };
    let end = page_floor(region.end);
    if start < end {
        Some((start, end))
    } else {
        None
    }
}

/// Where an allocator at region `index` with cursor `cursor` takes its next frame from: the
/// region it stops at and the frame, or the end of the map and `None`. A region is skipped when
/// it has no whole usable frame at or after the cursor.
pub open spec fn next_frame(regions: Seq<MemoryRegion>, index: nat, cursor: Option<u64>) -> (
    nat,
    Option<u64>,
)
    decreases regions.len() - index,
{
    if index >= regions.len() {
        (index, None)
    } else {
        match usable_range(regions[index as int]) {
            None => next_frame(regions, index + 1, cursor),
            Some((start, end)) => {
                let address = match cursor {
                    Some(c) => max_u64(c, start),
                    None => start,
                };
                if address >= end {
                    next_frame(regions, index + 1, cursor)
                } else {
                    (index, Some(address))
                }
            },
        }
    }
}

/// A frame that `next_frame` hands out is a whole page of a usable region above the first
/// megabyte, at or after the cursor.
pub proof fn lemma_next_frame_is_usable(regions: Seq<MemoryRegion>, index: nat, cursor: Option<u64>)
    requires
        cursor matches Some(c) ==> c % 4096 == 0,
    ensures
        next_frame(regions, index, cursor).1 matches Some(a) ==> {
            let i = next_frame(regions, index, cursor).0;
            &&& index <= i < regions.len()
            &&& regions[i as int].kind == MemoryRegionKind::Usable
            &&& regions[i as int].start <= a
            &&& a + 4096 <= regions[i as int].end
            &&& a >= 0x100000
            &&& a % 4096 == 0
            &&& (cursor matches Some(c) ==> a >= c)
        },
    decreases regions.len() - index,
{
    if index < regions.len() {
        match usable_range(regions[index as int]) {
            None => lemma_next_frame_is_usable(regions, index + 1, cursor),
            Some((start, end)) => {
                let address = match cursor {
                    Some(c) => max_u64(c, start),
                    None => start,
                };
                if address >= end {
                    lemma_next_frame_is_usable(regions, index + 1, cursor);
                }
            },
        }
    }
}

/// Hands out the usable frames of a memory map in increasing address order.
pub struct FrameAllocator<'a> {
    regions: &'a [MemoryRegion],
    region_index: usize,
    next_address: Option<u64>,
}

impl<'a> FrameAllocator<'a> {
    #[verifier::type_invariant]
    closed spec fn aligned(self) -> bool {
        self.next_address matches Some(c) ==> c % 4096 == 0
    }

    /// The memory map the frames come from.
    pub closed spec fn map(self) -> Seq<MemoryRegion> {
        self.regions@
    }

    /// The region the allocator is at.
    pub closed spec fn index(self) -> nat {
        self.region_index as nat
    }

    /// The lowest address the next frame may have, once one has been set.
    pub closed spec fn cursor(self) -> Option<u64> {
        self.next_address
    }

    /// An allocator over `regions`, starting with the first usable frame.
    pub fn new(regions: &'a [MemoryRegion]) -> (r: Self)
        ensures
            r.map() == regions@,
            r.index() == 0,
            r.cursor() is None,
    {
        Self { regions, region_index: 0, next_address: None }
    }

    /// An allocator over `regions` that hands out no frame below `address` (rounded down to a
    /// page), nor below the first megabyte.
    pub fn starting_at(regions: &'a [MemoryRegion], address: u64) -> (r: Self)
        ensures
            r.map() == regions@,
            r.index() == 0,
            r.cursor() == Some(page_down(max_u64(address, 0x100000) as int) as u64),
    {
        let address = if address < ALLOCATABLE_MEMORY_START {
            ALLOCATABLE_MEMORY_START
        } else {
            address
        };
        let aligned = page_floor(address);
        Self { regions, region_index: 0, next_address: Some(aligned) }
    }

    /// The address of the frame that `next` would hand out, without taking it.
    pub fn next_available_address(&self) -> (r: Option<u64>)
        ensures
            r == next_frame(self.map(), self.index(), self.cursor()).1,
    {
        let n = self.regions.len();
        let mut region_index = self.region_index;
        let next_address = self.next_address;
        while region_index < n
            invariant
                n == self.regions@.len(),
                next_address == self.next_address,
                next_frame(self.map(), self.index(), self.cursor()) == next_frame(
                    self.map(),
                    region_index as nat,
                    next_address,
                ),
            decreases n - region_index,
        {
            let region = &self.regions[region_index];
            match usable_frame_range(region) {
                None => {},
                Some((start, end)) => {
                    let address = match next_address {
                        Some(c) => if c >= start {
                            c
                        } else {
                            start
                        },
                        None => start,
                    };
                    if address < end {
                        return Some(address);
                    }
                },
            }
            region_index = region_index + 1;
        }
        None
    }

    /// Takes the next usable frame: the lowest whole page at or after the cursor in the first
    /// region, from the current one on, that has one. The cursor moves past it, so no frame is
    /// handed out twice.
    pub fn next(&mut self) -> (r: Option<PhysicalFrame>)
        ensures
            ({
                let (i, frame) = next_frame(old(self).map(), old(self).index(), old(self).cursor());
                &&& r is Some <==> frame is Some
                &&& r matches Some(f) ==> frame == Some(f.start())
                &&& final(self).map() == old(self).map()
                &&& frame matches Some(a) ==> final(self).index() == i && final(self).cursor()
                    == Some((a + 4096) as u64)
            }),
            r matches Some(f) ==> {
                &&& f.start() % 4096 == 0
                &&& f.start() >= 0x100000
                &&& exists|i: int|
                    0 <= i < old(self).map().len() && (#[trigger] old(self).map()[i]).kind
                        == MemoryRegionKind::Usable && old(self).map()[i].start <= f.start()
                        && f.start() + 4096 <= old(self).map()[i].end
                &&& old(self).cursor() matches Some(c) ==> f.start() >= c
                &&& final(self).cursor() == Some((f.start() + 4096) as u64)
            },
    {
        proof {
            use_type_invariant(&*self);
            lemma_next_frame_is_usable(self.map(), self.index(), self.cursor());
        }
        let n = self.regions.len();
        let ghost start_index = self.region_index as nat;
        while self.region_index < n
            invariant
                n == self.regions@.len(),
                self.regions == old(self).regions,
                self.next_address == old(self).next_address,
                self.next_address matches Some(c) ==> c % 4096 == 0,
                start_index <= self.region_index,
                next_frame(old(self).map(), old(self).index(), old(self).cursor()) == next_frame(
                    self.map(),
                    self.region_index as nat,
                    self.next_address,
                ),
            decreases n - self.region_index,
        {
            let index = self.region_index;
            let region = &self.regions[index];
            match usable_frame_range(region) {
                None => {},
                Some((start, end)) => {
                    let address = match self.next_address {
                        Some(c) => if c >= start {
                            c
                        } else {
                            start
                        },
                        None => start,
                    };
                    if address < end {
                        proof {
                            lemma_page_down(region.end as int);
                            lemma_page_down(max_u64(region.start, 0x100000) + 4095);
                            lemma_pages_apart(address as int, end as int);
                        }
                        self.next_address = Some(address + PAGE_SIZE);
                        return Some(PhysicalFrame { start_address: address });
                    }
                },
            }
            self.region_index = index + 1;
        }
        None
    }
}

/// The whole frames of the usable regions among the first `n`, the sum saturating.
pub open spec fn frame_count(regions: Seq<MemoryRegion>, n: nat) -> u64
    decreases n,
{
    if n == 0 || n > regions.len() {
        0
    } else {
        match usable_range(regions[n - 1]) {
            None => frame_count(regions, (n - 1) as nat),
            Some((start, end)) => sat_add_u64(
                frame_count(regions, (n - 1) as nat),
                ((end - start) / 4096) as u64,
            ),
        }
    }
}

/// How many frames the usable regions of a memory map hold, above the first megabyte.
pub fn usable_frame_count(regions: &[MemoryRegion]) -> (r: u64)
    ensures
        r == frame_count(regions@, regions@.len()),
{
    let n = regions.len();
    let mut count: u64 = 0;
    let mut i: usize = 0;
    while i < n
        invariant
            i <= n == regions@.len(),
            count == frame_count(regions@, i as nat),
        decreases n - i,
    {
        match usable_frame_range(&regions[i]) {
            None => {},
            Some((start, end)) => {
                count = count.saturating_add((end - start) / PAGE_SIZE);
            },
        }
        i = i + 1;
    }
    count
}

/// The first whole frame of region `r` inside the page-aligned window `low..high`, if any.
pub open spec fn frame_in_window(r: MemoryRegion, low: u64, high: u64) -> Option<u64> {
    let start = max_u64(r.start, low);
    let end = page_down(min_u64(r.end, high) as int);
    if r.kind != MemoryRegionKind::Usable || start + 4095 > u64::MAX {
        None
    } else if page_down(start + 4095) < end {
        Some(page_down(start + 4095) as u64)
    } else {
        None
    }
}

/// The first region from `index` on with a whole frame in the window, and that frame.
pub open spec fn first_frame_in_window(
    regions: Seq<MemoryRegion>,
    index: nat,
    low: u64,
    high: u64,
) -> Option<u64>
    decreases regions.len() - index,
{
    if index >= regions.len() {
        None
    } else {
        match frame_in_window(regions[index as int], low, high) {
            Some(a) => Some(a),
            None => first_frame_in_window(regions, index + 1, low, high),
        }
    }
}

/// The frame that `first_usable_frame_in_range` finds: the window is `range_start` rounded up
/// and `range_end` rounded down to pages.
pub open spec fn first_frame_in_range(regions: Seq<MemoryRegion>, range_start: u64, range_end: u64) -> Option<
    u64,
> {
    let low = page_down(range_start + 4095);
    let high = page_down(range_end as int);
    if range_start + 4095 > u64::MAX || low >= high {
        None
    } else {
        first_frame_in_window(regions, 0, low as u64, high as u64)
    }
}

/// The first whole usable frame, in map order, that lies inside `range_start..range_end`.
pub fn first_usable_frame_in_range(regions: &[MemoryRegion], range_start: u64, range_end: u64) -> (r:
    Option<PhysicalFrame>)
    ensures
        r is Some <==> first_frame_in_range(regions@, range_start, range_end) is Some,
        r matches Some(f) ==> first_frame_in_range(regions@, range_start, range_end) == Some(
            f.start(),
        ),
{
    let low = match page_ceil(range_start) {
        None => return None,
        Some(v) => v,
    };
    let high = page_floor(range_end);
    if low >= high {
        return None;
    }
    let n = regions.len();
    let mut i: usize = 0;
    while i < n
        invariant
            i <= n == regions@.len(),
            low == page_down(range_start + 4095),
            high == page_down(range_end as int),
            range_start + 4095 <= u64::MAX,
            low < high,
            first_frame_in_range(regions@, range_start, range_end) == first_frame_in_window(
                regions@,
                i as nat,
                low,
                high,
            ),
        decreases n - i,
    {
        let region = regions[i];
        if region.kind == MemoryRegionKind::Usable {
            let start = if region.start >= low {
                region.start
            } else {
                low
            };
            let end = page_floor(if region.end <= high {
                region.end
            } else {
                high
            });
            match page_ceil(start) {
                None => {},
                Some(s) => {
                    if s < end {
                        return Some(PhysicalFrame { start_address: s });
                    }
                },
            }
        }
        i = i + 1;
    }
    None
}

/// The whole usable frames of one region above the first megabyte.
pub open spec fn region_frames(r: MemoryRegion) -> u64 {
    match usable_range(r) {
        Some((start, end)) => ((end - start) / 4096) as u64,
        None => 0,
    }
}

proof fn lemma_frame_count_prefix(a: Seq<MemoryRegion>, b: Seq<MemoryRegion>, n: nat)
    requires
        n <= a.len(),
    ensures
        frame_count(a + b, n) == frame_count(a, n),
    decreases n,
{
    if n > 0 {
        lemma_frame_count_prefix(a, b, (n - 1) as nat);
        assert((a + b)[n - 1] == a[n - 1]);
    }
}

proof fn lemma_frame_count_concat(a: Seq<MemoryRegion>, b: Seq<MemoryRegion>, k: nat)
    requires
        k <= b.len(),
    ensures
        frame_count(a + b, a.len() + k) == sat_add_u64(frame_count(a, a.len()), frame_count(b, k)),
    decreases k,
{
    if k == 0 {
        lemma_frame_count_prefix(a, b, a.len());
    } else {
        lemma_frame_count_concat(a, b, (k - 1) as nat);
        assert((a + b)[a.len() + k - 1] == b[k - 1]);
    }
}

/// The usable frames of a memory map add up over its parts: the count of two maps laid end to
/// end is the (saturating) sum of their counts, and the count of a single region is its own
/// whole usable frames. So every usable region counts, whatever comes before or after it.
pub proof fn lemma_frame_count_adds_up(a: Seq<MemoryRegion>, b: Seq<MemoryRegion>, r: MemoryRegion)
    ensures
        frame_count(a + b, (a + b).len()) == sat_add_u64(
            frame_count(a, a.len()),
            frame_count(b, b.len()),
        ),
        frame_count(seq![r], 1) == region_frames(r),
        frame_count(a.push(r), a.len() + 1) == sat_add_u64(frame_count(a, a.len()), region_frames(r)),
{
    lemma_frame_count_concat(a, b, b.len());
    assert(frame_count(seq![r], 0) == 0);
    lemma_frame_count_concat(a, seq![r], 1);
    assert(a + seq![r] =~= a.push(r));
}

} // verus!
