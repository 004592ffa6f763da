//! The kernel heap's place and what its set-up reports.
use vstd::prelude::*;

verus! {

/// Where the heap is mapped.
pub const HEAP_START: u64 = 0x4444_4444_0000;
/// The heap's size: 2 MiB.
pub const HEAP_SIZE: u64 = 0x20_0000;

/// Why the heap could not be set up: no usable frame was left for a page, or mapping the page
/// at this address failed.
#[derive(Debug, Clone, Copy, PartialEq, Eq, Structural)]
pub enum HeapError {
    OutOfFrames,
    MappingFailed { page: u64 },
}

/// The heap as set up: where it lies, how many pages were mapped, and where the frame allocator
/// goes on from.
#[derive(Debug, Clone, Copy, PartialEq, Eq, Structural)]
pub struct HeapStats {
    pub start: u64,
    pub size: u64,
    pub pages: usize,
    pub next_frame_address: Option<u64>,
}

impl HeapStats {
    /// The report of a heap at its fixed place whose `pages` pages are mapped, the allocator
    /// going on from `next_frame_address`.
    pub fn mapped(pages: usize, next_frame_address: Option<u64>) -> (r: HeapStats)
        ensures
            r == (HeapStats { start: HEAP_START, size: HEAP_SIZE, pages, next_frame_address }),
    {
        HeapStats { start: HEAP_START, size: HEAP_SIZE, pages, next_frame_address }
    }
}

} // verus!
