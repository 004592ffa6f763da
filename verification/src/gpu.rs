//! The GSP firmware boot protocol: firmware images, boot memory planning, RPC messages and the
//! shared-memory message queues.
use vstd::prelude::*;

pub mod layout;
pub mod rpc;
pub mod queue;
pub mod firmware;
pub mod fmc;
pub mod boot;
pub mod fsp;
pub mod info;
pub mod plan;

verus! {

pub const NVIDIA_GSP_MAX_FIRMWARE_SIZE: usize = 134217728;
pub const NVIDIA_GSP_ELF_HEADER_SIZE: usize = 64;
pub const NVIDIA_GSP_ELF_SECTION_HEADER_SIZE: usize = 64;
pub const NVIDIA_GSP_MAX_SECTIONS: usize = 128;
pub const NVIDIA_GSP_PAGE_SIZE: usize = 4096;
pub const NVIDIA_GSP_MAX_MESSAGE_PAGES: usize = 16;
pub const NVIDIA_GSP_MESSAGE_HEADER_SIZE: usize = 48;
pub const NVIDIA_GSP_RPC_HEADER_SIZE: usize = 32;
pub const NVIDIA_GSP_SHARED_QUEUE_BYTES: usize = 0x40000;
pub const NVIDIA_GSP_SHARED_QUEUE_COUNT: usize = 2;
pub const NVIDIA_GSP_QUEUE_HEADER_SIZE: usize = 32;
pub const NVIDIA_GSP_QUEUE_ENTRY_OFFSET: usize = NVIDIA_GSP_PAGE_SIZE;
pub const NVIDIA_GSP_QUEUE_ENTRY_SIZE: usize = NVIDIA_GSP_PAGE_SIZE;
pub const NVIDIA_GSP_QUEUE_ENTRY_COUNT: usize = 63;
pub const NVIDIA_GSP_QUEUE_TX_WRITE_POINTER_OFFSET: usize = 16;
pub const NVIDIA_GSP_QUEUE_RX_READ_POINTER_OFFSET: usize = 32;
pub const NVIDIA_GSP_SHARED_PAGE_TABLE_ENTRY_SIZE: usize = 8;
pub const NVIDIA_GSP_RADIX3_POINTERS_PER_PAGE: usize = 512;
pub const NVIDIA_GSP_RADIX3_MAX_IMAGE_PAGES: usize = 262144;
pub const NVIDIA_GSP_WPR_ALIGNMENT: usize = 131072;
pub const NVIDIA_GSP_R570_BAREMETAL_OS_CARVEOUT: usize = 23068672;
pub const NVIDIA_GSP_R570_BASE_RM_HEAP: usize = 14680064;
pub const NVIDIA_GSP_R570_MIN_RM_HEAP: usize = 92274688;
pub const NVIDIA_GSP_R570_GB20X_NON_WPR_HEAP: usize = 0x220000;
pub const NVIDIA_GSP_R570_HEAP_PER_GB_FB: u64 = 98304;
pub const NVIDIA_GSP_R570_CLIENT_ALLOC_HEAP: u64 = 100663296;
pub const NVIDIA_GSP_R570_GB20X_WPR_HEAP_MIN: u64 = 178257920;
pub const NVIDIA_GSP_R570_GB20X_PMU_RESERVED_SIZE: u64 = 0x01a00000;
pub const NVIDIA_GSP_R570_FSP_CARVEOUT_ALIGNMENT: u64 = 0x00200000;
pub const NVIDIA_GSP_GB20X_FRTS_SIZE: u64 = 0x00100000;
pub const NVIDIA_GSP_GB20X_WPR_HEAP_ALIGNMENT: u64 = 0x00100000;
pub const NVIDIA_GSP_GB20X_ELF_ALIGNMENT: u64 = 0x00010000;
pub const NVIDIA_GSP_LIBOS_ARGUMENTS_SIZE: usize = NVIDIA_GSP_PAGE_SIZE;
pub const NVIDIA_GSP_RM_ARGUMENTS_SIZE: usize = NVIDIA_GSP_PAGE_SIZE;
pub const NVIDIA_GSP_LOG_BUFFER_SIZE: usize = 0x10000;
pub const NVIDIA_GSP_R570_CACHED_ARGUMENTS_SIZE: usize = 72;
pub const NVIDIA_GSP_R570_QUEUE_RX_HEADER_OFFSET: u32 = 32;
pub const NVIDIA_GSP_RPC_SIGNATURE: u32 = 0x4352_5056;
pub const NVIDIA_GSP_RPC_HEADER_VERSION: u32 = 0x0300_0000;
pub const NVIDIA_GSP_FUNCTION_GET_GSP_STATIC_INFO: u32 = 65;
pub const NVIDIA_GSP_FUNCTION_CONTINUATION_RECORD: u32 = 71;
pub const NVIDIA_GSP_FUNCTION_GSP_SET_SYSTEM_INFO: u32 = 72;
pub const NVIDIA_GSP_FUNCTION_SET_REGISTRY: u32 = 73;
pub const NVIDIA_GSP_EVENT_FIRST: u32 = 4096;
pub const NVIDIA_GSP_EVENT_GSP_INIT_DONE: u32 = 4097;
pub const NVIDIA_GSP_CONTINUATION_FUNCTION: u32 = NVIDIA_GSP_FUNCTION_CONTINUATION_RECORD;
pub const NVIDIA_GSP_R570_SYSTEM_INFO_SIZE: usize = 544;
pub const NVIDIA_GSP_R570_STATIC_CONFIG_INFO_SIZE: usize = 1656;
pub const NVIDIA_GSP_R570_STATIC_GPU_NAME_OFFSET: usize = 1260;
pub const NVIDIA_GSP_R570_PCI_CONFIG_MIRROR_BASE: u32 = 0x0009_2000;
pub const NVIDIA_GSP_R570_PCI_CONFIG_MIRROR_SIZE: u32 = 0x0000_1000;
pub const NVIDIA_GSP_R570_CHIPSET_GB205: u32 = 0x0000_01b5;
pub const NVIDIA_GSP_R570_MAX_USER_VA: u64 = 0x7fff_ffff_f000;
pub const NVIDIA_GSP_REGISTRY_DWORD: u8 = 1;

/// `v` rounded up to a multiple of `a`.
pub open spec fn round_up(v: int, a: int) -> int {
    (v + a - 1) / a * a
}

/// `v` rounded down to a multiple of `a`.
pub open spec fn round_down(v: int, a: int) -> int {
    v / a * a
}

/// The number of `d`-sized pieces needed to cover `v`.
pub open spec fn div_ceil(v: int, d: int) -> int {
    (v + d - 1) / d
}

proof fn lemma_mask_u64(v: u64)
    ensures
        v & !4095u64 == round_down(v as int, 4096),
        v & !0xffffu64 == round_down(v as int, 0x10000),
        v & !0xfffffu64 == round_down(v as int, 0x100000),
        v & !0x1fffffu64 == round_down(v as int, 0x200000),
        v & !0x1ffffu64 == round_down(v as int, 0x20000),
{
    assert(v & !4095u64 == v - v % 4096) by (bit_vector);
    assert(v & !0xffffu64 == v - v % 0x10000) by (bit_vector);
    assert(v & !0xfffffu64 == v - v % 0x100000) by (bit_vector);
    assert(v & !0x1fffffu64 == v - v % 0x200000) by (bit_vector);
    assert(v & !0x1ffffu64 == v - v % 0x20000) by (bit_vector);
}

pub proof fn lemma_mask_usize(v: usize)
    ensures
        v & !4095usize == round_down(v as int, 4096),
        v & !255usize == round_down(v as int, 256),
        v & !7usize == round_down(v as int, 8),
        v & !3usize == round_down(v as int, 4),
{
    assert(v & !4095usize == v - v % 4096) by (bit_vector);
    assert(v & !255usize == v - v % 256) by (bit_vector);
    assert(v & !7usize == v - v % 8) by (bit_vector);
    assert(v & !3usize == v - v % 4) by (bit_vector);
}

/// `value` rounded up to a whole number of pages, or `None` where that overflows.
pub fn align_page(value: usize) -> (r: Option<usize>)
    ensures
        r == (if value + 4095 <= usize::MAX {
            Some(round_up(value as int, 4096) as usize)
        } else {
            None::<usize>
        }),
{
    match value.checked_add(NVIDIA_GSP_PAGE_SIZE - 1) {
        Some(v) => {
            proof {
                lemma_mask_usize(v);
            }
            Some(v & !4095usize)
        },
        None => None,
    }
}

/// `value` rounded up to a multiple of 256, or `None` where that overflows.
pub fn align_value_256(value: usize) -> (r: Option<usize>)
    ensures
        r == (if value + 255 <= usize::MAX {
            Some(round_up(value as int, 256) as usize)
        } else {
            None::<usize>
        }),
{
    match value.checked_add(255) {
        Some(v) => {
            proof {
                lemma_mask_usize(v);
            }
            Some(v & !255usize)
        },
        None => None,
    }
}

/// The number of pages needed to hold `value` bytes, or `None` where the rounding overflows.
pub fn ceil_div_page(value: usize) -> (r: Option<usize>)
    ensures
        r == (if value + 4095 <= usize::MAX {
            Some(div_ceil(value as int, 4096) as usize)
        } else {
            None::<usize>
        }),
{
    match value.checked_add(NVIDIA_GSP_PAGE_SIZE - 1) {
        Some(v) => Some(v / NVIDIA_GSP_PAGE_SIZE),
        None => None,
    }
}

/// Whether `a` is one of the power-of-two alignments that the boot planner uses.
pub open spec fn supported_alignment(a: u64) -> bool {
    a == 4096 || a == 0x10000 || a == 0x20000 || a == 0x100000 || a == 0x200000
}

/// `value` rounded down to a multiple of `alignment`.
pub fn align_down_u64(value: u64, alignment: u64) -> (r: u64)
    requires
        supported_alignment(alignment),
    ensures
        r == round_down(value as int, alignment as int),
{
    proof {
        lemma_mask_u64(value);
    }
    value & !(alignment - 1)
}

/// `value` rounded up to a multiple of `alignment`, or `None` where that overflows.
pub fn align_up_u64(value: u64, alignment: u64) -> (r: Option<u64>)
    requires
        supported_alignment(alignment),
    ensures
        r == (if value + alignment - 1 <= u64::MAX {
            Some(round_up(value as int, alignment as int) as u64)
        } else {
            None::<u64>
        }),
{
    match value.checked_add(alignment - 1) {
        Some(v) => Some(align_down_u64(v, alignment)),
        None => None,
    }
}

/// The number of `divisor`-sized pieces covering `value`, or `None` where the rounding
/// overflows.
pub fn ceil_div_u64(value: u64, divisor: u64) -> (r: Option<u64>)
    requires
        divisor > 0,
    ensures
        r == (if value + divisor - 1 <= u64::MAX {
            Some(div_ceil(value as int, divisor as int) as u64)
        } else {
            None::<u64>
        }),
{
    match value.checked_add(divisor - 1) {
        Some(v) => Some(v / divisor),
        None => None,
    }
}

} // verus!
