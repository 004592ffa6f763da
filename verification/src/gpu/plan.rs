//! Planning the boot: where each piece goes in framebuffer memory (the WPR) and in system memory,
//! and building the linked system-memory image.
use vstd::prelude::*;
use crate::gpu::{
    align_down_u64, align_page, align_up_u64, ceil_div_u64, div_ceil, round_down, round_up,
    NVIDIA_GSP_GB20X_ELF_ALIGNMENT, NVIDIA_GSP_GB20X_FRTS_SIZE,
    NVIDIA_GSP_GB20X_WPR_HEAP_ALIGNMENT, NVIDIA_GSP_LIBOS_ARGUMENTS_SIZE,
    NVIDIA_GSP_LOG_BUFFER_SIZE, NVIDIA_GSP_PAGE_SIZE, NVIDIA_GSP_R570_BAREMETAL_OS_CARVEOUT,
    NVIDIA_GSP_R570_BASE_RM_HEAP, NVIDIA_GSP_R570_CLIENT_ALLOC_HEAP,
    NVIDIA_GSP_R570_FSP_CARVEOUT_ALIGNMENT, NVIDIA_GSP_R570_GB20X_NON_WPR_HEAP,
    NVIDIA_GSP_R570_GB20X_PMU_RESERVED_SIZE, NVIDIA_GSP_R570_GB20X_WPR_HEAP_MIN,
    NVIDIA_GSP_R570_HEAP_PER_GB_FB, NVIDIA_GSP_RM_ARGUMENTS_SIZE, NVIDIA_GSP_WPR_ALIGNMENT,
};
use crate::gpu::boot::{NVIDIA_GSP_FMC_BOOT_PARAMS_SIZE, NVIDIA_GSP_WPR_META_SIZE};
use crate::gpu::firmware::GspBootPlanError;
use crate::gpu::layout::{
    fresh_command_queue, page_aligned, pointer_table_bytes, radix3_check, shared_memory_check,
    validate_page_address, GspCachedArguments, GspFirmwareLayout, GspMemoryError,
    GspMemoryRegion, GspRadix3Tables, GspSharedMemoryImage,
};
use crate::gpu::boot::{GspFmcBootParams, GspWprMeta};
use crate::bytes::{copy_into, fill_zero, splice, zeros};
use crate::gpu::layout::FirmwareSection;
use crate::gpu::boot::GspFirmwareBundle;
use crate::gpu::firmware::boot_layout_result;

verus! {

#[derive(Debug, Clone, Copy, PartialEq, Eq, Structural)]
pub enum GspSystemMemoryPlanError {
    BootLayout(GspBootPlanError),
    BaseUnaligned { address: u64 },
    AddressOverflow,
    EmptyRegion,
    SizeOverflow,
}

#[derive(Debug, Clone, Copy, PartialEq, Eq, Structural)]
pub enum GspFramebufferLayoutError {
    AddressOverflow,
    AddressUnderflow,
    InvalidBiosAddress { address: u64, framebuffer_size: u64 },
    TooSmall { required: u64, available: u64 },
    SizeOverflow,
}

/// Where the GSP's pieces go in framebuffer memory: from the bottom, the non-WPR heap, the WPR
/// (its metadata, heap, firmware image, bootloader and FRTS), then the VGA workspace.
#[derive(Debug, Clone, Copy, PartialEq, Eq, Structural)]
pub struct GspFramebufferLayout {
    pub framebuffer_size: u64,
    pub non_wpr_heap_address: u64,
    pub non_wpr_heap_size: u64,
    pub wpr_start: u64,
    pub wpr_size: u64,
    pub wpr_heap_address: u64,
    pub wpr_heap_size: u64,
    pub gsp_image_address: u64,
    pub gsp_image_size: u64,
    pub bootloader_address: u64,
    pub bootloader_size: u64,
    pub frts_address: u64,
    pub frts_size: u64,
    pub wpr_end: u64,
    pub vga_workspace_address: u64,
    pub vga_workspace_size: u64,
    pub pmu_reserved_size: u64,
    pub fsp_carveout_size: u64,
}

/// The WPR heap the R570 firmware asks for on a framebuffer of `framebuffer_size` bytes, before
/// the GB20x minimum is applied.
pub open spec fn calculated_heap(framebuffer_size: u64) -> int {
    let gib = div_ceil(framebuffer_size as int, 0x4000_0000);
    23068672 + 14680064 + round_up(98304 * gib, 0x100000) + 100663296
}

/// The result of laying out the GB20x WPR below the BIOS on a framebuffer.
pub open spec fn framebuffer_layout_result(
    framebuffer_size: u64,
    bios_address: u64,
    gsp_image_size: usize,
    bootloader_size: usize,
) -> Result<GspFramebufferLayout, GspFramebufferLayoutError> {
    let wpr_end = round_down(bios_address as int, 0x20000);
    let frts_address = wpr_end - 0x100000;
    let bootloader_address = round_down(frts_address - bootloader_size, 4096);
    let gsp_image_address = round_down(bootloader_address - gsp_image_size, 0x10000);
    let heap = calculated_heap(framebuffer_size);
    let requested = if heap >= 178257920 {
        heap
    } else {
        178257920
    };
    let wpr_heap_address = round_down(gsp_image_address - requested, 0x100000);
    let wpr_heap_size = round_down(gsp_image_address - wpr_heap_address, 0x100000);
    let wpr_start = round_down(wpr_heap_address - 256, 0x100000);
    let non_wpr_heap_address = wpr_start - 0x220000;
    if framebuffer_size == 0 || bios_address > framebuffer_size {
        Err(
            GspFramebufferLayoutError::InvalidBiosAddress {
                address: bios_address,
                framebuffer_size,
            },
        )
    } else if frts_address < 0 || frts_address - bootloader_size < 0 || bootloader_address
        - gsp_image_size < 0 {
        Err(GspFramebufferLayoutError::AddressUnderflow)
    } else if framebuffer_size + 0x3fff_ffff > u64::MAX || heap > u64::MAX {
        Err(GspFramebufferLayoutError::AddressOverflow)
    } else if gsp_image_address - requested < 0 || wpr_heap_address - 256 < 0 {
        Err(GspFramebufferLayoutError::AddressUnderflow)
    } else if wpr_start >= wpr_end {
        Err(
            GspFramebufferLayoutError::TooSmall {
                required: wpr_start as u64,
                available: wpr_end as u64,
            },
        )
    } else if non_wpr_heap_address < 0 {
        Err(GspFramebufferLayoutError::AddressUnderflow)
    } else {
        Ok(
            GspFramebufferLayout {
                framebuffer_size,
                non_wpr_heap_address: non_wpr_heap_address as u64,
                non_wpr_heap_size: 0x220000,
                wpr_start: wpr_start as u64,
                wpr_size: (wpr_end - wpr_start) as u64,
                wpr_heap_address: wpr_heap_address as u64,
                wpr_heap_size: wpr_heap_size as u64,
                gsp_image_address: gsp_image_address as u64,
                gsp_image_size: gsp_image_size as u64,
                bootloader_address: bootloader_address as u64,
                bootloader_size: bootloader_size as u64,
                frts_address: frts_address as u64,
                frts_size: 0x100000,
                wpr_end: wpr_end as u64,
                vga_workspace_address: bios_address,
                vga_workspace_size: (framebuffer_size - bios_address) as u64,
                pmu_reserved_size: 0x01a00000,
                fsp_carveout_size: 0x01e00000,
            },
        )
    }
}

impl GspFramebufferLayout {
    /// The regions lie in order, without overlap, from the non-WPR heap up to the end of the
    /// framebuffer.
    pub open spec fn ordered(self) -> bool {
        &&& self.non_wpr_heap_address + self.non_wpr_heap_size == self.wpr_start
        &&& self.wpr_start + 256 <= self.wpr_heap_address
        &&& self.wpr_heap_address + self.wpr_heap_size <= self.gsp_image_address
        &&& self.gsp_image_address + self.gsp_image_size <= self.bootloader_address
        &&& self.bootloader_address + self.bootloader_size <= self.frts_address
        &&& self.frts_address + self.frts_size == self.wpr_end
        &&& self.wpr_start + self.wpr_size == self.wpr_end
        &&& self.wpr_end <= self.vga_workspace_address
        &&& self.vga_workspace_address + self.vga_workspace_size == self.framebuffer_size
    }

    /// The FRTS offset the FSP COT packet expects: measured back from the end of framebuffer
    /// memory.
    pub fn frts_vidmem_offset(self) -> (r: Result<u64, GspFramebufferLayoutError>)
        ensures
            r == (if self.frts_address <= self.framebuffer_size {
                Ok::<u64, GspFramebufferLayoutError>(
                    (self.framebuffer_size - self.frts_address) as u64,
                )
            } else {
                Err(GspFramebufferLayoutError::AddressUnderflow)
            }),
    {
        match self.framebuffer_size.checked_sub(self.frts_address) {
            Some(v) => Ok(v),
            None => Err(GspFramebufferLayoutError::AddressUnderflow),
        }
    }

    #[verifier::rlimit(40)]
    pub fn r570_gb20x(
        framebuffer_size: u64,
        bios_address: u64,
        gsp_image_size: usize,
        bootloader_size: usize,
    ) -> (r: Result<Self, GspFramebufferLayoutError>)
        ensures
            r == framebuffer_layout_result(
                framebuffer_size,
                bios_address,
                gsp_image_size,
                bootloader_size,
            ),
            r matches Ok(layout) ==> layout.ordered(),
    {
        if framebuffer_size == 0 || bios_address > framebuffer_size {
            return Err(
                GspFramebufferLayoutError::InvalidBiosAddress {
                    address: bios_address,
                    framebuffer_size,
                },
            );
        }
        let gsp_image_size = gsp_image_size as u64;
        let bootloader_size = bootloader_size as u64;
        let wpr_end = align_down_u64(bios_address, NVIDIA_GSP_WPR_ALIGNMENT as u64);
        let frts_size = NVIDIA_GSP_GB20X_FRTS_SIZE;
        let frts_address = match wpr_end.checked_sub(frts_size) {
            Some(v) => v,
            None => {
                return Err(GspFramebufferLayoutError::AddressUnderflow);
            },
        };
        let below_frts = match frts_address.checked_sub(bootloader_size) {
            Some(v) => v,
            None => {
                return Err(GspFramebufferLayoutError::AddressUnderflow);
            },
        };
        let bootloader_address = align_down_u64(below_frts, NVIDIA_GSP_PAGE_SIZE as u64);
        let below_bootloader = match bootloader_address.checked_sub(gsp_image_size) {
            Some(v) => v,
            None => {
                return Err(GspFramebufferLayoutError::AddressUnderflow);
            },
        };
        let gsp_image_address = align_down_u64(below_bootloader, NVIDIA_GSP_GB20X_ELF_ALIGNMENT);
        let framebuffer_gib = match ceil_div_u64(framebuffer_size, 0x4000_0000) {
            Some(v) => v,
            None => {
                return Err(GspFramebufferLayoutError::AddressOverflow);
            },
        };
        let per_gib = match NVIDIA_GSP_R570_HEAP_PER_GB_FB.checked_mul(framebuffer_gib) {
            Some(v) => v,
            None => {
                return Err(GspFramebufferLayoutError::AddressOverflow);
            },
        };
        let per_gib_heap = match align_up_u64(per_gib, 0x100000) {
            Some(v) => v,
            None => {
                return Err(GspFramebufferLayoutError::AddressOverflow);
            },
        };
        let client_heap = match align_up_u64(NVIDIA_GSP_R570_CLIENT_ALLOC_HEAP, 0x100000) {
            Some(v) => v,
            None => {
                return Err(GspFramebufferLayoutError::AddressOverflow);
            },
        };
        let base_heap = (NVIDIA_GSP_R570_BAREMETAL_OS_CARVEOUT as u64)
            + (NVIDIA_GSP_R570_BASE_RM_HEAP as u64);
        let with_per_gib = match base_heap.checked_add(per_gib_heap) {
            Some(v) => v,
            None => {
                return Err(GspFramebufferLayoutError::AddressOverflow);
            },
        };
        let calculated_heap_size = match with_per_gib.checked_add(client_heap) {
            Some(v) => v,
            None => {
                return Err(GspFramebufferLayoutError::AddressOverflow);
            },
        };
        let requested_heap_size = if calculated_heap_size >= NVIDIA_GSP_R570_GB20X_WPR_HEAP_MIN {
            calculated_heap_size
        } else {
            NVIDIA_GSP_R570_GB20X_WPR_HEAP_MIN
        };
        let below_image = match gsp_image_address.checked_sub(requested_heap_size) {
            Some(v) => v,
            None => {
                return Err(GspFramebufferLayoutError::AddressUnderflow);
            },
        };
        let wpr_heap_address = align_down_u64(below_image, NVIDIA_GSP_GB20X_WPR_HEAP_ALIGNMENT);
        let wpr_heap_size = align_down_u64(
            gsp_image_address - wpr_heap_address,
            NVIDIA_GSP_GB20X_WPR_HEAP_ALIGNMENT,
        );
        let below_heap = match wpr_heap_address.checked_sub(NVIDIA_GSP_WPR_META_SIZE as u64) {
            Some(v) => v,
            None => {
                return Err(GspFramebufferLayoutError::AddressUnderflow);
            },
        };
        let wpr_start = align_down_u64(below_heap, NVIDIA_GSP_GB20X_WPR_HEAP_ALIGNMENT);
        if wpr_start >= wpr_end {
            return Err(GspFramebufferLayoutError::TooSmall { required: wpr_start, available: wpr_end });
        }
        let non_wpr_heap_size = NVIDIA_GSP_R570_GB20X_NON_WPR_HEAP as u64;
        let non_wpr_heap_address = match wpr_start.checked_sub(non_wpr_heap_size) {
            Some(v) => v,
            None => {
                return Err(GspFramebufferLayoutError::AddressUnderflow);
            },
        };
        let pmu_reserved_size = NVIDIA_GSP_R570_GB20X_PMU_RESERVED_SIZE;
        let fsp_carveout_size = match align_up_u64(
            non_wpr_heap_size + pmu_reserved_size,
            NVIDIA_GSP_R570_FSP_CARVEOUT_ALIGNMENT,
        ) {
            Some(v) => v,
            None => {
                return Err(GspFramebufferLayoutError::AddressOverflow);
            },
        };
        let vga_workspace_size = framebuffer_size - bios_address;
        let wpr_size = wpr_end - wpr_start;
        Ok(
            Self {
                framebuffer_size,
                non_wpr_heap_address,
                non_wpr_heap_size,
                wpr_start,
                wpr_size,
                wpr_heap_address,
                wpr_heap_size,
                gsp_image_address,
                gsp_image_size,
                bootloader_address,
                bootloader_size,
                frts_address,
                frts_size,
                wpr_end,
                vga_workspace_address: bios_address,
                vga_workspace_size,
                pmu_reserved_size,
                fsp_carveout_size,
            },
        )
    }
}

#[derive(Debug, Clone, Copy, PartialEq, Eq, Structural)]
pub struct GspBootSystemMemoryPlan {
    pub layout: GspFirmwareLayout,
    pub system_base: u64,
    pub gsp_image_bytes: usize,
    pub fmc_image_bytes: usize,
    pub bootloader_bytes: usize,
    pub bootloader_code_offset: u64,
    pub bootloader_data_offset: u64,
    pub bootloader_manifest_offset: u64,
    pub fmc_image: GspMemoryRegion,
    pub gsp_image: GspMemoryRegion,
    pub radix3_level0: GspMemoryRegion,
    pub radix3_level1: GspMemoryRegion,
    pub radix3_level2: GspMemoryRegion,
    pub signature: GspMemoryRegion,
    pub bootloader: GspMemoryRegion,
    pub wpr_meta: GspMemoryRegion,
    pub fmc_args: GspMemoryRegion,
    pub libos_args: GspMemoryRegion,
    pub loginit: GspMemoryRegion,
    pub logintr: GspMemoryRegion,
    pub logrm: GspMemoryRegion,
    pub shared_memory: GspMemoryRegion,
    pub rm_args: GspMemoryRegion,
    pub end_address: u64,
    pub total_bytes: usize,
}

/// The sizes of the fifteen system-memory regions, in the order they are placed.
pub open spec fn plan_sizes(layout: GspFirmwareLayout, fmc_image_bytes: usize, bootloader_bytes: usize) -> Seq<int> {
    seq![
        round_up(fmc_image_bytes as int, 4096),
        round_up(layout.image.size as int, 4096),
        layout.radix3.level0_bytes as int,
        layout.radix3.level1_bytes as int,
        layout.radix3.level2_bytes as int,
        layout.signature_allocation_bytes as int,
        bootloader_bytes as int,
        256,
        80,
        4096,
        0x10000,
        0x10000,
        0x10000,
        layout.shared_memory.total_bytes as int,
        4096,
    ]
}

/// The end of the last of the first `k` regions, each placed at the next page boundary.
pub open spec fn stage_end(base: int, sizes: Seq<int>, k: nat) -> int
    decreases k,
{
    if k == 0 {
        base
    } else {
        round_up(stage_end(base, sizes, (k - 1) as nat), 4096) + sizes[k - 1]
    }
}

/// Region `k` of the plan.
pub open spec fn staged_region(base: int, sizes: Seq<int>, k: nat) -> GspMemoryRegion {
    GspMemoryRegion {
        address: round_up(stage_end(base, sizes, k), 4096) as u64,
        size: sizes[k as int] as usize,
    }
}

proof fn lemma_round_up_bounds(v: int)
    requires
        v >= 0,
    ensures
        v <= round_up(v, 4096) < v + 4096,
        round_up(v, 4096) % 4096 == 0,
{
}

proof fn lemma_stage_end_monotone(base: int, sizes: Seq<int>, i: nat, j: nat)
    requires
        base >= 0,
        i <= j <= sizes.len(),
        forall|k: int| 0 <= k < sizes.len() ==> sizes[k] >= 0,
    ensures
        stage_end(base, sizes, i) <= stage_end(base, sizes, j),
        stage_end(base, sizes, j) >= 0,
    decreases j,
{
    if j > 0 {
        if i < j {
            lemma_stage_end_monotone(base, sizes, i, (j - 1) as nat);
        } else {
            lemma_stage_end_monotone(base, sizes, 0, (j - 1) as nat);
        }
        lemma_round_up_bounds(stage_end(base, sizes, (j - 1) as nat));
    }
}

/// The result of planning system memory from `system_base` for a firmware layout and FMC and
/// bootloader images of the given sizes.
pub open spec fn system_plan_result(
    layout: GspFirmwareLayout,
    fmc_image_bytes: usize,
    bootloader_bytes: usize,
    system_base: u64,
) -> Result<GspBootSystemMemoryPlan, GspSystemMemoryPlanError> {
    let sizes = plan_sizes(layout, fmc_image_bytes, bootloader_bytes);
    let end = stage_end(system_base as int, sizes, 15);
    if system_base % 4096 != 0 {
        Err(GspSystemMemoryPlanError::BaseUnaligned { address: system_base })
    } else if layout.image.size == 0 || fmc_image_bytes == 0 || bootloader_bytes == 0
        || layout.signature_allocation_bytes == 0 {
        Err(GspSystemMemoryPlanError::EmptyRegion)
    } else if layout.image.size + 4095 > usize::MAX || fmc_image_bytes + 4095 > usize::MAX {
        Err(GspSystemMemoryPlanError::SizeOverflow)
    } else if end > u64::MAX {
        Err(GspSystemMemoryPlanError::AddressOverflow)
    } else if end - system_base > usize::MAX {
        Err(GspSystemMemoryPlanError::SizeOverflow)
    } else {
        Ok(
            GspBootSystemMemoryPlan {
                layout,
                system_base,
                gsp_image_bytes: layout.image.size,
                fmc_image_bytes,
                bootloader_bytes,
                bootloader_code_offset: 0,
                bootloader_data_offset: 0,
                bootloader_manifest_offset: 0,
                fmc_image: staged_region(system_base as int, sizes, 0),
                gsp_image: staged_region(system_base as int, sizes, 1),
                radix3_level0: staged_region(system_base as int, sizes, 2),
                radix3_level1: staged_region(system_base as int, sizes, 3),
                radix3_level2: staged_region(system_base as int, sizes, 4),
                signature: staged_region(system_base as int, sizes, 5),
                bootloader: staged_region(system_base as int, sizes, 6),
                wpr_meta: staged_region(system_base as int, sizes, 7),
                fmc_args: staged_region(system_base as int, sizes, 8),
                libos_args: staged_region(system_base as int, sizes, 9),
                loginit: staged_region(system_base as int, sizes, 10),
                logintr: staged_region(system_base as int, sizes, 11),
                logrm: staged_region(system_base as int, sizes, 12),
                shared_memory: staged_region(system_base as int, sizes, 13),
                rm_args: staged_region(system_base as int, sizes, 14),
                end_address: end as u64,
                total_bytes: (end - system_base) as usize,
            },
        )
    }
}

/// Places a region of `size` bytes at the next page boundary at or after `*next`, and moves
/// `*next` past it.
fn stage_region(next: &mut u64, size: usize) -> (r: Result<GspMemoryRegion, GspSystemMemoryPlanError>)
    ensures
        round_up(*old(next) as int, 4096) + size > u64::MAX ==> r == Err::<
            GspMemoryRegion,
            GspSystemMemoryPlanError,
        >(GspSystemMemoryPlanError::AddressOverflow) && *final(next) == *old(next),
        round_up(*old(next) as int, 4096) + size <= u64::MAX ==> r == Ok::<
            GspMemoryRegion,
            GspSystemMemoryPlanError,
        >(GspMemoryRegion { address: round_up(*old(next) as int, 4096) as u64, size })
            && *final(next) == round_up(*old(next) as int, 4096) + size,
{
    proof {
        lemma_round_up_bounds(*next as int);
    }
    let address = match align_up_u64(*next, NVIDIA_GSP_PAGE_SIZE as u64) {
        Some(v) => v,
        None => {
            return Err(GspSystemMemoryPlanError::AddressOverflow);
        },
    };
    let end = match address.checked_add(size as u64) {
        Some(v) => v,
        None => {
            return Err(GspSystemMemoryPlanError::AddressOverflow);
        },
    };
    *next = end;
    Ok(GspMemoryRegion { address, size })
}

/// Places the regions of the given sizes one after another from `system_base`, each at the
/// next page boundary; gives them with the end of the last.
fn stage_all(system_base: u64, sized: &[usize; 15], Ghost(sizes): Ghost<Seq<int>>) -> (r: Result<
    (Vec<GspMemoryRegion>, u64),
    GspSystemMemoryPlanError,
>)
    requires
        sizes.len() == 15,
        forall|j: int| 0 <= j < 15 ==> #[trigger] sized@[j] == sizes[j],
    ensures
        stage_end(system_base as int, sizes, 15) > u64::MAX ==> r == Err::<
            (Vec<GspMemoryRegion>, u64),
            GspSystemMemoryPlanError,
        >(GspSystemMemoryPlanError::AddressOverflow),
        stage_end(system_base as int, sizes, 15) <= u64::MAX ==> (r matches Ok((regions, end))
            && {
            &&& end == stage_end(system_base as int, sizes, 15)
            &&& regions@.len() == 15
            &&& forall|j: int|
                0 <= j < 15 ==> #[trigger] regions@[j] == staged_region(
                    system_base as int,
                    sizes,
                    j as nat,
                )
        }),
{
    let ghost base = system_base as int;
    proof {
        assert forall|k: int| 0 <= k < sizes.len() implies sizes[k] >= 0 by {
            assert(sized@[k] == sizes[k]);
        }
    }
    let mut next = system_base;
    let mut regions: Vec<GspMemoryRegion> = Vec::new();
    let mut k: usize = 0;
    while k < 15
        invariant
            k <= 15,
            forall|j: int| 0 <= j < 15 ==> #[trigger] sized@[j] == sizes[j],
            forall|j: int| 0 <= j < sizes.len() ==> sizes[j] >= 0,
            sizes.len() == 15,
            base == system_base,
            next == stage_end(base, sizes, k as nat),
            regions@.len() == k,
            forall|j: int|
                0 <= j < k ==> #[trigger] regions@[j] == staged_region(base, sizes, j as nat),
        decreases 15 - k,
    {
        let region = match stage_region(&mut next, sized[k]) {
            Ok(r) => r,
            Err(e) => {
                proof {
                    lemma_stage_end_monotone(base, sizes, (k + 1) as nat, 15);
                }
                return Err(e);
            },
        };
        regions.push(region);
        k = k + 1;
    }
    Ok((regions, next))
}

/// Region `i` of a plan staged from `base` starts a page, and ends where region `i + 1` may
/// start at the earliest.
proof fn lemma_staged_region_bounds(base: int, sizes: Seq<int>, i: nat)
    requires
        sizes.len() == 15,
        forall|j: int| 0 <= j < 15 ==> 0 <= #[trigger] sizes[j] <= usize::MAX,
        base >= 0,
        i < 15,
        stage_end(base, sizes, 15) <= u64::MAX,
    ensures
        staged_region(base, sizes, i).address == round_up(stage_end(base, sizes, i), 4096),
        staged_region(base, sizes, i).address % 4096 == 0,
        staged_region(base, sizes, i).address + staged_region(base, sizes, i).size == stage_end(
            base,
            sizes,
            i + 1,
        ),
        stage_end(base, sizes, i + 1) <= round_up(stage_end(base, sizes, i + 1), 4096),
{
    lemma_stage_end_monotone(base, sizes, 0, i);
    lemma_stage_end_monotone(base, sizes, i + 1, 15);
    lemma_stage_end_monotone(base, sizes, 0, i + 1);
    lemma_round_up_bounds(stage_end(base, sizes, i));
    lemma_round_up_bounds(stage_end(base, sizes, i + 1));
}

/// A plan whose regions are staged from its base is well placed.
#[verifier::rlimit(40)]
proof fn lemma_staged_plan_well_placed(plan: GspBootSystemMemoryPlan, sizes: Seq<int>)
    requires
        sizes.len() == 15,
        forall|j: int| 0 <= j < 15 ==> 0 <= #[trigger] sizes[j] <= usize::MAX,
        plan.system_base % 4096 == 0,
        forall|i: int|
            0 <= i < 15 ==> #[trigger] plan.regions()[i] == staged_region(
                plan.system_base as int,
                sizes,
                i as nat,
            ),
        plan.end_address == stage_end(plan.system_base as int, sizes, 15),
        plan.total_bytes == plan.end_address - plan.system_base,
    ensures
        plan.well_placed(),
{
    let base = plan.system_base as int;
    assert forall|i: int| 0 <= i < 15 implies #[trigger] plan.regions()[i].address % 4096
        == 0 by {
        lemma_staged_region_bounds(base, sizes, i as nat);
    }
    assert forall|i: int| 0 <= i < 14 implies #[trigger] plan.regions()[i].address
        + plan.regions()[i].size <= plan.regions()[i + 1].address by {
        lemma_staged_region_bounds(base, sizes, i as nat);
        lemma_staged_region_bounds(base, sizes, (i + 1) as nat);
    }
    lemma_staged_region_bounds(base, sizes, 14);
    lemma_staged_region_bounds(base, sizes, 0);
    assert(plan.regions()[0] == staged_region(base, sizes, 0));
    assert(plan.regions()[14] == staged_region(base, sizes, 14));
}

/// The addresses of `count` consecutive pages from the start of `region`, which must hold them.
pub open spec fn contiguous_result(region: GspMemoryRegion, count: usize) -> Result<
    Seq<u64>,
    GspMemoryError,
> {
    if count * 4096 > usize::MAX {
        Err(GspMemoryError::AddressOverflow)
    } else if count * 4096 > region.size {
        Err(
            GspMemoryError::BufferTooSmall {
                required: (count * 4096) as usize,
                actual: region.size,
            },
        )
    } else if !page_aligned(region.address) {
        Err(GspMemoryError::AddressUnaligned { address: region.address })
    } else if count > 0 && region.address + 4096 * (count - 1) > u64::MAX {
        Err(GspMemoryError::AddressOverflow)
    } else {
        Ok(Seq::new(count as nat, |i: int| (region.address + 4096 * i) as u64))
    }
}

/// The addresses of `page_count` consecutive pages from the start of `region`.
pub fn contiguous_page_addresses(region: GspMemoryRegion, page_count: usize) -> (r: Result<
    Vec<u64>,
    GspMemoryError,
>)
    ensures
        match contiguous_result(region, page_count) {
            Ok(s) => r matches Ok(v) && v@ == s,
            Err(e) => r == Err::<Vec<u64>, GspMemoryError>(e),
        },
{
    let required = match page_count.checked_mul(NVIDIA_GSP_PAGE_SIZE) {
        Some(v) => v,
        None => {
            return Err(GspMemoryError::AddressOverflow);
        },
    };
    if required > region.size {
        return Err(GspMemoryError::BufferTooSmall { required, actual: region.size });
    }
    if let Err(e) = validate_page_address(region.address) {
        return Err(e);
    }
    let mut addresses: Vec<u64> = Vec::new();
    let mut index: usize = 0;
    while index < page_count
        invariant
            index <= page_count,
            page_count * 4096 <= usize::MAX,
            page_count * 4096 <= region.size,
            page_aligned(region.address),
            addresses@.len() == index,
            forall|i: int| 0 <= i < index ==> addresses@[i] == region.address + 4096 * i,
        decreases page_count - index,
    {
        let offset = (index * NVIDIA_GSP_PAGE_SIZE) as u64;
        let address = match region.address.checked_add(offset) {
            Some(v) => v,
            None => {
                assert(region.address + 4096 * (page_count - 1) > u64::MAX);
                return Err(GspMemoryError::AddressOverflow);
            },
        };
        addresses.push(address);
        index = index + 1;
    }
    if page_count > 0 {
        assert(addresses@[page_count - 1] == region.address + 4096 * (page_count - 1));
    }
    assert(addresses@ =~= Seq::new(
        page_count as nat,
        |i: int| (region.address + 4096 * i) as u64,
    ));
    Ok(addresses)
}

/// The three radix-3 tables of a plan, from the level-2 pages and the image pages it places.
pub open spec fn radix3_result(plan: GspBootSystemMemoryPlan) -> Result<
    (Seq<u8>, Seq<u8>, Seq<u8>),
    GspMemoryError,
> {
    let radix3 = plan.layout.radix3;
    match contiguous_result(plan.radix3_level2, radix3.level2_pages) {
        Err(e) => Err(e),
        Ok(level2) => match contiguous_result(plan.gsp_image, radix3.image_pages) {
            Err(e) => Err(e),
            Ok(image) => match radix3_check(
                radix3,
                plan.radix3_level0.address,
                plan.radix3_level1.address,
                level2,
                image,
            ) {
                Some(e) => Err(e),
                None => Ok(
                    (
                        pointer_table_bytes(
                            seq![plan.radix3_level1.address],
                            radix3.level0_bytes as int,
                        ),
                        pointer_table_bytes(level2, radix3.level1_bytes as int),
                        pointer_table_bytes(image, radix3.level2_bytes as int),
                    ),
                ),
            },
        },
    }
}

/// The page table, command queue and status queue of a plan's shared memory.
pub open spec fn shared_result(plan: GspBootSystemMemoryPlan) -> Result<
    (Seq<u8>, Seq<u8>, Seq<u8>),
    GspMemoryError,
> {
    let layout = plan.layout.shared_memory;
    match contiguous_result(plan.shared_memory, layout.page_table_entry_count) {
        Err(e) => Err(e),
        Ok(pages) => match shared_memory_check(layout, pages) {
            Some(e) => Err(e),
            None => Ok(
                (
                    pointer_table_bytes(pages, layout.page_table_bytes as int),
                    fresh_command_queue(layout),
                    zeros(0x40000),
                ),
            ),
        },
    }
}

/// The WPR metadata of a plan over a framebuffer layout.
pub open spec fn plan_wpr_meta(plan: GspBootSystemMemoryPlan, fb: GspFramebufferLayout) -> GspWprMeta {
    GspWprMeta {
        sysmem_addr_of_radix3_elf: plan.radix3_level0.address,
        size_of_radix3_elf: plan.gsp_image_bytes as u64,
        sysmem_addr_of_bootloader: plan.bootloader.address,
        size_of_bootloader: plan.bootloader_bytes as u64,
        bootloader_code_offset: plan.bootloader_code_offset,
        bootloader_data_offset: plan.bootloader_data_offset,
        bootloader_manifest_offset: plan.bootloader_manifest_offset,
        sysmem_addr_of_signature: plan.signature.address,
        size_of_signature: plan.signature.size as u64,
        gsp_fw_rsvd_start: fb.non_wpr_heap_address,
        non_wpr_heap_offset: fb.non_wpr_heap_address,
        non_wpr_heap_size: fb.non_wpr_heap_size,
        gsp_fw_wpr_start: fb.wpr_start,
        gsp_fw_heap_offset: fb.wpr_heap_address,
        gsp_fw_heap_size: fb.wpr_heap_size,
        gsp_fw_offset: fb.gsp_image_address,
        boot_bin_offset: fb.bootloader_address,
        frts_offset: fb.frts_address,
        frts_size: fb.frts_size,
        gsp_fw_wpr_end: fb.wpr_end,
        fb_size: fb.framebuffer_size,
        vga_workspace_offset: fb.vga_workspace_address,
        vga_workspace_size: fb.vga_workspace_size,
        boot_count: 0,
        partition_rpc_addr: 0,
        partition_rpc_request_offset: 0,
        partition_rpc_reply_offset: 0,
        elf_code_offset: 0,
        elf_data_offset: 0,
        elf_code_size: 0,
        elf_data_size: 0,
        ls_ucode_version: 0,
        gsp_fw_heap_vf_partition_count: 0,
        flags: 0,
        pmu_reserved_size: fb.pmu_reserved_size as u32,
        verified: 0,
    }
}

#[derive(Debug, Clone, Copy, PartialEq, Eq, Structural)]
pub enum GspMaterializationError {
    BootLayout(GspBootPlanError),
    SystemPlan(GspSystemMemoryPlanError),
    Memory(GspMemoryError),
    BufferTooSmall { required: usize, actual: usize },
    InvalidSectionRange { offset: usize, size: usize, available: usize },
    SectionTooLarge { section: usize, region: usize },
    LayoutMismatch,
}

/// The output after copying `bytes` to the start of `region` of an image based at `base`, or
/// the error where the region does not lie in the output or the bytes do not fit in it.
pub open spec fn copy_bytes_result(
    out: Seq<u8>,
    base: u64,
    region: GspMemoryRegion,
    bytes: Seq<u8>,
) -> Result<Seq<u8>, GspMaterializationError> {
    let offset = region.address - base;
    if offset < 0 || offset > usize::MAX || offset + region.size > usize::MAX {
        Err(GspMaterializationError::LayoutMismatch)
    } else if offset + region.size > out.len() {
        Err(
            GspMaterializationError::BufferTooSmall {
                required: (offset + region.size) as usize,
                actual: out.len() as usize,
            },
        )
    } else if bytes.len() > region.size {
        Err(
            GspMaterializationError::SectionTooLarge {
                section: bytes.len() as usize,
                region: region.size,
            },
        )
    } else {
        Ok(splice(out, offset, bytes))
    }
}

/// The bytes of `section` in `source`, or the error where it does not lie there.
pub open spec fn section_bytes_result(section: FirmwareSection, source: Seq<u8>) -> Result<
    Seq<u8>,
    GspMaterializationError,
> {
    if section.offset + section.size > usize::MAX || section.offset + section.size > source.len() {
        Err(
            GspMaterializationError::InvalidSectionRange {
                offset: section.offset,
                size: section.size,
                available: source.len() as usize,
            },
        )
    } else {
        Ok(section.spec_bytes(source))
    }
}

/// The progress of building the image: the error that stopped it, if any, and the output.
pub type Materializing = (Option<GspMaterializationError>, Seq<u8>);

/// The next step of building the image: copy `bytes` into `region`, unless building has
/// stopped or producing the bytes failed.
pub open spec fn then_copy(
    state: Materializing,
    base: u64,
    region: GspMemoryRegion,
    bytes: Result<Seq<u8>, GspMaterializationError>,
) -> Materializing {
    if state.0 is Some {
        state
    } else {
        match bytes {
            Err(e) => (Some(e), state.1),
            Ok(b) => match copy_bytes_result(state.1, base, region, b) {
                Err(e) => (Some(e), state.1),
                Ok(out) => (None, out),
            },
        }
    }
}

/// Copies `bytes` to the start of `region` of the image based at `system_base`.
fn copy_bytes_into(
    output: &mut [u8],
    system_base: u64,
    region: GspMemoryRegion,
    bytes: &[u8],
) -> (r: Result<(), GspMaterializationError>)
    ensures
        match copy_bytes_result(old(output)@, system_base, region, bytes@) {
            Ok(out) => r is Ok && final(output)@ == out,
            Err(e) => r == Err::<(), GspMaterializationError>(e) && final(output)@ == old(output)@,
        },
{
    let offset64 = match region.address.checked_sub(system_base) {
        Some(v) => v,
        None => {
            return Err(GspMaterializationError::LayoutMismatch);
        },
    };
    if offset64 > usize::MAX as u64 {
        return Err(GspMaterializationError::LayoutMismatch);
    }
    let offset = offset64 as usize;
    let end = match offset.checked_add(region.size) {
        Some(v) => v,
        None => {
            return Err(GspMaterializationError::LayoutMismatch);
        },
    };
    let output_len = output.len();
    if end > output_len {
        return Err(GspMaterializationError::BufferTooSmall { required: end, actual: output_len });
    }
    let bytes_len = bytes.len();
    if bytes_len > region.size {
        return Err(
            GspMaterializationError::SectionTooLarge { section: bytes_len, region: region.size },
        );
    }
    copy_into(output, offset, bytes);
    Ok(())
}

/// Copies `section` of `source` to the start of `region` of the image based at `system_base`.
fn copy_section_into(
    output: &mut [u8],
    system_base: u64,
    region: GspMemoryRegion,
    section: FirmwareSection,
    source: &[u8],
) -> (r: Result<(), GspMaterializationError>)
    ensures
        then_copy((None, old(output)@), system_base, region, section_bytes_result(section, source@))
            == (outcome(r), final(output)@),
{
    let source_len = source.len();
    let end = match section.offset.checked_add(section.size) {
        Some(v) => v,
        None => {
            return Err(
                GspMaterializationError::InvalidSectionRange {
                    offset: section.offset,
                    size: section.size,
                    available: source_len,
                },
            );
        },
    };
    if end > source_len {
        return Err(
            GspMaterializationError::InvalidSectionRange {
                offset: section.offset,
                size: section.size,
                available: source_len,
            },
        );
    }
    let bytes = section.bytes(source);
    copy_bytes_into(output, system_base, region, bytes)
}

/// The error a step gave, if any.
pub open spec fn outcome(r: Result<(), GspMaterializationError>) -> Option<GspMaterializationError> {
    match r {
        Ok(()) => None,
        Err(e) => Some(e),
    }
}

/// A stop with `error` unless building has already stopped.
pub open spec fn then_fail(state: Materializing, error: GspMaterializationError) -> Materializing {
    if state.0 is Some {
        state
    } else {
        (Some(error), state.1)
    }
}

/// A memory error as a materialisation error.
pub open spec fn memory<T>(r: Result<T, GspMemoryError>) -> Result<T, GspMaterializationError> {
    match r {
        Ok(v) => Ok(v),
        Err(e) => Err(GspMaterializationError::Memory(e)),
    }
}

/// The steps that place the firmware sections: the FMC image, the GSP image, its signature and
/// the bootloader payload.
pub open spec fn place_sections(
    plan: GspBootSystemMemoryPlan,
    bundle: GspFirmwareBundle,
    gsp: Seq<u8>,
    fmc: Seq<u8>,
    bootloader: Seq<u8>,
    start: Materializing,
) -> Materializing {
    let base = plan.system_base;
    let s1 = then_copy(start, base, plan.fmc_image, section_bytes_result(bundle.fmc.image, fmc));
    let s2 = then_copy(s1, base, plan.gsp_image, section_bytes_result(bundle.gsp.image, gsp));
    let s3 = match bundle.gsp.gb20x_signature {
        None => then_fail(s2, GspMaterializationError::LayoutMismatch),
        Some(signature) => then_copy(
            s2,
            base,
            plan.signature,
            section_bytes_result(signature, gsp),
        ),
    };
    then_copy(
        s3,
        base,
        plan.bootloader,
        section_bytes_result(bundle.bootloader.payload, bootloader),
    )
}

/// The first of three tables, or the error that producing them gave.
pub open spec fn table_0(r: Result<(Seq<u8>, Seq<u8>, Seq<u8>), GspMaterializationError>) -> Result<
    Seq<u8>,
    GspMaterializationError,
> {
    match r {
        Ok(t) => Ok(t.0),
        Err(e) => Err(e),
    }
}

/// The second of three tables, or the error that producing them gave.
pub open spec fn table_1(r: Result<(Seq<u8>, Seq<u8>, Seq<u8>), GspMaterializationError>) -> Result<
    Seq<u8>,
    GspMaterializationError,
> {
    match r {
        Ok(t) => Ok(t.1),
        Err(e) => Err(e),
    }
}

/// The third of three tables, or the error that producing them gave.
pub open spec fn table_2(r: Result<(Seq<u8>, Seq<u8>, Seq<u8>), GspMaterializationError>) -> Result<
    Seq<u8>,
    GspMaterializationError,
> {
    match r {
        Ok(t) => Ok(t.2),
        Err(e) => Err(e),
    }
}

/// The cached arguments on the wire, or the error that producing them gave.
pub open spec fn cached_wire(r: Result<GspCachedArguments, GspMemoryError>) -> Result<
    Seq<u8>,
    GspMaterializationError,
> {
    match r {
        Ok(a) => Ok(a.wire()),
        Err(e) => Err(GspMaterializationError::Memory(e)),
    }
}

/// The steps that place the generated tables: the radix-3 levels, the shared memory's page
/// table and queues, the cached arguments, the WPR metadata and the FMC boot parameters.
pub open spec fn place_tables(
    plan: GspBootSystemMemoryPlan,
    framebuffer: GspFramebufferLayout,
    start: Materializing,
) -> Materializing {
    let base = plan.system_base;
    let radix3 = memory(radix3_result(plan));
    let s5 = then_copy(start, base, plan.radix3_level0, table_0(radix3));
    let s6 = then_copy(s5, base, plan.radix3_level1, table_1(radix3));
    let s7 = then_copy(s6, base, plan.radix3_level2, table_2(radix3));
    let shared = memory(shared_result(plan));
    let s8 = then_copy(s7, base, plan.shared_memory, table_0(shared));
    let command_address = plan.shared_memory.address + plan.layout.shared_memory.command_queue_offset;
    let s9 = if command_address > u64::MAX {
        then_fail(s8, GspMaterializationError::LayoutMismatch)
    } else {
        then_copy(
            s8,
            base,
            GspMemoryRegion { address: command_address as u64, size: 0x40000 },
            table_1(shared),
        )
    };
    let status_address = plan.shared_memory.address + plan.layout.shared_memory.status_queue_offset;
    let s10 = if status_address > u64::MAX {
        then_fail(s9, GspMaterializationError::LayoutMismatch)
    } else {
        then_copy(
            s9,
            base,
            GspMemoryRegion { address: status_address as u64, size: 0x40000 },
            table_2(shared),
        )
    };
    let cached = cached_wire(
        GspCachedArguments::spec_r570_result(plan.shared_memory.address, plan.layout.shared_memory),
    );
    let s11 = then_copy(s10, base, plan.rm_args, cached);
    let meta = if framebuffer.pmu_reserved_size > u32::MAX {
        Err(GspMaterializationError::SystemPlan(GspSystemMemoryPlanError::SizeOverflow))
    } else {
        Ok(plan_wpr_meta(plan, framebuffer).wire())
    };
    let s12 = then_copy(s11, base, plan.wpr_meta, meta);
    then_copy(
        s12,
        base,
        plan.fmc_args,
        Ok(GspFmcBootParams::spec_r570(plan.wpr_meta.address, 256, plan.libos_args.address).wire()),
    )
}

/// Building the linked system image of a bundle into `out`: the error that stops it, if any,
/// and the output as it is left.
pub open spec fn materialize_result(
    plan: GspBootSystemMemoryPlan,
    bundle: GspFirmwareBundle,
    gsp: Seq<u8>,
    fmc: Seq<u8>,
    bootloader: Seq<u8>,
    framebuffer: GspFramebufferLayout,
    out: Seq<u8>,
) -> Materializing {
    if out.len() < plan.total_bytes {
        (
            Some(
                GspMaterializationError::BufferTooSmall {
                    required: plan.total_bytes,
                    actual: out.len() as usize,
                },
            ),
            out,
        )
    } else {
        match boot_layout_result(bundle.gsp) {
            Err(e) => (Some(GspMaterializationError::BootLayout(e)), out),
            Ok(layout) => if layout != plan.layout || bundle.fmc.image.size != plan.fmc_image_bytes
                || bundle.bootloader.payload.size != plan.bootloader_bytes {
                (Some(GspMaterializationError::LayoutMismatch), out)
            } else {
                let zeroed = (None, splice(out, 0, zeros(plan.total_bytes as nat)));
                place_tables(
                    plan,
                    framebuffer,
                    place_sections(plan, bundle, gsp, fmc, bootloader, zeroed),
                )
            },
        }
    }
}

impl GspBootSystemMemoryPlan {
    /// The fifteen regions in the order they are placed.
    pub open spec fn regions(self) -> Seq<GspMemoryRegion> {
        seq![
            self.fmc_image,
            self.gsp_image,
            self.radix3_level0,
            self.radix3_level1,
            self.radix3_level2,
            self.signature,
            self.bootloader,
            self.wpr_meta,
            self.fmc_args,
            self.libos_args,
            self.loginit,
            self.logintr,
            self.logrm,
            self.shared_memory,
            self.rm_args,
        ]
    }

    /// Every region starts a page, each lies before the next without overlap, they start at
    /// the base, and the plan spans them exactly.
    pub open spec fn well_placed(self) -> bool {
        &&& self.regions()[0].address == self.system_base
        &&& forall|i: int| 0 <= i < 15 ==> #[trigger] self.regions()[i].address % 4096 == 0
        &&& forall|i: int|
            0 <= i < 14 ==> #[trigger] self.regions()[i].address + self.regions()[i].size
                <= self.regions()[i + 1].address
        &&& self.end_address == self.regions()[14].address + self.regions()[14].size
        &&& self.total_bytes == self.end_address - self.system_base
    }

    /// Plans system memory from `system_base` (page-aligned) for the firmware layout and the FMC
    /// and bootloader image sizes.
    #[verifier::rlimit(60)]
    pub fn r570_from_layout(
        layout: GspFirmwareLayout,
        fmc_image_bytes: usize,
        bootloader_bytes: usize,
        system_base: u64,
    ) -> (r: Result<Self, GspSystemMemoryPlanError>)
        ensures
            r == system_plan_result(layout, fmc_image_bytes, bootloader_bytes, system_base),
            r matches Ok(plan) ==> plan.well_placed(),
    {
        assert(system_base & 4095u64 == system_base % 4096) by (bit_vector);
        if system_base & (NVIDIA_GSP_PAGE_SIZE as u64 - 1) != 0 {
            return Err(GspSystemMemoryPlanError::BaseUnaligned { address: system_base });
        }
        if layout.image.size == 0 || fmc_image_bytes == 0 || bootloader_bytes == 0
            || layout.signature_allocation_bytes == 0 {
            return Err(GspSystemMemoryPlanError::EmptyRegion);
        }
        let gsp_image_bytes = layout.image.size;
        let gsp_image_allocation = match align_page(gsp_image_bytes) {
            Some(v) => v,
            None => {
                return Err(GspSystemMemoryPlanError::SizeOverflow);
            },
        };
        let fmc_allocation = match align_page(fmc_image_bytes) {
            Some(v) => v,
            None => {
                return Err(GspSystemMemoryPlanError::SizeOverflow);
            },
        };
        let ghost sizes = plan_sizes(layout, fmc_image_bytes, bootloader_bytes);
        let sized: [usize; 15] = [
            fmc_allocation,
            gsp_image_allocation,
            layout.radix3.level0_bytes,
            layout.radix3.level1_bytes,
            layout.radix3.level2_bytes,
            layout.signature_allocation_bytes,
            bootloader_bytes,
            NVIDIA_GSP_WPR_META_SIZE,
            NVIDIA_GSP_FMC_BOOT_PARAMS_SIZE,
            NVIDIA_GSP_LIBOS_ARGUMENTS_SIZE,
            NVIDIA_GSP_LOG_BUFFER_SIZE,
            NVIDIA_GSP_LOG_BUFFER_SIZE,
            NVIDIA_GSP_LOG_BUFFER_SIZE,
            layout.shared_memory.total_bytes,
            NVIDIA_GSP_RM_ARGUMENTS_SIZE,
        ];
        assert forall|j: int| 0 <= j < 15 implies #[trigger] sized@[j] == sizes[j] by {}
        let (regions, next) = match stage_all(system_base, &sized, Ghost(sizes)) {
            Ok(v) => v,
            Err(e) => {
                return Err(e);
            },
        };
        let total = match next.checked_sub(system_base) {
            Some(v) => v,
            None => {
                return Err(GspSystemMemoryPlanError::AddressOverflow);
            },
        };
        if total > usize::MAX as u64 {
            return Err(GspSystemMemoryPlanError::SizeOverflow);
        }
        let total_bytes = total as usize;
        let plan = Self {
            layout,
            system_base,
            gsp_image_bytes,
            fmc_image_bytes,
            bootloader_bytes,
            bootloader_code_offset: 0,
            bootloader_data_offset: 0,
            bootloader_manifest_offset: 0,
            fmc_image: regions[0],
            gsp_image: regions[1],
            radix3_level0: regions[2],
            radix3_level1: regions[3],
            radix3_level2: regions[4],
            signature: regions[5],
            bootloader: regions[6],
            wpr_meta: regions[7],
            fmc_args: regions[8],
            libos_args: regions[9],
            loginit: regions[10],
            logintr: regions[11],
            logrm: regions[12],
            shared_memory: regions[13],
            rm_args: regions[14],
            end_address: next,
            total_bytes,
        };
        proof {
            assert forall|j: int| 0 <= j < 15 implies 0 <= #[trigger] sizes[j] <= usize::MAX by {
                assert(sized@[j] == sizes[j]);
            }
            lemma_staged_plan_well_placed(plan, sizes);
        }
        Ok(plan)
    }

    /// The radix-3 tables over the planned level-2 and image pages.
    pub fn radix3_tables(self) -> (r: Result<GspRadix3Tables, GspMemoryError>)
        ensures
            match radix3_result(self) {
                Ok((level0, level1, level2)) => r matches Ok(t) && t.level0@ == level0
                    && t.level1@ == level1 && t.level2@ == level2,
                Err(e) => r == Err::<GspRadix3Tables, GspMemoryError>(e),
            },
    {
        let level2_addresses = match contiguous_page_addresses(
            self.radix3_level2,
            self.layout.radix3.level2_pages,
        ) {
            Ok(v) => v,
            Err(e) => {
                return Err(e);
            },
        };
        let image_page_addresses = match contiguous_page_addresses(
            self.gsp_image,
            self.layout.radix3.image_pages,
        ) {
            Ok(v) => v,
            Err(e) => {
                return Err(e);
            },
        };
        let tables = self.layout.radix3.materialize(
            self.radix3_level0.address,
            self.radix3_level1.address,
            level2_addresses.as_slice(),
            image_page_addresses.as_slice(),
        );
        proof {
            if let Ok(t) = &tables {
                crate::gpu::layout::lemma_pointer_table_bytes(
                    t.level0@,
                    seq![self.radix3_level1.address],
                    self.layout.radix3.level0_bytes as int,
                );
                crate::gpu::layout::lemma_pointer_table_bytes(
                    t.level1@,
                    level2_addresses@,
                    self.layout.radix3.level1_bytes as int,
                );
                crate::gpu::layout::lemma_pointer_table_bytes(
                    t.level2@,
                    image_page_addresses@,
                    self.layout.radix3.level2_bytes as int,
                );
            }
        }
        tables
    }

    /// The shared memory over the planned shared-memory pages.
    pub fn shared_memory_image(self) -> (r: Result<GspSharedMemoryImage, GspMemoryError>)
        ensures
            match shared_result(self) {
                Ok((page_table, command_queue, status_queue)) => r matches Ok(image)
                    && image.page_table_address == self.shared_memory.address
                    && image.page_table@ == page_table && image.command_queue@ == command_queue
                    && image.status_queue@ == status_queue,
                Err(e) => r == Err::<GspSharedMemoryImage, GspMemoryError>(e),
            },
    {
        let page_addresses = match contiguous_page_addresses(
            self.shared_memory,
            self.layout.shared_memory.page_table_entry_count,
        ) {
            Ok(v) => v,
            Err(e) => {
                return Err(e);
            },
        };
        let image = self.layout.shared_memory.materialize(page_addresses.as_slice());
        proof {
            if let Ok(i) = &image {
                crate::gpu::layout::lemma_pointer_table_bytes(
                    i.page_table@,
                    page_addresses@,
                    self.layout.shared_memory.page_table_bytes as int,
                );
            }
        }
        image
    }

    /// The cached arguments that point the GSP at the planned shared memory.
    pub fn cached_arguments(self) -> (r: Result<[u8; 72], GspMemoryError>)
        ensures
            match GspCachedArguments::spec_r570_result(
                self.shared_memory.address,
                self.layout.shared_memory,
            ) {
                Ok(arguments) => r matches Ok(bytes) && bytes@ == arguments.wire(),
                Err(e) => r == Err::<[u8; 72], GspMemoryError>(e),
            },
    {
        match GspCachedArguments::r570(self.shared_memory.address, self.layout.shared_memory) {
            Ok(arguments) => Ok(arguments.encode()),
            Err(e) => Err(e),
        }
    }

    /// The FMC boot parameters that point at the planned WPR metadata and boot arguments.
    pub fn fmc_boot_params(self) -> (r: [u8; 80])
        ensures
            r@ == GspFmcBootParams::spec_r570(
                self.wpr_meta.address,
                256,
                self.libos_args.address,
            ).wire(),
    {
        GspFmcBootParams::r570(
            self.wpr_meta.address,
            NVIDIA_GSP_WPR_META_SIZE as u32,
            self.libos_args.address,
        ).encode()
    }

    /// The WPR metadata for this plan over a framebuffer layout.
    pub fn wpr_meta(self, framebuffer: GspFramebufferLayout) -> (r: Result<
        GspWprMeta,
        GspSystemMemoryPlanError,
    >)
        ensures
            r == (if framebuffer.pmu_reserved_size > u32::MAX {
                Err(GspSystemMemoryPlanError::SizeOverflow)
            } else {
                Ok::<GspWprMeta, GspSystemMemoryPlanError>(plan_wpr_meta(self, framebuffer))
            }),
    {
        if framebuffer.pmu_reserved_size > u32::MAX as u64 {
            return Err(GspSystemMemoryPlanError::SizeOverflow);
        }
        Ok(
            GspWprMeta {
                sysmem_addr_of_radix3_elf: self.radix3_level0.address,
                size_of_radix3_elf: self.gsp_image_bytes as u64,
                sysmem_addr_of_bootloader: self.bootloader.address,
                size_of_bootloader: self.bootloader_bytes as u64,
                bootloader_code_offset: self.bootloader_code_offset,
                bootloader_data_offset: self.bootloader_data_offset,
                bootloader_manifest_offset: self.bootloader_manifest_offset,
                sysmem_addr_of_signature: self.signature.address,
                size_of_signature: self.signature.size as u64,
                gsp_fw_rsvd_start: framebuffer.non_wpr_heap_address,
                non_wpr_heap_offset: framebuffer.non_wpr_heap_address,
                non_wpr_heap_size: framebuffer.non_wpr_heap_size,
                gsp_fw_wpr_start: framebuffer.wpr_start,
                gsp_fw_heap_offset: framebuffer.wpr_heap_address,
                gsp_fw_heap_size: framebuffer.wpr_heap_size,
                gsp_fw_offset: framebuffer.gsp_image_address,
                boot_bin_offset: framebuffer.bootloader_address,
                frts_offset: framebuffer.frts_address,
                frts_size: framebuffer.frts_size,
                gsp_fw_wpr_end: framebuffer.wpr_end,
                fb_size: framebuffer.framebuffer_size,
                vga_workspace_offset: framebuffer.vga_workspace_address,
                vga_workspace_size: framebuffer.vga_workspace_size,
                boot_count: 0,
                partition_rpc_addr: 0,
                partition_rpc_request_offset: 0,
                partition_rpc_reply_offset: 0,
                elf_code_offset: 0,
                elf_data_offset: 0,
                elf_code_size: 0,
                elf_data_size: 0,
                ls_ucode_version: 0,
                gsp_fw_heap_vf_partition_count: 0,
                flags: 0,
                pmu_reserved_size: framebuffer.pmu_reserved_size as u32,
                verified: 0,
            },
        )
    }

    /// Copies the FMC image, the GSP image, its signature and the bootloader payload into
    /// their regions.
    fn place_sections_into(
        self,
        bundle: GspFirmwareBundle,
        gsp_bytes: &[u8],
        fmc_bytes: &[u8],
        bootloader_bytes: &[u8],
        output: &mut [u8],
    ) -> (r: Result<(), GspMaterializationError>)
        ensures
            place_sections(self, bundle, gsp_bytes@, fmc_bytes@, bootloader_bytes@, (None, old(output)@))
                == (outcome(r), final(output)@),
    {
        let base = self.system_base;
        if let Err(e) = copy_section_into(output, base, self.fmc_image, bundle.fmc.image, fmc_bytes) {
            return Err(e);
        }
        if let Err(e) = copy_section_into(output, base, self.gsp_image, bundle.gsp.image, gsp_bytes) {
            return Err(e);
        }
        let signature = match bundle.gsp.gb20x_signature {
            Some(s) => s,
            None => {
                return Err(GspMaterializationError::LayoutMismatch);
            },
        };
        if let Err(e) = copy_section_into(output, base, self.signature, signature, gsp_bytes) {
            return Err(e);
        }
        copy_section_into(
            output,
            base,
            self.bootloader,
            bundle.bootloader.payload,
            bootloader_bytes,
        )
    }

    /// Copies the radix-3 tables, the shared memory, the cached arguments, the WPR metadata and
    /// the FMC boot parameters into their regions.
    #[verifier::rlimit(60)]
    fn place_tables_into(self, framebuffer: GspFramebufferLayout, output: &mut [u8]) -> (r: Result<
        (),
        GspMaterializationError,
    >)
        ensures
            place_tables(self, framebuffer, (None, old(output)@)) == (outcome(r), final(output)@),
    {
        let base = self.system_base;
        let radix3 = match self.radix3_tables() {
            Ok(t) => t,
            Err(e) => {
                return Err(GspMaterializationError::Memory(e));
            },
        };
        if let Err(e) = copy_bytes_into(output, base, self.radix3_level0, radix3.level0.as_slice()) {
            return Err(e);
        }
        if let Err(e) = copy_bytes_into(output, base, self.radix3_level1, radix3.level1.as_slice()) {
            return Err(e);
        }
        if let Err(e) = copy_bytes_into(output, base, self.radix3_level2, radix3.level2.as_slice()) {
            return Err(e);
        }
        let shared = match self.shared_memory_image() {
            Ok(s) => s,
            Err(e) => {
                return Err(GspMaterializationError::Memory(e));
            },
        };
        if let Err(e) = copy_bytes_into(output, base, self.shared_memory, shared.page_table.as_slice()) {
            return Err(e);
        }
        proof {
            crate::gpu::layout::lemma_fresh_command_queue_len(self.layout.shared_memory);
        }
        let command_offset = self.layout.shared_memory.command_queue_offset as u64;
        let command_address = match self.shared_memory.address.checked_add(command_offset) {
            Some(v) => v,
            None => {
                return Err(GspMaterializationError::LayoutMismatch);
            },
        };
        let command_region = GspMemoryRegion {
            address: command_address,
            size: shared.command_queue.len(),
        };
        if let Err(e) = copy_bytes_into(output, base, command_region, shared.command_queue.as_slice()) {
            return Err(e);
        }
        let status_offset = self.layout.shared_memory.status_queue_offset as u64;
        let status_address = match self.shared_memory.address.checked_add(status_offset) {
            Some(v) => v,
            None => {
                return Err(GspMaterializationError::LayoutMismatch);
            },
        };
        let status_region = GspMemoryRegion {
            address: status_address,
            size: shared.status_queue.len(),
        };
        if let Err(e) = copy_bytes_into(output, base, status_region, shared.status_queue.as_slice()) {
            return Err(e);
        }
        let cached_arguments = match self.cached_arguments() {
            Ok(a) => a,
            Err(e) => {
                return Err(GspMaterializationError::Memory(e));
            },
        };
        if let Err(e) = copy_bytes_into(output, base, self.rm_args, &cached_arguments) {
            return Err(e);
        }
        let metadata = match self.wpr_meta(framebuffer) {
            Ok(m) => m.encode(),
            Err(e) => {
                return Err(GspMaterializationError::SystemPlan(e));
            },
        };
        if let Err(e) = copy_bytes_into(output, base, self.wpr_meta, &metadata) {
            return Err(e);
        }
        let fmc_args = self.fmc_boot_params();
        copy_bytes_into(output, base, self.fmc_args, &fmc_args)
    }

    /// Builds the linked system image of a bundle into `output`: everything zeroed, the firmware
    /// sections and the generated tables each in its planned region.
    pub fn materialize_bundle_into(
        self,
        bundle: GspFirmwareBundle,
        gsp_bytes: &[u8],
        fmc_bytes: &[u8],
        bootloader_bytes: &[u8],
        framebuffer: GspFramebufferLayout,
        output: &mut [u8],
    ) -> (r: Result<(), GspMaterializationError>)
        ensures
            materialize_result(
                self,
                bundle,
                gsp_bytes@,
                fmc_bytes@,
                bootloader_bytes@,
                framebuffer,
                old(output)@,
            ) == (outcome(r), final(output)@),
    {
        let output_len = output.len();
        if output_len < self.total_bytes {
            return Err(
                GspMaterializationError::BufferTooSmall {
                    required: self.total_bytes,
                    actual: output_len,
                },
            );
        }
        let bundle_layout = match bundle.gsp.boot_layout() {
            Ok(l) => l,
            Err(e) => {
                return Err(GspMaterializationError::BootLayout(e));
            },
        };
        if bundle_layout != self.layout || bundle.fmc.image.size != self.fmc_image_bytes
            || bundle.bootloader.payload.size != self.bootloader_bytes {
            return Err(GspMaterializationError::LayoutMismatch);
        }
        fill_zero(output, 0, self.total_bytes);
        assert(zeros((self.total_bytes - 0) as nat) == zeros(self.total_bytes as nat));
        let placed = self.place_sections_into(bundle, gsp_bytes, fmc_bytes, bootloader_bytes, output);
        if let Err(e) = placed {
            return Err(e);
        }
        self.place_tables_into(framebuffer, output)
    }

    /// Plans system memory for a parsed bundle, recording the bootloader's monitor offsets.
    pub fn r570_gb20x(bundle: GspFirmwareBundle, system_base: u64) -> (r: Result<
        Self,
        GspSystemMemoryPlanError,
    >)
        ensures
            r == match boot_layout_result(bundle.gsp) {
                Err(e) => Err(GspSystemMemoryPlanError::BootLayout(e)),
                Ok(layout) => match system_plan_result(
                    layout,
                    bundle.fmc.image.size,
                    bundle.bootloader.payload.size,
                    system_base,
                ) {
                    Err(e) => Err(e),
                    Ok(plan) => Ok(
                        GspBootSystemMemoryPlan {
                            bootloader_code_offset: bundle.bootloader.descriptor.monitor_code_offset
                                as u64,
                            bootloader_data_offset: bundle.bootloader.descriptor.monitor_data_offset
                                as u64,
                            bootloader_manifest_offset: bundle.bootloader.descriptor.manifest_offset
                                as u64,
                            ..plan
                        },
                    ),
                },
            },
            r matches Ok(plan) ==> plan.well_placed(),
    {
        let layout = match bundle.gsp.boot_layout() {
            Ok(l) => l,
            Err(e) => {
                return Err(GspSystemMemoryPlanError::BootLayout(e));
            },
        };
        let mut plan = match Self::r570_from_layout(
            layout,
            bundle.fmc.image.size,
            bundle.bootloader.payload.size,
            system_base,
        ) {
            Ok(p) => p,
            Err(e) => {
                return Err(e);
            },
        };
        plan.bootloader_code_offset = bundle.bootloader.descriptor.monitor_code_offset as u64;
        plan.bootloader_data_offset = bundle.bootloader.descriptor.monitor_data_offset as u64;
        plan.bootloader_manifest_offset = bundle.bootloader.descriptor.manifest_offset as u64;
        Ok(plan)
    }
}

} // verus!
