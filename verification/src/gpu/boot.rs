//! The RISC-V bootloader envelope, the WPR metadata and FMC boot parameters handed to the
//! booter, and the bundle of the three firmware files.
use vstd::prelude::*;
use crate::bytes::{le_at, read_le, write_le, zeros};
use crate::gpu::firmware::{firmware_parse, GspFirmware, GspFirmwareError};
use crate::gpu::fmc::{fmc_parse, GspFmc, GspFmcError};
use crate::gpu::layout::{flag, put, FirmwareSection};

verus! {

pub const NVIDIA_GSP_BOOTLOADER_MAX_SIZE: usize = 4194304;
pub const NVIDIA_GSP_BIN_HEADER_SIZE: usize = 24;
pub const NVIDIA_GSP_RM_UCODE_DESCRIPTOR_SIZE: usize = 84;
pub const NVIDIA_GSP_FMC_BOOT_PARAMS_SIZE: usize = 80;
pub const NVIDIA_GSP_WPR_META_SIZE: usize = 256;
pub const NVIDIA_GSP_BIN_MAGIC: u32 = 0x0000_10de;
pub const NVIDIA_GSP_BIN_VERSION: u32 = 1;
pub const NVIDIA_GSP_WPR_META_MAGIC: u64 = 0xdc3a_ae21_371a_60b3;
pub const NVIDIA_GSP_WPR_META_REVISION: u64 = 1;
pub const NVIDIA_GSP_DMA_TARGET_COHERENT_SYSTEM: u32 = 1;
pub const NVIDIA_GSP_DMA_TARGET_NONCOHERENT_SYSTEM: u32 = 2;

#[derive(Debug, Clone, Copy, PartialEq, Eq, Structural)]
pub enum GspBootloaderError {
    TooLarge { size: usize, limit: usize },
    Truncated { offset: usize, size: usize },
    InvalidMagic { value: u32 },
    UnsupportedVersion { value: u32 },
    InvalidHeader,
    InvalidPayload,
    InvalidDescriptor,
    InvalidDescriptorRange { field: GspRmDescriptorField },
}

#[derive(Debug, Clone, Copy, PartialEq, Eq, Structural)]
pub enum GspRmDescriptorField {
    Bootloader,
    BootloaderParameters,
    RiscvElf,
    Manifest,
    MonitorData,
    MonitorCode,
    SwbromCode,
    SwbromData,
}

#[derive(Debug, Clone, Copy, PartialEq, Eq, Structural)]
pub struct GspRmUcodeDescriptor {
    pub version: u32,
    pub bootloader_offset: u32,
    pub bootloader_size: u32,
    pub bootloader_param_offset: u32,
    pub bootloader_param_size: u32,
    pub riscv_elf_offset: u32,
    pub riscv_elf_size: u32,
    pub app_version: u32,
    pub manifest_offset: u32,
    pub manifest_size: u32,
    pub monitor_data_offset: u32,
    pub monitor_data_size: u32,
    pub monitor_code_offset: u32,
    pub monitor_code_size: u32,
    pub monitor_enabled: u32,
    pub swbrom_code_offset: u32,
    pub swbrom_code_size: u32,
    pub swbrom_data_offset: u32,
    pub swbrom_data_size: u32,
    pub framebuffer_reserved_size: u32,
    pub signed_as_code: u32,
}

/// The little-endian `u32` at `offset` of `s`.
pub open spec fn word(s: Seq<u8>, offset: int) -> u32 {
    le_at(s, offset, 4) as u32
}

/// The descriptor whose 21 words start at `offset` of `s`.
pub open spec fn descriptor_at(s: Seq<u8>, offset: int) -> GspRmUcodeDescriptor {
    GspRmUcodeDescriptor {
        version: word(s, offset),
        bootloader_offset: word(s, offset + 4),
        bootloader_size: word(s, offset + 8),
        bootloader_param_offset: word(s, offset + 12),
        bootloader_param_size: word(s, offset + 16),
        riscv_elf_offset: word(s, offset + 20),
        riscv_elf_size: word(s, offset + 24),
        app_version: word(s, offset + 28),
        manifest_offset: word(s, offset + 32),
        manifest_size: word(s, offset + 36),
        monitor_data_offset: word(s, offset + 40),
        monitor_data_size: word(s, offset + 44),
        monitor_code_offset: word(s, offset + 48),
        monitor_code_size: word(s, offset + 52),
        monitor_enabled: word(s, offset + 56),
        swbrom_code_offset: word(s, offset + 60),
        swbrom_code_size: word(s, offset + 64),
        swbrom_data_offset: word(s, offset + 68),
        swbrom_data_size: word(s, offset + 72),
        framebuffer_reserved_size: word(s, offset + 76),
        signed_as_code: word(s, offset + 80),
    }
}

/// The first descriptor range that does not fit in a payload of `size` bytes, in the order the
/// descriptor lists them.
pub open spec fn first_bad_range(d: GspRmUcodeDescriptor, size: int) -> Option<GspRmDescriptorField> {
    if d.bootloader_offset + d.bootloader_size > size {
        Some(GspRmDescriptorField::Bootloader)
    } else if d.bootloader_param_offset + d.bootloader_param_size > size {
        Some(GspRmDescriptorField::BootloaderParameters)
    } else if d.riscv_elf_offset + d.riscv_elf_size > size {
        Some(GspRmDescriptorField::RiscvElf)
    } else if d.manifest_offset + d.manifest_size > size {
        Some(GspRmDescriptorField::Manifest)
    } else if d.monitor_data_offset + d.monitor_data_size > size {
        Some(GspRmDescriptorField::MonitorData)
    } else if d.monitor_code_offset + d.monitor_code_size > size {
        Some(GspRmDescriptorField::MonitorCode)
    } else if d.swbrom_code_offset + d.swbrom_code_size > size {
        Some(GspRmDescriptorField::SwbromCode)
    } else if d.swbrom_data_offset + d.swbrom_data_size > size {
        Some(GspRmDescriptorField::SwbromData)
    } else {
        None
    }
}

/// Whether the range `offset..offset + size` fits in `payload_size` bytes.
fn range_fits(offset: u32, size: u32, payload_size: usize) -> (r: bool)
    ensures
        r == (offset + size <= payload_size),
{
    let offset = offset as usize;
    let size = size as usize;
    match offset.checked_add(size) {
        Some(end) => end <= payload_size,
        None => false,
    }
}

impl GspRmUcodeDescriptor {
    /// Reads the descriptor at `offset`; its version must be between 1 and 5.
    fn parse(bytes: &[u8], offset: usize) -> (r: Result<Self, GspBootloaderError>)
        requires
            offset + 84 <= bytes@.len(),
        ensures
            r == (if 1 <= word(bytes@, offset as int) <= 5 {
                Ok::<Self, GspBootloaderError>(descriptor_at(bytes@, offset as int))
            } else {
                Err(GspBootloaderError::InvalidDescriptor)
            }),
    {
        let _len = bytes.len();
        let descriptor = Self {
            version: read_le(bytes, offset, 4) as u32,
            bootloader_offset: read_le(bytes, offset + 4, 4) as u32,
            bootloader_size: read_le(bytes, offset + 8, 4) as u32,
            bootloader_param_offset: read_le(bytes, offset + 12, 4) as u32,
            bootloader_param_size: read_le(bytes, offset + 16, 4) as u32,
            riscv_elf_offset: read_le(bytes, offset + 20, 4) as u32,
            riscv_elf_size: read_le(bytes, offset + 24, 4) as u32,
            app_version: read_le(bytes, offset + 28, 4) as u32,
            manifest_offset: read_le(bytes, offset + 32, 4) as u32,
            manifest_size: read_le(bytes, offset + 36, 4) as u32,
            monitor_data_offset: read_le(bytes, offset + 40, 4) as u32,
            monitor_data_size: read_le(bytes, offset + 44, 4) as u32,
            monitor_code_offset: read_le(bytes, offset + 48, 4) as u32,
            monitor_code_size: read_le(bytes, offset + 52, 4) as u32,
            monitor_enabled: read_le(bytes, offset + 56, 4) as u32,
            swbrom_code_offset: read_le(bytes, offset + 60, 4) as u32,
            swbrom_code_size: read_le(bytes, offset + 64, 4) as u32,
            swbrom_data_offset: read_le(bytes, offset + 68, 4) as u32,
            swbrom_data_size: read_le(bytes, offset + 72, 4) as u32,
            framebuffer_reserved_size: read_le(bytes, offset + 76, 4) as u32,
            signed_as_code: read_le(bytes, offset + 80, 4) as u32,
        };
        if descriptor.version < 1 || descriptor.version > 5 {
            return Err(GspBootloaderError::InvalidDescriptor);
        }
        Ok(descriptor)
    }

    /// Accepts the descriptor when every range it names fits in a payload of `payload_size`
    /// bytes; otherwise names the first that does not.
    fn validate_ranges(self, payload_size: usize) -> (r: Result<(), GspBootloaderError>)
        ensures
            r == (match first_bad_range(self, payload_size as int) {
                Some(field) => Err(GspBootloaderError::InvalidDescriptorRange { field }),
                None => Ok::<(), GspBootloaderError>(()),
            }),
    {
        if !range_fits(self.bootloader_offset, self.bootloader_size, payload_size) {
            return Err(
                GspBootloaderError::InvalidDescriptorRange {
                    field: GspRmDescriptorField::Bootloader,
                },
            );
        }
        if !range_fits(self.bootloader_param_offset, self.bootloader_param_size, payload_size) {
            return Err(
                GspBootloaderError::InvalidDescriptorRange {
                    field: GspRmDescriptorField::BootloaderParameters,
                },
            );
        }
        if !range_fits(self.riscv_elf_offset, self.riscv_elf_size, payload_size) {
            return Err(
                GspBootloaderError::InvalidDescriptorRange {
                    field: GspRmDescriptorField::RiscvElf,
                },
            );
        }
        if !range_fits(self.manifest_offset, self.manifest_size, payload_size) {
            return Err(
                GspBootloaderError::InvalidDescriptorRange {
                    field: GspRmDescriptorField::Manifest,
                },
            );
        }
        if !range_fits(self.monitor_data_offset, self.monitor_data_size, payload_size) {
            return Err(
                GspBootloaderError::InvalidDescriptorRange {
                    field: GspRmDescriptorField::MonitorData,
                },
            );
        }
        if !range_fits(self.monitor_code_offset, self.monitor_code_size, payload_size) {
            return Err(
                GspBootloaderError::InvalidDescriptorRange {
                    field: GspRmDescriptorField::MonitorCode,
                },
            );
        }
        if !range_fits(self.swbrom_code_offset, self.swbrom_code_size, payload_size) {
            return Err(
                GspBootloaderError::InvalidDescriptorRange {
                    field: GspRmDescriptorField::SwbromCode,
                },
            );
        }
        if !range_fits(self.swbrom_data_offset, self.swbrom_data_size, payload_size) {
            return Err(
                GspBootloaderError::InvalidDescriptorRange {
                    field: GspRmDescriptorField::SwbromData,
                },
            );
        }
        Ok(())
    }
}

#[derive(Debug, Clone, Copy, PartialEq, Eq, Structural)]
pub struct GspBootloader {
    pub bin_size: usize,
    pub header_offset: usize,
    pub data_offset: usize,
    pub data_size: usize,
    pub payload: FirmwareSection,
    pub descriptor: GspRmUcodeDescriptor,
}

/// The result of parsing `s` as a bootloader envelope.
pub open spec fn bootloader_parse(s: Seq<u8>) -> Result<GspBootloader, GspBootloaderError> {
    let bin_size = word(s, 8) as int;
    let header_offset = word(s, 12) as int;
    let data_offset = word(s, 16) as int;
    let data_size = word(s, 20) as int;
    if s.len() > 4194304 {
        Err(GspBootloaderError::TooLarge { size: s.len() as usize, limit: 4194304 })
    } else if s.len() < 24 {
        Err(GspBootloaderError::Truncated { offset: 0, size: 24 })
    } else if word(s, 0) != 0x10de {
        Err(GspBootloaderError::InvalidMagic { value: word(s, 0) })
    } else if word(s, 4) != 1 {
        Err(GspBootloaderError::UnsupportedVersion { value: word(s, 4) })
    } else if header_offset + 84 > usize::MAX || header_offset < 24 || header_offset + 84
        > data_offset {
        Err(GspBootloaderError::InvalidHeader)
    } else if data_offset + data_size > s.len() || bin_size < data_offset + data_size {
        Err(GspBootloaderError::InvalidPayload)
    } else if !(1 <= word(s, header_offset) <= 5) {
        Err(GspBootloaderError::InvalidDescriptor)
    } else if first_bad_range(descriptor_at(s, header_offset), data_size) is Some {
        Err(
            GspBootloaderError::InvalidDescriptorRange {
                field: first_bad_range(descriptor_at(s, header_offset), data_size)->Some_0,
            },
        )
    } else {
        Ok(
            GspBootloader {
                bin_size: bin_size as usize,
                header_offset: header_offset as usize,
                data_offset: data_offset as usize,
                data_size: data_size as usize,
                payload: FirmwareSection {
                    offset: data_offset as usize,
                    size: data_size as usize,
                },
                descriptor: descriptor_at(s, header_offset),
            },
        )
    }
}

impl GspBootloader {
    pub fn parse(bytes: &[u8]) -> (r: Result<Self, GspBootloaderError>)
        ensures
            r == bootloader_parse(bytes@),
    {
        let len = bytes.len();
        if len > NVIDIA_GSP_BOOTLOADER_MAX_SIZE {
            return Err(
                GspBootloaderError::TooLarge { size: len, limit: NVIDIA_GSP_BOOTLOADER_MAX_SIZE },
            );
        }
        if len < NVIDIA_GSP_BIN_HEADER_SIZE {
            return Err(
                GspBootloaderError::Truncated { offset: 0, size: NVIDIA_GSP_BIN_HEADER_SIZE },
            );
        }
        let magic = read_le(bytes, 0, 4) as u32;
        if magic != NVIDIA_GSP_BIN_MAGIC {
            return Err(GspBootloaderError::InvalidMagic { value: magic });
        }
        let version = read_le(bytes, 4, 4) as u32;
        if version != NVIDIA_GSP_BIN_VERSION {
            return Err(GspBootloaderError::UnsupportedVersion { value: version });
        }
        let bin_size = read_le(bytes, 8, 4) as usize;
        let header_offset = read_le(bytes, 12, 4) as usize;
        let data_offset = read_le(bytes, 16, 4) as usize;
        let data_size = read_le(bytes, 20, 4) as usize;
        let descriptor_end = match header_offset.checked_add(NVIDIA_GSP_RM_UCODE_DESCRIPTOR_SIZE) {
            Some(v) => v,
            None => {
                return Err(GspBootloaderError::InvalidHeader);
            },
        };
        if header_offset < NVIDIA_GSP_BIN_HEADER_SIZE || descriptor_end > data_offset {
            return Err(GspBootloaderError::InvalidHeader);
        }
        let payload_end = match data_offset.checked_add(data_size) {
            Some(v) => v,
            None => {
                return Err(GspBootloaderError::InvalidPayload);
            },
        };
        if payload_end > len || bin_size < payload_end {
            return Err(GspBootloaderError::InvalidPayload);
        }
        let descriptor = match GspRmUcodeDescriptor::parse(bytes, header_offset) {
            Ok(d) => d,
            Err(e) => {
                return Err(e);
            },
        };
        if let Err(e) = descriptor.validate_ranges(data_size) {
            return Err(e);
        }
        Ok(
            Self {
                bin_size,
                header_offset,
                data_offset,
                data_size,
                payload: FirmwareSection { offset: data_offset, size: data_size },
                descriptor,
            },
        )
    }
}

#[derive(Debug, Clone, Copy, PartialEq, Eq, Structural)]
pub struct GspWprMeta {
    pub sysmem_addr_of_radix3_elf: u64,
    pub size_of_radix3_elf: u64,
    pub sysmem_addr_of_bootloader: u64,
    pub size_of_bootloader: u64,
    pub bootloader_code_offset: u64,
    pub bootloader_data_offset: u64,
    pub bootloader_manifest_offset: u64,
    pub sysmem_addr_of_signature: u64,
    pub size_of_signature: u64,
    pub gsp_fw_rsvd_start: u64,
    pub non_wpr_heap_offset: u64,
    pub non_wpr_heap_size: u64,
    pub gsp_fw_wpr_start: u64,
    pub gsp_fw_heap_offset: u64,
    pub gsp_fw_heap_size: u64,
    pub gsp_fw_offset: u64,
    pub boot_bin_offset: u64,
    pub frts_offset: u64,
    pub frts_size: u64,
    pub gsp_fw_wpr_end: u64,
    pub fb_size: u64,
    pub vga_workspace_offset: u64,
    pub vga_workspace_size: u64,
    pub boot_count: u64,
    pub partition_rpc_addr: u64,
    pub partition_rpc_request_offset: u16,
    pub partition_rpc_reply_offset: u16,
    pub elf_code_offset: u32,
    pub elf_data_offset: u32,
    pub elf_code_size: u32,
    pub elf_data_size: u32,
    pub ls_ucode_version: u32,
    pub gsp_fw_heap_vf_partition_count: u8,
    pub flags: u8,
    pub pmu_reserved_size: u32,
    pub verified: u64,
}

impl GspWprMeta {
    /// Metadata with every field zero.
    pub open spec fn spec_zeroed() -> GspWprMeta {
        GspWprMeta {
            sysmem_addr_of_radix3_elf: 0,
            size_of_radix3_elf: 0,
            sysmem_addr_of_bootloader: 0,
            size_of_bootloader: 0,
            bootloader_code_offset: 0,
            bootloader_data_offset: 0,
            bootloader_manifest_offset: 0,
            sysmem_addr_of_signature: 0,
            size_of_signature: 0,
            gsp_fw_rsvd_start: 0,
            non_wpr_heap_offset: 0,
            non_wpr_heap_size: 0,
            gsp_fw_wpr_start: 0,
            gsp_fw_heap_offset: 0,
            gsp_fw_heap_size: 0,
            gsp_fw_offset: 0,
            boot_bin_offset: 0,
            frts_offset: 0,
            frts_size: 0,
            gsp_fw_wpr_end: 0,
            fb_size: 0,
            vga_workspace_offset: 0,
            vga_workspace_size: 0,
            boot_count: 0,
            partition_rpc_addr: 0,
            partition_rpc_request_offset: 0,
            partition_rpc_reply_offset: 0,
            elf_code_offset: 0,
            elf_data_offset: 0,
            elf_code_size: 0,
            elf_data_size: 0,
            ls_ucode_version: 0,
            gsp_fw_heap_vf_partition_count: 0,
            flags: 0,
            pmu_reserved_size: 0,
            verified: 0,
        }
    }

    pub fn zeroed() -> (r: Self)
        ensures
            r == Self::spec_zeroed(),
    {
        Self {
            sysmem_addr_of_radix3_elf: 0,
            size_of_radix3_elf: 0,
            sysmem_addr_of_bootloader: 0,
            size_of_bootloader: 0,
            bootloader_code_offset: 0,
            bootloader_data_offset: 0,
            bootloader_manifest_offset: 0,
            sysmem_addr_of_signature: 0,
            size_of_signature: 0,
            gsp_fw_rsvd_start: 0,
            non_wpr_heap_offset: 0,
            non_wpr_heap_size: 0,
            gsp_fw_wpr_start: 0,
            gsp_fw_heap_offset: 0,
            gsp_fw_heap_size: 0,
            gsp_fw_offset: 0,
            boot_bin_offset: 0,
            frts_offset: 0,
            frts_size: 0,
            gsp_fw_wpr_end: 0,
            fb_size: 0,
            vga_workspace_offset: 0,
            vga_workspace_size: 0,
            boot_count: 0,
            partition_rpc_addr: 0,
            partition_rpc_request_offset: 0,
            partition_rpc_reply_offset: 0,
            elf_code_offset: 0,
            elf_data_offset: 0,
            elf_code_size: 0,
            elf_data_size: 0,
            ls_ucode_version: 0,
            gsp_fw_heap_vf_partition_count: 0,
            flags: 0,
            pmu_reserved_size: 0,
            verified: 0,
        }
    }

    /// The metadata's 256 bytes on the wire, after the magic and revision words.
    pub open spec fn wire(self) -> Seq<u8> {
        let s = zeros(256);
        let s = put(s, 0, 0xdc3a_ae21_371a_60b3, 8);
        let s = put(s, 8, 1, 8);
        let s = put(s, 16, self.sysmem_addr_of_radix3_elf as nat, 8);
        let s = put(s, 24, self.size_of_radix3_elf as nat, 8);
        let s = put(s, 32, self.sysmem_addr_of_bootloader as nat, 8);
        let s = put(s, 40, self.size_of_bootloader as nat, 8);
        let s = put(s, 48, self.bootloader_code_offset as nat, 8);
        let s = put(s, 56, self.bootloader_data_offset as nat, 8);
        let s = put(s, 64, self.bootloader_manifest_offset as nat, 8);
        let s = put(s, 72, self.sysmem_addr_of_signature as nat, 8);
        let s = put(s, 80, self.size_of_signature as nat, 8);
        let s = put(s, 88, self.gsp_fw_rsvd_start as nat, 8);
        let s = put(s, 96, self.non_wpr_heap_offset as nat, 8);
        let s = put(s, 104, self.non_wpr_heap_size as nat, 8);
        let s = put(s, 112, self.gsp_fw_wpr_start as nat, 8);
        let s = put(s, 120, self.gsp_fw_heap_offset as nat, 8);
        let s = put(s, 128, self.gsp_fw_heap_size as nat, 8);
        let s = put(s, 136, self.gsp_fw_offset as nat, 8);
        let s = put(s, 144, self.boot_bin_offset as nat, 8);
        let s = put(s, 152, self.frts_offset as nat, 8);
        let s = put(s, 160, self.frts_size as nat, 8);
        let s = put(s, 168, self.gsp_fw_wpr_end as nat, 8);
        let s = put(s, 176, self.fb_size as nat, 8);
        let s = put(s, 184, self.vga_workspace_offset as nat, 8);
        let s = put(s, 192, self.vga_workspace_size as nat, 8);
        let s = put(s, 200, self.boot_count as nat, 8);
        let s = put(s, 208, self.partition_rpc_addr as nat, 8);
        let s = put(s, 216, self.partition_rpc_request_offset as nat, 2);
        let s = put(s, 218, self.partition_rpc_reply_offset as nat, 2);
        let s = put(s, 220, self.elf_code_offset as nat, 4);
        let s = put(s, 224, self.elf_data_offset as nat, 4);
        let s = put(s, 228, self.elf_code_size as nat, 4);
        let s = put(s, 232, self.elf_data_size as nat, 4);
        let s = put(s, 236, self.ls_ucode_version as nat, 4);
        let s = put(s, 240, self.gsp_fw_heap_vf_partition_count as nat, 1);
        let s = put(s, 241, self.flags as nat, 1);
        let s = put(s, 244, self.pmu_reserved_size as nat, 4);
        put(s, 248, self.verified as nat, 8)
    }

    pub fn encode(self) -> (r: [u8; NVIDIA_GSP_WPR_META_SIZE])
        ensures
            r@ == self.wire(),
    {
        let mut bytes = [0u8; NVIDIA_GSP_WPR_META_SIZE];
        assert(bytes@ =~= zeros(256));
        write_le(&mut bytes, 0, NVIDIA_GSP_WPR_META_MAGIC, 8);
        write_le(&mut bytes, 8, NVIDIA_GSP_WPR_META_REVISION, 8);
        write_le(&mut bytes, 16, self.sysmem_addr_of_radix3_elf, 8);
        write_le(&mut bytes, 24, self.size_of_radix3_elf, 8);
        write_le(&mut bytes, 32, self.sysmem_addr_of_bootloader, 8);
        write_le(&mut bytes, 40, self.size_of_bootloader, 8);
        write_le(&mut bytes, 48, self.bootloader_code_offset, 8);
        write_le(&mut bytes, 56, self.bootloader_data_offset, 8);
        write_le(&mut bytes, 64, self.bootloader_manifest_offset, 8);
        write_le(&mut bytes, 72, self.sysmem_addr_of_signature, 8);
        write_le(&mut bytes, 80, self.size_of_signature, 8);
        write_le(&mut bytes, 88, self.gsp_fw_rsvd_start, 8);
        write_le(&mut bytes, 96, self.non_wpr_heap_offset, 8);
        write_le(&mut bytes, 104, self.non_wpr_heap_size, 8);
        write_le(&mut bytes, 112, self.gsp_fw_wpr_start, 8);
        write_le(&mut bytes, 120, self.gsp_fw_heap_offset, 8);
        write_le(&mut bytes, 128, self.gsp_fw_heap_size, 8);
        write_le(&mut bytes, 136, self.gsp_fw_offset, 8);
        write_le(&mut bytes, 144, self.boot_bin_offset, 8);
        write_le(&mut bytes, 152, self.frts_offset, 8);
        write_le(&mut bytes, 160, self.frts_size, 8);
        write_le(&mut bytes, 168, self.gsp_fw_wpr_end, 8);
        write_le(&mut bytes, 176, self.fb_size, 8);
        write_le(&mut bytes, 184, self.vga_workspace_offset, 8);
        write_le(&mut bytes, 192, self.vga_workspace_size, 8);
        write_le(&mut bytes, 200, self.boot_count, 8);
        write_le(&mut bytes, 208, self.partition_rpc_addr, 8);
        write_le(&mut bytes, 216, self.partition_rpc_request_offset as u64, 2);
        write_le(&mut bytes, 218, self.partition_rpc_reply_offset as u64, 2);
        write_le(&mut bytes, 220, self.elf_code_offset as u64, 4);
        write_le(&mut bytes, 224, self.elf_data_offset as u64, 4);
        write_le(&mut bytes, 228, self.elf_code_size as u64, 4);
        write_le(&mut bytes, 232, self.elf_data_size as u64, 4);
        write_le(&mut bytes, 236, self.ls_ucode_version as u64, 4);
        write_le(&mut bytes, 240, self.gsp_fw_heap_vf_partition_count as u64, 1);
        write_le(&mut bytes, 241, self.flags as u64, 1);
        write_le(&mut bytes, 244, self.pmu_reserved_size as u64, 4);
        write_le(&mut bytes, 248, self.verified, 8);
        bytes
    }
}

#[derive(Debug, Clone, Copy, PartialEq, Eq, Structural)]
pub struct GspFmcBootParams {
    pub registry_keys: u32,
    pub boot_gsp_rm_target: u32,
    pub gsp_rm_desc_size: u32,
    pub gsp_rm_desc_offset: u64,
    pub wpr_carveout_offset: u64,
    pub wpr_carveout_size: u32,
    pub is_gsp_rm_boot: bool,
    pub gsp_rm_target: u32,
    pub boot_args_offset: u64,
    pub spdm_target: u32,
    pub spdm_payload_buffer_offset: u64,
    pub spdm_payload_buffer_size: u32,
}

impl GspFmcBootParams {
    /// The boot parameters that point the FMC at the WPR metadata and the boot arguments.
    pub open spec fn spec_r570(
        gsp_rm_desc_offset: u64,
        gsp_rm_desc_size: u32,
        boot_args_offset: u64,
    ) -> GspFmcBootParams {
        GspFmcBootParams {
            registry_keys: 0,
            boot_gsp_rm_target: 1,
            gsp_rm_desc_size,
            gsp_rm_desc_offset,
            wpr_carveout_offset: 0,
            wpr_carveout_size: 0,
            is_gsp_rm_boot: true,
            gsp_rm_target: 2,
            boot_args_offset,
            spdm_target: 0,
            spdm_payload_buffer_offset: 0,
            spdm_payload_buffer_size: 0,
        }
    }

    pub fn r570(gsp_rm_desc_offset: u64, gsp_rm_desc_size: u32, boot_args_offset: u64) -> (r:
        Self)
        ensures
            r == Self::spec_r570(gsp_rm_desc_offset, gsp_rm_desc_size, boot_args_offset),
    {
        Self {
            registry_keys: 0,
            boot_gsp_rm_target: NVIDIA_GSP_DMA_TARGET_COHERENT_SYSTEM,
            gsp_rm_desc_size,
            gsp_rm_desc_offset,
            wpr_carveout_offset: 0,
            wpr_carveout_size: 0,
            is_gsp_rm_boot: true,
            gsp_rm_target: NVIDIA_GSP_DMA_TARGET_NONCOHERENT_SYSTEM,
            boot_args_offset,
            spdm_target: 0,
            spdm_payload_buffer_offset: 0,
            spdm_payload_buffer_size: 0,
        }
    }

    /// The parameters' 80 bytes on the wire, with the C layout's padding zero.
    pub open spec fn wire(self) -> Seq<u8> {
        let s = zeros(80);
        let s = put(s, 0, self.registry_keys as nat, 4);
        let s = put(s, 8, self.boot_gsp_rm_target as nat, 4);
        let s = put(s, 12, self.gsp_rm_desc_size as nat, 4);
        let s = put(s, 16, self.gsp_rm_desc_offset as nat, 8);
        let s = put(s, 24, self.wpr_carveout_offset as nat, 8);
        let s = put(s, 32, self.wpr_carveout_size as nat, 4);
        let s = put(s, 36, flag(self.is_gsp_rm_boot), 4);
        let s = put(s, 40, self.gsp_rm_target as nat, 4);
        let s = put(s, 48, self.boot_args_offset as nat, 8);
        let s = put(s, 56, self.spdm_target as nat, 4);
        let s = put(s, 64, self.spdm_payload_buffer_offset as nat, 8);
        put(s, 72, self.spdm_payload_buffer_size as nat, 4)
    }

    pub fn encode(self) -> (r: [u8; NVIDIA_GSP_FMC_BOOT_PARAMS_SIZE])
        ensures
            r@ == self.wire(),
    {
        let mut bytes = [0u8; NVIDIA_GSP_FMC_BOOT_PARAMS_SIZE];
        assert(bytes@ =~= zeros(80));
        write_le(&mut bytes, 0, self.registry_keys as u64, 4);
        write_le(&mut bytes, 8, self.boot_gsp_rm_target as u64, 4);
        write_le(&mut bytes, 12, self.gsp_rm_desc_size as u64, 4);
        write_le(&mut bytes, 16, self.gsp_rm_desc_offset, 8);
        write_le(&mut bytes, 24, self.wpr_carveout_offset, 8);
        write_le(&mut bytes, 32, self.wpr_carveout_size as u64, 4);
        write_le(&mut bytes, 36, if self.is_gsp_rm_boot { 1 } else { 0 }, 4);
        write_le(&mut bytes, 40, self.gsp_rm_target as u64, 4);
        write_le(&mut bytes, 48, self.boot_args_offset, 8);
        write_le(&mut bytes, 56, self.spdm_target as u64, 4);
        write_le(&mut bytes, 64, self.spdm_payload_buffer_offset, 8);
        write_le(&mut bytes, 72, self.spdm_payload_buffer_size as u64, 4);
        bytes
    }
}

#[derive(Debug, Clone, Copy, PartialEq, Eq, Structural)]
pub enum GspFirmwareBundleError {
    Gsp(GspFirmwareError),
    Fmc(GspFmcError),
    Bootloader(GspBootloaderError),
    VersionMismatch,
}

/// The three firmware files that a GB20x boot needs.
#[derive(Debug, Clone, Copy, PartialEq, Eq, Structural)]
pub struct GspFirmwareBundle {
    pub gsp: GspFirmware,
    pub fmc: GspFmc,
    pub bootloader: GspBootloader,
}

/// The version string of a parsed GSP firmware, without its terminating zero.
pub open spec fn version_string(fw: GspFirmware, s: Seq<u8>) -> Seq<u8> {
    s.subrange(fw.version.offset as int, fw.version.offset + fw.version.size - 1)
}

/// The result of parsing the three files of a bundle.
pub open spec fn bundle_parse(
    gsp: Seq<u8>,
    fmc: Seq<u8>,
    bootloader: Seq<u8>,
    expected_version: Seq<u8>,
) -> Result<GspFirmwareBundle, GspFirmwareBundleError> {
    match firmware_parse(gsp) {
        Err(e) => Err(GspFirmwareBundleError::Gsp(e)),
        Ok(g) => if version_string(g, gsp) != expected_version {
            Err(GspFirmwareBundleError::VersionMismatch)
        } else {
            match fmc_parse(fmc) {
                Err(e) => Err(GspFirmwareBundleError::Fmc(e)),
                Ok(f) => match bootloader_parse(bootloader) {
                    Err(e) => Err(GspFirmwareBundleError::Bootloader(e)),
                    Ok(b) => Ok(GspFirmwareBundle { gsp: g, fmc: f, bootloader: b }),
                },
            }
        },
    }
}

impl GspFirmwareBundle {
    /// Parses the GSP firmware, the FMC and the bootloader; the firmware's version must be
    /// `expected_version`.
    pub fn parse(
        gsp_bytes: &[u8],
        fmc_bytes: &[u8],
        bootloader_bytes: &[u8],
        expected_version: &[u8],
    ) -> (r: Result<Self, GspFirmwareBundleError>)
        ensures
            r == bundle_parse(gsp_bytes@, fmc_bytes@, bootloader_bytes@, expected_version@),
    {
        let gsp = match GspFirmware::parse(gsp_bytes) {
            Ok(g) => g,
            Err(e) => {
                return Err(GspFirmwareBundleError::Gsp(e));
            },
        };
        let version = gsp.version_bytes(gsp_bytes);
        let n = version.len();
        assert(version@.subrange(0, n as int) =~= version@);
        if !crate::bytes::range_equals(version, 0, n, expected_version) {
            return Err(GspFirmwareBundleError::VersionMismatch);
        }
        let fmc = match GspFmc::parse(fmc_bytes) {
            Ok(f) => f,
            Err(e) => {
                return Err(GspFirmwareBundleError::Fmc(e));
            },
        };
        let bootloader = match GspBootloader::parse(bootloader_bytes) {
            Ok(b) => b,
            Err(e) => {
                return Err(GspFirmwareBundleError::Bootloader(e));
            },
        };
        Ok(Self { gsp, fmc, bootloader })
    }
}

} // verus!
