//! The system-information and registry RPC payloads, and the static-information reply.
use vstd::prelude::*;
use crate::bytes::{copy_into, splice, write_le, zeroed_vec, zeros};
use crate::gpu::firmware::c_string;
use crate::gpu::layout::put;
use crate::gpu::{
    NVIDIA_GSP_R570_CHIPSET_GB205, NVIDIA_GSP_R570_MAX_USER_VA,
    NVIDIA_GSP_R570_PCI_CONFIG_MIRROR_BASE, NVIDIA_GSP_R570_PCI_CONFIG_MIRROR_SIZE,
    NVIDIA_GSP_R570_STATIC_CONFIG_INFO_SIZE, NVIDIA_GSP_R570_STATIC_GPU_NAME_OFFSET,
    NVIDIA_GSP_R570_SYSTEM_INFO_SIZE, NVIDIA_GSP_REGISTRY_DWORD,
};

verus! {

#[derive(Debug, Clone, Copy, PartialEq, Eq, Structural)]
pub struct GspSystemInfoR570 {
    pub gpu_phys_addr: u64,
    pub gpu_phys_fb_addr: u64,
    pub gpu_phys_inst_addr: u64,
    pub nv_domain_bus_device_func: u16,
    pub pci_device_id: u16,
    pub pci_vendor_id: u16,
    pub pci_subdevice_id: u16,
    pub pci_subvendor_id: u16,
    pub pci_revision_id: u8,
}

impl GspSystemInfoR570 {
    pub fn r570_gb20x(
        gpu_phys_addr: u64,
        gpu_phys_fb_addr: u64,
        gpu_phys_inst_addr: u64,
        nv_domain_bus_device_func: u16,
        pci_device_id: u16,
        pci_vendor_id: u16,
        pci_subdevice_id: u16,
        pci_subvendor_id: u16,
        pci_revision_id: u8,
    ) -> (r: Self)
        ensures
            r == (GspSystemInfoR570 {
                gpu_phys_addr,
                gpu_phys_fb_addr,
                gpu_phys_inst_addr,
                nv_domain_bus_device_func,
                pci_device_id,
                pci_vendor_id,
                pci_subdevice_id,
                pci_subvendor_id,
                pci_revision_id,
            }),
    {
        Self {
            gpu_phys_addr,
            gpu_phys_fb_addr,
            gpu_phys_inst_addr,
            nv_domain_bus_device_func,
            pci_device_id,
            pci_vendor_id,
            pci_subdevice_id,
            pci_subvendor_id,
            pci_revision_id,
        }
    }

    /// The 544-byte system-information payload: the BAR addresses, the bus address, the user
    /// VA limit, the PCI configuration mirror, the PCI identifiers and the chipset.
    pub open spec fn wire(self) -> Seq<u8> {
        let s = zeros(544);
        let s = put(s, 0, self.gpu_phys_addr as nat, 8);
        let s = put(s, 8, self.gpu_phys_fb_addr as nat, 8);
        let s = put(s, 16, self.gpu_phys_inst_addr as nat, 8);
        let s = put(s, 32, self.nv_domain_bus_device_func as nat, 8);
        let s = put(s, 72, 0x7fff_ffff_f000, 8);
        let s = put(s, 80, 0x0009_2000, 4);
        let s = put(s, 84, 0x1000, 4);
        let s = put(s, 88, self.pci_device_id as nat * 0x10000 + self.pci_vendor_id as nat, 4);
        let s = put(
            s,
            92,
            self.pci_subdevice_id as nat * 0x10000 + self.pci_subvendor_id as nat,
            4,
        );
        let s = put(s, 96, self.pci_revision_id as nat, 4);
        put(s, 120, 0x1b5, 4)
    }

    pub fn encode(self) -> (r: [u8; NVIDIA_GSP_R570_SYSTEM_INFO_SIZE])
        ensures
            r@ == self.wire(),
    {
        let mut bytes = [0u8; NVIDIA_GSP_R570_SYSTEM_INFO_SIZE];
        assert(bytes@ =~= zeros(544));
        write_le(&mut bytes, 0, self.gpu_phys_addr, 8);
        write_le(&mut bytes, 8, self.gpu_phys_fb_addr, 8);
        write_le(&mut bytes, 16, self.gpu_phys_inst_addr, 8);
        write_le(&mut bytes, 32, self.nv_domain_bus_device_func as u64, 8);
        write_le(&mut bytes, 72, NVIDIA_GSP_R570_MAX_USER_VA, 8);
        write_le(&mut bytes, 80, NVIDIA_GSP_R570_PCI_CONFIG_MIRROR_BASE as u64, 4);
        write_le(&mut bytes, 84, NVIDIA_GSP_R570_PCI_CONFIG_MIRROR_SIZE as u64, 4);
        let device = self.pci_device_id as u32;
        let vendor = self.pci_vendor_id as u32;
        let ids = (device << 16) | vendor;
        assert(device < 0x10000 && vendor < 0x10000 ==> (device << 16u32) | vendor == device
            * 0x10000 + vendor) by (bit_vector);
        write_le(&mut bytes, 88, ids as u64, 4);
        let subdevice = self.pci_subdevice_id as u32;
        let subvendor = self.pci_subvendor_id as u32;
        let subsystem = (subdevice << 16) | subvendor;
        assert(subdevice < 0x10000 && subvendor < 0x10000 ==> (subdevice << 16u32) | subvendor
            == subdevice * 0x10000 + subvendor) by (bit_vector);
        write_le(&mut bytes, 92, subsystem as u64, 4);
        write_le(&mut bytes, 96, self.pci_revision_id as u64, 4);
        write_le(&mut bytes, 120, NVIDIA_GSP_R570_CHIPSET_GB205 as u64, 4);
        bytes
    }
}

/// The first registry key: `RMSecBusResetEnable`.
pub open spec fn registry_key_0() -> Seq<u8> {
    seq![
        0x52u8, 0x4d, 0x53, 0x65, 0x63, 0x42, 0x75, 0x73, 0x52, 0x65, 0x73, 0x65, 0x74, 0x45,
        0x6e, 0x61, 0x62, 0x6c, 0x65,
    ]
}

/// The second registry key: `RMForcePcieConfigSave`.
pub open spec fn registry_key_1() -> Seq<u8> {
    seq![
        0x52u8, 0x4d, 0x46, 0x6f, 0x72, 0x63, 0x65, 0x50, 0x63, 0x69, 0x65, 0x43, 0x6f, 0x6e,
        0x66, 0x69, 0x67, 0x53, 0x61, 0x76, 0x65,
    ]
}

/// The third registry key: `RMDevidCheckIgnore`.
pub open spec fn registry_key_2() -> Seq<u8> {
    seq![
        0x52u8, 0x4d, 0x44, 0x65, 0x76, 0x69, 0x64, 0x43, 0x68, 0x65, 0x63, 0x6b, 0x49, 0x67,
        0x6e, 0x6f, 0x72, 0x65,
    ]
}

/// The registry table: its size and entry count, three DWORD entries each pointing at its key
/// and holding the value 1, then the zero-terminated keys.
pub open spec fn registry_wire() -> Seq<u8> {
    let s = zeros(117);
    let s = put(s, 0, 109, 4);
    let s = put(s, 4, 3, 4);
    let s = put(s, 8, 56, 4);
    let s = put(s, 12, 1, 1);
    let s = put(s, 16, 1, 4);
    let s = splice(s, 56, registry_key_0());
    let s = put(s, 75, 0, 1);
    let s = put(s, 24, 76, 4);
    let s = put(s, 28, 1, 1);
    let s = put(s, 32, 1, 4);
    let s = splice(s, 76, registry_key_1());
    let s = put(s, 97, 0, 1);
    let s = put(s, 40, 98, 4);
    let s = put(s, 44, 1, 1);
    let s = put(s, 48, 1, 4);
    let s = splice(s, 98, registry_key_2());
    put(s, 116, 0, 1)
}

/// Writes registry entry `index`: the offset of its key, its DWORD type and the value 1, then
/// the key itself with its terminator at `string_offset`.
fn write_registry_entry(bytes: &mut Vec<u8>, index: usize, string_offset: usize, key: &[u8])
    requires
        old(bytes)@.len() == 117,
        index < 3,
        string_offset + key@.len() + 1 <= 117,
    ensures
        final(bytes)@ == put(
            splice(
                put(
                    put(
                        put(old(bytes)@, 8 + 16 * index, string_offset as nat, 4),
                        12 + 16 * index,
                        1,
                        1,
                    ),
                    16 + 16 * index,
                    1,
                    4,
                ),
                string_offset as int,
                key@,
            ),
            string_offset + key@.len(),
            0,
            1,
        ),
        final(bytes)@.len() == 117,
{
    let entry_offset = 8 + index * 16;
    write_le(bytes.as_mut_slice(), entry_offset, string_offset as u64, 4);
    write_le(bytes.as_mut_slice(), entry_offset + 4, NVIDIA_GSP_REGISTRY_DWORD as u64, 1);
    write_le(bytes.as_mut_slice(), entry_offset + 8, 1, 4);
    copy_into(bytes.as_mut_slice(), string_offset, key);
    let end = string_offset + key.len();
    write_le(bytes.as_mut_slice(), end, 0, 1);
}

/// The registry table that sets the three keys the GSP needs.
pub fn encode_gsp_registry() -> (r: Vec<u8>)
    ensures
        r@ == registry_wire(),
{
    let key0: [u8; 19] = [
        0x52, 0x4d, 0x53, 0x65, 0x63, 0x42, 0x75, 0x73, 0x52, 0x65, 0x73, 0x65, 0x74, 0x45, 0x6e,
        0x61, 0x62, 0x6c, 0x65,
    ];
    let key1: [u8; 21] = [
        0x52, 0x4d, 0x46, 0x6f, 0x72, 0x63, 0x65, 0x50, 0x63, 0x69, 0x65, 0x43, 0x6f, 0x6e, 0x66,
        0x69, 0x67, 0x53, 0x61, 0x76, 0x65,
    ];
    let key2: [u8; 18] = [
        0x52, 0x4d, 0x44, 0x65, 0x76, 0x69, 0x64, 0x43, 0x68, 0x65, 0x63, 0x6b, 0x49, 0x67, 0x6e,
        0x6f, 0x72, 0x65,
    ];
    assert(key0@ =~= registry_key_0());
    assert(key1@ =~= registry_key_1());
    assert(key2@ =~= registry_key_2());
    let string_size = key0.len() + 1 + key1.len() + 1 + key2.len() + 1;
    let variable_size = 3 * 16 + string_size;
    let mut bytes = zeroed_vec(8 + variable_size);
    write_le(bytes.as_mut_slice(), 0, variable_size as u64, 4);
    write_le(bytes.as_mut_slice(), 4, 3, 4);
    let string_start = 8 + 3 * 16;
    write_registry_entry(&mut bytes, 0, string_start, &key0);
    let next = string_start + key0.len() + 1;
    write_registry_entry(&mut bytes, 1, next, &key1);
    let last = next + key1.len() + 1;
    write_registry_entry(&mut bytes, 2, last, &key2);
    bytes
}

/// The static-information request: a zeroed reply buffer.
pub fn encode_gsp_static_info_request() -> (r: [u8; NVIDIA_GSP_R570_STATIC_CONFIG_INFO_SIZE])
    ensures
        r@ == zeros(1656),
{
    let r = [0u8; NVIDIA_GSP_R570_STATIC_CONFIG_INFO_SIZE];
    assert(r@ =~= zeros(1656));
    r
}

#[derive(Debug, Clone, Copy, PartialEq, Eq, Structural)]
pub enum GspStaticInfoError {
    PayloadTooSmall { required: usize, actual: usize },
    GpuNameEmpty,
    GpuNameNotTerminated,
}

#[derive(Debug, Clone, Copy, PartialEq, Eq)]
pub struct GspStaticInfo {
    pub gpu_name: [u8; 64],
}

/// The 64-byte GPU name field of a static-information reply.
pub open spec fn gpu_name_field(s: Seq<u8>) -> Seq<u8> {
    s.subrange(1260, 1324)
}

/// The result of reading the GPU name from a static-information reply: it must be
/// zero-terminated and not empty.
pub open spec fn static_info_result(s: Seq<u8>) -> Result<Seq<u8>, GspStaticInfoError> {
    if s.len() < 1656 {
        Err(GspStaticInfoError::PayloadTooSmall { required: 1656, actual: s.len() as usize })
    } else if c_string(gpu_name_field(s)) is None {
        Err(GspStaticInfoError::GpuNameNotTerminated)
    } else if c_string(gpu_name_field(s))->Some_0.len() == 0 {
        Err(GspStaticInfoError::GpuNameEmpty)
    } else {
        Ok(gpu_name_field(s))
    }
}

pub fn parse_gsp_static_info(payload: &[u8]) -> (r: Result<GspStaticInfo, GspStaticInfoError>)
    ensures
        match static_info_result(payload@) {
            Ok(name) => r matches Ok(info) && info.gpu_name@ == name,
            Err(e) => r == Err::<GspStaticInfo, GspStaticInfoError>(e),
        },
{
    let len = payload.len();
    if len < NVIDIA_GSP_R570_STATIC_CONFIG_INFO_SIZE {
        return Err(
            GspStaticInfoError::PayloadTooSmall {
                required: NVIDIA_GSP_R570_STATIC_CONFIG_INFO_SIZE,
                actual: len,
            },
        );
    }
    let mut gpu_name = [0u8; 64];
    let mut i: usize = 0;
    while i < 64
        invariant
            i <= 64,
            len == payload@.len() >= 1656,
            forall|j: int| 0 <= j < i ==> gpu_name@[j] == payload@[1260 + j],
        decreases 64 - i,
    {
        gpu_name[i] = payload[NVIDIA_GSP_R570_STATIC_GPU_NAME_OFFSET + i];
        i = i + 1;
    }
    assert(gpu_name@ =~= gpu_name_field(payload@));
    let name = crate::gpu::firmware::section_name(&gpu_name, 0);
    assert(gpu_name@.skip(0) =~= gpu_name@);
    match name {
        None => Err(GspStaticInfoError::GpuNameNotTerminated),
        Some(n) => {
            if n.len() == 0 {
                return Err(GspStaticInfoError::GpuNameEmpty);
            }
            Ok(GspStaticInfo { gpu_name })
        },
    }
}

} // verus!
