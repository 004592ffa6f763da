//! The chain-of-trust packet that asks the FSP to boot the GSP's FMC.
use vstd::prelude::*;
use crate::bytes::{copy_into, splice, write_le, zeros};
use crate::gpu::layout::put;

verus! {

pub const NVIDIA_GSP_FSP_FALCON_BASE: u32 = 0x008f_2000;
pub const NVIDIA_GSP_FSP_QUEUE_HEAD: u32 = 0x008f_2c00;
pub const NVIDIA_GSP_FSP_QUEUE_TAIL: u32 = 0x008f_2c04;
pub const NVIDIA_GSP_FSP_MSGQ_HEAD: u32 = 0x008f_2c80;
pub const NVIDIA_GSP_FSP_MSGQ_TAIL: u32 = 0x008f_2c84;
pub const NVIDIA_GSP_FSP_EMEM_PIO_ADDRESS: u32 = 0x008f_2ac0;
pub const NVIDIA_GSP_FSP_EMEM_PIO_DATA: u32 = 0x008f_2ac4;
pub const NVIDIA_GSP_FSP_FALCON_MAILBOX0: u32 = 0x008f_2040;
pub const NVIDIA_GSP_FSP_FALCON_MAILBOX1: u32 = 0x008f_2044;
pub const NVIDIA_GSP_FSP_FALCON_HWCFG2: u32 = 0x008f_20f4;
pub const NVIDIA_GSP_FSP_FALCON_HWCFG2_LOCKDOWN_BIT: u32 = 13;
pub const NVIDIA_GSP_FSP_BAR0_REQUIRED_LENGTH: u64 = 0x008f_4000;
pub const NVIDIA_GSP_FSP_COT_VERSION_GB20X: u16 = 2;
pub const NVIDIA_GSP_FSP_COT_HASH_BYTES: usize = 48;
pub const NVIDIA_GSP_FSP_COT_PUBLIC_KEY_BYTES: usize = 97;
pub const NVIDIA_GSP_FSP_COT_SIGNATURE_BYTES: usize = 96;
pub const NVIDIA_GSP_FSP_COT_PUBLIC_KEY_SLOT_BYTES: usize = 384;
pub const NVIDIA_GSP_FSP_COT_SIGNATURE_SLOT_BYTES: usize = 384;
pub const NVIDIA_GSP_FSP_COT_PAYLOAD_SIZE: usize = 860;
pub const NVIDIA_GSP_FSP_COT_PACKET_SIZE: usize = 868;
pub const MCTP_HEADER_SOM: u32 = 0x8000_0000;
pub const MCTP_HEADER_EOM: u32 = 0x4000_0000;
pub const MCTP_MSG_HEADER_TYPE_VENDOR_PCI: u32 = 0x7e;
pub const MCTP_MSG_HEADER_VENDOR_ID_NVIDIA: u32 = 0x10de;
pub const NVDM_TYPE_COT: u32 = 0x14;

#[derive(Debug, Clone, Copy, PartialEq, Eq, Structural)]
pub enum GspFspCotError {
    InvalidHashSize { actual: usize },
    InvalidPublicKeySize { actual: usize },
    InvalidSignatureSize { actual: usize },
}

/// The chain-of-trust request: where the FMC, the FRTS region and the boot arguments are, and
/// the FMC's hash, public key and signature.
#[derive(Debug, Clone, Copy, PartialEq, Eq)]
pub struct GspFspCot<'a> {
    pub gsp_fmc_sysmem_offset: u64,
    pub frts_sysmem_offset: u64,
    pub frts_sysmem_size: u32,
    pub frts_vidmem_offset: u64,
    pub frts_vidmem_size: u32,
    pub gsp_boot_args_sysmem_offset: u64,
    pub hash: &'a [u8],
    pub public_key: &'a [u8],
    pub signature: &'a [u8],
}

impl<'a> GspFspCot<'a> {
    pub fn gb20x(
        gsp_fmc_sysmem_offset: u64,
        gsp_boot_args_sysmem_offset: u64,
        frts_vidmem_offset: u64,
        frts_vidmem_size: u32,
        hash: &'a [u8],
        public_key: &'a [u8],
        signature: &'a [u8],
    ) -> (r: Self)
        ensures
            r.gsp_fmc_sysmem_offset == gsp_fmc_sysmem_offset,
            r.frts_sysmem_offset == 0,
            r.frts_sysmem_size == 0,
            r.frts_vidmem_offset == frts_vidmem_offset,
            r.frts_vidmem_size == frts_vidmem_size,
            r.gsp_boot_args_sysmem_offset == gsp_boot_args_sysmem_offset,
            r.hash@ == hash@,
            r.public_key@ == public_key@,
            r.signature@ == signature@,
    {
        Self {
            gsp_fmc_sysmem_offset,
            frts_sysmem_offset: 0,
            frts_sysmem_size: 0,
            frts_vidmem_offset,
            frts_vidmem_size,
            gsp_boot_args_sysmem_offset,
            hash,
            public_key,
            signature,
        }
    }

    /// The packet's 868 bytes: the MCTP and NVDM headers, the COT version and size, the
    /// offsets, and the authentication material in its fixed-size slots.
    pub open spec fn wire(self) -> Seq<u8> {
        let s = zeros(868);
        let s = put(s, 0, 0xc000_0000, 4);
        let s = put(s, 4, 0x1410_de7e, 4);
        let s = put(s, 8, 2, 2);
        let s = put(s, 10, 860, 2);
        let s = put(s, 12, self.gsp_fmc_sysmem_offset as nat, 8);
        let s = put(s, 20, self.frts_sysmem_offset as nat, 8);
        let s = put(s, 28, self.frts_sysmem_size as nat, 4);
        let s = put(s, 32, self.frts_vidmem_offset as nat, 8);
        let s = put(s, 40, self.frts_vidmem_size as nat, 4);
        let s = splice(s, 44, self.hash@);
        let s = splice(s, 92, self.public_key@);
        let s = splice(s, 476, self.signature@);
        put(s, 860, self.gsp_boot_args_sysmem_offset as nat, 8)
    }

    pub fn encode(self) -> (r: Result<[u8; NVIDIA_GSP_FSP_COT_PACKET_SIZE], GspFspCotError>)
        ensures
            self.hash@.len() != 48 ==> r == Err::<[u8; NVIDIA_GSP_FSP_COT_PACKET_SIZE], GspFspCotError>(
                GspFspCotError::InvalidHashSize { actual: self.hash@.len() as usize },
            ),
            self.hash@.len() == 48 && self.public_key@.len() != 97 ==> r == Err::<
                [u8; NVIDIA_GSP_FSP_COT_PACKET_SIZE],
                GspFspCotError,
            >(GspFspCotError::InvalidPublicKeySize { actual: self.public_key@.len() as usize }),
            self.hash@.len() == 48 && self.public_key@.len() == 97 && self.signature@.len() != 96
                ==> r == Err::<[u8; NVIDIA_GSP_FSP_COT_PACKET_SIZE], GspFspCotError>(
                GspFspCotError::InvalidSignatureSize { actual: self.signature@.len() as usize },
            ),
            self.hash@.len() == 48 && self.public_key@.len() == 97 && self.signature@.len() == 96
                ==> (r matches Ok(packet) && packet@ == self.wire()),
    {
        let hash_len = self.hash.len();
        if hash_len != NVIDIA_GSP_FSP_COT_HASH_BYTES {
            return Err(GspFspCotError::InvalidHashSize { actual: hash_len });
        }
        let key_len = self.public_key.len();
        if key_len != NVIDIA_GSP_FSP_COT_PUBLIC_KEY_BYTES {
            return Err(GspFspCotError::InvalidPublicKeySize { actual: key_len });
        }
        let signature_len = self.signature.len();
        if signature_len != NVIDIA_GSP_FSP_COT_SIGNATURE_BYTES {
            return Err(GspFspCotError::InvalidSignatureSize { actual: signature_len });
        }
        let mut packet = [0u8; NVIDIA_GSP_FSP_COT_PACKET_SIZE];
        assert(packet@ =~= zeros(868));
        write_le(&mut packet, 0, (MCTP_HEADER_SOM | MCTP_HEADER_EOM) as u64, 4);
        assert((MCTP_HEADER_SOM | MCTP_HEADER_EOM) == 0xc000_0000u32) by (bit_vector);
        let nvdm = (NVDM_TYPE_COT << 24) | (MCTP_MSG_HEADER_VENDOR_ID_NVIDIA << 8)
            | MCTP_MSG_HEADER_TYPE_VENDOR_PCI;
        assert(((0x14u32 << 24u32) | (0x10deu32 << 8u32) | 0x7eu32) == 0x1410_de7eu32)
            by (bit_vector);
        write_le(&mut packet, 4, nvdm as u64, 4);
        write_le(&mut packet, 8, NVIDIA_GSP_FSP_COT_VERSION_GB20X as u64, 2);
        write_le(&mut packet, 10, NVIDIA_GSP_FSP_COT_PAYLOAD_SIZE as u64, 2);
        write_le(&mut packet, 12, self.gsp_fmc_sysmem_offset, 8);
        write_le(&mut packet, 20, self.frts_sysmem_offset, 8);
        write_le(&mut packet, 28, self.frts_sysmem_size as u64, 4);
        write_le(&mut packet, 32, self.frts_vidmem_offset, 8);
        write_le(&mut packet, 40, self.frts_vidmem_size as u64, 4);
        copy_into(&mut packet, 44, self.hash);
        copy_into(&mut packet, 92, self.public_key);
        copy_into(&mut packet, 476, self.signature);
        write_le(&mut packet, 860, self.gsp_boot_args_sysmem_offset, 8);
        Ok(packet)
    }
}

} // verus!
