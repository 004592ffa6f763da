use rustos::gpu::boot::{
    GspBootloader, GspBootloaderError, GspRmDescriptorField, NVIDIA_GSP_BIN_HEADER_SIZE,
    NVIDIA_GSP_BIN_MAGIC, NVIDIA_GSP_BIN_VERSION, NVIDIA_GSP_RM_UCODE_DESCRIPTOR_SIZE,
};
use rustos::gpu::fmc::{
    crc32, GspFmc, GspFmcError, ELF_STRING_FLAGS, FMC_SECTION_FLAGS,
    NVIDIA_GSP_FMC_ELF_HEADER_SIZE, NVIDIA_GSP_FMC_ELF_SECTION_HEADER_SIZE,
    NVIDIA_GSP_FMC_SECTION_COUNT,
};
use rustos::gpu::fsp::{
    GspFspCot, GspFspCotError, MCTP_HEADER_EOM, MCTP_HEADER_SOM,
    NVIDIA_GSP_FSP_COT_HASH_BYTES, NVIDIA_GSP_FSP_COT_PACKET_SIZE,
    NVIDIA_GSP_FSP_COT_PAYLOAD_SIZE, NVIDIA_GSP_FSP_COT_PUBLIC_KEY_BYTES,
    NVIDIA_GSP_FSP_COT_SIGNATURE_BYTES, NVIDIA_GSP_FSP_COT_VERSION_GB20X,
};

const DATA_OFFSET: usize = NVIDIA_GSP_BIN_HEADER_SIZE + NVIDIA_GSP_RM_UCODE_DESCRIPTOR_SIZE;
const DATA_SIZE: usize = 64;

fn write_u16(bytes: &mut [u8], offset: usize, value: u16) {
    bytes[offset..offset + 2].copy_from_slice(&value.to_le_bytes());
}

fn write_u32(bytes: &mut [u8], offset: usize, value: u32) {
    bytes[offset..offset + 4].copy_from_slice(&value.to_le_bytes());
}

fn read_u16(bytes: &[u8], offset: usize) -> u16 {
    u16::from_le_bytes(bytes[offset..offset + 2].try_into().expect("u16"))
}

fn read_u32(bytes: &[u8], offset: usize) -> u32 {
    u32::from_le_bytes(bytes[offset..offset + 4].try_into().expect("u32"))
}

fn read_u64(bytes: &[u8], offset: usize) -> u64 {
    u64::from_le_bytes(bytes[offset..offset + 8].try_into().expect("u64"))
}

fn synthetic_bootloader() -> Vec<u8> {
    let mut bytes = vec![0u8; DATA_OFFSET + DATA_SIZE];
    write_u32(&mut bytes, 0, NVIDIA_GSP_BIN_MAGIC);
    write_u32(&mut bytes, 4, NVIDIA_GSP_BIN_VERSION);
    let bin_size = bytes.len() as u32;
    write_u32(&mut bytes, 8, bin_size);
    write_u32(&mut bytes, 12, NVIDIA_GSP_BIN_HEADER_SIZE as u32);
    write_u32(&mut bytes, 16, DATA_OFFSET as u32);
    write_u32(&mut bytes, 20, DATA_SIZE as u32);

    let descriptor = NVIDIA_GSP_BIN_HEADER_SIZE;
    write_u32(&mut bytes, descriptor, 5);
    write_u32(&mut bytes, descriptor + 7 * 4, 0x1234);
    write_u32(&mut bytes, descriptor + 8 * 4, 0);
    write_u32(&mut bytes, descriptor + 9 * 4, 16);
    write_u32(&mut bytes, descriptor + 10 * 4, 16);
    write_u32(&mut bytes, descriptor + 11 * 4, 32);
    write_u32(&mut bytes, descriptor + 12 * 4, 48);
    write_u32(&mut bytes, descriptor + 13 * 4, 16);
    bytes
}

#[test]
fn parses_riscv_bootloader_envelope_and_descriptor() {
    let bytes = synthetic_bootloader();
    let bootloader = GspBootloader::parse(&bytes).expect("bootloader");
    assert_eq!(bootloader.descriptor.version, 5);
    assert_eq!(bootloader.descriptor.app_version, 0x1234);
    assert_eq!(bootloader.descriptor.manifest_size, 16);
    assert_eq!(bootloader.descriptor.monitor_data_size, 32);
    assert_eq!(bootloader.payload.size, DATA_SIZE);
}

#[test]
fn rejects_descriptor_range_outside_payload() {
    let mut bytes = synthetic_bootloader();
    write_u32(
        &mut bytes,
        NVIDIA_GSP_BIN_HEADER_SIZE + 9 * 4,
        (DATA_SIZE + 1) as u32,
    );
    assert_eq!(
        GspBootloader::parse(&bytes),
        Err(GspBootloaderError::InvalidDescriptorRange {
            field: GspRmDescriptorField::Manifest,
        })
    );
}

#[test]
fn rejects_payload_truncated_before_declared_end() {
    let mut bytes = synthetic_bootloader();
    bytes.truncate(bytes.len() - 1);
    assert_eq!(
        GspBootloader::parse(&bytes),
        Err(GspBootloaderError::InvalidPayload)
    );
}

const STRING_TABLE: &[u8] = b"\0.shstrtab\0hash\0signature\0publickey\0image\0";
const SECTION_TABLE_OFFSET: usize = NVIDIA_GSP_FMC_ELF_HEADER_SIZE;
const SECTION_DATA_OFFSET: usize =
    SECTION_TABLE_OFFSET + NVIDIA_GSP_FMC_SECTION_COUNT * NVIDIA_GSP_FMC_ELF_SECTION_HEADER_SIZE;
const HASH: &[u8] = b"hash-bytes";
const SIGNATURE: &[u8] = b"signature-bytes";
const PUBLIC_KEY: &[u8] = b"public-key-bytes";
const IMAGE: &[u8] = b"fmc-image";

fn fmc_section(
    bytes: &mut [u8],
    index: usize,
    name: u32,
    kind: u32,
    flags: u32,
    offset: usize,
    size: usize,
    info: u32,
) {
    let base = SECTION_TABLE_OFFSET + index * NVIDIA_GSP_FMC_ELF_SECTION_HEADER_SIZE;
    write_u32(bytes, base, name);
    write_u32(bytes, base + 4, kind);
    write_u32(bytes, base + 8, flags);
    write_u32(bytes, base + 16, offset as u32);
    write_u32(bytes, base + 20, size as u32);
    write_u32(bytes, base + 28, info);
}

fn synthetic_fmc() -> Vec<u8> {
    let string_offset = SECTION_DATA_OFFSET;
    let hash_offset = string_offset + STRING_TABLE.len();
    let signature_offset = hash_offset + HASH.len();
    let public_key_offset = signature_offset + SIGNATURE.len();
    let image_offset = public_key_offset + PUBLIC_KEY.len();
    let mut bytes = vec![0u8; image_offset + IMAGE.len()];
    bytes[..4].copy_from_slice(&[0x7f, b'E', b'L', b'F']);
    bytes[4] = 1;
    bytes[5] = 1;
    bytes[6] = 1;
    write_u16(&mut bytes, 16, 0);
    write_u16(&mut bytes, 18, 0);
    write_u32(&mut bytes, 20, 1);
    write_u32(&mut bytes, 32, SECTION_TABLE_OFFSET as u32);
    write_u16(&mut bytes, 40, NVIDIA_GSP_FMC_ELF_HEADER_SIZE as u16);
    write_u16(&mut bytes, 46, NVIDIA_GSP_FMC_ELF_SECTION_HEADER_SIZE as u16);
    write_u16(&mut bytes, 48, NVIDIA_GSP_FMC_SECTION_COUNT as u16);
    write_u16(&mut bytes, 50, 1);
    bytes[string_offset..string_offset + STRING_TABLE.len()].copy_from_slice(STRING_TABLE);
    bytes[hash_offset..hash_offset + HASH.len()].copy_from_slice(HASH);
    bytes[signature_offset..signature_offset + SIGNATURE.len()].copy_from_slice(SIGNATURE);
    bytes[public_key_offset..public_key_offset + PUBLIC_KEY.len()].copy_from_slice(PUBLIC_KEY);
    bytes[image_offset..image_offset + IMAGE.len()].copy_from_slice(IMAGE);
    fmc_section(&mut bytes, 1, 1, 3, ELF_STRING_FLAGS, string_offset, STRING_TABLE.len(), 0);
    fmc_section(&mut bytes, 2, 11, 1, FMC_SECTION_FLAGS, hash_offset, HASH.len(), crc32(HASH));
    fmc_section(
        &mut bytes,
        3,
        16,
        1,
        FMC_SECTION_FLAGS,
        signature_offset,
        SIGNATURE.len(),
        crc32(SIGNATURE),
    );
    fmc_section(
        &mut bytes,
        4,
        26,
        1,
        FMC_SECTION_FLAGS,
        public_key_offset,
        PUBLIC_KEY.len(),
        crc32(PUBLIC_KEY),
    );
    fmc_section(&mut bytes, 5, 36, 1, FMC_SECTION_FLAGS, image_offset, IMAGE.len(), crc32(IMAGE));
    bytes
}

#[test]
fn parses_signed_gb20x_fmc_sections_and_crc32() {
    let bytes = synthetic_fmc();
    let fmc = GspFmc::parse(&bytes).expect("fmc");
    assert_eq!(fmc.section_count, NVIDIA_GSP_FMC_SECTION_COUNT);
    assert_eq!(fmc.hash.bytes(&bytes), HASH);
    assert_eq!(fmc.signature.bytes(&bytes), SIGNATURE);
    assert_eq!(fmc.public_key.bytes(&bytes), PUBLIC_KEY);
    assert_eq!(fmc.image.bytes(&bytes), IMAGE);
}

#[test]
fn rejects_fmc_section_crc_tampering() {
    let mut bytes = synthetic_fmc();
    bytes[SECTION_DATA_OFFSET + STRING_TABLE.len()] ^= 1;
    assert!(matches!(
        GspFmc::parse(&bytes),
        Err(GspFmcError::InvalidSectionCrc { index: 2, .. })
    ));
}

#[test]
fn rejects_an_fmc_that_is_not_the_exact_expected_elf32_shape() {
    let mut bytes = synthetic_fmc();
    write_u16(&mut bytes, 48, 5);
    assert_eq!(GspFmc::parse(&bytes), Err(GspFmcError::InvalidHeader));
}

#[test]
fn crc32_matches_the_ieee_check_value() {
    assert_eq!(crc32(b"123456789"), 0xcbf4_3926);
    assert_eq!(crc32(b""), 0);
}

#[test]
fn encodes_gb20x_cot_packet_at_the_fsp_wire_offsets() {
    let hash = [0x11; NVIDIA_GSP_FSP_COT_HASH_BYTES];
    let public_key = [0x22; NVIDIA_GSP_FSP_COT_PUBLIC_KEY_BYTES];
    let signature = [0x33; NVIDIA_GSP_FSP_COT_SIGNATURE_BYTES];
    let packet = GspFspCot::gb20x(
        0x2000_0000,
        0x1000_0000,
        0x0040_0000,
        0x0010_0000,
        &hash,
        &public_key,
        &signature,
    )
    .encode()
    .expect("COT packet");

    assert_eq!(packet.len(), NVIDIA_GSP_FSP_COT_PACKET_SIZE);
    assert_eq!(read_u32(&packet, 0), MCTP_HEADER_SOM | MCTP_HEADER_EOM);
    assert_eq!(read_u32(&packet, 4), 0x1410_de7e);
    assert_eq!(read_u16(&packet, 8), NVIDIA_GSP_FSP_COT_VERSION_GB20X);
    assert_eq!(read_u16(&packet, 10), NVIDIA_GSP_FSP_COT_PAYLOAD_SIZE as u16);
    assert_eq!(read_u64(&packet, 12), 0x2000_0000);
    assert_eq!(read_u64(&packet, 20), 0);
    assert_eq!(read_u32(&packet, 28), 0);
    assert_eq!(read_u64(&packet, 32), 0x0040_0000);
    assert_eq!(read_u32(&packet, 40), 0x0010_0000);
    assert_eq!(&packet[44..92], &hash);
    assert_eq!(&packet[92..189], &public_key);
    assert!(packet[189..476].iter().all(|byte| *byte == 0));
    assert_eq!(&packet[476..572], &signature);
    assert!(packet[572..860].iter().all(|byte| *byte == 0));
    assert_eq!(read_u64(&packet, 860), 0x1000_0000);
}

#[test]
fn rejects_wrong_authentication_material_sizes() {
    let hash = [0u8; NVIDIA_GSP_FSP_COT_HASH_BYTES - 1];
    let public_key = [0u8; NVIDIA_GSP_FSP_COT_PUBLIC_KEY_BYTES];
    let signature = [0u8; NVIDIA_GSP_FSP_COT_SIGNATURE_BYTES];
    assert_eq!(
        GspFspCot::gb20x(0, 0, 0, 0, &hash, &public_key, &signature).encode(),
        Err(GspFspCotError::InvalidHashSize {
            actual: NVIDIA_GSP_FSP_COT_HASH_BYTES - 1,
        })
    );

    let hash = [0u8; NVIDIA_GSP_FSP_COT_HASH_BYTES];
    let public_key = [0u8; NVIDIA_GSP_FSP_COT_PUBLIC_KEY_BYTES - 1];
    assert_eq!(
        GspFspCot::gb20x(0, 0, 0, 0, &hash, &public_key, &signature).encode(),
        Err(GspFspCotError::InvalidPublicKeySize {
            actual: NVIDIA_GSP_FSP_COT_PUBLIC_KEY_BYTES - 1,
        })
    );

    let public_key = [0u8; NVIDIA_GSP_FSP_COT_PUBLIC_KEY_BYTES];
    let signature = [0u8; NVIDIA_GSP_FSP_COT_SIGNATURE_BYTES - 1];
    assert_eq!(
        GspFspCot::gb20x(0, 0, 0, 0, &hash, &public_key, &signature).encode(),
        Err(GspFspCotError::InvalidSignatureSize {
            actual: NVIDIA_GSP_FSP_COT_SIGNATURE_BYTES - 1,
        })
    );
}
