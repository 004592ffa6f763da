use rustos::gpu::boot::{
    GspBootloader, GspFirmwareBundle, GspFmcBootParams, GspRmUcodeDescriptor, GspWprMeta,
    NVIDIA_GSP_DMA_TARGET_COHERENT_SYSTEM, NVIDIA_GSP_DMA_TARGET_NONCOHERENT_SYSTEM,
    NVIDIA_GSP_FMC_BOOT_PARAMS_SIZE, NVIDIA_GSP_WPR_META_MAGIC, NVIDIA_GSP_WPR_META_REVISION,
    NVIDIA_GSP_WPR_META_SIZE,
};
use rustos::gpu::firmware::{
    GspBootPlanError, GspFirmware, GspFirmwareError, ELF_CLASS_64, ELF_DATA_LITTLE,
    ELF_MACHINE_RISCV, ELF_SECTION_PROGBITS, ELF_SECTION_STRTAB, ELF_TYPE_REL,
    ELF_VERSION_CURRENT,
};
use rustos::gpu::fmc::GspFmc;
use rustos::gpu::info::{
    encode_gsp_registry, encode_gsp_static_info_request, parse_gsp_static_info,
    GspStaticInfoError, GspSystemInfoR570,
};
use rustos::gpu::layout::{
    FirmwareSection, GspCachedArguments, GspMemoryError, GspMemoryRegion, GspQueueHeader,
    GspRadix3Layout, GspSharedMemoryLayout,
};
use rustos::gpu::plan::{
    GspBootSystemMemoryPlan, GspFramebufferLayout, GspFramebufferLayoutError,
    GspMaterializationError, GspSystemMemoryPlanError,
};
use rustos::gpu::queue::{queue_slot_offset, GspQueue};
use rustos::gpu::rpc::{
    encode_gsp_rpc, encode_gsp_rpc_with_sequences, GspRpcError, GspRpcMessage,
};
use rustos::gpu::{
    NVIDIA_GSP_ELF_SECTION_HEADER_SIZE, NVIDIA_GSP_FUNCTION_GET_GSP_STATIC_INFO,
    NVIDIA_GSP_MAX_MESSAGE_PAGES, NVIDIA_GSP_PAGE_SIZE, NVIDIA_GSP_QUEUE_ENTRY_COUNT,
    NVIDIA_GSP_QUEUE_HEADER_SIZE, NVIDIA_GSP_QUEUE_RX_READ_POINTER_OFFSET,
    NVIDIA_GSP_QUEUE_TX_WRITE_POINTER_OFFSET, NVIDIA_GSP_R570_CACHED_ARGUMENTS_SIZE,
    NVIDIA_GSP_R570_CHIPSET_GB205, NVIDIA_GSP_R570_MAX_USER_VA,
    NVIDIA_GSP_R570_PCI_CONFIG_MIRROR_BASE, NVIDIA_GSP_R570_PCI_CONFIG_MIRROR_SIZE,
    NVIDIA_GSP_R570_STATIC_CONFIG_INFO_SIZE, NVIDIA_GSP_R570_STATIC_GPU_NAME_OFFSET,
    NVIDIA_GSP_R570_SYSTEM_INFO_SIZE, NVIDIA_GSP_REGISTRY_DWORD, NVIDIA_GSP_SHARED_QUEUE_BYTES,
};

const ELF_MAGIC: [u8; 4] = [0x7f, b'E', b'L', b'F'];

fn write_le_u16(bytes: &mut [u8], offset: usize, value: u16) {
    bytes[offset..offset + 2].copy_from_slice(&value.to_le_bytes());
}

fn write_le_u32(bytes: &mut [u8], offset: usize, value: u32) {
    bytes[offset..offset + 4].copy_from_slice(&value.to_le_bytes());
}

fn write_le_u64(bytes: &mut [u8], offset: usize, value: u64) {
    bytes[offset..offset + 8].copy_from_slice(&value.to_le_bytes());
}

fn read_test_u16(bytes: &[u8], offset: usize) -> u16 {
    u16::from_le_bytes([bytes[offset], bytes[offset + 1]])
}

fn read_test_u32(bytes: &[u8], offset: usize) -> u32 {
    u32::from_le_bytes(bytes[offset..offset + 4].try_into().expect("u32"))
}

fn read_test_u64(bytes: &[u8], offset: usize) -> u64 {
    u64::from_le_bytes(bytes[offset..offset + 8].try_into().expect("u64"))
}

fn name_offset(table: &[u8], name: &[u8]) -> usize {
    table
        .windows(name.len())
        .position(|candidate| candidate == name)
        .expect("name")
}

fn section(
    bytes: &mut [u8],
    table: usize,
    index: usize,
    name: usize,
    kind: u32,
    offset: usize,
    size: usize,
) {
    let entry = table + index * NVIDIA_GSP_ELF_SECTION_HEADER_SIZE;
    write_le_u32(bytes, entry, name as u32);
    write_le_u32(bytes, entry + 4, kind);
    write_le_u64(bytes, entry + 24, offset as u64);
    write_le_u64(bytes, entry + 32, size as u64);
}

fn synthetic_firmware() -> Vec<u8> {
    let string_table = b"\0.fwimage\0.fwversion\0.fwsignature_gb20x\0.shstrtab\0";
    let image_offset = 64usize;
    let image = b"GSP-IMAGE";
    let version_offset = image_offset + image.len();
    let version = b"610.43.03\0";
    let signature_offset = version_offset + version.len();
    let signature = [0xa5u8; 16];
    let string_offset = signature_offset + signature.len();
    let section_offset = string_offset + string_table.len();
    let total = section_offset + 5 * NVIDIA_GSP_ELF_SECTION_HEADER_SIZE;
    let mut bytes = vec![0u8; total];
    bytes[..4].copy_from_slice(&ELF_MAGIC);
    bytes[4] = ELF_CLASS_64;
    bytes[5] = ELF_DATA_LITTLE;
    bytes[6] = ELF_VERSION_CURRENT;
    write_le_u16(&mut bytes, 16, ELF_TYPE_REL);
    write_le_u16(&mut bytes, 18, ELF_MACHINE_RISCV);
    write_le_u64(&mut bytes, 40, section_offset as u64);
    write_le_u16(&mut bytes, 52, 64);
    write_le_u16(&mut bytes, 54, 0);
    write_le_u16(&mut bytes, 56, 0);
    write_le_u16(&mut bytes, 58, NVIDIA_GSP_ELF_SECTION_HEADER_SIZE as u16);
    write_le_u16(&mut bytes, 60, 5);
    write_le_u16(&mut bytes, 62, 4);
    bytes[image_offset..image_offset + image.len()].copy_from_slice(image);
    bytes[version_offset..version_offset + version.len()].copy_from_slice(version);
    bytes[signature_offset..signature_offset + signature.len()].copy_from_slice(&signature);
    bytes[string_offset..string_offset + string_table.len()].copy_from_slice(string_table);
    section(
        &mut bytes,
        section_offset,
        1,
        name_offset(string_table, b".fwimage"),
        ELF_SECTION_PROGBITS,
        image_offset,
        image.len(),
    );
    section(
        &mut bytes,
        section_offset,
        2,
        name_offset(string_table, b".fwversion"),
        ELF_SECTION_PROGBITS,
        version_offset,
        version.len(),
    );
    section(
        &mut bytes,
        section_offset,
        3,
        name_offset(string_table, b".fwsignature_gb20x"),
        ELF_SECTION_PROGBITS,
        signature_offset,
        signature.len(),
    );
    section(
        &mut bytes,
        section_offset,
        4,
        name_offset(string_table, b".shstrtab"),
        ELF_SECTION_STRTAB,
        string_offset,
        string_table.len(),
    );
    bytes
}

#[test]
fn parses_sectioned_riscv_gsp_firmware() {
    let bytes = synthetic_firmware();
    let firmware = GspFirmware::parse(&bytes).expect("firmware");
    assert_eq!(firmware.image.bytes(&bytes), b"GSP-IMAGE");
    assert_eq!(firmware.version_bytes(&bytes), b"610.43.03");
    assert!(firmware.supports_gb20x());
    assert_eq!(firmware.section_count, 5);
}

#[test]
fn plans_gb20x_radix3_and_shared_memory_layout() {
    let bytes = synthetic_firmware();
    let firmware = GspFirmware::parse(&bytes).expect("firmware");
    let layout = firmware.boot_layout().expect("boot layout");
    assert_eq!(layout.radix3.image_pages, 1);
    assert_eq!(layout.radix3.level2_bytes, NVIDIA_GSP_PAGE_SIZE);
    assert_eq!(layout.radix3.level2_pages, 1);
    assert_eq!(layout.radix3.total_bytes, 3 * NVIDIA_GSP_PAGE_SIZE);
    assert_eq!(layout.signature_allocation_bytes, 256);
    assert_eq!(layout.shared_memory.page_table_entry_count, 129);
    assert_eq!(layout.shared_memory.page_table_bytes, NVIDIA_GSP_PAGE_SIZE);
    assert_eq!(layout.shared_memory.command_queue_offset, NVIDIA_GSP_PAGE_SIZE);
    assert_eq!(
        layout.shared_memory.status_queue_offset,
        NVIDIA_GSP_PAGE_SIZE + NVIDIA_GSP_SHARED_QUEUE_BYTES
    );
    assert_eq!(layout.shared_memory.total_bytes, 129 * NVIDIA_GSP_PAGE_SIZE);
    assert_eq!(layout.shared_memory.queue_entry_count, 63);
}

#[test]
fn materializes_noncontiguous_radix3_pointer_tables() {
    let layout = GspRadix3Layout {
        image_pages: 2,
        level0_bytes: NVIDIA_GSP_PAGE_SIZE,
        level1_bytes: NVIDIA_GSP_PAGE_SIZE,
        level2_bytes: NVIDIA_GSP_PAGE_SIZE,
        level2_pages: 1,
        total_bytes: 3 * NVIDIA_GSP_PAGE_SIZE,
    };
    let tables = layout
        .materialize(0x1000, 0x5000, &[0x9000], &[0x11_000, 0x23_000])
        .expect("radix-3 tables");
    assert_eq!(read_test_u64(&tables.level0, 0), 0x5000);
    assert_eq!(read_test_u64(&tables.level1, 0), 0x9000);
    assert_eq!(read_test_u64(&tables.level2, 0), 0x11_000);
    assert_eq!(read_test_u64(&tables.level2, 8), 0x23_000);
    assert!(tables.level2[16..].iter().all(|byte| *byte == 0));
}

#[test]
fn materializes_shared_memory_page_table_and_command_header() {
    let layout = GspSharedMemoryLayout::standard();
    let pages: Vec<u64> = (0..layout.page_table_entry_count)
        .map(|index| 0x4000_0000 + (index as u64) * NVIDIA_GSP_PAGE_SIZE as u64)
        .collect();
    let shared = layout.materialize(&pages).expect("shared memory");
    assert_eq!(shared.page_table_address, pages[0]);
    assert_eq!(shared.page_table.len(), NVIDIA_GSP_PAGE_SIZE);
    assert_eq!(shared.command_queue.len(), NVIDIA_GSP_SHARED_QUEUE_BYTES);
    assert_eq!(shared.status_queue.len(), NVIDIA_GSP_SHARED_QUEUE_BYTES);
    assert_eq!(read_test_u64(&shared.page_table, 0), pages[0]);
    assert_eq!(read_test_u64(&shared.page_table, 128 * 8), pages[128]);
    let header = GspQueueHeader::r570_command(layout).expect("queue header");
    assert_eq!(
        &shared.command_queue[..NVIDIA_GSP_QUEUE_HEADER_SIZE],
        &header.encode()
    );
    assert!(shared.status_queue.iter().all(|byte| *byte == 0));
}

#[test]
fn encodes_r570_cached_arguments_at_the_openrm_wire_offsets() {
    let layout = GspSharedMemoryLayout::standard();
    let arguments = GspCachedArguments::r570(0x8000, layout)
        .expect("cached arguments")
        .encode();
    assert_eq!(arguments.len(), NVIDIA_GSP_R570_CACHED_ARGUMENTS_SIZE);
    assert_eq!(read_test_u64(&arguments, 0), 0x8000);
    assert_eq!(read_test_u32(&arguments, 8), 129);
    assert_eq!(read_test_u64(&arguments, 16), 4096);
    assert_eq!(
        read_test_u64(&arguments, 24),
        4096 + NVIDIA_GSP_SHARED_QUEUE_BYTES as u64
    );
    assert_eq!(read_test_u32(&arguments, 32), 0);
    assert_eq!(arguments[40], 0);
    assert_eq!(read_test_u32(&arguments, 44), 0);
    assert_eq!(arguments[48], 1);
    assert!(arguments[49..].iter().all(|byte| *byte == 0));
}

#[test]
fn rejects_unaligned_or_incomplete_gsp_memory_inputs() {
    let layout = GspSharedMemoryLayout::standard();
    assert_eq!(
        layout.materialize(&[0x1001]),
        Err(GspMemoryError::PageCountMismatch {
            expected: 129,
            actual: 1
        })
    );
    assert_eq!(
        GspCachedArguments::r570(0x1001, layout),
        Err(GspMemoryError::AddressUnaligned { address: 0x1001 })
    );

    let mut small_shared_layout = layout;
    small_shared_layout.page_table_bytes = 8;
    let pages = vec![0x2000; layout.page_table_entry_count];
    assert_eq!(
        small_shared_layout.materialize(&pages),
        Err(GspMemoryError::BufferTooSmall {
            required: 129 * 8,
            actual: 8
        })
    );

    let small_radix3 = GspRadix3Layout {
        image_pages: 1,
        level0_bytes: 0,
        level1_bytes: NVIDIA_GSP_PAGE_SIZE,
        level2_bytes: NVIDIA_GSP_PAGE_SIZE,
        level2_pages: 1,
        total_bytes: 2 * NVIDIA_GSP_PAGE_SIZE,
    };
    assert_eq!(
        small_radix3.materialize(0x3000, 0x4000, &[0x5000], &[0x6000]),
        Err(GspMemoryError::BufferTooSmall {
            required: 8,
            actual: 0
        })
    );
}

#[test]
fn boot_layout_requires_the_generation_signature() {
    let mut bytes = synthetic_firmware();
    let signature_name = b".fwsignature_gb20x";
    let name_offset = name_offset(
        b"\0.fwimage\0.fwversion\0.fwsignature_gb20x\0.shstrtab\0",
        signature_name,
    );
    let section_table_offset = read_test_u64(&bytes, 40) as usize;
    write_le_u32(
        &mut bytes,
        section_table_offset + 3 * NVIDIA_GSP_ELF_SECTION_HEADER_SIZE,
        name_offset as u32 + 1,
    );
    let firmware = GspFirmware::parse(&bytes).expect("firmware");
    assert_eq!(
        firmware.boot_layout(),
        Err(GspBootPlanError::MissingGb20xSignature)
    );
}

#[test]
fn rejects_non_riscv_firmware() {
    let mut bytes = synthetic_firmware();
    write_le_u16(&mut bytes, 18, 0x8664);
    assert_eq!(
        GspFirmware::parse(&bytes),
        Err(GspFirmwareError::UnsupportedMachine { value: 0x8664 })
    );
}

#[test]
fn encodes_exact_r570_system_info_fields() {
    let bytes = GspSystemInfoR570::r570_gb20x(
        0x1234_5678_9abc_def0,
        0x2222_0000,
        0x3333_0000,
        0x0b00,
        0x2f04,
        0x10de,
        0x1234,
        0x5678,
        0xa1,
    )
    .encode();
    assert_eq!(bytes.len(), NVIDIA_GSP_R570_SYSTEM_INFO_SIZE);
    assert_eq!(read_test_u64(&bytes, 0), 0x1234_5678_9abc_def0);
    assert_eq!(read_test_u64(&bytes, 8), 0x2222_0000);
    assert_eq!(read_test_u64(&bytes, 16), 0x3333_0000);
    assert_eq!(read_test_u64(&bytes, 32), 0x0b00);
    assert_eq!(read_test_u64(&bytes, 72), NVIDIA_GSP_R570_MAX_USER_VA);
    assert_eq!(read_test_u32(&bytes, 80), NVIDIA_GSP_R570_PCI_CONFIG_MIRROR_BASE);
    assert_eq!(read_test_u32(&bytes, 84), NVIDIA_GSP_R570_PCI_CONFIG_MIRROR_SIZE);
    assert_eq!(read_test_u32(&bytes, 88), 0x2f04_10de);
    assert_eq!(read_test_u32(&bytes, 92), 0x1234_5678);
    assert_eq!(read_test_u32(&bytes, 96), 0xa1);
    assert_eq!(read_test_u32(&bytes, 120), NVIDIA_GSP_R570_CHIPSET_GB205);
    assert!(bytes[128..].iter().all(|byte| *byte == 0));
}

#[test]
fn encodes_linux_r570_registry_table_layout() {
    let bytes = encode_gsp_registry();
    assert_eq!(bytes.len(), 117);
    assert_eq!(read_test_u32(&bytes, 0), 109);
    assert_eq!(read_test_u32(&bytes, 4), 3);
    assert_eq!(read_test_u32(&bytes, 8), 56);
    assert_eq!(bytes[12], NVIDIA_GSP_REGISTRY_DWORD);
    assert_eq!(read_test_u32(&bytes, 16), 1);
    assert_eq!(read_test_u32(&bytes, 24), 76);
    assert_eq!(read_test_u32(&bytes, 40), 98);
    assert_eq!(&bytes[56..76], b"RMSecBusResetEnable\0");
    assert_eq!(&bytes[76..98], b"RMForcePcieConfigSave\0");
    assert_eq!(&bytes[98..117], b"RMDevidCheckIgnore\0");
}

#[test]
fn parses_r570_static_info_gpu_name_at_wire_offset() {
    let mut payload = encode_gsp_static_info_request().to_vec();
    payload[NVIDIA_GSP_R570_STATIC_GPU_NAME_OFFSET..][..13].copy_from_slice(b"NVIDIA GB205\0");
    let info = parse_gsp_static_info(&payload).expect("static info");
    assert_eq!(&info.gpu_name[..13], b"NVIDIA GB205\0");
    assert_eq!(
        parse_gsp_static_info(&payload[..NVIDIA_GSP_R570_STATIC_CONFIG_INFO_SIZE - 1]),
        Err(GspStaticInfoError::PayloadTooSmall {
            required: NVIDIA_GSP_R570_STATIC_CONFIG_INFO_SIZE,
            actual: NVIDIA_GSP_R570_STATIC_CONFIG_INFO_SIZE - 1,
        })
    );
    payload[NVIDIA_GSP_R570_STATIC_GPU_NAME_OFFSET..NVIDIA_GSP_R570_STATIC_GPU_NAME_OFFSET + 64]
        .fill(0);
    assert_eq!(
        parse_gsp_static_info(&payload),
        Err(GspStaticInfoError::GpuNameEmpty)
    );
    payload[NVIDIA_GSP_R570_STATIC_GPU_NAME_OFFSET..NVIDIA_GSP_R570_STATIC_GPU_NAME_OFFSET + 64]
        .fill(b'X');
    assert_eq!(
        parse_gsp_static_info(&payload),
        Err(GspStaticInfoError::GpuNameNotTerminated)
    );
}

#[test]
fn encodes_page_aligned_rpc_with_valid_checksum() {
    let message = encode_gsp_rpc(0x1234, 7, b"hello").expect("rpc");
    let message = GspRpcMessage::parse(&message).expect("message");
    assert_eq!(message.bytes().len(), NVIDIA_GSP_PAGE_SIZE);
    assert_eq!(message.sequence(), 7);
    assert_eq!(message.transport_sequence(), 7);
    assert_eq!(message.rpc_sequence(), 0);
    assert_eq!(message.element_count(), 1);
    assert_eq!(message.function(), 0x1234);
    assert_eq!(message.payload(), b"hello");
    assert!(message.checksum_valid());
}

#[test]
fn encodes_distinct_transport_and_rpc_sequences() {
    let bytes = encode_gsp_rpc_with_sequences(65, 11, 0, b"static-info").expect("rpc");
    let message = GspRpcMessage::parse(&bytes).expect("message");
    assert_eq!(message.transport_sequence(), 11);
    assert_eq!(message.rpc_sequence(), 0);
    assert_eq!(message.function(), NVIDIA_GSP_FUNCTION_GET_GSP_STATIC_INFO);
}

#[test]
fn enqueues_and_receives_wrapped_r570_queue_elements() {
    let mut message = encode_gsp_rpc_with_sequences(
        NVIDIA_GSP_FUNCTION_GET_GSP_STATIC_INFO,
        3,
        3,
        b"static-info",
    )
    .expect("rpc");
    message[NVIDIA_GSP_PAGE_SIZE - 1] = 0xa5;
    let mut command_queue = vec![0u8; NVIDIA_GSP_SHARED_QUEUE_BYTES];
    let mut command = GspQueue::new(&mut command_queue).expect("command queue");
    assert_eq!(command.available_entries().expect("capacity"), 62);
    assert_eq!(command.write_message(&message).expect("enqueue"), 1);
    assert_eq!(command.write_pointer().expect("write pointer"), 1);
    drop(command);
    let command_message_offset = queue_slot_offset(0).expect("slot");
    assert_eq!(
        GspRpcMessage::parse(
            &command_queue[command_message_offset..command_message_offset + NVIDIA_GSP_PAGE_SIZE]
        )
        .expect("queued message")
        .function(),
        NVIDIA_GSP_FUNCTION_GET_GSP_STATIC_INFO
    );

    let mut status_queue = vec![0u8; NVIDIA_GSP_SHARED_QUEUE_BYTES];
    let wrapped_slot =
        queue_slot_offset((NVIDIA_GSP_QUEUE_ENTRY_COUNT - 1) as u32).expect("wrapped slot");
    status_queue[wrapped_slot..wrapped_slot + NVIDIA_GSP_PAGE_SIZE].copy_from_slice(&message);
    write_le_u32(&mut status_queue, NVIDIA_GSP_QUEUE_TX_WRITE_POINTER_OFFSET, 0);
    write_le_u32(&mut status_queue, NVIDIA_GSP_QUEUE_RX_READ_POINTER_OFFSET, 62);
    let mut status = GspQueue::new(&mut status_queue).expect("status queue");
    let received = status
        .try_receive_message()
        .expect("receive")
        .expect("message available");
    let received = GspRpcMessage::parse(&received).expect("received message");
    assert_eq!(received.function(), NVIDIA_GSP_FUNCTION_GET_GSP_STATIC_INFO);
    assert_eq!(received.transport_sequence(), 3);
    assert_eq!(status.read_pointer().expect("read pointer"), 0);
}

#[test]
fn rejects_an_rpc_payload_that_exceeds_sixteen_pages() {
    let payload = vec![0u8; NVIDIA_GSP_MAX_MESSAGE_PAGES * NVIDIA_GSP_PAGE_SIZE];
    assert!(matches!(
        encode_gsp_rpc(1, 0, &payload),
        Err(GspRpcError::PayloadTooLarge { .. })
    ));
}

#[test]
fn rejects_a_message_that_exceeds_the_queue_element_limit() {
    let pages = NVIDIA_GSP_MAX_MESSAGE_PAGES + 1;
    let bytes = vec![0u8; pages * NVIDIA_GSP_PAGE_SIZE];
    assert!(matches!(
        GspRpcMessage::parse(&bytes),
        Err(GspRpcError::MessageTooLarge {
            pages: actual_pages,
            limit: NVIDIA_GSP_MAX_MESSAGE_PAGES
        }) if actual_pages == pages
    ));
}

#[test]
fn plans_r570_system_memory_and_materializes_boot_inputs() {
    let bytes = synthetic_firmware();
    let firmware = GspFirmware::parse(&bytes).expect("firmware");
    let layout = firmware.boot_layout().expect("boot layout");
    let plan = GspBootSystemMemoryPlan::r570_from_layout(layout, 0x20_000, 0x3000, 0x1000_0000)
        .expect("system-memory plan");
    let regions = [
        plan.fmc_image,
        plan.gsp_image,
        plan.radix3_level0,
        plan.radix3_level1,
        plan.radix3_level2,
        plan.signature,
        plan.bootloader,
        plan.wpr_meta,
        plan.fmc_args,
        plan.libos_args,
        plan.loginit,
        plan.logintr,
        plan.logrm,
        plan.shared_memory,
        plan.rm_args,
    ];
    for pair in regions.windows(2) {
        assert!(pair[0].end().expect("region end") <= pair[1].address);
    }
    assert_eq!(plan.total_bytes, (plan.end_address - 0x1000_0000) as usize);

    let radix3 = plan.radix3_tables().expect("radix-3 tables");
    assert_eq!(read_test_u64(&radix3.level0, 0), plan.radix3_level1.address);
    assert_eq!(read_test_u64(&radix3.level2, 0), plan.gsp_image.address);
    let shared = plan.shared_memory_image().expect("shared memory");
    assert_eq!(shared.page_table_address, plan.shared_memory.address);
    let cached_arguments = plan.cached_arguments().expect("cached arguments");
    assert_eq!(read_test_u64(&cached_arguments, 0), plan.shared_memory.address);

    let framebuffer = GspFramebufferLayout::r570_gb20x(
        16 * (1u64 << 30),
        16 * (1u64 << 30) - 0x20_000,
        plan.gsp_image_bytes,
        plan.bootloader_bytes,
    )
    .expect("framebuffer layout");
    assert_eq!(
        framebuffer.non_wpr_heap_address + framebuffer.non_wpr_heap_size,
        framebuffer.wpr_start
    );
    assert_eq!(
        framebuffer.wpr_end,
        framebuffer.frts_address + framebuffer.frts_size
    );
    assert_eq!(
        framebuffer.frts_vidmem_offset().expect("FRTS COT offset"),
        framebuffer.framebuffer_size - framebuffer.frts_address
    );
    let meta = plan.wpr_meta(framebuffer).expect("WPR metadata");
    assert_eq!(read_test_u64(&meta.encode(), 16), plan.radix3_level0.address);
    let fmc_args = plan.fmc_boot_params();
    assert_eq!(read_test_u64(&fmc_args, 16), plan.wpr_meta.address);
    assert_eq!(read_test_u64(&fmc_args, 48), plan.libos_args.address);
}

#[test]
fn materializes_r570_bundle_into_linked_system_image() {
    let gsp_bytes = synthetic_firmware();
    let gsp = GspFirmware::parse(&gsp_bytes).expect("firmware");
    let fmc_bytes = (0u8..16).collect::<Vec<_>>();
    let fmc = GspFmc {
        hash: FirmwareSection { offset: 0, size: 4 },
        signature: FirmwareSection { offset: 4, size: 4 },
        public_key: FirmwareSection { offset: 8, size: 4 },
        image: FirmwareSection {
            offset: 12,
            size: 4,
        },
        section_count: 6,
    };
    let bootloader_bytes = vec![0x11, 0x22, 0x33, 0x44, 0x55, 0x66, 0x77, 0x88];
    let bootloader = GspBootloader {
        bin_size: bootloader_bytes.len(),
        header_offset: 0,
        data_offset: 2,
        data_size: 4,
        payload: FirmwareSection { offset: 2, size: 4 },
        descriptor: GspRmUcodeDescriptor {
            version: 5,
            bootloader_offset: 0,
            bootloader_size: 0,
            bootloader_param_offset: 0,
            bootloader_param_size: 0,
            riscv_elf_offset: 0,
            riscv_elf_size: 0,
            app_version: 0x55,
            manifest_offset: 0,
            manifest_size: 0,
            monitor_data_offset: 2,
            monitor_data_size: 1,
            monitor_code_offset: 1,
            monitor_code_size: 1,
            monitor_enabled: 0,
            swbrom_code_offset: 0,
            swbrom_code_size: 0,
            swbrom_data_offset: 0,
            swbrom_data_size: 0,
            framebuffer_reserved_size: 0,
            signed_as_code: 0,
        },
    };
    let bundle = GspFirmwareBundle {
        gsp,
        fmc,
        bootloader,
    };
    let plan =
        GspBootSystemMemoryPlan::r570_gb20x(bundle, 0x1000_0000).expect("system-memory plan");
    let framebuffer = GspFramebufferLayout::r570_gb20x(
        16 * (1u64 << 30),
        16 * (1u64 << 30) - 0x20_000,
        plan.gsp_image_bytes,
        plan.bootloader_bytes,
    )
    .expect("framebuffer layout");
    let mut output = vec![0u8; plan.total_bytes];
    plan.materialize_bundle_into(
        bundle,
        &gsp_bytes,
        &fmc_bytes,
        &bootloader_bytes,
        framebuffer,
        &mut output,
    )
    .expect("materialized system image");

    let offset = |region: GspMemoryRegion| (region.address - plan.system_base) as usize;
    let fmc_offset = offset(plan.fmc_image);
    assert_eq!(&output[fmc_offset..fmc_offset + 4], &fmc_bytes[12..16]);
    let gsp_offset = offset(plan.gsp_image);
    assert_eq!(
        &output[gsp_offset..gsp_offset + gsp.image.size],
        &gsp_bytes[gsp.image.offset..gsp.image.offset + gsp.image.size]
    );
    assert!(output[gsp_offset + gsp.image.size..gsp_offset + plan.gsp_image.size]
        .iter()
        .all(|byte| *byte == 0));
    let signature_offset = offset(plan.signature);
    assert_eq!(
        &output[signature_offset..signature_offset + gsp.gb20x_signature.unwrap().size],
        &gsp_bytes[gsp.gb20x_signature.unwrap().offset
            ..gsp.gb20x_signature.unwrap().offset + gsp.gb20x_signature.unwrap().size]
    );
    let bootloader_offset = offset(plan.bootloader);
    assert_eq!(
        &output[bootloader_offset..bootloader_offset + 4],
        &bootloader_bytes[2..6]
    );

    let radix3_level0_offset = offset(plan.radix3_level0);
    assert_eq!(
        read_test_u64(&output[radix3_level0_offset..], 0),
        plan.radix3_level1.address
    );
    let shared_offset = offset(plan.shared_memory);
    assert_eq!(
        read_test_u64(&output[shared_offset..], 0),
        plan.shared_memory.address
    );
    let rm_args_offset = offset(plan.rm_args);
    assert_eq!(
        read_test_u64(&output[rm_args_offset..], 0),
        plan.shared_memory.address
    );
    let wpr_meta_offset = offset(plan.wpr_meta);
    assert_eq!(
        read_test_u64(&output[wpr_meta_offset..], 16),
        plan.radix3_level0.address
    );
    let fmc_args_offset = offset(plan.fmc_args);
    assert_eq!(
        read_test_u64(&output[fmc_args_offset..], 16),
        plan.wpr_meta.address
    );

    let mut small_output = vec![0u8; plan.total_bytes - 1];
    assert_eq!(
        plan.materialize_bundle_into(
            bundle,
            &gsp_bytes,
            &fmc_bytes,
            &bootloader_bytes,
            framebuffer,
            &mut small_output,
        ),
        Err(GspMaterializationError::BufferTooSmall {
            required: plan.total_bytes,
            actual: plan.total_bytes - 1,
        })
    );
}

#[test]
fn rejects_unaligned_system_memory_base() {
    let bytes = synthetic_firmware();
    let layout = GspFirmware::parse(&bytes)
        .expect("firmware")
        .boot_layout()
        .expect("boot layout");
    assert_eq!(
        GspBootSystemMemoryPlan::r570_from_layout(layout, 1, 1, 0x1001),
        Err(GspSystemMemoryPlanError::BaseUnaligned { address: 0x1001 })
    );
}

#[test]
fn rejects_framebuffer_that_cannot_fit_the_gb20x_wpr() {
    assert!(matches!(
        GspFramebufferLayout::r570_gb20x(
            32 * 1024 * 1024,
            31 * 1024 * 1024,
            64 * 1024 * 1024,
            64 * 1024
        ),
        Err(GspFramebufferLayoutError::AddressUnderflow)
            | Err(GspFramebufferLayoutError::TooSmall { .. })
    ));
}

#[test]
fn encodes_r570_fmc_boot_params_with_c_layout_padding() {
    let params = GspFmcBootParams::r570(0x1234_5000, 256, 0x9876_0000).encode();
    assert_eq!(params.len(), NVIDIA_GSP_FMC_BOOT_PARAMS_SIZE);
    assert_eq!(read_test_u32(&params, 0), 0);
    assert_eq!(read_test_u32(&params, 8), NVIDIA_GSP_DMA_TARGET_COHERENT_SYSTEM);
    assert_eq!(read_test_u32(&params, 12), 256);
    assert_eq!(read_test_u64(&params, 16), 0x1234_5000);
    assert_eq!(read_test_u64(&params, 24), 0);
    assert_eq!(read_test_u32(&params, 32), 0);
    assert_eq!(read_test_u32(&params, 36), 1);
    assert_eq!(read_test_u32(&params, 40), NVIDIA_GSP_DMA_TARGET_NONCOHERENT_SYSTEM);
    assert_eq!(read_test_u64(&params, 48), 0x9876_0000);
    assert_eq!(read_test_u32(&params, 56), 0);
    assert_eq!(read_test_u64(&params, 64), 0);
    assert_eq!(read_test_u32(&params, 72), 0);
    assert!(params[76..].iter().all(|byte| *byte == 0));
}

#[test]
fn encodes_r570_wpr_meta_at_the_256_byte_wire_offsets() {
    let mut meta = GspWprMeta::zeroed();
    meta.sysmem_addr_of_radix3_elf = 0x1000;
    meta.size_of_radix3_elf = 0x2000;
    meta.sysmem_addr_of_signature = 0x3000;
    meta.size_of_signature = 0x100;
    meta.gsp_fw_wpr_end = 0x4000;
    meta.partition_rpc_addr = 0x5000;
    meta.partition_rpc_request_offset = 0x12;
    meta.partition_rpc_reply_offset = 0x34;
    meta.elf_code_offset = 0x56;
    meta.elf_data_offset = 0x78;
    meta.elf_code_size = 0x90;
    meta.elf_data_size = 0xab;
    meta.ls_ucode_version = 0xcd;
    meta.gsp_fw_heap_vf_partition_count = 2;
    meta.flags = 3;
    meta.pmu_reserved_size = 0x1000;
    meta.verified = 0xa0a0_a0a0_a0a0_a0a0;
    let bytes = meta.encode();

    assert_eq!(bytes.len(), NVIDIA_GSP_WPR_META_SIZE);
    assert_eq!(read_test_u64(&bytes, 0), NVIDIA_GSP_WPR_META_MAGIC);
    assert_eq!(read_test_u64(&bytes, 8), NVIDIA_GSP_WPR_META_REVISION);
    assert_eq!(read_test_u64(&bytes, 16), 0x1000);
    assert_eq!(read_test_u64(&bytes, 24), 0x2000);
    assert_eq!(read_test_u64(&bytes, 72), 0x3000);
    assert_eq!(read_test_u64(&bytes, 80), 0x100);
    assert_eq!(read_test_u64(&bytes, 168), 0x4000);
    assert_eq!(read_test_u64(&bytes, 208), 0x5000);
    assert_eq!(read_test_u16(&bytes, 216), 0x12);
    assert_eq!(read_test_u16(&bytes, 218), 0x34);
    assert_eq!(read_test_u32(&bytes, 220), 0x56);
    assert_eq!(read_test_u32(&bytes, 224), 0x78);
    assert_eq!(read_test_u32(&bytes, 228), 0x90);
    assert_eq!(read_test_u32(&bytes, 232), 0xab);
    assert_eq!(read_test_u32(&bytes, 236), 0xcd);
    assert_eq!(bytes[240], 2);
    assert_eq!(bytes[241], 3);
    assert_eq!(read_test_u32(&bytes, 244), 0x1000);
    assert_eq!(read_test_u64(&bytes, 248), 0xa0a0_a0a0_a0a0_a0a0);
}

#[test]
fn a_flipped_covered_byte_breaks_the_rpc_checksum() {
    let message = rustos::gpu::rpc::encode_gsp_rpc(0x1234, 7, b"checksum covered payload").unwrap();
    assert!(rustos::gpu::rpc::GspRpcMessage::parse(&message).unwrap().checksum_valid());
    for index in [0usize, 17, 31, 80, 90, 103] {
        let mut corrupted = message.clone();
        corrupted[index] ^= 0x40;
        let parsed = rustos::gpu::rpc::GspRpcMessage::parse(&corrupted).unwrap();
        assert!(!parsed.checksum_valid(), "byte {index} went unnoticed");
    }
}
