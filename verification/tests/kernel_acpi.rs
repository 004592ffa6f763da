use rustos::kernel::acpi::{check_root_address, tables_to_load};
use rustos::kernel::acpi::{root_entry_size, select_tables};
use rustos::kernel::acpi::{
    check_rsdp, checksum_is_valid, fadt_dsdt_address, fadt_facs_address, parse_aml_integer,
    parse_aml_package_length, parse_facs_header, parse_madt, parse_reset_register,
    parse_s5_sleep_types, parse_sleep_types, power_info, root_table_entries, rsdp_v2_length,
    table_length, AcpiError, AcpiInfo, AcpiResetRegister, InterruptOverride, IoApicInfo,
    PhysicalMemory, ProcessorInfo, ACPI_HEADER_LENGTH, FACS_LENGTH_OFFSET, FACS_MINIMUM_LENGTH,
    FACS_VERSION_OFFSET, FADT_RESET_REGISTER_OFFSET, FADT_RESET_VALUE_OFFSET, MAX_LEGACY_IRQS,
    MAX_PROCESSORS,
};

const EMPTY_PROCESSOR: ProcessorInfo = ProcessorInfo { uid: 0, apic_id: 0, enabled: false, x2apic: false };

fn fix_checksum(table: &mut [u8]) {
    table[9] = 0u8.wrapping_sub(
        table
            .iter()
            .enumerate()
            .filter(|(index, _)| *index != 9)
            .fold(0u8, |sum, (_, byte)| sum.wrapping_add(*byte)),
    );
}

#[test]
fn parses_madt_processor_and_io_apic_records() {
    let mut table = [0u8; 74];
    table[0..4].copy_from_slice(b"APIC");
    let table_length = table.len() as u32;
    table[4..8].copy_from_slice(&table_length.to_le_bytes());
    table[36..40].copy_from_slice(&0xfee0_0000u32.to_le_bytes());
    table[40..44].copy_from_slice(&1u32.to_le_bytes());

    table[44] = 0;
    table[45] = 8;
    table[48] = 1;

    table[52] = 1;
    table[53] = 12;
    table[54] = 1;
    table[56..60].copy_from_slice(&0xfec0_0000u32.to_le_bytes());

    table[64] = 2;
    table[65] = 10;
    table[67] = 11;
    table[68..72].copy_from_slice(&11u32.to_le_bytes());
    table[72..74].copy_from_slice(&0x000du16.to_le_bytes());

    fix_checksum(&mut table);
    let info = parse_madt(&table).unwrap();
    assert_eq!(info.local_apic_address, 0xfee0_0000);
    assert_eq!(info.processor_count, 1);
    assert_eq!(info.enabled_processor_count, 1);
    assert_eq!(info.io_apic_count, 1);
    assert_eq!(
        info.io_apic,
        Some(IoApicInfo { id: 1, address: 0xfec0_0000, gsi_base: 0 })
    );
    assert_eq!(info.timer_gsi, 0);
    assert_eq!(info.timer_flags, 0);
    assert_eq!(
        info.interrupt_overrides[11],
        Some(InterruptOverride { source: 11, gsi: 11, flags: 0x000d })
    );
    assert_eq!(info.interrupt_overrides[5], None);
}

#[test]
fn rejects_bad_checksums_and_malformed_entries() {
    let mut table = [0u8; 52];
    table[0..4].copy_from_slice(b"APIC");
    let table_length = table.len() as u32;
    table[4..8].copy_from_slice(&table_length.to_le_bytes());
    table[36..40].copy_from_slice(&0xfee0_0000u32.to_le_bytes());
    table[44] = 0;
    table[45] = 1;
    assert_eq!(parse_madt(&table), Err(AcpiError::InvalidMadt));

    table[45] = 8;
    assert_eq!(parse_madt(&table), Err(AcpiError::InvalidMadt));
}

#[test]
fn parses_x2apic_processor_identity_and_flags() {
    let mut table = [0u8; 60];
    table[0..4].copy_from_slice(b"APIC");
    let table_length = table.len() as u32;
    table[4..8].copy_from_slice(&table_length.to_le_bytes());
    table[36..40].copy_from_slice(&0xfee0_0000u32.to_le_bytes());

    table[44] = 9;
    table[45] = 16;
    table[48..52].copy_from_slice(&7u32.to_le_bytes());
    table[52..56].copy_from_slice(&0x1234u32.to_le_bytes());
    table[56..60].copy_from_slice(&1u32.to_le_bytes());
    fix_checksum(&mut table);

    let info = parse_madt(&table).unwrap();
    assert_eq!(info.processor_count, 1);
    assert_eq!(info.enabled_processor_count, 1);
    assert_eq!(
        info.processors[0],
        ProcessorInfo { uid: 7, apic_id: 0x1234, enabled: true, x2apic: true }
    );
}

#[test]
fn resolves_legacy_irq_routes_with_overrides() {
    let mut interrupt_overrides = [None; MAX_LEGACY_IRQS];
    interrupt_overrides[11] = Some(InterruptOverride { source: 11, gsi: 19, flags: 0x000d });
    let info = AcpiInfo {
        revision: 2,
        rsdp_address: 0,
        root_table_address: 0,
        madt_address: 0,
        fadt_address: None,
        local_apic_address: 0xfee0_0000,
        processor_count: 0,
        enabled_processor_count: 0,
        processors: [EMPTY_PROCESSOR; MAX_PROCESSORS],
        io_apic_count: 1,
        io_apic: Some(IoApicInfo { id: 0, address: 0xfec0_0000, gsi_base: 0 }),
        timer_gsi: 2,
        timer_flags: 0,
        interrupt_overrides,
        power: None,
    };

    assert_eq!(info.legacy_irq_route(11), Some((19, 0x000d)));
    assert_eq!(info.legacy_irq_route(5), Some((5, 0)));
    assert_eq!(info.legacy_irq_route(16), None);
}

fn dsdt_with(aml: &[u8; 12]) -> [u8; ACPI_HEADER_LENGTH + 12] {
    let mut dsdt = [0u8; ACPI_HEADER_LENGTH + 12];
    let dsdt_length = dsdt.len() as u32;
    dsdt[0..4].copy_from_slice(b"DSDT");
    dsdt[4..8].copy_from_slice(&dsdt_length.to_le_bytes());
    dsdt[ACPI_HEADER_LENGTH..].copy_from_slice(aml);
    fix_checksum(&mut dsdt);
    dsdt
}

#[test]
fn parses_acpi_s5_sleep_package() {
    let aml = [0x08, b'_', b'S', b'5', b'_', 0x12, 0x06, 0x02, 0x0a, 0x07, 0x0a, 0x07];
    let dsdt = dsdt_with(&aml);

    assert_eq!(parse_s5_sleep_types(&dsdt), Some((7, 7)));
}

#[test]
fn parses_acpi_s3_sleep_package() {
    let aml = [0x08, b'_', b'S', b'3', b'_', 0x12, 0x06, 0x02, 0x0a, 0x05, 0x0a, 0x05];
    let dsdt = dsdt_with(&aml);

    assert_eq!(parse_sleep_types(&dsdt, 3), Some((5, 5)));
}

#[test]
fn parses_system_io_reset_register_from_fadt() {
    let mut fadt = [0u8; FADT_RESET_VALUE_OFFSET + 1];
    fadt[FADT_RESET_REGISTER_OFFSET] = 1;
    fadt[FADT_RESET_REGISTER_OFFSET + 1] = 8;
    fadt[FADT_RESET_REGISTER_OFFSET + 3] = 1;
    fadt[FADT_RESET_REGISTER_OFFSET + 4..FADT_RESET_REGISTER_OFFSET + 12]
        .copy_from_slice(&0xcf9u64.to_le_bytes());
    fadt[FADT_RESET_VALUE_OFFSET] = 0x06;

    assert_eq!(
        parse_reset_register(&fadt),
        Some(AcpiResetRegister {
            address_space: 1,
            bit_width: 8,
            bit_offset: 0,
            access_size: 1,
            address: 0xcf9,
            value: 0x06,
        })
    );
}

#[test]
fn parses_versioned_facs_with_bounded_length() {
    let mut facs = [0u8; 64];
    let facs_length = facs.len() as u32;
    facs[0..4].copy_from_slice(b"FACS");
    facs[FACS_LENGTH_OFFSET..FACS_LENGTH_OFFSET + 4].copy_from_slice(&facs_length.to_le_bytes());
    facs[FACS_VERSION_OFFSET] = 2;

    assert_eq!(parse_facs_header(0, &facs), Some((0, facs_length, 2)));
}

#[test]
fn rejects_facs_with_invalid_signature_or_length() {
    let mut facs = [0u8; FACS_MINIMUM_LENGTH];
    facs[FACS_LENGTH_OFFSET..FACS_LENGTH_OFFSET + 4]
        .copy_from_slice(&(FACS_MINIMUM_LENGTH as u32 - 1).to_le_bytes());
    assert_eq!(parse_facs_header(0, &facs), None);

    facs[FACS_LENGTH_OFFSET..FACS_LENGTH_OFFSET + 4]
        .copy_from_slice(&(FACS_MINIMUM_LENGTH as u32).to_le_bytes());
    facs[0..4].copy_from_slice(b"FACS");
    assert_eq!(parse_facs_header(0, &facs), Some((0, FACS_MINIMUM_LENGTH as u32, 0)));

    facs[0..4].copy_from_slice(b"NOPE");
    assert_eq!(parse_facs_header(0, &facs), None);
}

#[test]
fn checksums_sum_bytes_modulo_256() {
    assert!(checksum_is_valid(&[]));
    assert!(checksum_is_valid(&[0x80, 0x80]));
    assert!(!checksum_is_valid(&[1]));
}

#[test]
fn decodes_aml_package_lengths_and_integers() {
    assert_eq!(parse_aml_package_length(&[0x06]), Some((6, 1)));
    assert_eq!(parse_aml_package_length(&[0x41, 0x02]), Some((0x21, 2)));
    assert_eq!(parse_aml_package_length(&[0x80, 0x01]), None);
    assert_eq!(parse_aml_integer(&[0x00]), Some((0, 1)));
    assert_eq!(parse_aml_integer(&[0x01]), Some((1, 1)));
    assert_eq!(parse_aml_integer(&[0x0a, 0x05]), Some((5, 2)));
    assert_eq!(parse_aml_integer(&[0x0b, 0x34, 0x12]), Some((0x1234, 3)));
    assert_eq!(parse_aml_integer(&[0x0c, 0x01, 0x00, 0x00, 0x00]), Some((1, 5)));
    assert_eq!(parse_aml_integer(&[0x0c, 0x00, 0x00, 0x01, 0x00]), None);
    assert_eq!(parse_aml_integer(&[0x0e, 7, 0, 0, 0, 0, 0, 0, 0]), Some((7, 9)));
    assert_eq!(parse_aml_integer(&[0x0d]), None);
}

#[test]
fn skips_sleep_packages_with_large_values() {
    let aml = [0x08, b'_', b'S', b'5', b'_', 0x12, 0x06, 0x02, 0x0a, 0x09, 0x0a, 0x07];
    assert_eq!(parse_s5_sleep_types(&dsdt_with(&aml)), None);
    assert_eq!(parse_sleep_types(&dsdt_with(&aml), 10), None);
}

#[test]
fn reads_rsdp_and_root_table_fields() {
    let mut rsdp = [0u8; 20];
    rsdp[..8].copy_from_slice(b"RSD PTR ");
    rsdp[15] = 0;
    rsdp[16..20].copy_from_slice(&0x1234u32.to_le_bytes());
    fix_checksum(&mut rsdp);
    assert_eq!(check_rsdp(&rsdp), Ok(0));
    let mut bad = rsdp;
    bad[3] = b'X';
    assert_eq!(check_rsdp(&bad), Err(AcpiError::InvalidRsdpSignature));
    bad = rsdp;
    bad[19] ^= 1;
    assert_eq!(check_rsdp(&bad), Err(AcpiError::InvalidRsdpChecksum));

    let mut v2 = [0u8; 36];
    v2[20..24].copy_from_slice(&36u32.to_le_bytes());
    assert_eq!(rsdp_v2_length(&v2), Ok(36));
    v2[20..24].copy_from_slice(&35u32.to_le_bytes());
    assert_eq!(rsdp_v2_length(&v2), Err(AcpiError::InvalidRsdpLength));

    let mut header = [0u8; 36];
    header[4..8].copy_from_slice(&44u32.to_le_bytes());
    assert_eq!(table_length(&header), Ok(44));
    header[4..8].copy_from_slice(&0x200000u32.to_le_bytes());
    assert_eq!(table_length(&header), Err(AcpiError::InvalidRootTable));

    let mut xsdt = [0u8; 52];
    xsdt[..4].copy_from_slice(b"XSDT");
    xsdt[36..44].copy_from_slice(&0x1000u64.to_le_bytes());
    xsdt[44..52].copy_from_slice(&0x2000u64.to_le_bytes());
    assert_eq!(root_table_entries(&xsdt, 8), Ok(vec![0x1000, 0x2000]));
    assert_eq!(root_table_entries(&xsdt, 4), Err(AcpiError::InvalidRootTable));
    assert_eq!(root_table_entries(&xsdt[..50], 8), Err(AcpiError::InvalidRootEntries));
}

#[test]
fn reads_fadt_power_registers() {
    let mut fadt = [0u8; 148];
    fadt[36..40].copy_from_slice(&0x3000u32.to_le_bytes());
    fadt[40..44].copy_from_slice(&0x4000u32.to_le_bytes());
    fadt[64..68].copy_from_slice(&0x604u32.to_le_bytes());
    fadt[89] = 2;
    assert_eq!(fadt_facs_address(&fadt), Some(0x3000));
    assert_eq!(fadt_dsdt_address(&fadt), Some(0x4000));
    fadt[140..148].copy_from_slice(&0x5000u64.to_le_bytes());
    assert_eq!(fadt_dsdt_address(&fadt), Some(0x5000));

    let aml = [0x08, b'_', b'S', b'5', b'_', 0x12, 0x06, 0x02, 0x0a, 0x07, 0x0a, 0x07];
    let dsdt = dsdt_with(&aml);
    let power = power_info(&fadt, Some((0x3000, 64, 2)), &dsdt).unwrap();
    assert_eq!(power.facs_address, Some(0x3000));
    assert_eq!(power.pm1a_control_block, 0x604);
    assert_eq!((power.sleep_type_a, power.sleep_type_b), (7, 7));
    assert_eq!(power.sleep_type_s3, None);
    assert_eq!(power.reset_register, None);
    fadt[89] = 1;
    assert_eq!(power_info(&fadt, None, &dsdt), None);
}

#[test]
fn maps_physical_addresses_into_the_kernel_window() {
    let memory = PhysicalMemory::new(0xffff_8000_0000_0000);
    assert_eq!(memory.virtual_address(0x1000), Some(0xffff_8000_0000_1000));
    assert_eq!(memory.virtual_address(0x8000_0000_0000_0000), None);
}

#[test]
fn selects_the_last_madt_and_fadt() {
    let tables = [
        (0x1000, *b"APIC"),
        (0x2000, *b"FACP"),
        (0x3000, *b"HPET"),
        (0, *b"APIC"),
        (0x4000, *b"APIC"),
    ];
    assert_eq!(select_tables(&tables), (Some(0x4000), Some(0x2000)));
    assert_eq!(select_tables(&[(0x3000, *b"HPET")]), (None, None));
    assert_eq!(select_tables(&[]), (None, None));
    assert_eq!(root_entry_size(0), 4);
    assert_eq!(root_entry_size(2), 8);
}

#[test]
fn zero_root_addresses_and_entries_name_no_table() {
    assert_eq!(check_root_address(0), Err(AcpiError::MissingRootTable));
    assert_eq!(check_root_address(0xe_0000), Ok(0xe_0000));
    assert_eq!(tables_to_load(&[0x1000, 0, 0x2000, 0]), vec![0x1000, 0x2000]);
    assert!(tables_to_load(&[0, 0]).is_empty());
}
