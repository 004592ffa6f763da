use rustos::kernel::ahci::{
    allocate_page, bytes_to_words, check_controller, check_dma_reach, check_sector_buffer,
    check_sector_count, command_fis, command_header, global_host_control, implemented_port_count,
    invalid_identify, prdt_flags, select_port, supports_64bit_dma, AhciError, BlockDeviceError,
    DmaPage, PortRegisters, SelectedPort, ATA_READ_DMA_EXT,
};
use rustos::kernel::interrupts::{
    device_slot, DeviceHandlers, DeviceInterruptError, InterruptIndex,
};
use rustos::kernel::memory::{FrameAllocator, MemoryRegion, MemoryRegionKind};
use rustos::kernel::pci::{PciAddress, PciBar, PciCapabilities, PciDevice};

const SATA_ACTIVE: PortRegisters = PortRegisters { status: 0x0123, signature: 0x0000_0101 };
const ATAPI_PRESENT: PortRegisters = PortRegisters { status: 0x0113, signature: 0xeb14_0101 };
const EMPTY_PORT: PortRegisters = PortRegisters { status: 0, signature: 0xffff_ffff };

fn controller(class_code: u8, subclass: u8, prog_if: u8, command: u16) -> PciDevice {
    PciDevice {
        address: PciAddress::new(0, 0x1f, 2),
        vendor_id: 0x8086,
        device_id: 0x2922,
        revision_id: 2,
        prog_if,
        command,
        status: 0,
        subclass,
        class_code,
        header_type: 0,
        interrupt_line: 0,
        interrupt_pin: 1,
        bars: [PciBar::Unassigned; 6],
        capabilities: PciCapabilities { msi: None, msix: None },
    }
}

#[test]
fn accepts_only_an_enabled_ahci_controller() {
    assert_eq!(check_controller(controller(1, 6, 1, 0x6)), Ok(()));
    assert_eq!(check_controller(controller(1, 6, 1, 0x4)), Err(AhciError::MemorySpaceDisabled));
    assert_eq!(
        check_controller(controller(1, 8, 2, 0x6)),
        Err(AhciError::UnsupportedController { class: 1, subclass: 8, prog_if: 2 })
    );
}

#[test]
fn reads_the_port_count_and_dma_width_from_capabilities() {
    assert_eq!(implemented_port_count(0x4000_0005), 6);
    assert_eq!(implemented_port_count(0xffff_ffff), 32);
    assert_eq!(implemented_port_count(0), 1);
    assert!(supports_64bit_dma(0x8000_0000));
    assert!(!supports_64bit_dma(0x7fff_ffff));
}

#[test]
fn selects_the_first_implemented_sata_port() {
    let registers = [SATA_ACTIVE, EMPTY_PORT, SATA_ACTIVE];
    let selected = select_port(0b100, &registers).unwrap();
    assert_eq!(
        selected,
        SelectedPort { port: 2, port_base: 0x200, signature: 0x0000_0101, status: 0x0123 }
    );
    assert_eq!(select_port(0b101, &registers).unwrap().port, 0);
}

#[test]
fn refuses_an_atapi_device_met_before_a_disk() {
    let registers = [EMPTY_PORT, ATAPI_PRESENT, SATA_ACTIVE];
    assert_eq!(
        select_port(0b111, &registers),
        Err(AhciError::UnsupportedPort { port: 1, signature: 0xeb14_0101, status: 0x0113 })
    );
    assert_eq!(select_port(0b101, &registers).unwrap().port, 2);
}

#[test]
fn reports_no_port_without_an_active_disk() {
    let inactive = PortRegisters { status: 0x0003, signature: 0x0000_0101 };
    assert_eq!(select_port(0b11, &[inactive, EMPTY_PORT]), Err(AhciError::NoPort));
    assert_eq!(select_port(0, &[SATA_ACTIVE]), Err(AhciError::NoPort));
}

#[test]
fn bounds_dma_field_pointers_to_their_page() {
    let page = DmaPage { physical_base: 0x20_0000, virtual_base: 0xffff_8000_0020_0000 };
    assert_eq!(page.pointer(0x80, 8, 8), Ok(0xffff_8000_0020_0080));
    assert_eq!(
        page.pointer(2, 4, 4),
        Err(AhciError::DmaUnaligned { address: 0x20_0002, alignment: 4 })
    );
    assert_eq!(page.pointer(4093, 4, 1), Err(AhciError::DmaOutOfBounds { offset: 4093, size: 4 }));
    assert_eq!(page.pointer(u64::MAX, 2, 1), Err(AhciError::DmaAddressOverflow));
    let misaligned = DmaPage { physical_base: 0x20_0004, virtual_base: 0x1000 };
    assert_eq!(
        misaligned.pointer(0, 8, 8),
        Err(AhciError::DmaUnaligned { address: 0x20_0004, alignment: 8 })
    );
}

#[test]
fn allocates_mapped_dma_pages_from_usable_memory() {
    let regions = [
        MemoryRegion { start: 0x100000, end: 0x102000, kind: MemoryRegionKind::Usable },
    ];
    let mut allocator = FrameAllocator::new(&regions);
    assert_eq!(
        allocate_page(&mut allocator, 0x1000_0000),
        Ok(DmaPage { physical_base: 0x100000, virtual_base: 0x1010_0000 })
    );
    assert_eq!(
        allocate_page(&mut allocator, 0x1000_0000),
        Ok(DmaPage { physical_base: 0x101000, virtual_base: 0x1010_1000 })
    );
    assert_eq!(allocate_page(&mut allocator, 0x1000_0000), Err(AhciError::NoDmaFrame));

    let mut allocator = FrameAllocator::new(&regions);
    assert_eq!(allocate_page(&mut allocator, u64::MAX - 0x100fff), Err(AhciError::DmaAddressOverflow));
    assert_eq!(allocator.next_available_address(), Some(0x101000));
}

#[test]
fn keeps_dma_below_four_gib_without_64bit_addressing() {
    let low = DmaPage { physical_base: 0xffff_f000, virtual_base: 0 };
    let high = DmaPage { physical_base: 0x1_0000_0000, virtual_base: 0 };
    let higher = DmaPage { physical_base: 0x2_0000_0000, virtual_base: 0 };
    assert_eq!(check_dma_reach(&[low, high, higher], true), Ok(()));
    assert_eq!(check_dma_reach(&[low], false), Ok(()));
    assert_eq!(
        check_dma_reach(&[low, high, higher], false),
        Err(AhciError::DmaAddressTooLarge { address: 0x1_0000_0000 })
    );
}

#[test]
fn builds_a_read_command_for_one_sector() {
    assert_eq!(
        command_fis(ATA_READ_DMA_EXT, 0x0605_0403_0201, 1),
        [0x27, 0x80, 0x25, 0, 0x01, 0x02, 0x03, 0x40, 0x04, 0x05, 0x06, 0, 1, 0, 0, 0]
    );
    assert_eq!(command_header(false, true, 0x1_2345_6000), [0x1_0005, 0, 0x2345_6000, 1]);
    assert_eq!(command_header(true, true, 0x8000), [0x1_0045, 0, 0x8000, 0]);
    assert_eq!(command_header(false, false, 0), [5, 0, 0, 0]);
    assert_eq!(prdt_flags(512), 0x8000_01ff);
}

#[test]
fn checks_sector_counts_and_buffer_lengths() {
    assert_eq!(check_sector_count(1), Ok(()));
    assert_eq!(
        check_sector_count(2),
        Err(AhciError::InvalidBufferLength { expected: 512, actual: 1024 })
    );
    assert_eq!(check_sector_buffer(512), Ok(()));
    assert_eq!(
        check_sector_buffer(511),
        Err(AhciError::InvalidBufferLength { expected: 512, actual: 511 })
    );
}

#[test]
fn sets_ahci_mode_and_the_interrupt_enable_bit() {
    assert_eq!(global_host_control(0x0000_0001, true), 0x8000_0003);
    assert_eq!(global_host_control(0x0000_0003, false), 0x8000_0001);
}

#[test]
fn decodes_identify_words_and_reports_their_capacities() {
    let mut sector = [0u8; 512];
    sector[0] = 0x40;
    sector[98] = 0x00;
    sector[99] = 0x02;
    sector[120] = 0x34;
    sector[121] = 0x12;
    sector[122] = 0x01;
    sector[200] = 0x78;
    sector[201] = 0x56;
    sector[206] = 0x02;
    let words = bytes_to_words(&sector);
    assert_eq!(words[0], 0x0040);
    assert_eq!(words[49], 0x0200);
    assert_eq!(words[60], 0x1234);
    assert_eq!(
        invalid_identify(&words),
        AhciError::InvalidIdentify {
            word0: 0x40,
            word49: 0x200,
            word83: 0,
            lba28: 0x1_1234,
            lba48: 0x0002_0000_0000_5678,
        }
    );
}

#[test]
fn passes_range_errors_through_and_numbers_the_others() {
    assert_eq!(
        AhciError::LbaOutOfRange { lba: 9, capacity: 8 }.into_block_error(),
        BlockDeviceError::LbaOutOfRange { lba: 9, capacity: 8 }
    );
    assert_eq!(
        AhciError::InvalidBufferLength { expected: 512, actual: 100 }.into_block_error(),
        BlockDeviceError::InvalidBufferLength { expected: 512, actual: 100 }
    );
    assert_eq!(
        AhciError::UnsupportedPort { port: 1, signature: 0xeb14_0101, status: 0x113 }
            .into_block_error(),
        BlockDeviceError::Ahci { kind: 6, value: 0x0100_0000_0000_0113 | (0xeb14_0101u64 << 24) }
    );
    assert_eq!(
        AhciError::PortTimeout { register: 0x138, value: 1 }.into_block_error(),
        BlockDeviceError::Ahci { kind: 17, value: 0x138_0000_0001 }
    );
    assert_eq!(
        AhciError::DmaUnaligned { address: 0x1_2345_6789, alignment: 128 }.into_block_error(),
        BlockDeviceError::Ahci { kind: 10, value: 0x80_2345_6789 }
    );
    assert_eq!(AhciError::NoPort.into_block_error(), BlockDeviceError::Ahci { kind: 5, value: 0 });
    assert_eq!(
        AhciError::InterruptRegistration(DeviceInterruptError::NoVectorAvailable)
            .into_block_error(),
        BlockDeviceError::Ahci { kind: 19, value: 0 }
    );
}

#[test]
fn hands_out_device_vectors_in_slot_order_until_full() {
    let mut handlers: DeviceHandlers<u32> = DeviceHandlers::new();
    for (index, expected) in (50u8..58).enumerate() {
        assert_eq!(handlers.register(index as u32 + 100), Ok(expected));
    }
    assert_eq!(handlers.register(999), Err(DeviceInterruptError::NoVectorAvailable));
    assert_eq!(handlers.handler(0), Some(100));
    assert_eq!(handlers.handler(7), Some(107));
    assert_eq!(device_slot(53), Some(3));
    assert_eq!(device_slot(58), None);
    assert_eq!(device_slot(49), None);
}

#[test]
fn fixed_interrupts_keep_their_vectors() {
    assert_eq!(InterruptIndex::Timer.as_u8(), 32);
    assert_eq!(InterruptIndex::LocalApicTimer.as_u8(), 48);
    assert_eq!(InterruptIndex::IoApicTimer.as_u8(), 49);
}
