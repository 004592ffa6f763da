use rustos::kernel::ac97::{
    self, bdl_entry, check_io_space, dma_address, pcm_page, tone_sample, verify_rate,
    verify_running, Ac97Error, PCM_RATE,
};
use rustos::kernel::memory::{FrameAllocator, MemoryRegion, MemoryRegionKind};
use rustos::kernel::acpi::{AcpiInfo, IoApicInfo, PhysicalMemory, ProcessorInfo, MAX_LEGACY_IRQS, MAX_PROCESSORS};
use rustos::kernel::apic::{
    apic_id_from_register, apic_stats, icr_destination, icr_idle, init_command, register_base,
    spurious_vector_value, startup_command, timer_entry, ApicError, ApicStats,
};
use rustos::kernel::hda;
use rustos::kernel::igc;
use rustos::kernel::platform;
use rustos::kernel::pci::{PciAddress, PciBar, PciCapabilities, PciDevice};
use rustos::kernel::igc::{
    advanced_tx_command, is_supported_device, mac_from_registers, tx_payload_length_field,
    valid_mac_address, LinkSpeed, LinkStatus, DESCRIPTOR_SIZE, I225_V_DEVICE_ID, INTEL_VENDOR_ID,
    RX_DESCRIPTOR_DONE, RX_DESCRIPTOR_END_OF_PACKET, RX_RING_SIZE, STATUS_FULL_DUPLEX,
    STATUS_LINK_UP, STATUS_SPEED_2500, TX_PAYLOAD_LENGTH_SHIFT, TX_RING_SIZE,
};
use rustos::kernel::ioapic::{destination_field, plan_route, route_target, IoApicError};
use rustos::kernel::network_runtime::{
    renewal_deadline, renewal_ready, NetworkError, NetworkLeaseState,
};
use rustos::kernel::e1000::E1000Error;
use rustos::kernel::igc::{rx_descriptor_outcome, IgcError};

#[test]
fn ac97_tone_is_audible_and_bounded() {
    let samples = [tone_sample(0), tone_sample(1_000), tone_sample(2_000)];
    assert!(samples.iter().any(|sample| *sample != 0));
    assert!(samples.iter().all(|sample| i32::from((*sample).abs()) <= 12_000));
}

#[test]
fn ac97_tone_phase_changes_at_the_requested_rate() {
    assert_ne!(tone_sample(0), tone_sample(1));
    assert_eq!(tone_sample(0), tone_sample(u64::from(PCM_RATE)));
}

#[test]
fn hda_tone_is_audible_and_bounded() {
    let samples = [hda::tone_sample(0), hda::tone_sample(1_000), hda::tone_sample(2_000)];
    assert!(samples.iter().any(|sample| *sample != 0));
    assert!(samples.iter().all(|sample| i32::from((*sample).abs()) <= 12_000));
}

#[test]
fn hda_tone_phase_changes_at_the_requested_rate() {
    assert_ne!(hda::tone_sample(0), hda::tone_sample(1));
    assert_eq!(hda::tone_sample(0), hda::tone_sample(48_000));
}

#[test]
fn tone_is_a_triangle_wave() {
    assert_eq!(tone_sample(0), -12_000);
    assert_eq!(tone_sample(30), 1_200);
    assert_eq!(tone_sample(60), 9_600);
    assert_eq!(hda::tone_sample(600), 12_000);
}

#[test]
fn decodes_a_live_2500_mbps_full_duplex_link() {
    let link = LinkStatus::from_register(STATUS_LINK_UP | STATUS_FULL_DUPLEX | STATUS_SPEED_2500);
    assert_eq!(link, LinkStatus { up: true, full_duplex: true, speed: LinkSpeed::Mbps2500 });
    assert_eq!(link.speed.mbps(), 2500);
}

#[test]
fn reports_unknown_speed_when_the_link_is_down() {
    let link = LinkStatus::from_register(STATUS_SPEED_2500 | STATUS_FULL_DUPLEX);
    assert_eq!(link, LinkStatus { up: false, full_duplex: false, speed: LinkSpeed::Unknown });
}

#[test]
fn recognizes_only_the_target_i225_v_device() {
    let device = |vendor_id, device_id| PciDevice {
        address: PciAddress::new(0, 0, 0),
        vendor_id,
        device_id,
        revision_id: 0,
        prog_if: 0,
        command: 0,
        status: 0,
        subclass: 0,
        class_code: 0x02,
        header_type: 0,
        interrupt_line: 0,
        interrupt_pin: 0,
        bars: [PciBar::Unassigned; 6],
        capabilities: PciCapabilities { msi: None, msix: None },
    };

    assert!(is_supported_device(device(INTEL_VENDOR_ID, I225_V_DEVICE_ID)));
    assert!(!is_supported_device(device(INTEL_VENDOR_ID, 0x15f2)));
    assert!(!is_supported_device(device(0x10de, I225_V_DEVICE_ID)));
    assert_eq!(
        igc::find_device(&[device(0x10de, I225_V_DEVICE_ID), device(INTEL_VENDOR_ID, I225_V_DEVICE_ID)]),
        Some(device(INTEL_VENDOR_ID, I225_V_DEVICE_ID))
    );
    assert_eq!(igc::find_device(&[device(INTEL_VENDOR_ID, 0x15f2)]), None);
}

#[test]
fn rejects_invalid_mac_addresses() {
    assert!(!valid_mac_address([0; 6]));
    assert!(!valid_mac_address([u8::MAX; 6]));
    assert!(valid_mac_address([0x00, 0x11, 0x22, 0x33, 0x44, 0x55]));
}

#[test]
fn encodes_an_advanced_tx_descriptor_for_a_padded_frame() {
    assert_eq!(advanced_tx_command(60), Ok(0x2b30_003c));
    assert_eq!(60u32 << TX_PAYLOAD_LENGTH_SHIFT, 0x000f_0000);
    assert_eq!(tx_payload_length_field(60), 0x000f_0000);
}

#[test]
fn keeps_i225_ring_sizes_at_the_required_multiple() {
    assert_eq!(TX_RING_SIZE % 8, 0);
    assert_eq!(RX_RING_SIZE % 8, 0);
    assert_eq!(DESCRIPTOR_SIZE, 16);
}

#[test]
fn decodes_one_buffer_rx_writeback_fields_at_the_advanced_offsets() {
    let status_error = RX_DESCRIPTOR_DONE | RX_DESCRIPTOR_END_OF_PACKET;
    let packet_length = 128u16;
    assert_ne!(status_error & RX_DESCRIPTOR_DONE, 0);
    assert_ne!(status_error & RX_DESCRIPTOR_END_OF_PACKET, 0);
    assert_eq!(packet_length, 128);
    assert_eq!(core::mem::size_of::<[u8; 16]>(), 16);
}

#[test]
fn reads_the_mac_from_the_receive_address_registers() {
    assert_eq!(mac_from_registers(0x3322_1100, 0x8000_5544), [0x00, 0x11, 0x22, 0x33, 0x44, 0x55]);
}

fn acpi_with_io_apic(io_apic: Option<IoApicInfo>) -> AcpiInfo {
    AcpiInfo {
        revision: 2,
        rsdp_address: 0,
        root_table_address: 0,
        madt_address: 0,
        fadt_address: None,
        local_apic_address: 0xfee0_0000,
        processor_count: 0,
        enabled_processor_count: 0,
        processors: [ProcessorInfo { uid: 0, apic_id: 0, enabled: false, x2apic: false }; MAX_PROCESSORS],
        io_apic_count: 1,
        io_apic,
        timer_gsi: 2,
        timer_flags: 0,
        interrupt_overrides: [None; MAX_LEGACY_IRQS],
        power: None,
    }
}

#[test]
fn plans_masked_io_apic_routes() {
    let controller = IoApicInfo { id: 0, address: 0xfec0_0000, gsi_base: 0 };
    let info = acpi_with_io_apic(Some(controller));
    let memory = PhysicalMemory::new(0x1000_0000_0000);
    assert_eq!(route_target(memory, &info, 31), Err(IoApicError::InvalidVector));
    assert_eq!(route_target(memory, &acpi_with_io_apic(None), 40), Err(IoApicError::MissingController));
    let (found, virtual_base) = route_target(memory, &info, 40).unwrap();
    assert_eq!(found, controller);
    assert_eq!(virtual_base, 0x1000_fec0_0000);

    let version = 0x0017_0020;
    let route = plan_route(controller, virtual_base, version, 11, 40, 0x000f, Some(3)).unwrap();
    assert_eq!(route.redirection_entries(), 24);
    assert_eq!(route.redirection_low_register(), 0x10 + 22);
    assert_eq!(route.low_value(), 40 | 0x1_0000 | 0x2000 | 0x8000);
    assert_eq!(route.unmasked_low_value(), 40 | 0x2000 | 0x8000);
    assert_eq!(route.destination_apic_id, 3);
    assert_eq!(route.version(), version);
    assert_eq!(destination_field(3), 0x0300_0000);
    assert_eq!(
        plan_route(controller, virtual_base, version, 24, 40, 0, Some(3)),
        Err(IoApicError::GsiOutOfRange)
    );
    assert_eq!(
        plan_route(controller, virtual_base, version, 2, 40, 0, None),
        Err(IoApicError::MissingLocalApicId)
    );
}

#[test]
fn schedules_dhcp_renewals_half_way_through_the_lease() {
    assert_eq!(renewal_deadline(1_000, 0), u64::MAX);
    assert_eq!(renewal_deadline(1_000, 3600), 1_000 + 180_000);
    assert_eq!(renewal_deadline(u64::MAX - 5, 3600), u64::MAX);

    let mut lease = NetworkLeaseState::new(60, 100);
    assert_eq!(lease.next_renew_tick, 3_100);
    assert!(!lease.due(3_099));
    assert!(lease.due(3_100));
    lease.retry(3_100);
    assert_eq!(lease.next_renew_tick, 3_200);
    assert_eq!(lease.renewals, 0);
    lease.renewed(3_200, 0);
    assert_eq!(lease.renewals, 1);
    assert!(!lease.due(u64::MAX));
}

#[test]
fn classifies_network_errors_by_what_the_caller_can_do() {
    assert!(NetworkError::E1000(E1000Error::NoPacket).is_no_packet());
    assert!(NetworkError::Igc(IgcError::NoPacket).is_no_packet());
    assert!(!NetworkError::Unavailable.is_no_packet());
    assert!(NetworkError::Unavailable.is_unavailable());
    assert!(NetworkError::E1000(E1000Error::ExternalNetworkNotEnabled).is_unavailable());
    assert!(!NetworkError::E1000(E1000Error::NoPacket).is_unavailable());
    assert!(NetworkError::BufferTooSmall { required: 10, available: 5 }.is_buffer_too_small());
    assert!(NetworkError::E1000(E1000Error::NetworkBufferTooSmall { required: 2000, available: 1024 })
        .is_buffer_too_small());
    assert!(!NetworkError::Igc(IgcError::TxRingFull).is_buffer_too_small());
}

#[test]
fn reports_ready_only_when_every_interface_renewed_under_the_service() {
    assert!(renewal_ready(true, None, 1));
    assert!(renewal_ready(true, Some(true), 7));
    assert!(!renewal_ready(true, Some(false), 7));
    assert!(!renewal_ready(false, None, 7));
    assert!(!renewal_ready(true, None, 0));
}

#[test]
fn classifies_igc_receive_descriptors() {
    assert_eq!(rx_descriptor_outcome(0, 60), Err(IgcError::NoPacket));
    assert_eq!(rx_descriptor_outcome(0x03, 60), Ok(60));
    assert_eq!(
        rx_descriptor_outcome(0x8000_0003, 60),
        Err(IgcError::RxError { status: 0x8000_0003 })
    );
    assert_eq!(
        rx_descriptor_outcome(0x01, 60),
        Err(IgcError::RxPacketNotSingleDescriptor { status: 0x01 })
    );
    assert_eq!(rx_descriptor_outcome(0x03, 1518), Ok(1518));
    assert_eq!(rx_descriptor_outcome(0x03, 1519), Err(IgcError::RxFrameTooLarge { length: 1519 }));
}

#[test]
fn maps_the_local_apic_register_page() {
    let memory = PhysicalMemory::new(0x1000_0000_0000);
    assert_eq!(register_base(memory, 0xfee0_0000), Ok(0x1000_fee0_0000));
    let high = PhysicalMemory::new(u64::MAX - 0xfee0_0000 - 0x3df);
    assert_eq!(register_base(high, 0xfee0_0000), Err(ApicError::InvalidAddress));
    let edge = PhysicalMemory::new(u64::MAX - 0xfee0_0000 - 0x3e0);
    assert!(register_base(edge, 0xfee0_0000).is_ok());
    let mut info = acpi_with_io_apic(None);
    info.processor_count = 4;
    info.enabled_processor_count = 2;
    assert_eq!(
        apic_stats(&info, 0x1000_fee0_0000, 0x0005_0014),
        ApicStats {
            physical_base: 0xfee0_0000,
            virtual_base: 0x1000_fee0_0000,
            version: 0x0005_0014,
            processor_count: 4,
            enabled_processor_count: 2,
            io_apic_count: 1,
            timer_initial_count: 1_000_000,
        }
    );
}

#[test]
fn encodes_local_apic_register_values() {
    assert_eq!(spurious_vector_value(), 0x1ff);
    assert_eq!(timer_entry(48, false), 0x1_0030);
    assert_eq!(timer_entry(48, true), 0x2_0030);
    assert_eq!(apic_id_from_register(0x0300_0000), 3);
    assert_eq!(icr_destination(5), Ok(0x0500_0000));
    assert_eq!(icr_destination(256), Err(ApicError::UnsupportedDestination));
    assert_eq!(init_command(true), 0xc500);
    assert_eq!(init_command(false), 0x8500);
    assert_eq!(startup_command(8), 0x608);
    assert!(icr_idle(0x0000_0608));
    assert!(!icr_idle(0x0000_1608));
}

#[test]
fn snapshots_a_probed_i225_with_its_link_state() {
    let device = PciDevice {
        address: PciAddress::new(3, 0, 0),
        vendor_id: INTEL_VENDOR_ID,
        device_id: I225_V_DEVICE_ID,
        revision_id: 3,
        prog_if: 0,
        command: 0x6,
        status: 0,
        subclass: 0,
        class_code: 0x02,
        header_type: 0,
        interrupt_line: 0,
        interrupt_pin: 1,
        bars: [PciBar::Unassigned; 6],
        capabilities: PciCapabilities { msi: None, msix: None },
    };
    let mac = [0x00, 0x11, 0x22, 0x33, 0x44, 0x55];
    let status = STATUS_LINK_UP | STATUS_SPEED_2500 | STATUS_FULL_DUPLEX;
    let probe = igc::probe_result(device, 0xfc00_0000, status, mac).unwrap();
    assert_eq!(probe.address, PciAddress::new(3, 0, 0));
    assert_eq!(probe.mmio_base, 0xfc00_0000);
    assert_eq!(probe.link.speed.mbps(), 2500);
    assert!(probe.link.up && probe.link.full_duplex);
    assert!(probe.bus_master_enabled);
    assert!(!probe.tx_queue_ready && !probe.rx_queue_ready);
    assert_eq!(igc::probe_result(device, 0, status, [0; 6]), Err(IgcError::InvalidMac));
    assert_eq!(igc::check_memory_space(device), Ok(()));
    let mut disabled = device;
    disabled.command = 0x4;
    assert_eq!(igc::check_memory_space(disabled), Err(IgcError::MemorySpaceDisabled));
    let running = igc::I225Probe::from_device(device, 1, 0, mac, true, true);
    assert!(running.tx_queue_ready && running.rx_queue_ready);
    assert!(!running.link.up);
}

#[test]
fn fills_ac97_pcm_pages_and_buffer_descriptors() {
    let page = pcm_page(1).unwrap();
    assert_eq!(page.len(), 4096);
    let first = tone_sample(1024) as u16;
    assert_eq!(&page[0..4], &[first as u8, (first >> 8) as u8, first as u8, (first >> 8) as u8]);
    let last = tone_sample(2047) as u16;
    assert_eq!(&page[4092..4096], &[last as u8, (last >> 8) as u8, last as u8, (last >> 8) as u8]);
    assert!(pcm_page(u64::MAX / 1024).is_ok());
    assert_eq!(pcm_page(u64::MAX / 1024 + 1), Err(Ac97Error::AddressOverflow));

    let low = ac97::DmaPage { physical_base: 0x20_0000, virtual_base: 0 };
    assert_eq!(bdl_entry(low), Ok((0x20_0000, 0x8000_0800)));
    let high = ac97::DmaPage { physical_base: 0x1_0000_0000, virtual_base: 0 };
    assert_eq!(bdl_entry(high), Err(Ac97Error::DmaAddressOutOfRange { address: 0x1_0000_0000 }));
    assert_eq!(dma_address(0xffff_ffff), Ok(0xffff_ffff));
}

#[test]
fn allocates_ac97_dma_pages_below_four_gib() {
    let regions = [
        MemoryRegion { start: 0xffff_f000, end: 0x1_0000_2000, kind: MemoryRegionKind::Usable },
    ];
    let mut allocator = FrameAllocator::new(&regions);
    assert_eq!(
        ac97::allocate_page(&mut allocator, 0x1000),
        Ok(ac97::DmaPage { physical_base: 0xffff_f000, virtual_base: 0x1_0000_0000 })
    );
    assert_eq!(
        ac97::allocate_page(&mut allocator, 0x1000),
        Err(Ac97Error::DmaAddressOutOfRange { address: 0x1_0000_0000 })
    );
    assert_eq!(allocator.next_available_address(), Some(0x1_0000_1000));
}

#[test]
fn checks_the_ac97_controller_and_its_registers() {
    let device = |class_code, subclass, prog_if, command| PciDevice {
        address: PciAddress::new(0, 5, 0),
        vendor_id: 0x8086,
        device_id: 0x2415,
        revision_id: 1,
        prog_if,
        command,
        status: 0,
        subclass,
        class_code,
        header_type: 0,
        interrupt_line: 0,
        interrupt_pin: 1,
        bars: [PciBar::Unassigned; 6],
        capabilities: PciCapabilities { msi: None, msix: None },
    };
    let audio = device(0x04, 0x01, 0x00, 0x1);
    assert_eq!(ac97::find_device(&[device(0x04, 0x03, 0, 1), audio]), Some(audio));
    assert_eq!(check_io_space(audio), Ok(()));
    assert_eq!(check_io_space(device(0x04, 0x01, 0x00, 0x6)), Err(Ac97Error::IoSpaceDisabled));
    assert_eq!(verify_rate(PCM_RATE), Ok(()));
    assert_eq!(
        verify_rate(44_100),
        Err(Ac97Error::RegisterVerification { register: 0x2c, expected: 48_000, actual: 44_100 })
    );
    assert_eq!(verify_running(0x11, 0), Ok(()));
    assert_eq!(
        verify_running(0x10, 0),
        Err(Ac97Error::RegisterVerification { register: 0x1b, expected: 1, actual: 0x10 })
    );
    assert_eq!(
        verify_running(0x11, 1),
        Err(Ac97Error::RegisterVerification { register: 0x1b, expected: 1, actual: 0x11 })
    );
}

#[test]
fn encodes_hda_codec_commands_and_decodes_their_answers() {
    assert_eq!(hda::codec_command(2, 0x14, hda::GET_PARAMETERS, hda::AC_PAR_PIN_CAP as u16), 0x214f_000c);
    assert_eq!(hda::first_codec(0b0100), Some(2));
    assert_eq!(hda::first_codec(0x8000), None);
    assert_eq!(hda::first_codec(0), None);
    assert_eq!(hda::node_range(0x0002_0010), Ok((2, 16)));
    assert_eq!(hda::node_range(0x0002_0000), Err(hda::HdaError::InvalidNodeRange));
    assert_eq!(hda::node_range(0x0070_0010), Err(hda::HdaError::InvalidNodeRange));
    assert_eq!(hda::node_range(0x0000_0100), Err(hda::HdaError::InvalidNodeRange));
    assert_eq!(hda::widget_type(0x0040_0111), 4);
    assert_eq!(hda::converter_gain(0x4, 0x0000_5700), Some(0x57));
    assert_eq!(hda::converter_gain(0x0, 0x0000_5700), None);
    assert_eq!(hda::converter_gain(0x4, 0x0000_0000), None);
    assert_eq!(hda::connection_list_length(0xffff_ff85), 5);
    assert_eq!(hda::find_connection(0x0d0c_0b0a, 0, 5, 0x0c), Some(2));
    assert_eq!(hda::find_connection(0x0d0c_0b0a, 4, 5, 0x0a), Some(4));
    assert_eq!(hda::find_connection(0x0d0c_0b0a, 4, 5, 0x0b), None);
}

#[test]
fn routes_the_hda_output_path_and_starts_its_stream() {
    let path = hda::OutputPath {
        function_group: 1,
        converter: 2,
        pin: 0x14,
        connection_index: Some(1),
        amp_gain: Some(0x57),
    };
    let commands = hda::codec_setup_commands(path);
    let expected = [
        (0x14, 0x0707, 0x40),
        (0x14, 0x0701, 1),
        (2, 0x0706, 0x10),
        (2, 0x0200, 0x11),
        (2, 0x0300, 0xb057),
    ];
    assert_eq!(commands.len(), expected.len());
    for (command, (node, verb, payload)) in commands.iter().zip(expected) {
        assert_eq!((command.node, command.verb, command.payload), (node, verb, payload));
    }
    let bare = hda::OutputPath { connection_index: None, amp_gain: None, ..path };
    assert_eq!(hda::codec_setup_commands(bare).len(), 3);
    assert_eq!(hda::output_stream_base(), 0x100);
    assert_eq!(hda::stream_control(true), 0x10_0002);
    assert_eq!(hda::stream_control(false), 0x10_0000);
    assert_eq!(hda::verify_stream(0x10_0002, 0), Ok(()));
    assert_eq!(
        hda::verify_stream(0x10_0000, 0),
        Err(hda::HdaError::RegisterVerification { register: 0x100, expected: 0x10_0002, actual: 0x10_0000 })
    );
    assert!(hda::verify_stream(0x10_0002, 0x08).is_err());
    let page = hda::DmaPage { physical_base: 0x1_2345_6000, virtual_base: 0 };
    assert_eq!(hda::bdl_entry(page), (0x1_2345_6000, 4096, 1));
    let pcm = hda::pcm_page(0).unwrap();
    let sample = hda::tone_sample(1) as u16;
    assert_eq!(&pcm[4..8], &[sample as u8, (sample >> 8) as u8, sample as u8, (sample >> 8) as u8]);
}

#[test]
fn checks_the_hda_controller() {
    let device = |subclass, command| PciDevice {
        address: PciAddress::new(0, 0x1b, 0),
        vendor_id: 0x8086,
        device_id: 0x293e,
        revision_id: 2,
        prog_if: 0,
        command,
        status: 0,
        subclass,
        class_code: 0x04,
        header_type: 0,
        interrupt_line: 0,
        interrupt_pin: 1,
        bars: [PciBar::Unassigned; 6],
        capabilities: PciCapabilities { msi: None, msix: None },
    };
    assert_eq!(hda::find_device(&[device(0x01, 0x6), device(0x03, 0x6)]), Some(device(0x03, 0x6)));
    assert_eq!(hda::check_controller(device(0x03, 0x6), 0x4401), Ok(()));
    assert_eq!(hda::check_controller(device(0x03, 0x4), 0x4401), Err(hda::HdaError::MemorySpaceDisabled));
    assert_eq!(hda::check_controller(device(0x03, 0x6), 0x0401), Err(hda::HdaError::NoOutputStreams));
    let regions = [MemoryRegion { start: 0x200000, end: 0x201000, kind: MemoryRegionKind::Usable }];
    let mut allocator = FrameAllocator::new(&regions);
    assert_eq!(
        hda::allocate_page(&mut allocator, 0x10),
        Ok(hda::DmaPage { physical_base: 0x200000, virtual_base: 0x200010 })
    );
    assert_eq!(hda::allocate_page(&mut allocator, 0x10), Err(hda::HdaError::NoFrame));
}

#[test]
fn lays_out_cpuid_identity_strings() {
    let vendor = platform::vendor_bytes(0x756e_6547, 0x4965_6e69, 0x6c65_746e);
    assert_eq!(vendor, b"GenuineIntel".to_vec());
    let brand = platform::registers_to_bytes(&[0x6d65_5120, 0x0000_0075]);
    assert_eq!(brand, b" Qemu\0\0\0".to_vec());
    assert_eq!(platform::text_length(&brand), 5);
    assert_eq!(platform::text_length(b"abc"), 3);
    assert!(platform::has_brand_string(0x8000_0008));
    assert!(!platform::has_brand_string(0x8000_0001));
    assert!(platform::hypervisor_present(0x8000_0000));
    assert!(!platform::hypervisor_present(0x7fff_ffff));
}

fn widget(kind: u32, extra_capabilities: u32, amp_steps: u32, pin_out: bool, connections: &[u8]) -> hda::WidgetInfo {
    hda::WidgetInfo {
        capabilities: (kind << 20) | extra_capabilities,
        amp_capabilities: amp_steps << 8,
        pin_capabilities: if pin_out { 0x10 } else { 0 },
        connections: connections.to_vec(),
    }
}

#[test]
fn chooses_the_hda_output_path() {
    assert_eq!(hda::find_function_group(1, &[0x102, 0x001]), Ok(2));
    assert_eq!(hda::find_function_group(1, &[0x102]), Err(hda::HdaError::NoAudioFunctionGroup));

    // Nodes 2..: a converter with a 0x57-step amplifier, an input pin, an output pin without a
    // connection list, and an output pin whose list names the converter second.
    let widgets = [
        widget(0, 0x4, 0x57, false, &[]),
        widget(4, 0x100, 0, false, &[2]),
        widget(4, 0, 0, true, &[]),
        widget(4, 0x100, 0, true, &[7, 2]),
    ];
    assert_eq!(
        hda::choose_output_path(1, 2, &widgets),
        Ok(hda::OutputPath {
            function_group: 1,
            converter: 2,
            pin: 5,
            connection_index: Some(1),
            amp_gain: Some(0x57),
        })
    );
    let unconnected = [widget(0, 0, 0, false, &[]), widget(4, 0x100, 0, true, &[9])];
    assert_eq!(
        hda::choose_output_path(1, 2, &unconnected),
        Ok(hda::OutputPath { function_group: 1, converter: 2, pin: 3, connection_index: None, amp_gain: None })
    );
    assert_eq!(
        hda::choose_output_path(1, 2, &[widget(4, 0, 0, true, &[])]),
        Err(hda::HdaError::NoOutputConverter)
    );
    assert_eq!(
        hda::choose_output_path(1, 2, &[widget(0, 0, 0, false, &[])]),
        Err(hda::HdaError::NoOutputPin)
    );
}
