use rustos::kernel::e1000;
use rustos::kernel::hardware::{initial_graphics_backend, GraphicsBackend, PciDisplaySnapshot};
use rustos::kernel::nvidia::{
    architecture_for, check_device, find_device, io_bar_base, is_supported_device, memory_bar_base,
    NvidiaArchitecture, NvidiaError, NvidiaProbe, NVIDIA_PROBE_MMIO_LENGTH, NVIDIA_VENDOR_ID,
    RTX_5070_DEVICE_ID,
};
use rustos::kernel::pci::{
    PciAddress, PciBar, PciCapabilities, PciDevice, PciMsiCapability, PciMsixCapability,
};

fn device(device_id: u16, bars: [PciBar; 6]) -> PciDevice {
    PciDevice {
        address: PciAddress::new(0x0b, 0, 0),
        vendor_id: NVIDIA_VENDOR_ID,
        device_id,
        revision_id: 0xa1,
        prog_if: 0,
        command: (1 << 1) | (1 << 2),
        status: 1 << 4,
        subclass: 0,
        class_code: 0x03,
        header_type: 0,
        interrupt_line: 0,
        interrupt_pin: 2,
        bars,
        capabilities: PciCapabilities { msi: None, msix: None },
    }
}

#[test]
fn recognizes_the_rtx_5070_blackwell_device() {
    let device = device(
        RTX_5070_DEVICE_ID,
        [
            PciBar::Memory32 { base: 0xf800_0000, prefetchable: false },
            PciBar::Memory64 { base: 0x7800_0000_00, prefetchable: true },
            PciBar::UpperHalf,
            PciBar::Memory64 { base: 0x7c00_0000_00, prefetchable: true },
            PciBar::UpperHalf,
            PciBar::Io { base: 0xf000 },
        ],
    );

    assert!(is_supported_device(device));
    assert_eq!(architecture_for(device.device_id), NvidiaArchitecture::Blackwell);
    let bar0 = memory_bar_base(device.bars[0]);
    assert_eq!(bar0, Some(0xf800_0000));
    assert_eq!(memory_bar_base(device.bars[1]), Some(0x7800_0000_00));
    assert_eq!(memory_bar_base(device.bars[3]), Some(0x7c00_0000_00));
    assert_eq!(io_bar_base(device.bars[5]), Some(0xf000));
}

#[test]
fn rejects_other_display_devices() {
    let device = device(0x1234, [PciBar::Unassigned; 6]);
    assert!(!is_supported_device(device));
}

#[test]
fn probe_snapshot_preserves_pci_capability_state() {
    let mut device = device(
        RTX_5070_DEVICE_ID,
        [
            PciBar::Memory32 { base: 0xf800_0000, prefetchable: false },
            PciBar::Unassigned,
            PciBar::Unassigned,
            PciBar::Unassigned,
            PciBar::Unassigned,
            PciBar::Unassigned,
        ],
    );
    device.capabilities = PciCapabilities {
        msi: Some(PciMsiCapability {
            offset: 0x50,
            is_64_bit: true,
            multiple_message_capable: 0,
            per_vector_masking: false,
        }),
        msix: Some(PciMsixCapability {
            offset: 0x60,
            table_size: 8,
            function_masked: false,
            table_bar: 0,
            table_offset: 0,
            pba_bar: 0,
            pba_offset: 0x100,
        }),
    };
    let probe =
        NvidiaProbe::from_device_mapping(device, 0xf800_0000, NVIDIA_PROBE_MMIO_LENGTH, true)
            .expect("probe");
    assert_eq!(probe.address, PciAddress::new(0x0b, 0, 0));
    assert_eq!(probe.mmio_base, 0xf800_0000);
    assert_eq!(probe.mmio_length, NVIDIA_PROBE_MMIO_LENGTH);
    assert!(probe.memory_space_enabled);
    assert!(probe.bus_master_enabled);
    assert!(probe.msi);
    assert!(probe.msix);
    assert!(probe.bar0_mapped);
}

#[test]
fn probes_need_memory_space_and_a_memory_bar0() {
    let with_bar = device(RTX_5070_DEVICE_ID, [
        PciBar::Memory64 { base: 0x8_0000_0000, prefetchable: false },
        PciBar::UpperHalf,
        PciBar::Unassigned,
        PciBar::Unassigned,
        PciBar::Unassigned,
        PciBar::Unassigned,
    ]);
    assert_eq!(check_device(with_bar), Ok(0x8_0000_0000));
    let mut disabled = with_bar;
    disabled.command = 0x4;
    assert_eq!(check_device(disabled), Err(NvidiaError::MemorySpaceDisabled));
    let io_only = device(RTX_5070_DEVICE_ID, [PciBar::Io { base: 0xe000 }, PciBar::Unassigned,
        PciBar::Unassigned, PciBar::Unassigned, PciBar::Unassigned, PciBar::Unassigned]);
    assert_eq!(check_device(io_only), Err(NvidiaError::MissingBar0));
    assert_eq!(
        NvidiaProbe::from_device_mapping(io_only, 0, 0, false),
        Err(NvidiaError::MissingBar0)
    );
    assert_eq!(NvidiaArchitecture::Blackwell.name(), "blackwell");
    assert_eq!(architecture_for(0x2f05).name(), "unknown");
}

#[test]
fn finds_the_first_supported_controller() {
    let other = device(0x1234, [PciBar::Unassigned; 6]);
    let target = device(RTX_5070_DEVICE_ID, [PciBar::Unassigned; 6]);
    assert_eq!(find_device(&[other, target]), Some(target));
    assert_eq!(find_device(&[other]), None);

    let mut intel = other;
    intel.vendor_id = 0x8086;
    intel.device_id = 0x100e;
    intel.class_code = 0x02;
    assert_eq!(e1000::find_device(&[target, intel]), Some(intel));
    intel.device_id = 0x10d3;
    assert_eq!(e1000::find_device(&[intel]), Some(intel));
    intel.device_id = 0x10d4;
    assert_eq!(e1000::find_device(&[intel]), None);
}

#[test]
fn names_the_graphics_backend_and_display_vendor() {
    let backend = initial_graphics_backend(true);
    assert_eq!(backend, GraphicsBackend::FirmwareFramebuffer);
    assert_eq!(backend.name(), "firmware-framebuffer");
    assert_eq!(backend.compositor(), "rust-cpu-raster");
    assert_eq!(backend.acceleration(), "unavailable");
    assert_eq!(backend.status(), "ready");
    let none = initial_graphics_backend(false);
    assert_eq!((none.name(), none.compositor(), none.status()), ("none", "none", "degraded"));
    assert_eq!(GraphicsBackend::VirtioGpu.acceleration(), "scanout-transport");

    let display = PciDisplaySnapshot::from_device(device(RTX_5070_DEVICE_ID, [PciBar::Unassigned; 6]));
    assert_eq!(display.address, PciAddress::new(0x0b, 0, 0));
    assert_eq!((display.class_code, display.subclass), (0x03, 0));
    assert_eq!(display.vendor_name(), "nvidia");
    let mut other = display;
    other.vendor_id = 0x1af4;
    assert_eq!(other.vendor_name(), "virtio");
    other.vendor_id = 0x5333;
    assert_eq!(other.vendor_name(), "unknown");
}
