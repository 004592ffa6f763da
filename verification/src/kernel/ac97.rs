//! The AC'97 driver's decisions: which controller it takes, the DMA pages it fills and the
//! buffer descriptors that point at them, the test tone (a 440 Hz triangle wave sampled at
//! 48 kHz) they hold, and the register values it checks.
use vstd::prelude::*;
use crate::kernel::memory::{next_frame, FrameAllocator};
use crate::kernel::pci::PciDevice;

verus! {

pub const PCM_RATE: u16 = 48000;
pub const NAM_PCM_FRONT_DAC_RATE: u64 = 0x2c;
pub const PO_CONTROL: u64 = 0x1b;
pub const PO_CONTROL_RUN: u8 = 1;
pub const PO_STATUS_DMA_HALTED: u16 = 1;
pub const BDL_IOC: u32 = 0x8000_0000;
pub const BDL_ENTRIES: usize = 32;
pub const PCM_PAGE_COUNT: usize = 32;
pub const PCM_FRAMES_PER_PAGE: u64 = 1024;
pub const PCM_FRAME_COUNT: u64 = 32768;

#[derive(Debug, Clone, Copy, PartialEq, Eq, Structural)]
pub enum Ac97Error {
    IoSpaceDisabled,
    NoFrame,
    AddressOverflow,
    DmaAddressOutOfRange { address: u64 },
    RegisterVerification { register: u64, expected: u32, actual: u32 },
}

/// A failed bring-up, with the allocator position to continue from.
#[derive(Debug, Clone, Copy, PartialEq, Eq, Structural)]
pub struct Ac97InitFailure {
    pub error: Ac97Error,
    pub next_frame_address: Option<u64>,
}

/// A multimedia audio controller with the AC'97 interface.
pub open spec fn is_ac97(d: PciDevice) -> bool {
    d.class_code == 0x04 && d.subclass == 0x01 && d.prog_if == 0x00
}

/// The first AC'97 controller of an inventory.
pub fn find_device(devices: &[PciDevice]) -> (r: Option<PciDevice>)
    ensures
        match r {
            Some(d) => exists|i: int|
                0 <= i < devices.len() && devices@[i] == d && is_ac97(d) && forall|j: int|
                    0 <= j < i ==> !is_ac97(#[trigger] devices@[j]),
            None => forall|j: int| 0 <= j < devices.len() ==> !is_ac97(#[trigger] devices@[j]),
        },
{
    let mut i: usize = 0;
    while i < devices.len()
        invariant
            i <= devices.len(),
            forall|j: int| 0 <= j < i ==> !is_ac97(#[trigger] devices@[j]),
        decreases devices.len() - i,
    {
        let device = devices[i];
        if device.class_code == 0x04 && device.subclass == 0x01 && device.prog_if == 0x00 {
            return Some(device);
        }
        i = i + 1;
    }
    None
}

/// The controller's registers are I/O ports, so its I/O space must be enabled.
pub fn check_io_space(device: PciDevice) -> (r: Result<(), Ac97Error>)
    ensures
        r == (if device.command & 1 == 0 {
            Err(Ac97Error::IoSpaceDisabled)
        } else {
            Ok(())
        }),
{
    if device.command & 1 == 0 {
        return Err(Ac97Error::IoSpaceDisabled);
    }
    Ok(())
}

/// The controller addresses DMA memory with 32 bits.
pub fn dma_address(address: u64) -> (r: Result<u32, Ac97Error>)
    ensures
        r == (if address <= u32::MAX {
            Ok(address as u32)
        } else {
            Err(Ac97Error::DmaAddressOutOfRange { address })
        }),
{
    if address > u32::MAX as u64 {
        return Err(Ac97Error::DmaAddressOutOfRange { address });
    }
    Ok(address as u32)
}

/// One 4 KiB page of DMA memory, by its physical and its mapped virtual address.
#[derive(Debug, Clone, Copy, PartialEq, Eq, Structural)]
pub struct DmaPage {
    pub physical_base: u64,
    pub virtual_base: u64,
}

/// Takes the allocator's next frame as a DMA page mapped at `physical_memory_offset` above its
/// physical address; the page must lie below 4 GiB. The frame is taken even when the page is
/// refused.
pub fn allocate_page(allocator: &mut FrameAllocator<'_>, physical_memory_offset: u64) -> (r: Result<
    DmaPage,
    Ac97Error,
>)
    ensures
        ({
            let (i, frame) = next_frame(
                old(allocator).map(),
                old(allocator).index(),
                old(allocator).cursor(),
            );
            &&& final(allocator).map() == old(allocator).map()
            &&& frame matches Some(a) ==> final(allocator).index() == i
                && final(allocator).cursor() == Some((a + 4096) as u64)
            &&& r == match frame {
                None => Err(Ac97Error::NoFrame),
                Some(a) => if physical_memory_offset + a + 4096 > u64::MAX {
                    Err(Ac97Error::AddressOverflow)
                } else if a > u32::MAX {
                    Err(Ac97Error::DmaAddressOutOfRange { address: a })
                } else {
                    Ok(
                        DmaPage {
                            physical_base: a,
                            virtual_base: (physical_memory_offset + a) as u64,
                        },
                    )
                },
            }
        }),
{
    let frame = match allocator.next() {
        None => return Err(Ac97Error::NoFrame),
        Some(frame) => frame,
    };
    let physical_base = frame.start_address();
    let virtual_base = match physical_memory_offset.checked_add(physical_base) {
        None => return Err(Ac97Error::AddressOverflow),
        Some(v) => v,
    };
    if virtual_base.checked_add(4096).is_none() {
        return Err(Ac97Error::AddressOverflow);
    }
    match dma_address(physical_base) {
        Err(e) => Err(e),
        Ok(_) => Ok(DmaPage { physical_base, virtual_base }),
    }
}

/// The buffer descriptor for a PCM page: its 32-bit address, then an interrupt on completion
/// and the page's 2048 sixteen-bit samples.
pub fn bdl_entry(page: DmaPage) -> (r: Result<(u32, u32), Ac97Error>)
    ensures
        r == (if page.physical_base <= u32::MAX {
            Ok((page.physical_base as u32, 0x8000_0800u32))
        } else {
            Err(Ac97Error::DmaAddressOutOfRange { address: page.physical_base })
        }),
{
    let address = match dma_address(page.physical_base) {
        Err(e) => return Err(e),
        Ok(a) => a,
    };
    assert(0x8000_0000u32 | 2048u32 == 0x8000_0800u32) by (bit_vector);
    Ok((address, BDL_IOC | 2048))
}

/// Byte `i` of PCM page `page_index`: each four-byte frame holds the same sample for the left
/// and the right channel, little-endian, the page's first frame being sample
/// `page_index * 1024`.
pub open spec fn pcm_byte(page_index: u64, i: int) -> u8 {
    let sample = tone_spec((page_index * 1024 + i / 4) as u64) as u16;
    if i % 2 == 0 {
        (sample % 256) as u8
    } else {
        (sample / 256) as u8
    }
}

/// The 4096 bytes of PCM page `page_index`, or `AddressOverflow` where its sample indices do
/// not fit in 64 bits.
pub fn pcm_page(page_index: u64) -> (r: Result<Vec<u8>, Ac97Error>)
    ensures
        page_index * 1024 + 1023 > u64::MAX ==> r == Err::<Vec<u8>, Ac97Error>(
            Ac97Error::AddressOverflow,
        ),
        page_index * 1024 + 1023 <= u64::MAX ==> (r matches Ok(v) && v@.len() == 4096 && forall|
            i: int,
        |
            0 <= i < 4096 ==> #[trigger] v@[i] == pcm_byte(page_index, i)),
{
    let first = match page_index.checked_mul(PCM_FRAMES_PER_PAGE) {
        None => return Err(Ac97Error::AddressOverflow),
        Some(f) => f,
    };
    if first.checked_add(PCM_FRAMES_PER_PAGE - 1).is_none() {
        return Err(Ac97Error::AddressOverflow);
    }
    let mut bytes: Vec<u8> = Vec::new();
    let mut frame: u64 = 0;
    while frame < PCM_FRAMES_PER_PAGE
        invariant
            first == page_index * 1024,
            first + 1023 <= u64::MAX,
            frame <= 1024,
            bytes@.len() == 4 * frame,
            forall|i: int| 0 <= i < 4 * frame ==> #[trigger] bytes@[i] == pcm_byte(page_index, i),
        decreases 1024 - frame,
    {
        let sample = tone_sample(first + frame) as u16;
        let low = (sample % 256) as u8;
        let high = (sample / 256) as u8;
        let ghost base = 4 * frame as int;
        assert((base + 0) / 4 == frame && (base + 1) / 4 == frame && (base + 2) / 4 == frame && (
        base + 3) / 4 == frame);
        assert((base + 0) % 2 == 0 && (base + 1) % 2 == 1 && (base + 2) % 2 == 0 && (base + 3) % 2
            == 1);
        bytes.push(low);
        bytes.push(high);
        bytes.push(low);
        bytes.push(high);
        frame = frame + 1;
    }
    Ok(bytes)
}

/// The DAC must report the rate that was written to it.
pub fn verify_rate(configured_rate: u16) -> (r: Result<(), Ac97Error>)
    ensures
        r == (if configured_rate == 48000 {
            Ok(())
        } else {
            Err(
                Ac97Error::RegisterVerification {
                    register: 0x2c,
                    expected: 48000,
                    actual: configured_rate as u32,
                },
            )
        }),
{
    if configured_rate != PCM_RATE {
        return Err(
            Ac97Error::RegisterVerification {
                register: NAM_PCM_FRONT_DAC_RATE,
                expected: PCM_RATE as u32,
                actual: configured_rate as u32,
            },
        );
    }
    Ok(())
}

/// Playback must be running and its DMA engine not halted.
pub fn verify_running(control: u8, status: u16) -> (r: Result<(), Ac97Error>)
    ensures
        r == (if control & 1 == 0 || status & 1 != 0 {
            Err(
                Ac97Error::RegisterVerification {
                    register: 0x1b,
                    expected: 1,
                    actual: control as u32,
                },
            )
        } else {
            Ok(())
        }),
{
    if control & PO_CONTROL_RUN == 0 || status & PO_STATUS_DMA_HALTED != 0 {
        return Err(
            Ac97Error::RegisterVerification {
                register: PO_CONTROL,
                expected: PO_CONTROL_RUN as u32,
                actual: control as u32,
            },
        );
    }
    Ok(())
}

/// The tone's sample at `sample_index`: a triangle wave of amplitude 12000 whose phase advances
/// 440 steps of a 48000-step cycle per sample (the index times 440 wrapping at 64 bits).
pub open spec fn tone_spec(sample_index: u64) -> i16 {
    let phase = ((sample_index * 440) % 0x1_0000_0000_0000_0000) % 48000;
    let distance = if phase < 24000 {
        phase
    } else {
        48000 - phase
    };
    (distance - 12000) as i16
}

pub fn tone_sample(sample_index: u64) -> (r: i16)
    ensures
        r == tone_spec(sample_index),
        -12000 <= r <= 12000,
{
    let amplitude: i32 = 12_000;
    let cycle: u64 = 48_000;
    let frequency: u64 = 440;
    let phase = sample_index.wrapping_mul(frequency) % cycle;
    let distance = if phase < cycle / 2 {
        phase
    } else {
        cycle - phase
    };
    let d = distance as i32;
    assert(d * 2 * 12000 / 24000 == d) by (nonlinear_arith)
        requires
            0 <= d <= 24000,
    ;
    let value = (d * 2 * amplitude / (cycle as i32 / 2)) - amplitude;
    value as i16
}

/// The tone repeats every 48000 samples, as long as the index does not wrap.
pub proof fn lemma_tone_period(sample_index: u64)
    requires
        (sample_index + 48000) * 440 < 0x1_0000_0000_0000_0000,
    ensures
        tone_spec(sample_index) == tone_spec((sample_index + 48000) as u64),
{
    assert(((sample_index + 48000) * 440) % 48000 == (sample_index * 440) % 48000) by (nonlinear_arith);
}

} // verus!
