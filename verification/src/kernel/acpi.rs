//! ACPI tables: the RSDP and root table, the MADT's processors and interrupt routing, the FADT's
//! power-management registers and the DSDT's sleep packages.
//!
//! Every function here works on table bytes; reading physical memory is left to the caller.
use vstd::prelude::*;
use crate::bytes::{field, le_at, pow256, read_le};

verus! {

pub const RSDP_V1_LENGTH: usize = 20;
pub const RSDP_V2_LENGTH: usize = 36;
pub const ACPI_HEADER_LENGTH: usize = 36;
pub const MAX_TABLE_LENGTH: usize = 1048576;
pub const MAX_PROCESSORS: usize = 256;
pub const MAX_LEGACY_IRQS: usize = 16;
pub const FADT_DSDT_OFFSET: usize = 40;
pub const FADT_FIRMWARE_CONTROL_OFFSET: usize = 36;
pub const FADT_PM1A_EVENT_BLOCK_OFFSET: usize = 56;
pub const FADT_PM1B_EVENT_BLOCK_OFFSET: usize = 60;
pub const FADT_PM1A_CONTROL_BLOCK_OFFSET: usize = 64;
pub const FADT_PM1B_CONTROL_BLOCK_OFFSET: usize = 68;
pub const FADT_PM1_EVENT_LENGTH_OFFSET: usize = 88;
pub const FADT_PM1_CONTROL_LENGTH_OFFSET: usize = 89;
pub const FADT_RESET_REGISTER_OFFSET: usize = 116;
pub const FADT_RESET_VALUE_OFFSET: usize = 128;
pub const FADT_X_FIRMWARE_CONTROL_OFFSET: usize = 132;
pub const FADT_X_DSDT_OFFSET: usize = 140;
pub const FACS_LENGTH_OFFSET: usize = 4;
pub const FACS_VERSION_OFFSET: usize = 32;
pub const FACS_MINIMUM_LENGTH: usize = 33;

#[derive(Debug, Clone, Copy, PartialEq, Eq, Structural)]
pub enum AcpiError {
    MissingRsdp,
    InvalidRsdpAddress,
    InvalidRsdpSignature,
    InvalidRsdpChecksum,
    InvalidRsdpLength,
    MissingRootTable,
    InvalidRootTable,
    InvalidRootEntries,
    MissingMadt,
    InvalidMadt,
    InvalidMadtEntry,
    TooManyProcessors,
}

#[derive(Debug, Clone, Copy, PartialEq, Eq, Structural)]
pub struct ProcessorInfo {
    pub uid: u32,
    pub apic_id: u32,
    pub enabled: bool,
    pub x2apic: bool,
}

#[derive(Debug, Clone, Copy, PartialEq, Eq, Structural)]
pub struct IoApicInfo {
    pub id: u8,
    pub address: u64,
    pub gsi_base: u32,
}

#[derive(Debug, Clone, Copy, PartialEq, Eq, Structural)]
pub struct InterruptOverride {
    pub source: u8,
    pub gsi: u32,
    pub flags: u16,
}

#[derive(Debug, Clone, Copy, PartialEq, Eq, Structural)]
pub struct AcpiResetRegister {
    pub address_space: u8,
    pub bit_width: u8,
    pub bit_offset: u8,
    pub access_size: u8,
    pub address: u64,
    pub value: u8,
}

#[derive(Debug, Clone, Copy, PartialEq, Eq)]
pub struct AcpiPowerInfo {
    pub facs_address: Option<u64>,
    pub facs_length: u32,
    pub facs_version: u8,
    pub pm1a_event_block: u32,
    pub pm1b_event_block: u32,
    pub pm1_event_length: u8,
    pub pm1a_control_block: u32,
    pub pm1b_control_block: u32,
    pub pm1_control_length: u8,
    pub sleep_type_a: u16,
    pub sleep_type_b: u16,
    pub sleep_type_s3: Option<(u16, u16)>,
    pub reset_register: Option<AcpiResetRegister>,
}

#[derive(Debug, Clone, Copy, PartialEq, Eq)]
pub struct AcpiInfo {
    pub revision: u8,
    pub rsdp_address: u64,
    pub root_table_address: u64,
    pub madt_address: u64,
    pub fadt_address: Option<u64>,
    pub local_apic_address: u64,
    pub processor_count: u32,
    pub enabled_processor_count: u32,
    pub processors: [ProcessorInfo; MAX_PROCESSORS],
    pub io_apic_count: u32,
    pub io_apic: Option<IoApicInfo>,
    pub timer_gsi: u32,
    pub timer_flags: u16,
    pub interrupt_overrides: [Option<InterruptOverride>; MAX_LEGACY_IRQS],
    pub power: Option<AcpiPowerInfo>,
}

impl AcpiInfo {
    /// The global system interrupt and flags that legacy IRQ `irq` arrives on: its override
    /// where the MADT gives one, else the identity route with default flags; `None` past the
    /// sixteen legacy IRQs.
    pub fn legacy_irq_route(&self, irq: u8) -> (r: Option<(u32, u16)>)
        ensures
            irq >= 16 ==> r is None,
            irq < 16 ==> r == Some(
                match self.interrupt_overrides@[irq as int] {
                    Some(entry) => (entry.gsi, entry.flags),
                    None => (irq as u32, 0u16),
                },
            ),
    {
        if irq as usize >= MAX_LEGACY_IRQS {
            return None;
        }
        match self.interrupt_overrides[irq as usize] {
            Some(entry) => Some((entry.gsi, entry.flags)),
            None => Some((irq as u32, 0)),
        }
    }
}

/// Where the bootloader maps physical memory into the kernel's address space.
#[derive(Clone, Copy)]
pub struct PhysicalMemory {
    offset: u64,
}

impl PhysicalMemory {
    /// The virtual address at which physical address zero is mapped.
    pub closed spec fn base(self) -> u64 {
        self.offset
    }

    pub fn new(offset: u64) -> (r: Self)
        ensures
            r.base() == offset,
    {
        Self { offset }
    }

    /// The virtual address of `physical_address`, or `None` where it does not fit in 64 bits.
    pub fn virtual_address(self, physical_address: u64) -> (r: Option<u64>)
        ensures
            self.base() + physical_address <= u64::MAX ==> r == Some(
                (self.base() + physical_address) as u64,
            ),
            self.base() + physical_address > u64::MAX ==> r is None,
    {
        self.offset.checked_add(physical_address)
    }
}

/// The little-endian `u32` of `b` at `offset`, if all four bytes are there.
pub open spec fn u32_at(b: Seq<u8>, offset: int) -> Option<u32> {
    if offset + 4 <= b.len() {
        Some(le_at(b, offset, 4) as u32)
    } else {
        None
    }
}

/// The little-endian `u64` of `b` at `offset`, if all eight bytes are there.
pub open spec fn u64_at(b: Seq<u8>, offset: int) -> Option<u64> {
    if offset + 8 <= b.len() {
        Some(le_at(b, offset, 8) as u64)
    } else {
        None
    }
}

/// The byte of `b` at `offset`, if there is one.
pub open spec fn u8_at(b: Seq<u8>, offset: int) -> Option<u8> {
    if 0 <= offset < b.len() {
        Some(b[offset])
    } else {
        None
    }
}

pub fn read_u32(bytes: &[u8], offset: usize) -> (r: Option<u32>)
    ensures
        r == u32_at(bytes@, offset as int),
{
    if offset > bytes.len() || bytes.len() - offset < 4 {
        return None;
    }
    Some(read_le(bytes, offset, 4) as u32)
}

pub fn read_u64(bytes: &[u8], offset: usize) -> (r: Option<u64>)
    ensures
        r == u64_at(bytes@, offset as int),
{
    if offset > bytes.len() || bytes.len() - offset < 8 {
        return None;
    }
    proof {
        crate::bytes::lemma_pow256_values();
    }
    Some(read_le(bytes, offset, 8))
}

fn byte_at(bytes: &[u8], offset: usize) -> (r: Option<u8>)
    ensures
        r == u8_at(bytes@, offset as int),
{
    if offset < bytes.len() {
        Some(bytes[offset])
    } else {
        None
    }
}

/// The sum of the bytes of `s`.
pub open spec fn byte_total(s: Seq<u8>) -> nat
    decreases s.len(),
{
    if s.len() == 0 {
        0
    } else {
        byte_total(s.drop_last()) + s.last() as nat
    }
}

/// An ACPI checksum holds when the table's bytes sum to zero modulo 256.
pub open spec fn checksum_ok(s: Seq<u8>) -> bool {
    byte_total(s) % 256 == 0
}

pub fn checksum_is_valid(bytes: &[u8]) -> (r: bool)
    ensures
        r == checksum_ok(bytes@),
{
    let mut sum: u8 = 0;
    let mut i: usize = 0;
    let n = bytes.len();
    while i < n
        invariant
            i <= n == bytes@.len(),
            sum == byte_total(bytes@.take(i as int)) % 256,
        decreases n - i,
    {
        assert(bytes@.take(i + 1).drop_last() =~= bytes@.take(i as int));
        sum = sum.wrapping_add(bytes[i]);
        i = i + 1;
    }
    assert(bytes@.take(n as int) =~= bytes@);
    sum == 0
}

/// The FADT's reset register, where the table holds one that names a System I/O port of at
/// least a byte at bit offset zero and a nonzero address.
pub open spec fn reset_register_spec(fadt: Seq<u8>) -> Option<AcpiResetRegister> {
    if fadt.len() < 129 {
        None
    } else {
        let register = AcpiResetRegister {
            address_space: fadt[116],
            bit_width: fadt[117],
            bit_offset: fadt[118],
            access_size: fadt[119],
            address: le_at(fadt, 120, 8) as u64,
            value: fadt[128],
        };
        if register.address_space == 1 && register.bit_width >= 8 && register.bit_offset == 0
            && register.address != 0 {
            Some(register)
        } else {
            None
        }
    }
}

pub fn parse_reset_register(fadt: &[u8]) -> (r: Option<AcpiResetRegister>)
    ensures
        r == reset_register_spec(fadt@),
{
    if fadt.len() < FADT_RESET_VALUE_OFFSET + 1 {
        return None;
    }
    proof {
        crate::bytes::lemma_pow256_values();
    }
    let register = AcpiResetRegister {
        address_space: fadt[116],
        bit_width: fadt[117],
        bit_offset: fadt[118],
        access_size: fadt[119],
        address: read_le(fadt, 120, 8),
        value: fadt[FADT_RESET_VALUE_OFFSET],
    };
    if register.address_space == 1 && register.bit_width >= 8 && register.bit_offset == 0
        && register.address != 0 {
        Some(register)
    } else {
        None
    }
}

/// An AML package length: the low six bits of the lead byte, with each of the up to three
/// following bytes (their number in the lead byte's top two bits) or-ed in at bits 4, 12 and 20;
/// and the number of bytes the encoding takes.
pub open spec fn package_length_spec(b: Seq<u8>) -> Option<(usize, usize)> {
    if b.len() == 0 {
        None
    } else {
        let first = b[0];
        let follow = ((first >> 6u8) & 3u8) as nat;
        let low = (first & 0x3fu8) as usize;
        if b.len() < follow + 1 {
            None
        } else {
            let l1 = if follow >= 1 { low | ((b[1] as usize) << 4usize) } else { low };
            let l2 = if follow >= 2 { l1 | ((b[2] as usize) << 12usize) } else { l1 };
            let l3 = if follow >= 3 { l2 | ((b[3] as usize) << 20usize) } else { l2 };
            Some((l3, (follow + 1) as usize))
        }
    }
}

pub fn parse_aml_package_length(bytes: &[u8]) -> (r: Option<(usize, usize)>)
    ensures
        r == package_length_spec(bytes@),
        r matches Some((_, n)) ==> 1 <= n <= 4,
{
    if bytes.len() == 0 {
        return None;
    }
    let first = bytes[0];
    let follow = ((first >> 6) & 0x03) as usize;
    assert((first >> 6u8) & 3u8 <= 3) by (bit_vector);
    let mut length = (first & 0x3f) as usize;
    if bytes.len() < follow + 1 {
        return None;
    }
    if follow >= 1 {
        length = length | ((bytes[1] as usize) << 4usize);
    }
    if follow >= 2 {
        length = length | ((bytes[2] as usize) << 12usize);
    }
    if follow >= 3 {
        length = length | ((bytes[3] as usize) << 20usize);
    }
    Some((length, follow + 1))
}

/// An AML integer object: zero, one, or a byte, word, dword or qword constant that fits in 16
/// bits; and the number of bytes it takes.
pub open spec fn aml_integer_spec(b: Seq<u8>) -> Option<(u16, usize)> {
    if b.len() == 0 {
        None
    } else if b[0] == 0x00 {
        Some((0, 1))
    } else if b[0] == 0x01 {
        Some((1, 1))
    } else if b[0] == 0x0a {
        if b.len() < 2 {
            None
        } else {
            Some((b[1] as u16, 2))
        }
    } else if b[0] == 0x0b {
        if b.len() < 3 {
            None
        } else {
            Some((le_at(b, 1, 2) as u16, 3))
        }
    } else if b[0] == 0x0c {
        if b.len() < 5 || le_at(b, 1, 4) > 0xffff {
            None
        } else {
            Some((le_at(b, 1, 4) as u16, 5))
        }
    } else if b[0] == 0x0e {
        if b.len() < 9 || le_at(b, 1, 8) > 0xffff {
            None
        } else {
            Some((le_at(b, 1, 8) as u16, 9))
        }
    } else {
        None
    }
}

pub fn parse_aml_integer(bytes: &[u8]) -> (r: Option<(u16, usize)>)
    ensures
        r == aml_integer_spec(bytes@),
{
    if bytes.len() == 0 {
        return None;
    }
    let len = bytes.len();
    let prefix = bytes[0];
    if prefix == 0x00 {
        Some((0, 1))
    } else if prefix == 0x01 {
        Some((1, 1))
    } else if prefix == 0x0a {
        if len < 2 {
            None
        } else {
            Some((bytes[1] as u16, 2))
        }
    } else if prefix == 0x0b {
        if len < 3 {
            None
        } else {
            Some((read_le(bytes, 1, 2) as u16, 3))
        }
    } else if prefix == 0x0c {
        if len < 5 {
            return None;
        }
        let value = read_le(bytes, 1, 4);
        if value > 0xffff {
            None
        } else {
            Some((value as u16, 5))
        }
    } else if prefix == 0x0e {
        if len < 9 {
            return None;
        }
        proof {
            crate::bytes::lemma_pow256_values();
        }
        let value = read_le(bytes, 1, 8);
        if value > 0xffff {
            None
        } else {
            Some((value as u16, 9))
        }
    } else {
        None
    }
}

/// What the MADT says: the local APIC's address, the processors in table order, the first I/O
/// APIC, and the legacy-IRQ overrides on bus zero.
#[derive(Debug, Clone, Copy, PartialEq, Eq)]
pub struct MadtInfo {
    pub local_apic_address: u64,
    pub processor_count: u32,
    pub enabled_processor_count: u32,
    pub processors: [ProcessorInfo; MAX_PROCESSORS],
    pub io_apic_count: u32,
    pub io_apic: Option<IoApicInfo>,
    pub timer_gsi: u32,
    pub timer_flags: u16,
    pub interrupt_overrides: [Option<InterruptOverride>; MAX_LEGACY_IRQS],
}

/// The MADT's contents with the processor and override tables as sequences.
pub struct MadtView {
    pub local_apic_address: u64,
    pub processor_count: u32,
    pub enabled_processor_count: u32,
    pub processors: Seq<ProcessorInfo>,
    pub io_apic_count: u32,
    pub io_apic: Option<IoApicInfo>,
    pub timer_gsi: u32,
    pub timer_flags: u16,
    pub interrupt_overrides: Seq<Option<InterruptOverride>>,
}

impl View for MadtInfo {
    type V = MadtView;

    open spec fn view(&self) -> MadtView {
        MadtView {
            local_apic_address: self.local_apic_address,
            processor_count: self.processor_count,
            enabled_processor_count: self.enabled_processor_count,
            processors: self.processors@,
            io_apic_count: self.io_apic_count,
            io_apic: self.io_apic,
            timer_gsi: self.timer_gsi,
            timer_flags: self.timer_flags,
            interrupt_overrides: self.interrupt_overrides@,
        }
    }
}

pub open spec fn empty_processor() -> ProcessorInfo {
    ProcessorInfo { uid: 0, apic_id: 0, enabled: false, x2apic: false }
}

/// `st` with one more processor recorded.
pub open spec fn add_processor(st: MadtView, p: ProcessorInfo) -> MadtView {
    MadtView {
        processors: st.processors.update(st.processor_count as int, p),
        processor_count: (st.processor_count + 1) as u32,
        enabled_processor_count: if p.enabled {
            (st.enabled_processor_count + 1) as u32
        } else {
            st.enabled_processor_count
        },
        ..st
    }
}

/// What the MADT entry of type `t[off]` and `length` bytes at `off` adds to `st`. Entries of
/// unknown types, or too short for their type, are skipped.
pub open spec fn madt_entry_spec(t: Seq<u8>, off: int, length: int, st: MadtView) -> Result<
    MadtView,
    AcpiError,
> {
    let kind = t[off];
    if kind == 0 && length >= 8 {
        if st.processor_count >= 256 {
            Err(AcpiError::TooManyProcessors)
        } else {
            Ok(
                add_processor(
                    st,
                    ProcessorInfo {
                        uid: t[off + 2] as u32,
                        apic_id: t[off + 3] as u32,
                        enabled: le_at(t, off + 4, 4) % 2 == 1,
                        x2apic: false,
                    },
                ),
            )
        }
    } else if kind == 1 && length >= 12 {
        Ok(
            MadtView {
                io_apic_count: (st.io_apic_count + 1) as u32,
                io_apic: if st.io_apic is None {
                    Some(
                        IoApicInfo {
                            id: t[off + 2],
                            address: le_at(t, off + 4, 4) as u64,
                            gsi_base: le_at(t, off + 8, 4) as u32,
                        },
                    )
                } else {
                    st.io_apic
                },
                ..st
            },
        )
    } else if kind == 2 && length >= 10 {
        let source = t[off + 3];
        let gsi = le_at(t, off + 4, 4) as u32;
        let flags = le_at(t, off + 8, 2) as u16;
        if t[off + 2] != 0 {
            Ok(st)
        } else {
            Ok(
                MadtView {
                    interrupt_overrides: if source < 16 {
                        st.interrupt_overrides.update(
                            source as int,
                            Some(InterruptOverride { source, gsi, flags }),
                        )
                    } else {
                        st.interrupt_overrides
                    },
                    timer_gsi: if source == 0 {
                        gsi
                    } else {
                        st.timer_gsi
                    },
                    timer_flags: if source == 0 {
                        flags
                    } else {
                        st.timer_flags
                    },
                    ..st
                },
            )
        }
    } else if kind == 5 && length >= 12 {
        Ok(MadtView { local_apic_address: le_at(t, off + 4, 8) as u64, ..st })
    } else if kind == 9 && length >= 16 {
        if st.processor_count >= 256 {
            Err(AcpiError::TooManyProcessors)
        } else {
            Ok(
                add_processor(
                    st,
                    ProcessorInfo {
                        uid: le_at(t, off + 4, 4) as u32,
                        apic_id: le_at(t, off + 8, 4) as u32,
                        enabled: le_at(t, off + 12, 4) % 2 == 1,
                        x2apic: true,
                    },
                ),
            )
        }
    } else {
        Ok(st)
    }
}

/// Walks the MADT's entries from `off`, each a type byte and a length byte (at least two, and
/// inside the table) followed by its fields.
pub open spec fn madt_walk(t: Seq<u8>, off: int, st: MadtView) -> Result<MadtView, AcpiError>
    decreases t.len() - off,
{
    if off < 0 || off >= t.len() {
        Ok(st)
    } else if off + 1 >= t.len() {
        Err(AcpiError::InvalidMadtEntry)
    } else {
        let length = t[off + 1] as int;
        if length < 2 || off + length > t.len() {
            Err(AcpiError::InvalidMadtEntry)
        } else {
            match madt_entry_spec(t, off, length, st) {
                Err(e) => Err(e),
                Ok(next) => madt_walk(t, off + length, next),
            }
        }
    }
}

/// The signature "APIC".
pub open spec fn madt_signature() -> Seq<u8> {
    seq![65u8, 80, 73, 67]
}

/// What parsing `t` as a MADT gives: the table must be signed "APIC", hold the 44 bytes of its
/// header and local APIC address, and sum to zero; its entries must be well formed, and a local
/// APIC address must be known at the end.
pub open spec fn madt_spec(t: Seq<u8>) -> Result<MadtView, AcpiError> {
    if t.len() < 44 || t.take(4) != madt_signature() || !checksum_ok(t) {
        Err(AcpiError::InvalidMadt)
    } else {
        let start = MadtView {
            local_apic_address: le_at(t, 36, 4) as u64,
            processor_count: 0,
            enabled_processor_count: 0,
            processors: Seq::new(256, |_i: int| empty_processor()),
            io_apic_count: 0,
            io_apic: None,
            timer_gsi: 0,
            timer_flags: 0,
            interrupt_overrides: Seq::new(16, |_i: int| None),
        };
        match madt_walk(t, 44, start) {
            Err(e) => Err(e),
            Ok(st) => if st.local_apic_address == 0 {
                Err(AcpiError::InvalidMadt)
            } else {
                Ok(st)
            },
        }
    }
}

pub open spec fn madt_result_view(r: Result<MadtInfo, AcpiError>) -> Result<MadtView, AcpiError> {
    match r {
        Ok(info) => Ok(info@),
        Err(e) => Err(e),
    }
}

/// Applies the entry at `offset` (of `length` bytes, inside the table) to `info`.
fn madt_entry(table: &[u8], offset: usize, length: usize, info: &mut MadtInfo) -> (r: Result<
    (),
    AcpiError,
>)
    requires
        2 <= length,
        offset + length <= table@.len() <= 0xffff_ffff,
        old(info).processor_count <= 256,
        old(info).enabled_processor_count <= old(info).processor_count,
        old(info).io_apic_count * 12 <= offset,
    ensures
        match madt_entry_spec(table@, offset as int, length as int, old(info)@) {
            Ok(next) => r is Ok && final(info)@ == next,
            Err(e) => r == Err::<(), AcpiError>(e),
        },
        final(info).processor_count <= 256,
        final(info).enabled_processor_count <= final(info).processor_count,
        final(info).io_apic_count * 12 <= offset + length,
{
    let kind = table[offset];
    if (kind == 0 && length >= 8) || (kind == 9 && length >= 16) {
        if info.processor_count >= 256 {
            return Err(AcpiError::TooManyProcessors);
        }
        let x2apic = kind == 9;
        let (uid, apic_id, flags) = if x2apic {
            (read_le(table, offset + 4, 4) as u32, read_le(table, offset + 8, 4) as u32, read_le(
                table,
                offset + 12,
                4,
            ))
        } else {
            (table[offset + 2] as u32, table[offset + 3] as u32, read_le(table, offset + 4, 4))
        };
        assert(flags & 1u64 != 0 <==> flags % 2 == 1) by (bit_vector);
        let enabled = flags & 1 != 0;
        let index = info.processor_count as usize;
        info.processors[index] = ProcessorInfo { uid, apic_id, enabled, x2apic };
        info.processor_count = info.processor_count + 1;
        if enabled {
            info.enabled_processor_count = info.enabled_processor_count + 1;
        }
        Ok(())
    } else if kind == 1 && length >= 12 {
        info.io_apic_count = info.io_apic_count + 1;
        if info.io_apic.is_none() {
            info.io_apic = Some(
                IoApicInfo {
                    id: table[offset + 2],
                    address: read_le(table, offset + 4, 4),
                    gsi_base: read_le(table, offset + 8, 4) as u32,
                },
            );
        }
        Ok(())
    } else if kind == 2 && length >= 10 {
        let bus = table[offset + 2];
        let source = table[offset + 3];
        if bus == 0 {
            let gsi = read_le(table, offset + 4, 4) as u32;
            let flags = read_le(table, offset + 8, 2) as u16;
            if (source as usize) < MAX_LEGACY_IRQS {
                info.interrupt_overrides[source as usize] = Some(
                    InterruptOverride { source, gsi, flags },
                );
            }
            if source == 0 {
                info.timer_gsi = gsi;
                info.timer_flags = flags;
            }
        }
        Ok(())
    } else if kind == 5 && length >= 12 {
        proof {
            crate::bytes::lemma_pow256_values();
        }
        info.local_apic_address = read_le(table, offset + 4, 8);
        Ok(())
    } else {
        Ok(())
    }
}

/// Parses a MADT: its local APIC address, processors, first I/O APIC and legacy-IRQ overrides.
pub fn parse_madt(table: &[u8]) -> (r: Result<MadtInfo, AcpiError>)
    requires
        table@.len() <= 0xffff_ffff,
    ensures
        madt_result_view(r) == madt_spec(table@),
        r matches Ok(info) ==> info.enabled_processor_count <= info.processor_count <= 256,
{
    let len = table.len();
    let signature: [u8; 4] = [65, 80, 73, 67];
    assert(signature@ =~= madt_signature());
    if len < ACPI_HEADER_LENGTH + 8 || !crate::bytes::range_equals(table, 0, 4, &signature)
        || !checksum_is_valid(table) {
        assert(field(table@, 0, 4) =~= table@.take(4));
        return Err(AcpiError::InvalidMadt);
    }
    assert(field(table@, 0, 4) =~= table@.take(4));
    let processors = [ProcessorInfo { uid: 0, apic_id: 0, enabled: false, x2apic: false }; MAX_PROCESSORS];
    let overrides: [Option<InterruptOverride>; MAX_LEGACY_IRQS] = [None; MAX_LEGACY_IRQS];
    assert(processors@ =~= Seq::new(256, |_i: int| empty_processor()));
    assert(overrides@ =~= Seq::new(16, |_i: int| None::<InterruptOverride>));
    let mut info = MadtInfo {
        local_apic_address: read_le(table, ACPI_HEADER_LENGTH, 4),
        processor_count: 0,
        enabled_processor_count: 0,
        processors,
        io_apic_count: 0,
        io_apic: None,
        timer_gsi: 0,
        timer_flags: 0,
        interrupt_overrides: overrides,
    };
    let mut offset: usize = ACPI_HEADER_LENGTH + 8;
    while offset < len
        invariant
            44 <= offset <= len == table@.len() <= 0xffff_ffff,
            info.processor_count <= 256,
            info.enabled_processor_count <= info.processor_count,
            info.io_apic_count * 12 <= offset,
            madt_spec(table@) == (match madt_walk(table@, offset as int, info@) {
                Err(e) => Err(e),
                Ok(st) => if st.local_apic_address == 0 {
                    Err(AcpiError::InvalidMadt)
                } else {
                    Ok(st)
                },
            }),
        decreases len - offset,
    {
        if offset + 1 >= len {
            return Err(AcpiError::InvalidMadtEntry);
        }
        let entry_length = table[offset + 1] as usize;
        if entry_length < 2 || entry_length > len - offset {
            return Err(AcpiError::InvalidMadtEntry);
        }
        match madt_entry(table, offset, entry_length, &mut info) {
            Err(e) => return Err(e),
            Ok(()) => {},
        }
        offset = offset + entry_length;
    }
    if info.local_apic_address == 0 {
        return Err(AcpiError::InvalidMadt);
    }
    Ok(info)
}

/// The AML bytes that name the sleep package of state `state`: a NameOp and `_Sx_`.
pub open spec fn sleep_name(state: u8) -> Seq<u8> {
    seq![0x08u8, 95, 83, (48 + state) as u8, 95]
}

/// The first position at or after `from` where `name` occurs in `aml`.
pub open spec fn find_name(aml: Seq<u8>, name: Seq<u8>, from: int) -> Option<int>
    decreases aml.len() - from,
{
    if from < 0 || name.len() == 0 || from + name.len() > aml.len() {
        None
    } else if aml.subrange(from, from + name.len() as int) == name {
        Some(from)
    } else {
        find_name(aml, name, from + 1)
    }
}

/// What the package after a name at `name_offset` of `aml` says about the sleep types. `None`
/// ends the search without an answer (the package is cut off); `Some(None)` means this
/// occurrence does not hold two small integers and the search goes on; `Some(Some(p))` is the
/// answer.
pub open spec fn sleep_package(aml: Seq<u8>, name_offset: int) -> Option<Option<(u16, u16)>> {
    let package_offset = name_offset + 5;
    if !(package_offset < aml.len() && aml[package_offset] == 0x12) {
        Some(None)
    } else {
        match package_length_spec(aml.skip(package_offset + 1)) {
            None => None,
            Some((package_length, length_bytes)) => {
                let package_end = package_offset + 1 + package_length;
                let elements = package_offset + 1 + length_bytes;
                if package_end > usize::MAX {
                    None
                } else if package_end > aml.len() {
                    Some(None)
                } else if elements >= aml.len() {
                    None
                } else if aml[elements] < 2 {
                    Some(None)
                } else {
                    match aml_integer_spec(aml.skip(elements + 1)) {
                        None => None,
                        Some((first, first_length)) => if elements + 1 + first_length > aml.len() {
                            None
                        } else {
                            match aml_integer_spec(aml.skip(elements + 1 + first_length)) {
                                None => None,
                                Some((second, _)) => if first <= 7 && second <= 7 {
                                    Some(Some((first, second)))
                                } else {
                                    Some(None)
                                },
                            }
                        },
                    }
                }
            },
        }
    }
}

/// Searches `aml` from `from` for the sleep package named `name`.
pub open spec fn sleep_search(aml: Seq<u8>, name: Seq<u8>, from: int) -> Option<(u16, u16)>
    decreases aml.len() - from,
{
    if from < 0 || from + 5 > aml.len() || name.len() != 5 {
        None
    } else {
        match find_name(aml, name, from) {
            None => None,
            Some(n) => match sleep_package(aml, n) {
                None => None,
                Some(Some(p)) => Some(p),
                Some(None) => {
                    proof {
                        lemma_find_name_bounds(aml, name, from);
                    }
                    sleep_search(aml, name, n + 1)
                },
            },
        }
    }
}

/// The two sleep-type values of state `state` (at most nine) in a DSDT: the first `_Sx_` package
/// in its AML whose first two elements are integers of at most seven.
pub open spec fn sleep_types_spec(dsdt: Seq<u8>, state: u8) -> Option<(u16, u16)> {
    if state > 9 || dsdt.len() < 36 {
        None
    } else {
        sleep_search(dsdt.skip(36), sleep_name(state), 0)
    }
}

/// An occurrence that the search finds lies at or after where it started, inside `aml`.
pub proof fn lemma_find_name_bounds(aml: Seq<u8>, name: Seq<u8>, from: int)
    ensures
        find_name(aml, name, from) matches Some(n) ==> from <= n && n + name.len() <= aml.len()
            && aml.subrange(n, n + name.len() as int) == name,
    decreases aml.len() - from,
{
    if from >= 0 && name.len() > 0 && from + name.len() <= aml.len() && aml.subrange(
        from,
        from + name.len() as int,
    ) != name {
        lemma_find_name_bounds(aml, name, from + 1);
    }
}

/// The first occurrence of `name` in `aml` at or after `from`.
fn find_window(aml: &[u8], name: &[u8], from: usize) -> (r: Option<usize>)
    requires
        name@.len() == 5,
    ensures
        r == (match find_name(aml@, name@, from as int) {
            Some(n) => Some(n as usize),
            None => None,
        }),
{
    let n = aml.len();
    let mut i = from;
    while i <= n && n - i >= 5
        invariant
            from <= i,
            n == aml@.len(),
            name@.len() == 5,
            find_name(aml@, name@, from as int) == find_name(aml@, name@, i as int),
        decreases n - i,
    {
        if crate::bytes::range_equals(aml, i, i + 5, name) {
            return Some(i);
        }
        i = i + 1;
    }
    None
}

/// The sleep-type values of state `state` in `dsdt`.
pub fn parse_sleep_types(dsdt: &[u8], state: u8) -> (r: Option<(u16, u16)>)
    ensures
        r == sleep_types_spec(dsdt@, state),
{
    if state > 9 || dsdt.len() < ACPI_HEADER_LENGTH {
        return None;
    }
    let aml = &dsdt[ACPI_HEADER_LENGTH..dsdt.len()];
    assert(aml@ =~= dsdt@.skip(36));
    let name: [u8; 5] = [0x08, 95, 83, 48 + state, 95];
    assert(name@ =~= sleep_name(state));
    let len = aml.len();
    let mut search: usize = 0;
    while len - search >= 5
        invariant
            search <= len == aml@.len(),
            name@ == sleep_name(state),
            sleep_types_spec(dsdt@, state) == sleep_search(aml@, name@, search as int),
        decreases len - search,
    {
        let name_offset = match find_window(aml, &name, search) {
            None => return None,
            Some(n) => n,
        };
        proof {
            lemma_find_name_bounds(aml@, name@, search as int);
        }
        match sleep_package_at(aml, name_offset) {
            None => return None,
            Some(Some(p)) => return Some(p),
            Some(None) => {},
        }
        search = name_offset + 1;
    }
    None
}

/// `sleep_package` of `aml` at `name_offset`.
fn sleep_package_at(aml: &[u8], name_offset: usize) -> (r: Option<Option<(u16, u16)>>)
    requires
        name_offset + 5 <= aml@.len(),
    ensures
        r == sleep_package(aml@, name_offset as int),
{
    let len = aml.len();
    let package_offset = name_offset + 5;
    if !(package_offset < len && aml[package_offset] == 0x12) {
        return Some(None);
    }
    let rest = &aml[package_offset + 1..len];
    assert(rest@ =~= aml@.skip(package_offset + 1));
    let (package_length, length_bytes) = match parse_aml_package_length(rest) {
        None => return None,
        Some(p) => p,
    };
    assert(length_bytes <= 4);
    if package_length > usize::MAX - (package_offset + 1) {
        return None;
    }
    let package_end = package_offset + 1 + package_length;
    if package_end > len {
        return Some(None);
    }
    let elements = package_offset + 1 + length_bytes;
    if elements >= len {
        return None;
    }
    if aml[elements] < 2 {
        return Some(None);
    }
    let tail = &aml[elements + 1..len];
    assert(tail@ =~= aml@.skip(elements + 1));
    let (first, first_length) = match parse_aml_integer(tail) {
        None => return None,
        Some(p) => p,
    };
    if first_length > len - (elements + 1) {
        return None;
    }
    let tail2 = &aml[elements + 1 + first_length..len];
    assert(tail2@ =~= aml@.skip(elements + 1 + first_length));
    let (second, _) = match parse_aml_integer(tail2) {
        None => return None,
        Some(p) => p,
    };
    if first <= 7 && second <= 7 {
        Some(Some((first, second)))
    } else {
        Some(None)
    }
}

/// The S5 (soft-off) sleep-type values in `dsdt`.
pub fn parse_s5_sleep_types(dsdt: &[u8]) -> (r: Option<(u16, u16)>)
    ensures
        r == sleep_types_spec(dsdt@, 5),
{
    parse_sleep_types(dsdt, 5)
}

/// The signature "FACS".
pub open spec fn facs_signature() -> Seq<u8> {
    seq![70u8, 65, 67, 83]
}

/// Whether `table` starts with the four signature bytes `signature`.
pub open spec fn signed(table: Seq<u8>, signature: Seq<u8>) -> bool {
    table.len() >= 4 && table.take(4) == signature
}

pub fn has_signature(table: &[u8], signature: [u8; 4]) -> (r: bool)
    ensures
        r == signed(table@, signature@),
{
    if table.len() < 4 {
        return false;
    }
    let r = crate::bytes::range_equals(table, 0, 4, &signature);
    assert(field(table@, 0, 4) =~= table@.take(4));
    r
}

/// The address, length and version of a FACS whose first 33 bytes are `header`: the table must
/// be signed "FACS" and declare a length of 33 bytes to 1 MiB.
pub open spec fn facs_spec(address: u64, header: Seq<u8>) -> Option<(u64, u32, u8)> {
    let length = le_at(header, 4, 4);
    if header.len() < 33 || !signed(header, facs_signature()) || length < 33 || length > 1048576 {
        None
    } else {
        Some((address, length as u32, header[32]))
    }
}

pub fn parse_facs_header(physical_address: u64, header: &[u8]) -> (r: Option<(u64, u32, u8)>)
    ensures
        r == facs_spec(physical_address, header@),
{
    if header.len() < FACS_MINIMUM_LENGTH {
        return None;
    }
    let signature: [u8; 4] = [70, 65, 67, 83];
    assert(signature@ =~= facs_signature());
    if !has_signature(header, signature) {
        return None;
    }
    let length = read_le(header, FACS_LENGTH_OFFSET, 4);
    if length < FACS_MINIMUM_LENGTH as u64 || length > MAX_TABLE_LENGTH as u64 {
        return None;
    }
    Some((physical_address, length as u32, header[FACS_VERSION_OFFSET]))
}

/// The FACS address a FADT gives: its 64-bit field where nonzero, else its 32-bit field where
/// nonzero.
pub open spec fn fadt_facs_spec(fadt: Seq<u8>) -> Option<u64> {
    match u64_at(fadt, 132) {
        Some(a) if a != 0 => Some(a),
        _ => match u32_at(fadt, 36) {
            Some(a) if a != 0 => Some(a as u64),
            _ => None,
        },
    }
}

pub fn fadt_facs_address(fadt: &[u8]) -> (r: Option<u64>)
    ensures
        r == fadt_facs_spec(fadt@),
{
    match read_u64(fadt, FADT_X_FIRMWARE_CONTROL_OFFSET) {
        Some(a) if a != 0 => Some(a),
        _ => match read_u32(fadt, FADT_FIRMWARE_CONTROL_OFFSET) {
            Some(a) if a != 0 => Some(a as u64),
            _ => None,
        },
    }
}

/// The DSDT address a FADT gives: its 64-bit field where nonzero, else its 32-bit field.
pub open spec fn fadt_dsdt_spec(fadt: Seq<u8>) -> Option<u64> {
    match u64_at(fadt, 140) {
        Some(a) if a != 0 => Some(a),
        _ => match u32_at(fadt, 40) {
            Some(a) => Some(a as u64),
            None => None,
        },
    }
}

pub fn fadt_dsdt_address(fadt: &[u8]) -> (r: Option<u64>)
    ensures
        r == fadt_dsdt_spec(fadt@),
{
    match read_u64(fadt, FADT_X_DSDT_OFFSET) {
        Some(a) if a != 0 => Some(a),
        _ => match read_u32(fadt, FADT_DSDT_OFFSET) {
            Some(a) => Some(a as u64),
            None => None,
        },
    }
}

/// The power-management information of a FADT, its FACS (if found) and its DSDT: the PM1
/// register blocks (a PM1a control block and a control length of at least two are required),
/// the S5 sleep types (required), the S3 sleep types and the reset register.
pub open spec fn power_spec(fadt: Seq<u8>, facs: Option<(u64, u32, u8)>, dsdt: Seq<u8>) -> Option<
    AcpiPowerInfo,
> {
    match (u32_at(fadt, 64), u32_at(fadt, 68), u8_at(fadt, 88), u8_at(fadt, 89)) {
        (Some(pm1a_control), Some(pm1b_control), Some(event_length), Some(control_length)) => {
            if pm1a_control == 0 || control_length < 2 {
                None
            } else {
                match sleep_types_spec(dsdt, 5) {
                    None => None,
                    Some((a, b)) => Some(
                        AcpiPowerInfo {
                            facs_address: match facs {
                                Some(f) => Some(f.0),
                                None => None,
                            },
                            facs_length: match facs {
                                Some(f) => f.1,
                                None => 0,
                            },
                            facs_version: match facs {
                                Some(f) => f.2,
                                None => 0,
                            },
                            pm1a_event_block: match u32_at(fadt, 56) {
                                Some(v) => v,
                                None => 0,
                            },
                            pm1b_event_block: match u32_at(fadt, 60) {
                                Some(v) => v,
                                None => 0,
                            },
                            pm1_event_length: event_length,
                            pm1a_control_block: pm1a_control,
                            pm1b_control_block: pm1b_control,
                            pm1_control_length: control_length,
                            sleep_type_a: a,
                            sleep_type_b: b,
                            sleep_type_s3: sleep_types_spec(dsdt, 3),
                            reset_register: reset_register_spec(fadt),
                        },
                    ),
                }
            }
        },
        _ => None,
    }
}

pub fn power_info(fadt: &[u8], facs: Option<(u64, u32, u8)>, dsdt: &[u8]) -> (r: Option<
    AcpiPowerInfo,
>)
    ensures
        r == power_spec(fadt@, facs, dsdt@),
{
    let (facs_address, facs_length, facs_version) = match facs {
        Some((a, l, v)) => (Some(a), l, v),
        None => (None, 0, 0),
    };
    let pm1a_event_block = match read_u32(fadt, FADT_PM1A_EVENT_BLOCK_OFFSET) {
        Some(v) => v,
        None => 0,
    };
    let pm1b_event_block = match read_u32(fadt, FADT_PM1B_EVENT_BLOCK_OFFSET) {
        Some(v) => v,
        None => 0,
    };
    let pm1a_control_block = match read_u32(fadt, FADT_PM1A_CONTROL_BLOCK_OFFSET) {
        Some(v) => v,
        None => return None,
    };
    let pm1b_control_block = match read_u32(fadt, FADT_PM1B_CONTROL_BLOCK_OFFSET) {
        Some(v) => v,
        None => return None,
    };
    let pm1_event_length = match byte_at(fadt, FADT_PM1_EVENT_LENGTH_OFFSET) {
        Some(v) => v,
        None => return None,
    };
    let pm1_control_length = match byte_at(fadt, FADT_PM1_CONTROL_LENGTH_OFFSET) {
        Some(v) => v,
        None => return None,
    };
    if pm1a_control_block == 0 || pm1_control_length < 2 {
        return None;
    }
    let (sleep_type_a, sleep_type_b) = match parse_s5_sleep_types(dsdt) {
        Some(p) => p,
        None => return None,
    };
    Some(
        AcpiPowerInfo {
            facs_address,
            facs_length,
            facs_version,
            pm1a_event_block,
            pm1b_event_block,
            pm1_event_length,
            pm1a_control_block,
            pm1b_control_block,
            pm1_control_length,
            sleep_type_a,
            sleep_type_b,
            sleep_type_s3: parse_sleep_types(dsdt, 3),
            reset_register: parse_reset_register(fadt),
        },
    )
}

/// The signature "RSD PTR ".
pub open spec fn rsdp_signature() -> Seq<u8> {
    seq![82u8, 83, 68, 32, 80, 84, 82, 32]
}

/// Checking the first 20 bytes of an RSDP: its signature, its checksum and its revision byte.
pub open spec fn rsdp_spec(rsdp: Seq<u8>) -> Result<u8, AcpiError> {
    if rsdp.len() < 8 || rsdp.take(8) != rsdp_signature() {
        Err(AcpiError::InvalidRsdpSignature)
    } else if !checksum_ok(rsdp) {
        Err(AcpiError::InvalidRsdpChecksum)
    } else if rsdp.len() < 16 {
        Err(AcpiError::InvalidRsdpLength)
    } else {
        Ok(rsdp[15])
    }
}

/// Checks an RSDP's first 20 bytes; gives its revision.
pub fn check_rsdp(rsdp: &[u8]) -> (r: Result<u8, AcpiError>)
    ensures
        r == rsdp_spec(rsdp@),
{
    let signature: [u8; 8] = [82, 83, 68, 32, 80, 84, 82, 32];
    assert(signature@ =~= rsdp_signature());
    if rsdp.len() < 8 || !crate::bytes::range_equals(rsdp, 0, 8, &signature) {
        assert(field(rsdp@, 0, 8) =~= rsdp@.take(8));
        return Err(AcpiError::InvalidRsdpSignature);
    }
    assert(field(rsdp@, 0, 8) =~= rsdp@.take(8));
    if !checksum_is_valid(rsdp) {
        return Err(AcpiError::InvalidRsdpChecksum);
    }
    match byte_at(rsdp, 15) {
        Some(revision) => Ok(revision),
        None => Err(AcpiError::InvalidRsdpLength),
    }
}

/// The RSDT address of a revision-1 RSDP.
pub fn rsdp_v1_root(rsdp: &[u8]) -> (r: Result<u64, AcpiError>)
    ensures
        r == (match u32_at(rsdp@, 16) {
            Some(a) => Ok::<u64, AcpiError>(a as u64),
            None => Err(AcpiError::InvalidRsdpLength),
        }),
{
    match read_u32(rsdp, 16) {
        Some(a) => Ok(a as u64),
        None => Err(AcpiError::InvalidRsdpLength),
    }
}

/// The length a revision-2 RSDP declares in its first 36 bytes: 36 bytes to 1 MiB.
pub fn rsdp_v2_length(rsdp: &[u8]) -> (r: Result<usize, AcpiError>)
    ensures
        r == (match u32_at(rsdp@, 20) {
            Some(l) => if 36 <= l <= 1048576 {
                Ok::<usize, AcpiError>(l as usize)
            } else {
                Err(AcpiError::InvalidRsdpLength)
            },
            None => Err(AcpiError::InvalidRsdpLength),
        }),
{
    match read_u32(rsdp, 20) {
        Some(l) => if 36 <= l && l <= 1048576 {
            Ok(l as usize)
        } else {
            Err(AcpiError::InvalidRsdpLength)
        },
        None => Err(AcpiError::InvalidRsdpLength),
    }
}

/// The XSDT address of a whole revision-2 RSDP, whose extended checksum must hold.
pub fn rsdp_v2_root(rsdp: &[u8]) -> (r: Result<u64, AcpiError>)
    ensures
        r == (if !checksum_ok(rsdp@) {
            Err(AcpiError::InvalidRsdpChecksum)
        } else {
            match u64_at(rsdp@, 24) {
                Some(a) => Ok::<u64, AcpiError>(a),
                None => Err(AcpiError::InvalidRsdpLength),
            }
        }),
{
    if !checksum_is_valid(rsdp) {
        return Err(AcpiError::InvalidRsdpChecksum);
    }
    match read_u64(rsdp, 24) {
        Some(a) => Ok(a),
        None => Err(AcpiError::InvalidRsdpLength),
    }
}

/// The length an ACPI table header declares: 36 bytes to 1 MiB.
pub fn table_length(header: &[u8]) -> (r: Result<usize, AcpiError>)
    ensures
        r == (match u32_at(header@, 4) {
            Some(l) => if 36 <= l <= 1048576 {
                Ok::<usize, AcpiError>(l as usize)
            } else {
                Err(AcpiError::InvalidRootTable)
            },
            None => Err(AcpiError::InvalidRootTable),
        }),
{
    match read_u32(header, 4) {
        Some(l) => if 36 <= l && l <= 1048576 {
            Ok(l as usize)
        } else {
            Err(AcpiError::InvalidRootTable)
        },
        None => Err(AcpiError::InvalidRootTable),
    }
}

/// The table addresses an RSDT (four-byte entries) or XSDT (eight-byte entries) lists.
pub open spec fn root_entries_spec(root: Seq<u8>, entry_size: nat) -> Result<Seq<u64>, AcpiError> {
    let signature = if entry_size == 8 {
        seq![88u8, 83, 68, 84]
    } else {
        seq![82u8, 83, 68, 84]
    };
    if !signed(root, signature) {
        Err(AcpiError::InvalidRootTable)
    } else if root.len() < 36 || (root.len() - 36) % (entry_size as int) != 0 {
        Err(AcpiError::InvalidRootEntries)
    } else {
        Ok(
            Seq::new(
                ((root.len() - 36) / (entry_size as int)) as nat,
                |i: int| le_at(root, 36 + i * entry_size, entry_size as int) as u64,
            ),
        )
    }
}

/// The table addresses of a root table, in order.
pub fn root_table_entries(root: &[u8], entry_size: usize) -> (r: Result<Vec<u64>, AcpiError>)
    requires
        entry_size == 4 || entry_size == 8,
    ensures
        match root_entries_spec(root@, entry_size as nat) {
            Ok(entries) => r matches Ok(v) && v@ == entries,
            Err(e) => r == Err::<Vec<u64>, AcpiError>(e),
        },
{
    let signature: [u8; 4] = if entry_size == 8 {
        [88, 83, 68, 84]
    } else {
        [82, 83, 68, 84]
    };
    assert(entry_size == 8 ==> signature@ =~= seq![88u8, 83, 68, 84]);
    assert(entry_size != 8 ==> signature@ =~= seq![82u8, 83, 68, 84]);
    if !has_signature(root, signature) {
        return Err(AcpiError::InvalidRootTable);
    }
    let len = root.len();
    if len < ACPI_HEADER_LENGTH || (len - ACPI_HEADER_LENGTH) % entry_size != 0 {
        return Err(AcpiError::InvalidRootEntries);
    }
    let count = (len - ACPI_HEADER_LENGTH) / entry_size;
    let ghost entries = Seq::new(
        count as nat,
        |i: int| le_at(root@, 36 + i * entry_size, entry_size as int) as u64,
    );
    let mut v: Vec<u64> = Vec::new();
    let mut i: usize = 0;
    proof {
        crate::bytes::lemma_pow256_values();
    }
    while i < count
        invariant
            entry_size == 4 || entry_size == 8,
            count == (len - 36) / entry_size as int,
            36 <= len == root@.len(),
            (len - 36) % entry_size as int == 0,
            i <= count,
            v@ == entries.take(i as int),
            entries == Seq::new(
                count as nat,
                |j: int| le_at(root@, 36 + j * entry_size, entry_size as int) as u64,
            ),
            pow256(8) == 0x1_0000_0000_0000_0000,
        decreases count - i,
    {
        assert(36 + (i + 1) * entry_size <= len) by (nonlinear_arith)
            requires
                i < count,
                count == (len - 36) / entry_size as int,
                entry_size > 0,
        ;
        let offset = ACPI_HEADER_LENGTH + i * entry_size;
        let value = read_le(root, offset, entry_size);
        assert(value == entries[i as int]);
        v.push(value);
        i = i + 1;
        assert(v@ =~= entries.take(i as int));
    }
    assert(entries.take(count as int) =~= entries);
    Ok(v)
}

/// The signature of the MADT, "APIC".
pub open spec fn apic_signature() -> Seq<u8> {
    seq![65u8, 80, 73, 67]
}

/// The signature of the FADT, "FACP".
pub open spec fn facp_signature() -> Seq<u8> {
    seq![70u8, 65, 67, 80]
}

/// The address of the last of the first `n` root-table entries that is nonzero and whose table
/// carries `signature`.
pub open spec fn last_signed(tables: Seq<(u64, [u8; 4])>, signature: Seq<u8>, n: int) -> Option<u64>
    decreases n,
{
    if n <= 0 {
        None
    } else if tables[n - 1].0 != 0 && tables[n - 1].1@ == signature {
        Some(tables[n - 1].0)
    } else {
        last_signed(tables, signature, n - 1)
    }
}

/// Picks the MADT and the FADT among the root table's entries, each given as its address and
/// the first four bytes of its table: the last nonzero entry signed "APIC", and the last one
/// signed "FACP".
pub fn select_tables(tables: &[(u64, [u8; 4])]) -> (r: (Option<u64>, Option<u64>))
    ensures
        r.0 == last_signed(tables@, apic_signature(), tables@.len() as int),
        r.1 == last_signed(tables@, facp_signature(), tables@.len() as int),
{
    let mut madt: Option<u64> = None;
    let mut fadt: Option<u64> = None;
    let mut i: usize = 0;
    while i < tables.len()
        invariant
            i <= tables@.len(),
            madt == last_signed(tables@, apic_signature(), i as int),
            fadt == last_signed(tables@, facp_signature(), i as int),
        decreases tables@.len() - i,
    {
        let (address, signature) = tables[i];
        if address != 0 {
            let apic = signature[0] == 65 && signature[1] == 80 && signature[2] == 73
                && signature[3] == 67;
            let facp = signature[0] == 70 && signature[1] == 65 && signature[2] == 67
                && signature[3] == 80;
            assert(apic == (signature@ == apic_signature())) by {
                if apic {
                    assert(signature@ =~= apic_signature());
                }
            }
            assert(facp == (signature@ == facp_signature())) by {
                if facp {
                    assert(signature@ =~= facp_signature());
                }
            }
            if apic {
                madt = Some(address);
            } else if facp {
                fadt = Some(address);
            }
        }
        i = i + 1;
    }
    (madt, fadt)
}

/// The size of a root-table entry: eight bytes in an XSDT (ACPI 2.0 and later), four in an
/// RSDT.
pub fn root_entry_size(revision: u8) -> (r: usize)
    ensures
        r == (if revision >= 2 {
            8usize
        } else {
            4usize
        }),
{
    if revision >= 2 {
        8
    } else {
        4
    }
}

impl AcpiInfo {
    /// What discovery found: where the RSDP, the root table, the MADT and the FADT lie, the
    /// MADT's contents, and the power-management information if the FADT gave it.
    pub fn from_tables(
        revision: u8,
        rsdp_address: u64,
        root_table_address: u64,
        madt_address: u64,
        fadt_address: Option<u64>,
        madt: MadtInfo,
        power: Option<AcpiPowerInfo>,
    ) -> (r: AcpiInfo)
        ensures
            r.revision == revision,
            r.rsdp_address == rsdp_address,
            r.root_table_address == root_table_address,
            r.madt_address == madt_address,
            r.fadt_address == fadt_address,
            r.local_apic_address == madt.local_apic_address,
            r.processor_count == madt.processor_count,
            r.enabled_processor_count == madt.enabled_processor_count,
            r.processors == madt.processors,
            r.io_apic_count == madt.io_apic_count,
            r.io_apic == madt.io_apic,
            r.timer_gsi == madt.timer_gsi,
            r.timer_flags == madt.timer_flags,
            r.interrupt_overrides == madt.interrupt_overrides,
            r.power == power,
    {
        AcpiInfo {
            revision,
            rsdp_address,
            root_table_address,
            madt_address,
            fadt_address,
            local_apic_address: madt.local_apic_address,
            processor_count: madt.processor_count,
            enabled_processor_count: madt.enabled_processor_count,
            processors: madt.processors,
            io_apic_count: madt.io_apic_count,
            io_apic: madt.io_apic,
            timer_gsi: madt.timer_gsi,
            timer_flags: madt.timer_flags,
            interrupt_overrides: madt.interrupt_overrides,
            power,
        }
    }
}

/// The root table's address as the RSDP gives it; zero means there is none.
pub fn check_root_address(address: u64) -> (r: Result<u64, AcpiError>)
    ensures
        r == (if address == 0 {
            Err(AcpiError::MissingRootTable)
        } else {
            Ok(address)
        }),
{
    if address == 0 {
        Err(AcpiError::MissingRootTable)
    } else {
        Ok(address)
    }
}

/// The nonzero entries of `s`, in order.
pub open spec fn nonzero_entries(s: Seq<u64>) -> Seq<u64>
    decreases s.len(),
{
    if s.len() == 0 {
        Seq::empty()
    } else if s.last() != 0 {
        nonzero_entries(s.drop_last()).push(s.last())
    } else {
        nonzero_entries(s.drop_last())
    }
}

/// The root-table entries whose tables are loaded: the nonzero ones, in order (a zero entry
/// names no table).
pub fn tables_to_load(entries: &[u64]) -> (r: Vec<u64>)
    ensures
        r@ == nonzero_entries(entries@),
{
    let mut out: Vec<u64> = Vec::new();
    let mut i: usize = 0;
    while i < entries.len()
        invariant
            i <= entries@.len(),
            out@ == nonzero_entries(entries@.take(i as int)),
        decreases entries@.len() - i,
    {
        assert(entries@.take(i + 1).drop_last() =~= entries@.take(i as int));
        if entries[i] != 0 {
            out.push(entries[i]);
        }
        i = i + 1;
    }
    assert(entries@.take(i as int) =~= entries@);
    out
}

/// The AML of `Name(_Sx_, Package(2) { a, b })` for sleep state `state`, with both values as
/// byte constants: NameOp, the name, PackageOp, a package length of six, two elements, and
/// BytePrefix `a`, BytePrefix `b`.
pub open spec fn sleep_package_aml(state: u8, a: u8, b: u8) -> Seq<u8> {
    seq![0x08u8, 95, 83, (48 + state) as u8, 95, 0x12, 0x06, 0x02, 0x0a, a, 0x0a, b]
}

/// A DSDT whose AML opens with the sleep package of `state` holding `a` then `b` (both valid
/// sleep types, at most seven) gives the pair in that order: the first element is SLP_TYPa, the
/// second SLP_TYPb; whatever header precedes the AML and whatever AML follows the package.
pub proof fn lemma_sleep_types_in_element_order(
    header: Seq<u8>,
    state: u8,
    a: u8,
    b: u8,
    rest: Seq<u8>,
)
    requires
        header.len() == 36,
        state <= 9,
        a <= 7,
        b <= 7,
    ensures
        sleep_types_spec(header + sleep_package_aml(state, a, b) + rest, state) == Some(
            (a as u16, b as u16),
        ),
{
    let dsdt = header + sleep_package_aml(state, a, b) + rest;
    let aml = sleep_package_aml(state, a, b) + rest;
    assert(dsdt.skip(36) =~= aml);
    let name = sleep_name(state);
    assert(aml.subrange(0, 5) =~= name);
    assert(find_name(aml, name, 0) == Some(0int));
    assert((6u8 >> 6u8) & 3u8 == 0u8 && 6u8 & 0x3fu8 == 6u8) by (bit_vector);
    let length_bytes = aml.skip(6);
    assert(length_bytes[0] == 6);
    assert(package_length_spec(length_bytes) == Some((6usize, 1usize)));
    assert(aml.skip(8) =~= seq![0x0au8, a, 0x0a, b] + rest);
    assert(aml.skip(8)[0] == 0x0a && aml.skip(8)[1] == a);
    assert(aml_integer_spec(aml.skip(8)) == Some((a as u16, 2usize)));
    assert(aml.skip(10)[0] == 0x0a && aml.skip(10)[1] == b);
    assert(aml_integer_spec(aml.skip(10)) == Some((b as u16, 2usize)));
    assert(sleep_package(aml, 0) == Some(Some((a as u16, b as u16))));
}

} // verus!
