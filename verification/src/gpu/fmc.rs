//! The signed FMC image: a 32-bit ELF of exactly six sections whose contents carry CRC-32s.
use vstd::prelude::*;
use crate::bytes::{le_at, range_equals, read_le};
use crate::gpu::firmware::{name_at, section_name};
use crate::gpu::layout::FirmwareSection;

verus! {

pub const NVIDIA_GSP_FMC_MAX_SIZE: usize = 4194304;
pub const NVIDIA_GSP_FMC_ELF_HEADER_SIZE: usize = 52;
pub const NVIDIA_GSP_FMC_ELF_SECTION_HEADER_SIZE: usize = 40;
pub const NVIDIA_GSP_FMC_SECTION_COUNT: usize = 6;
pub const FMC_SECTION_FLAGS: u32 = 0xfff0_0102;
pub const ELF_STRING_FLAGS: u32 = 0x20;

#[derive(Debug, Clone, Copy, PartialEq, Eq, Structural)]
pub enum GspFmcRequiredSection {
    Hash,
    Signature,
    PublicKey,
    Image,
}

/// The section name of each required section.
pub open spec fn required_name(section: GspFmcRequiredSection) -> Seq<u8> {
    match section {
        GspFmcRequiredSection::Hash => seq![0x68u8, 0x61, 0x73, 0x68],
        GspFmcRequiredSection::Signature => seq![
            0x73u8,
            0x69,
            0x67,
            0x6e,
            0x61,
            0x74,
            0x75,
            0x72,
            0x65,
        ],
        GspFmcRequiredSection::PublicKey => seq![
            0x70u8,
            0x75,
            0x62,
            0x6c,
            0x69,
            0x63,
            0x6b,
            0x65,
            0x79,
        ],
        GspFmcRequiredSection::Image => seq![0x69u8, 0x6d, 0x61, 0x67, 0x65],
    }
}

impl GspFmcRequiredSection {
    pub fn name(self) -> (r: &'static [u8])
        ensures
            r@ == required_name(self),
    {
        match self {
            GspFmcRequiredSection::Hash => {
                let r: &'static [u8] = &[0x68, 0x61, 0x73, 0x68];
                assert(r@ =~= required_name(self));
                r
            },
            GspFmcRequiredSection::Signature => {
                let r: &'static [u8] = &[0x73, 0x69, 0x67, 0x6e, 0x61, 0x74, 0x75, 0x72, 0x65];
                assert(r@ =~= required_name(self));
                r
            },
            GspFmcRequiredSection::PublicKey => {
                let r: &'static [u8] = &[0x70, 0x75, 0x62, 0x6c, 0x69, 0x63, 0x6b, 0x65, 0x79];
                assert(r@ =~= required_name(self));
                r
            },
            GspFmcRequiredSection::Image => {
                let r: &'static [u8] = &[0x69, 0x6d, 0x61, 0x67, 0x65];
                assert(r@ =~= required_name(self));
                r
            },
        }
    }
}

#[derive(Debug, Clone, Copy, PartialEq, Eq, Structural)]
pub enum GspFmcError {
    TooLarge { size: usize, limit: usize },
    Truncated { offset: usize, size: usize },
    InvalidHeader,
    InvalidSectionTable,
    InvalidSection { index: usize },
    InvalidStringTable,
    InvalidSectionName { index: usize },
    InvalidSectionCrc { index: usize, expected: u32, actual: u32 },
    MissingSection { section: GspFmcRequiredSection },
    DuplicateSection { section: GspFmcRequiredSection },
    EmptySection { section: GspFmcRequiredSection },
}

/// The sections of a signed FMC image.
#[derive(Debug, Clone, Copy, PartialEq, Eq, Structural)]
pub struct GspFmc {
    pub hash: FirmwareSection,
    pub signature: FirmwareSection,
    pub public_key: FirmwareSection,
    pub image: FirmwareSection,
    pub section_count: usize,
}

/// One step of the reflected CRC-32 (polynomial 0xedb88320) over a single bit.
pub open spec fn crc_bit(v: u32) -> u32 {
    if v & 1 == 1 {
        (v >> 1u32) ^ 0xedb8_8320u32
    } else {
        v >> 1u32
    }
}

/// `n` bit steps of the CRC.
pub open spec fn crc_bits(v: u32, n: nat) -> u32
    decreases n,
{
    if n == 0 {
        v
    } else {
        crc_bits(crc_bit(v), (n - 1) as nat)
    }
}

/// The CRC register after the first `n` bytes of `q`.
pub open spec fn crc_register(q: Seq<u8>, n: nat) -> u32
    decreases n,
{
    if n == 0 {
        0xffff_ffff
    } else {
        crc_bits(crc_register(q, (n - 1) as nat) ^ (q[n - 1] as u32), 8)
    }
}

/// The CRC-32 of `q`.
pub open spec fn crc32_spec(q: Seq<u8>) -> u32 {
    !crc_register(q, q.len())
}

/// The CRC-32 (IEEE, reflected) of `bytes`.
pub fn crc32(bytes: &[u8]) -> (r: u32)
    ensures
        r == crc32_spec(bytes@),
{
    let mut value: u32 = 0xffff_ffff;
    let n = bytes.len();
    let mut i: usize = 0;
    while i < n
        invariant
            i <= n == bytes@.len(),
            value == crc_register(bytes@, i as nat),
        decreases n - i,
    {
        value = value ^ (bytes[i] as u32);
        let ghost start = value;
        let mut round: usize = 0;
        while round < 8
            invariant
                round <= 8,
                crc_bits(start, 8) == crc_bits(value, (8 - round) as nat),
            decreases 8 - round,
        {
            assert(value & 1 != 0 <==> value & 1 == 1) by (bit_vector);
            value = if value & 1 != 0 {
                (value >> 1) ^ 0xedb8_8320
            } else {
                value >> 1
            };
            round = round + 1;
        }
        i = i + 1;
    }
    !value
}

/// The fields of one section header that parsing reads.
#[derive(Debug, Clone, Copy, PartialEq, Eq, Structural)]
pub struct SectionRecord {
    pub name_offset: usize,
    pub kind: u32,
    pub flags: u32,
    pub info: u32,
    pub section: FirmwareSection,
}

/// The little-endian `u32` at `offset` of `s`.
pub open spec fn u32_at(s: Seq<u8>, offset: int) -> u32 {
    le_at(s, offset, 4) as u32
}

/// The little-endian `u16` at `offset` of `s`.
pub open spec fn u16_at(s: Seq<u8>, offset: int) -> u16 {
    le_at(s, offset, 2) as u16
}

/// Section header `index` of the table at `table`.
pub open spec fn record_at(s: Seq<u8>, table: int, index: int) -> SectionRecord {
    let offset = table + 40 * index;
    SectionRecord {
        name_offset: u32_at(s, offset) as usize,
        kind: u32_at(s, offset + 4),
        flags: u32_at(s, offset + 8),
        info: u32_at(s, offset + 28),
        section: FirmwareSection {
            offset: u32_at(s, offset + 16) as usize,
            size: u32_at(s, offset + 20) as usize,
        },
    }
}

fn section_record(bytes: &[u8], table: usize, index: usize) -> (r: SectionRecord)
    requires
        index < 6,
        table + 240 <= bytes@.len(),
    ensures
        r == record_at(bytes@, table as int, index as int),
{
    let _len = bytes.len();
    let offset = table + index * NVIDIA_GSP_FMC_ELF_SECTION_HEADER_SIZE;
    SectionRecord {
        name_offset: read_le(bytes, offset, 4) as usize,
        kind: read_le(bytes, offset + 4, 4) as u32,
        flags: read_le(bytes, offset + 8, 4) as u32,
        info: read_le(bytes, offset + 28, 4) as u32,
        section: FirmwareSection {
            offset: read_le(bytes, offset + 16, 4) as usize,
            size: read_le(bytes, offset + 20, 4) as usize,
        },
    }
}

/// Whether a section lies after the section table and inside the file.
pub open spec fn section_in_range(section: FirmwareSection, table_end: int, len: int) -> bool {
    section.offset >= table_end && section.offset + section.size <= len
}

fn validate_section_range(
    bytes: &[u8],
    section_table_end: usize,
    index: usize,
    section: FirmwareSection,
) -> (r: Result<(), GspFmcError>)
    ensures
        r == (if section_in_range(section, section_table_end as int, bytes@.len() as int) {
            Ok::<(), GspFmcError>(())
        } else {
            Err(GspFmcError::InvalidSection { index })
        }),
{
    let len = bytes.len();
    if section.offset < section_table_end || section.offset > len || section.size > len
        - section.offset {
        return Err(GspFmcError::InvalidSection { index });
    }
    Ok(())
}

/// The required section a name denotes, if any.
pub open spec fn required_of(name: Seq<u8>) -> Option<GspFmcRequiredSection> {
    if name == required_name(GspFmcRequiredSection::Hash) {
        Some(GspFmcRequiredSection::Hash)
    } else if name == required_name(GspFmcRequiredSection::Signature) {
        Some(GspFmcRequiredSection::Signature)
    } else if name == required_name(GspFmcRequiredSection::PublicKey) {
        Some(GspFmcRequiredSection::PublicKey)
    } else if name == required_name(GspFmcRequiredSection::Image) {
        Some(GspFmcRequiredSection::Image)
    } else {
        None
    }
}

fn required_section(name: &[u8]) -> (r: Option<GspFmcRequiredSection>)
    ensures
        r == required_of(name@),
{
    let n = name.len();
    assert(name@.subrange(0, n as int) =~= name@);
    if range_equals(name, 0, n, GspFmcRequiredSection::Hash.name()) {
        Some(GspFmcRequiredSection::Hash)
    } else if range_equals(name, 0, n, GspFmcRequiredSection::Signature.name()) {
        Some(GspFmcRequiredSection::Signature)
    } else if range_equals(name, 0, n, GspFmcRequiredSection::PublicKey.name()) {
        Some(GspFmcRequiredSection::PublicKey)
    } else if range_equals(name, 0, n, GspFmcRequiredSection::Image.name()) {
        Some(GspFmcRequiredSection::Image)
    } else {
        None
    }
}

/// The required sections found so far.
pub struct FmcFound {
    pub hash: Option<FirmwareSection>,
    pub signature: Option<FirmwareSection>,
    pub public_key: Option<FirmwareSection>,
    pub image: Option<FirmwareSection>,
}

/// The slot of `found` that holds `section`.
pub open spec fn slot_of(found: FmcFound, section: GspFmcRequiredSection) -> Option<FirmwareSection> {
    match section {
        GspFmcRequiredSection::Hash => found.hash,
        GspFmcRequiredSection::Signature => found.signature,
        GspFmcRequiredSection::PublicKey => found.public_key,
        GspFmcRequiredSection::Image => found.image,
    }
}

/// `found` with `section` recorded at `value`.
pub open spec fn with_slot(
    found: FmcFound,
    section: GspFmcRequiredSection,
    value: FirmwareSection,
) -> FmcFound {
    match section {
        GspFmcRequiredSection::Hash => FmcFound { hash: Some(value), ..found },
        GspFmcRequiredSection::Signature => FmcFound { signature: Some(value), ..found },
        GspFmcRequiredSection::PublicKey => FmcFound { public_key: Some(value), ..found },
        GspFmcRequiredSection::Image => FmcFound { image: Some(value), ..found },
    }
}

/// What checking section `index` does to the sections found so far.
pub open spec fn fmc_step(
    s: Seq<u8>,
    table: int,
    table_end: int,
    strings: Seq<u8>,
    index: int,
    found: FmcFound,
) -> Result<FmcFound, GspFmcError> {
    let rec = record_at(s, table, index);
    if !section_in_range(rec.section, table_end, s.len() as int) {
        Err(GspFmcError::InvalidSection { index: index as usize })
    } else if index != 1 && (rec.kind != 1 || rec.flags != 0xfff0_0102) {
        Err(GspFmcError::InvalidSection { index: index as usize })
    } else if rec.info != 0 && rec.info != crc32_spec(rec.section.spec_bytes(s)) {
        Err(
            GspFmcError::InvalidSectionCrc {
                index: index as usize,
                expected: rec.info,
                actual: crc32_spec(rec.section.spec_bytes(s)),
            },
        )
    } else {
        match name_at(strings, rec.name_offset as int) {
            None => Err(GspFmcError::InvalidSectionName { index: index as usize }),
            Some(name) => match required_of(name) {
                None => Ok(found),
                Some(section) => if slot_of(found, section) is Some {
                    Err(GspFmcError::DuplicateSection { section })
                } else {
                    Ok(with_slot(found, section, rec.section))
                },
            },
        }
    }
}

/// The result of checking sections `1..n`, in order.
pub open spec fn fmc_scan(s: Seq<u8>, table: int, table_end: int, strings: Seq<u8>, n: nat) -> Result<
    FmcFound,
    GspFmcError,
>
    decreases n,
{
    if n <= 1 {
        Ok(FmcFound { hash: None, signature: None, public_key: None, image: None })
    } else {
        match fmc_scan(s, table, table_end, strings, (n - 1) as nat) {
            Err(e) => Err(e),
            Ok(found) => fmc_step(s, table, table_end, strings, n - 1, found),
        }
    }
}

proof fn lemma_fmc_scan_error_stays(
    s: Seq<u8>,
    table: int,
    table_end: int,
    strings: Seq<u8>,
    i: nat,
    n: nat,
)
    requires
        1 <= i <= n,
        fmc_scan(s, table, table_end, strings, i) is Err,
    ensures
        fmc_scan(s, table, table_end, strings, n) == fmc_scan(s, table, table_end, strings, i),
    decreases n - i,
{
    if i < n {
        lemma_fmc_scan_error_stays(s, table, table_end, strings, i, (n - 1) as nat);
    }
}

/// Whether the ELF header is exactly the one a signed FMC has.
pub open spec fn fmc_header_ok(s: Seq<u8>) -> bool {
    &&& s.take(4) == seq![0x7fu8, 0x45u8, 0x4cu8, 0x46u8]
    &&& s[4] == 1 && s[5] == 1 && s[6] == 1 && s[7] == 0
    &&& forall|i: int| 8 <= i < 16 ==> s[i] == 0
    &&& u16_at(s, 16) == 0 && u16_at(s, 18) == 0
    &&& u32_at(s, 20) == 1 && u32_at(s, 24) == 0 && u32_at(s, 28) == 0 && u32_at(s, 36) == 0
    &&& u16_at(s, 40) == 52 && u16_at(s, 42) == 0 && u16_at(s, 44) == 0
    &&& u16_at(s, 46) == 40 && u16_at(s, 48) == 6 && u16_at(s, 50) == 1
}

/// The section a required slot holds, or the error for a missing or empty one.
pub open spec fn required_or_error(
    section: Option<FirmwareSection>,
    required: GspFmcRequiredSection,
) -> Result<FirmwareSection, GspFmcError> {
    match section {
        None => Err(GspFmcError::MissingSection { section: required }),
        Some(x) => if x.size == 0 {
            Err(GspFmcError::EmptySection { section: required })
        } else {
            Ok(x)
        },
    }
}

fn required_section_or_error(
    section: Option<FirmwareSection>,
    required: GspFmcRequiredSection,
) -> (r: Result<FirmwareSection, GspFmcError>)
    ensures
        r == required_or_error(section, required),
{
    match section {
        None => Err(GspFmcError::MissingSection { section: required }),
        Some(x) => {
            if x.size == 0 {
                return Err(GspFmcError::EmptySection { section: required });
            }
            Ok(x)
        },
    }
}

/// The result of parsing `s` as a signed FMC image.
pub open spec fn fmc_parse(s: Seq<u8>) -> Result<GspFmc, GspFmcError> {
    let table = u32_at(s, 32) as int;
    let table_end = table + 240;
    let strings = record_at(s, table, 1);
    if s.len() > 4194304 {
        Err(GspFmcError::TooLarge { size: s.len() as usize, limit: 4194304 })
    } else if s.len() < 52 {
        Err(GspFmcError::Truncated { offset: 0, size: 52 })
    } else if !fmc_header_ok(s) {
        Err(GspFmcError::InvalidHeader)
    } else if table_end > usize::MAX || table_end > s.len() {
        Err(GspFmcError::InvalidSectionTable)
    } else if strings.kind != 3 || strings.flags != 0x20 {
        Err(GspFmcError::InvalidStringTable)
    } else if !section_in_range(strings.section, table_end, s.len() as int) {
        Err(GspFmcError::InvalidSection { index: 1 })
    } else {
        match fmc_scan(s, table, table_end, strings.section.spec_bytes(s), 6) {
            Err(e) => Err(e),
            Ok(found) => match required_or_error(found.hash, GspFmcRequiredSection::Hash) {
                Err(e) => Err(e),
                Ok(hash) => match required_or_error(
                    found.signature,
                    GspFmcRequiredSection::Signature,
                ) {
                    Err(e) => Err(e),
                    Ok(signature) => match required_or_error(
                        found.public_key,
                        GspFmcRequiredSection::PublicKey,
                    ) {
                        Err(e) => Err(e),
                        Ok(public_key) => match required_or_error(
                            found.image,
                            GspFmcRequiredSection::Image,
                        ) {
                            Err(e) => Err(e),
                            Ok(image) => Ok(
                                GspFmc { hash, signature, public_key, image, section_count: 6 },
                            ),
                        },
                    },
                },
            },
        }
    }
}

/// Checks the ELF header against the exact shape of a signed FMC.
fn fmc_header_valid(bytes: &[u8]) -> (r: bool)
    requires
        bytes@.len() >= 52,
    ensures
        r == fmc_header_ok(bytes@),
{
    let magic = [0x7fu8, 0x45u8, 0x4cu8, 0x46u8];
    assert(magic@ =~= seq![0x7fu8, 0x45u8, 0x4cu8, 0x46u8]);
    assert(bytes@.subrange(0, 4) =~= bytes@.take(4));
    if !range_equals(bytes, 0, 4, &magic) || bytes[4] != 1 || bytes[5] != 1 || bytes[6] != 1
        || bytes[7] != 0 {
        return false;
    }
    let mut i: usize = 8;
    while i < 16
        invariant
            8 <= i <= 16,
            bytes@.len() >= 52,
            forall|j: int| 8 <= j < i ==> bytes@[j] == 0,
        decreases 16 - i,
    {
        if bytes[i] != 0 {
            return false;
        }
        i = i + 1;
    }
    read_le(bytes, 16, 2) as u16 == 0 && read_le(bytes, 18, 2) as u16 == 0 && read_le(bytes, 20, 4)
        as u32 == 1 && read_le(bytes, 24, 4) as u32 == 0 && read_le(bytes, 28, 4) as u32 == 0
        && read_le(bytes, 36, 4) as u32 == 0 && read_le(bytes, 40, 2) as u16 == 52 && read_le(
        bytes,
        42,
        2,
    ) as u16 == 0 && read_le(bytes, 44, 2) as u16 == 0 && read_le(bytes, 46, 2) as u16 == 40
        && read_le(bytes, 48, 2) as u16 == 6 && read_le(bytes, 50, 2) as u16 == 1
}

/// Checks sections `1..6` in order and records the required ones.
fn scan_fmc_sections(
    bytes: &[u8],
    table: usize,
    table_end: usize,
    strings: &[u8],
) -> (r: Result<FmcFound, GspFmcError>)
    requires
        table_end == table + 240,
        table_end <= bytes@.len(),
    ensures
        r == fmc_scan(bytes@, table as int, table_end as int, strings@, 6),
{
    let mut found = FmcFound { hash: None, signature: None, public_key: None, image: None };
    let mut index: usize = 1;
    while index < NVIDIA_GSP_FMC_SECTION_COUNT
        invariant
            1 <= index <= 6,
            table_end == table + 240,
            table_end <= bytes@.len(),
            fmc_scan(bytes@, table as int, table_end as int, strings@, index as nat) == Ok::<
                FmcFound,
                GspFmcError,
            >(found),
        decreases 6 - index,
    {
        let step = fmc_section_step(bytes, table, table_end, strings, index, found);
        match step {
            Ok(next) => {
                found = next;
            },
            Err(e) => {
                proof {
                    lemma_fmc_scan_error_stays(
                        bytes@,
                        table as int,
                        table_end as int,
                        strings@,
                        (index + 1) as nat,
                        6,
                    );
                }
                return Err(e);
            },
        }
        index = index + 1;
    }
    Ok(found)
}

/// Checks section `index` and records it where it is a required one.
fn fmc_section_step(
    bytes: &[u8],
    table: usize,
    table_end: usize,
    strings: &[u8],
    index: usize,
    found: FmcFound,
) -> (r: Result<FmcFound, GspFmcError>)
    requires
        1 <= index < 6,
        table_end == table + 240,
        table_end <= bytes@.len(),
    ensures
        r == fmc_step(bytes@, table as int, table_end as int, strings@, index as int, found),
{
    let record = section_record(bytes, table, index);
    if let Err(e) = validate_section_range(bytes, table_end, index, record.section) {
        return Err(e);
    }
    if index != 1 && (record.kind != 1 || record.flags != FMC_SECTION_FLAGS) {
        return Err(GspFmcError::InvalidSection { index });
    }
    if record.info != 0 {
        let actual = crc32(record.section.bytes(bytes));
        if record.info != actual {
            return Err(
                GspFmcError::InvalidSectionCrc { index, expected: record.info, actual },
            );
        }
    }
    let name = match section_name(strings, record.name_offset) {
        Some(n) => n,
        None => {
            return Err(GspFmcError::InvalidSectionName { index });
        },
    };
    let section = match required_section(name) {
        Some(s) => s,
        None => {
            return Ok(found);
        },
    };
    match section {
        GspFmcRequiredSection::Hash => {
            if found.hash.is_some() {
                return Err(GspFmcError::DuplicateSection { section });
            }
            Ok(FmcFound { hash: Some(record.section), ..found })
        },
        GspFmcRequiredSection::Signature => {
            if found.signature.is_some() {
                return Err(GspFmcError::DuplicateSection { section });
            }
            Ok(FmcFound { signature: Some(record.section), ..found })
        },
        GspFmcRequiredSection::PublicKey => {
            if found.public_key.is_some() {
                return Err(GspFmcError::DuplicateSection { section });
            }
            Ok(FmcFound { public_key: Some(record.section), ..found })
        },
        GspFmcRequiredSection::Image => {
            if found.image.is_some() {
                return Err(GspFmcError::DuplicateSection { section });
            }
            Ok(FmcFound { image: Some(record.section), ..found })
        },
    }
}

impl GspFmc {
    pub fn parse(bytes: &[u8]) -> (r: Result<Self, GspFmcError>)
        ensures
            r == fmc_parse(bytes@),
    {
        let len = bytes.len();
        if len > NVIDIA_GSP_FMC_MAX_SIZE {
            return Err(GspFmcError::TooLarge { size: len, limit: NVIDIA_GSP_FMC_MAX_SIZE });
        }
        if len < NVIDIA_GSP_FMC_ELF_HEADER_SIZE {
            return Err(GspFmcError::Truncated { offset: 0, size: NVIDIA_GSP_FMC_ELF_HEADER_SIZE });
        }
        if !fmc_header_valid(bytes) {
            return Err(GspFmcError::InvalidHeader);
        }
        let section_table_offset = read_le(bytes, 32, 4) as usize;
        let section_table_end = match section_table_offset.checked_add(240) {
            Some(v) => v,
            None => {
                return Err(GspFmcError::InvalidSectionTable);
            },
        };
        if section_table_end > len {
            return Err(GspFmcError::InvalidSectionTable);
        }
        let string_record = section_record(bytes, section_table_offset, 1);
        if string_record.kind != 3 || string_record.flags != ELF_STRING_FLAGS {
            return Err(GspFmcError::InvalidStringTable);
        }
        if let Err(e) = validate_section_range(bytes, section_table_end, 1, string_record.section) {
            return Err(e);
        }
        let strings = string_record.section.bytes(bytes);
        let found = match scan_fmc_sections(bytes, section_table_offset, section_table_end, strings) {
            Ok(f) => f,
            Err(e) => {
                return Err(e);
            },
        };
        let hash = match required_section_or_error(found.hash, GspFmcRequiredSection::Hash) {
            Ok(v) => v,
            Err(e) => {
                return Err(e);
            },
        };
        let signature = match required_section_or_error(
            found.signature,
            GspFmcRequiredSection::Signature,
        ) {
            Ok(v) => v,
            Err(e) => {
                return Err(e);
            },
        };
        let public_key = match required_section_or_error(
            found.public_key,
            GspFmcRequiredSection::PublicKey,
        ) {
            Ok(v) => v,
            Err(e) => {
                return Err(e);
            },
        };
        let image = match required_section_or_error(found.image, GspFmcRequiredSection::Image) {
            Ok(v) => v,
            Err(e) => {
                return Err(e);
            },
        };
        Ok(
            Self {
                hash,
                signature,
                public_key,
                image,
                section_count: NVIDIA_GSP_FMC_SECTION_COUNT,
            },
        )
    }
}

} // verus!
