//! The sectioned RISC-V ELF that carries the GSP firmware image, its version string and its
//! signatures, and the boot layout derived from it.
use vstd::prelude::*;
use crate::bytes::{le_at, read_le, range_equals};
use crate::gpu::layout::{
    standard_shared_memory_layout, FirmwareSection, GspFirmwareLayout, GspRadix3Layout,
    GspSharedMemoryLayout,
};
use crate::gpu::{
    align_page, align_value_256, ceil_div_page, div_ceil, round_up, NVIDIA_GSP_ELF_HEADER_SIZE,
    NVIDIA_GSP_ELF_SECTION_HEADER_SIZE, NVIDIA_GSP_MAX_FIRMWARE_SIZE, NVIDIA_GSP_MAX_SECTIONS,
    NVIDIA_GSP_PAGE_SIZE, NVIDIA_GSP_RADIX3_MAX_IMAGE_PAGES,
};

verus! {

pub const ELF_CLASS_64: u8 = 2;
pub const ELF_DATA_LITTLE: u8 = 1;
pub const ELF_VERSION_CURRENT: u8 = 1;
pub const ELF_TYPE_REL: u16 = 1;
pub const ELF_MACHINE_RISCV: u16 = 0x00f3;
pub const ELF_SECTION_PROGBITS: u32 = 1;
pub const ELF_SECTION_STRTAB: u32 = 3;

#[derive(Debug, Clone, Copy, PartialEq, Eq, Structural)]
pub enum GspFirmwareError {
    TooLarge { size: usize, limit: usize },
    Truncated { offset: usize, size: usize },
    InvalidMagic,
    UnsupportedClass { value: u8 },
    UnsupportedEndian { value: u8 },
    UnsupportedVersion { value: u8 },
    UnsupportedType { value: u16 },
    UnsupportedMachine { value: u16 },
    ProgramHeadersPresent,
    InvalidSectionTable,
    TooManySections { count: usize },
    InvalidStringTable,
    InvalidSectionName,
    MissingFirmwareImage,
    MissingFirmwareVersion,
    InvalidFirmwareVersion,
    InvalidFirmwareImage,
}

#[derive(Debug, Clone, Copy, PartialEq, Eq, Structural)]
pub enum GspBootPlanError {
    MissingGb20xSignature,
    EmptyGb20xSignature,
    ImageTooLarge { pages: usize, limit: usize },
    SizeOverflow,
}

/// The sections of a GSP firmware file that booting needs.
#[derive(Debug, Clone, Copy, PartialEq, Eq, Structural)]
pub struct GspFirmware {
    pub image: FirmwareSection,
    pub version: FirmwareSection,
    pub gb20x_signature: Option<FirmwareSection>,
    pub section_count: usize,
}

/// The fields of one ELF section header that parsing reads.
#[derive(Debug, Clone, Copy, PartialEq, Eq, Structural)]
pub struct SectionHeader {
    pub name_offset: usize,
    pub kind: u32,
    pub section: FirmwareSection,
}

/// The little-endian integer of `n` bytes at `offset`.
pub open spec fn uint_at(s: Seq<u8>, offset: int, n: int) -> nat {
    le_at(s, offset, n)
}

/// The bytes of `q` before its first zero byte, if it has one.
pub open spec fn c_string(q: Seq<u8>) -> Option<Seq<u8>>
    decreases q.len(),
{
    if q.len() == 0 {
        None
    } else if q[0] == 0 {
        Some(Seq::empty())
    } else {
        match c_string(q.drop_first()) {
            Some(rest) => Some(seq![q[0]] + rest),
            None => None,
        }
    }
}

/// The zero-terminated name at `offset` of a string table.
pub open spec fn name_at(table: Seq<u8>, offset: int) -> Option<Seq<u8>> {
    if offset > table.len() {
        None
    } else {
        c_string(table.skip(offset))
    }
}

proof fn lemma_c_string_found(q: Seq<u8>, k: int)
    requires
        0 <= k < q.len(),
        q[k] == 0,
        forall|i: int| 0 <= i < k ==> q[i] != 0,
    ensures
        c_string(q) == Some(q.take(k)),
    decreases k,
{
    if k > 0 {
        lemma_c_string_found(q.drop_first(), k - 1);
        assert(seq![q[0]] + q.drop_first().take(k - 1) =~= q.take(k));
    }
}

proof fn lemma_c_string_missing(q: Seq<u8>)
    requires
        forall|i: int| 0 <= i < q.len() ==> q[i] != 0,
    ensures
        c_string(q) is None,
    decreases q.len(),
{
    if q.len() > 0 {
        lemma_c_string_missing(q.drop_first());
    }
}

/// The zero-terminated name at `offset` of a string table.
pub fn section_name<'a>(table: &'a [u8], offset: usize) -> (r: Option<&'a [u8]>)
    ensures
        match name_at(table@, offset as int) {
            Some(name) => r matches Some(v) && v@ == name,
            None => r is None,
        },
{
    let len = table.len();
    if offset > len {
        return None;
    }
    let mut k: usize = offset;
    while k < len
        invariant
            offset <= k <= len == table@.len(),
            forall|i: int| offset <= i < k ==> table@[i] != 0,
        decreases len - k,
    {
        if table[k] == 0 {
            proof {
                lemma_c_string_found(table@.skip(offset as int), k - offset);
                assert(table@.skip(offset as int).take(k - offset) =~= table@.subrange(
                    offset as int,
                    k as int,
                ));
            }
            return Some(&table[offset..k]);
        }
        k = k + 1;
    }
    proof {
        lemma_c_string_missing(table@.skip(offset as int));
    }
    None
}

/// The result of reading section header `index` of the table at `table`: the section it
/// describes must lie inside the file.
pub open spec fn section_header_result(s: Seq<u8>, table: usize, index: usize) -> Result<
    SectionHeader,
    GspFirmwareError,
> {
    let offset = table + index * 64;
    let name_offset = uint_at(s, offset, 4);
    let kind = uint_at(s, offset + 4, 4);
    let section_offset = uint_at(s, offset + 24, 8);
    let section_size = uint_at(s, offset + 32, 8);
    if section_offset > usize::MAX || section_size > usize::MAX {
        Err(GspFirmwareError::InvalidSectionTable)
    } else if section_offset + section_size > s.len() {
        Err(
            GspFirmwareError::Truncated {
                offset: section_offset as usize,
                size: section_size as usize,
            },
        )
    } else {
        Ok(
            SectionHeader {
                name_offset: name_offset as usize,
                kind: kind as u32,
                section: FirmwareSection {
                    offset: section_offset as usize,
                    size: section_size as usize,
                },
            },
        )
    }
}

/// Reads section header `index` of the table at `table`.
fn section_header(firmware: &[u8], table: usize, index: usize) -> (r: Result<
    SectionHeader,
    GspFirmwareError,
>)
    requires
        table + (index + 1) * 64 <= firmware@.len(),
    ensures
        r == section_header_result(firmware@, table, index),
{
    let len = firmware.len();
    let offset = table + index * NVIDIA_GSP_ELF_SECTION_HEADER_SIZE;
    let name_offset = read_le(firmware, offset, 4) as usize;
    let kind = read_le(firmware, offset + 4, 4) as u32;
    let raw_offset = read_le(firmware, offset + 24, 8);
    let raw_size = read_le(firmware, offset + 32, 8);
    if raw_offset > usize::MAX as u64 || raw_size > usize::MAX as u64 {
        return Err(GspFirmwareError::InvalidSectionTable);
    }
    let section_offset = raw_offset as usize;
    let section_size = raw_size as usize;
    if section_offset > len || section_size > len - section_offset {
        return Err(GspFirmwareError::Truncated { offset: section_offset, size: section_size });
    }
    Ok(
        SectionHeader {
            name_offset,
            kind,
            section: FirmwareSection { offset: section_offset, size: section_size },
        },
    )
}

/// The name of the firmware image section.
pub open spec fn image_name() -> Seq<u8> {
    seq![0x2eu8, 0x66, 0x77, 0x69, 0x6d, 0x61, 0x67, 0x65]
}

/// The name of the version section.
pub open spec fn version_name() -> Seq<u8> {
    seq![0x2eu8, 0x66, 0x77, 0x76, 0x65, 0x72, 0x73, 0x69, 0x6f, 0x6e]
}

/// The name of the generation-signature section.
pub open spec fn signature_name() -> Seq<u8> {
    seq![
        0x2eu8, 0x66, 0x77, 0x73, 0x69, 0x67, 0x6e, 0x61, 0x74, 0x75, 0x72, 0x65, 0x5f, 0x67,
        0x62, 0x32, 0x30, 0x78,
    ]
}

/// The sections found so far while scanning: image, version and signature.
pub struct Found {
    pub image: Option<FirmwareSection>,
    pub version: Option<FirmwareSection>,
    pub signature: Option<FirmwareSection>,
}

/// Which wanted section a section of kind `kind` named `name` is: 1 for the image, 2 for the
/// version, 3 for the signature, 0 for none of them.
pub open spec fn wanted(kind: u32, name: Seq<u8>) -> u8 {
    if kind == 1 && name == image_name() {
        1
    } else if kind == 1 && name == version_name() {
        2
    } else if kind == 1 && name == signature_name() {
        3
    } else {
        0
    }
}

/// What scanning records of a section with header `h` and name `name`: the last program
/// section of each wanted name wins.
pub open spec fn record(found: Found, h: SectionHeader, name: Seq<u8>) -> Found {
    if wanted(h.kind, name) == 1 {
        Found { image: Some(h.section), ..found }
    } else if wanted(h.kind, name) == 2 {
        Found { version: Some(h.section), ..found }
    } else if wanted(h.kind, name) == 3 {
        Found { signature: Some(h.section), ..found }
    } else {
        found
    }
}

/// Which wanted section a section of kind `kind` named `name` is.
fn wanted_section(kind: u32, name: &[u8]) -> (r: u8)
    ensures
        r == wanted(kind, name@),
{
    let name_image: [u8; 8] = [0x2e, 0x66, 0x77, 0x69, 0x6d, 0x61, 0x67, 0x65];
    let name_version: [u8; 10] = [0x2e, 0x66, 0x77, 0x76, 0x65, 0x72, 0x73, 0x69, 0x6f, 0x6e];
    let name_signature: [u8; 18] = [
        0x2e, 0x66, 0x77, 0x73, 0x69, 0x67, 0x6e, 0x61, 0x74, 0x75, 0x72, 0x65, 0x5f, 0x67, 0x62,
        0x32, 0x30, 0x78,
    ];
    assert(name_image@ =~= image_name());
    assert(name_version@ =~= version_name());
    assert(name_signature@ =~= signature_name());
    assert(name@.subrange(0, name@.len() as int) =~= name@);
    if kind != ELF_SECTION_PROGBITS {
        return 0;
    }
    let n = name.len();
    if range_equals(name, 0, n, &name_image) {
        1
    } else if range_equals(name, 0, n, &name_version) {
        2
    } else if range_equals(name, 0, n, &name_signature) {
        3
    } else {
        0
    }
}

/// The result of scanning the first `n` section headers, in order.
pub open spec fn scan(s: Seq<u8>, table: usize, strings: Seq<u8>, n: nat) -> Result<
    Found,
    GspFirmwareError,
>
    decreases n,
{
    if n == 0 {
        Ok(Found { image: None, version: None, signature: None })
    } else {
        match scan(s, table, strings, (n - 1) as nat) {
            Err(e) => Err(e),
            Ok(found) => match section_header_result(s, table, (n - 1) as usize) {
                Err(e) => Err(e),
                Ok(h) => match name_at(strings, h.name_offset as int) {
                    None => Err(GspFirmwareError::InvalidSectionName),
                    Some(name) => Ok(record(found, h, name)),
                },
            },
        }
    }
}

proof fn lemma_scan_error_stays(s: Seq<u8>, table: usize, strings: Seq<u8>, i: nat, n: nat)
    requires
        i <= n,
        scan(s, table, strings, i) is Err,
    ensures
        scan(s, table, strings, n) == scan(s, table, strings, i),
    decreases n - i,
{
    if i < n {
        lemma_scan_error_stays(s, table, strings, i, (n - 1) as nat);
    }
}

/// The ELF header checks, in the order they are made, and the section-table position and size
/// they give.
pub open spec fn elf_header_check(s: Seq<u8>) -> Result<(usize, usize, usize), GspFirmwareError> {
    if s.len() > 134217728 {
        Err(GspFirmwareError::TooLarge { size: s.len() as usize, limit: 134217728 })
    } else if s.len() < 64 {
        Err(GspFirmwareError::Truncated { offset: 0, size: 64 })
    } else if s.take(4) != seq![0x7fu8, 0x45u8, 0x4cu8, 0x46u8] {
        Err(GspFirmwareError::InvalidMagic)
    } else if s[4] != 2 {
        Err(GspFirmwareError::UnsupportedClass { value: s[4] })
    } else if s[5] != 1 {
        Err(GspFirmwareError::UnsupportedEndian { value: s[5] })
    } else if s[6] != 1 {
        Err(GspFirmwareError::UnsupportedVersion { value: s[6] })
    } else if uint_at(s, 16, 2) != 1 {
        Err(GspFirmwareError::UnsupportedType { value: uint_at(s, 16, 2) as u16 })
    } else if uint_at(s, 18, 2) != 0xf3 {
        Err(GspFirmwareError::UnsupportedMachine { value: uint_at(s, 18, 2) as u16 })
    } else if uint_at(s, 32, 8) != 0 || uint_at(s, 56, 2) != 0 {
        Err(GspFirmwareError::ProgramHeadersPresent)
    } else if uint_at(s, 40, 8) > usize::MAX {
        Err(GspFirmwareError::InvalidSectionTable)
    } else if uint_at(s, 58, 2) != 64 || uint_at(s, 60, 2) == 0 || uint_at(s, 60, 2) > 128
        || uint_at(s, 62, 2) >= uint_at(s, 60, 2) {
        Err(GspFirmwareError::InvalidSectionTable)
    } else if uint_at(s, 40, 8) + uint_at(s, 60, 2) * 64 > s.len() {
        Err(GspFirmwareError::InvalidSectionTable)
    } else {
        Ok(
            (
                uint_at(s, 40, 8) as usize,
                uint_at(s, 60, 2) as usize,
                uint_at(s, 62, 2) as usize,
            ),
        )
    }
}

/// The result of parsing `s` as a GSP firmware file.
pub open spec fn firmware_parse(s: Seq<u8>) -> Result<GspFirmware, GspFirmwareError> {
    match elf_header_check(s) {
        Err(e) => Err(e),
        Ok((table, count, string_index)) => match section_header_result(s, table, string_index) {
            Err(e) => Err(e),
            Ok(strings) => if strings.kind != 3 {
                Err(GspFirmwareError::InvalidStringTable)
            } else {
                match scan(s, table, strings.section.spec_bytes(s), count as nat) {
                    Err(e) => Err(e),
                    Ok(found) => if found.image is None {
                        Err(GspFirmwareError::MissingFirmwareImage)
                    } else if found.image->Some_0.size == 0 || found.image->Some_0.offset == 0 {
                        Err(GspFirmwareError::InvalidFirmwareImage)
                    } else if found.version is None {
                        Err(GspFirmwareError::MissingFirmwareVersion)
                    } else if found.version->Some_0.size == 0 || found.version->Some_0.size > 32
                        || s[found.version->Some_0.offset + found.version->Some_0.size - 1]
                        != 0 {
                        Err(GspFirmwareError::InvalidFirmwareVersion)
                    } else {
                        Ok(
                            GspFirmware {
                                image: found.image->Some_0,
                                version: found.version->Some_0,
                                gb20x_signature: found.signature,
                                section_count: count,
                            },
                        )
                    },
                }
            },
        },
    }
}

/// The boot layout of a firmware whose image and generation signature are given.
pub open spec fn boot_layout_result(fw: GspFirmware) -> Result<GspFirmwareLayout, GspBootPlanError> {
    let image_pages = div_ceil(fw.image.size as int, 4096);
    let level2_bytes = round_up(image_pages * 8, 4096);
    match fw.gb20x_signature {
        None => Err(GspBootPlanError::MissingGb20xSignature),
        Some(signature) => if signature.size == 0 {
            Err(GspBootPlanError::EmptyGb20xSignature)
        } else if fw.image.size + 4095 > usize::MAX {
            Err(GspBootPlanError::SizeOverflow)
        } else if image_pages > 262144 {
            Err(GspBootPlanError::ImageTooLarge { pages: image_pages as usize, limit: 262144 })
        } else if signature.size + 255 > usize::MAX {
            Err(GspBootPlanError::SizeOverflow)
        } else {
            Ok(
                GspFirmwareLayout {
                    image: fw.image,
                    signature,
                    signature_allocation_bytes: round_up(signature.size as int, 256) as usize,
                    radix3: GspRadix3Layout {
                        image_pages: image_pages as usize,
                        level0_bytes: 4096,
                        level1_bytes: 4096,
                        level2_bytes: level2_bytes as usize,
                        level2_pages: (level2_bytes / 4096) as usize,
                        total_bytes: (8192 + level2_bytes) as usize,
                    },
                    shared_memory: standard_shared_memory_layout(),
                },
            )
        },
    }
}

/// Scans the section headers in order, recording the wanted sections.
fn scan_sections(firmware: &[u8], table: usize, count: usize, string_table: &[u8]) -> (r: Result<
    Found,
    GspFirmwareError,
>)
    requires
        count <= 128,
        table + count * 64 <= firmware@.len(),
    ensures
        r == scan(firmware@, table, string_table@, count as nat),
        r matches Ok(found) ==> {
            &&& found.image matches Some(x) ==> x.fits(firmware@.len() as int)
            &&& found.version matches Some(x) ==> x.fits(firmware@.len() as int)
            &&& found.signature matches Some(x) ==> x.fits(firmware@.len() as int)
        },
{
    let ghost strings = string_table@;
    let mut found = Found { image: None, version: None, signature: None };
    let mut index: usize = 0;
    while index < count
        invariant
            index <= count <= 128,
            table + count * 64 <= firmware@.len(),
            strings == string_table@,
            found.image matches Some(x) ==> x.fits(firmware@.len() as int),
            found.version matches Some(x) ==> x.fits(firmware@.len() as int),
            found.signature matches Some(x) ==> x.fits(firmware@.len() as int),
            scan(firmware@, table, strings, index as nat) == Ok::<Found, GspFirmwareError>(found),
        decreases count - index,
    {
        let header = match section_header(firmware, table, index) {
            Ok(h) => h,
            Err(e) => {
                assert(scan(firmware@, table, strings, (index + 1) as nat) == Err::<
                    Found,
                    GspFirmwareError,
                >(e));
                proof {
                    lemma_scan_error_stays(
                        firmware@,
                        table,
                        strings,
                        (index + 1) as nat,
                        count as nat,
                    );
                }
                return Err(e);
            },
        };
        let name = match section_name(string_table, header.name_offset) {
            Some(n) => n,
            None => {
                assert(scan(firmware@, table, strings, (index + 1) as nat) == Err::<
                    Found,
                    GspFirmwareError,
                >(GspFirmwareError::InvalidSectionName));
                proof {
                    lemma_scan_error_stays(
                        firmware@,
                        table,
                        strings,
                        (index + 1) as nat,
                        count as nat,
                    );
                }
                return Err(GspFirmwareError::InvalidSectionName);
            },
        };
        let which = wanted_section(header.kind, name);
        if which == 1 {
            found = Found { image: Some(header.section), ..found };
        } else if which == 2 {
            found = Found { version: Some(header.section), ..found };
        } else if which == 3 {
            found = Found { signature: Some(header.section), ..found };
        }
        index = index + 1;
    }
    Ok(found)
}

impl GspFirmware {
    /// The firmware's sections lie inside a file of `len` bytes, and its version string has
    /// its terminator.
    pub open spec fn sections_fit(self, len: int) -> bool {
        &&& self.image.fits(len)
        &&& self.version.fits(len)
        &&& self.version.size >= 1
        &&& self.gb20x_signature matches Some(x) ==> x.fits(len)
    }

    pub fn parse(firmware: &[u8]) -> (r: Result<Self, GspFirmwareError>)
        ensures
            r == firmware_parse(firmware@),
            r matches Ok(fw) ==> fw.sections_fit(firmware@.len() as int),
    {
        let len = firmware.len();
        if len > NVIDIA_GSP_MAX_FIRMWARE_SIZE {
            return Err(
                GspFirmwareError::TooLarge { size: len, limit: NVIDIA_GSP_MAX_FIRMWARE_SIZE },
            );
        }
        if len < NVIDIA_GSP_ELF_HEADER_SIZE {
            return Err(GspFirmwareError::Truncated { offset: 0, size: NVIDIA_GSP_ELF_HEADER_SIZE });
        }
        let magic = [0x7fu8, 0x45u8, 0x4cu8, 0x46u8];
        if !range_equals(firmware, 0, 4, &magic) {
            assert(magic@ =~= seq![0x7fu8, 0x45u8, 0x4cu8, 0x46u8]);
            assert(firmware@.subrange(0, 4) =~= firmware@.take(4));
            return Err(GspFirmwareError::InvalidMagic);
        }
        assert(magic@ =~= seq![0x7fu8, 0x45u8, 0x4cu8, 0x46u8]);
        assert(firmware@.subrange(0, 4) =~= firmware@.take(4));
        if firmware[4] != ELF_CLASS_64 {
            return Err(GspFirmwareError::UnsupportedClass { value: firmware[4] });
        }
        if firmware[5] != ELF_DATA_LITTLE {
            return Err(GspFirmwareError::UnsupportedEndian { value: firmware[5] });
        }
        if firmware[6] != ELF_VERSION_CURRENT {
            return Err(GspFirmwareError::UnsupportedVersion { value: firmware[6] });
        }
        let elf_type = read_le(firmware, 16, 2) as u16;
        if elf_type != ELF_TYPE_REL {
            return Err(GspFirmwareError::UnsupportedType { value: elf_type });
        }
        let machine = read_le(firmware, 18, 2) as u16;
        if machine != ELF_MACHINE_RISCV {
            return Err(GspFirmwareError::UnsupportedMachine { value: machine });
        }
        if read_le(firmware, 32, 8) != 0 || read_le(firmware, 56, 2) != 0 {
            return Err(GspFirmwareError::ProgramHeadersPresent);
        }
        let raw_table = read_le(firmware, 40, 8);
        if raw_table > usize::MAX as u64 {
            return Err(GspFirmwareError::InvalidSectionTable);
        }
        let section_table_offset = raw_table as usize;
        let section_entry_size = read_le(firmware, 58, 2) as usize;
        let section_count = read_le(firmware, 60, 2) as usize;
        let string_table_index = read_le(firmware, 62, 2) as usize;
        if section_entry_size != NVIDIA_GSP_ELF_SECTION_HEADER_SIZE || section_count == 0
            || section_count > NVIDIA_GSP_MAX_SECTIONS || string_table_index >= section_count {
            return Err(GspFirmwareError::InvalidSectionTable);
        }
        let section_table_size = section_count * section_entry_size;
        if section_table_offset > len || section_table_size > len - section_table_offset {
            return Err(GspFirmwareError::InvalidSectionTable);
        }
        let string_header = match section_header(
            firmware,
            section_table_offset,
            string_table_index,
        ) {
            Ok(h) => h,
            Err(e) => {
                return Err(e);
            },
        };
        if string_header.kind != ELF_SECTION_STRTAB {
            return Err(GspFirmwareError::InvalidStringTable);
        }
        let string_table = string_header.section.bytes(firmware);
        let found = match scan_sections(firmware, section_table_offset, section_count, string_table) {
            Ok(f) => f,
            Err(e) => {
                return Err(e);
            },
        };
        let image = found.image;
        let version = found.version;
        let gb20x_signature = found.signature;
        let image = match image {
            Some(v) => v,
            None => {
                return Err(GspFirmwareError::MissingFirmwareImage);
            },
        };
        if image.size == 0 || image.offset == 0 {
            return Err(GspFirmwareError::InvalidFirmwareImage);
        }
        let version = match version {
            Some(v) => v,
            None => {
                return Err(GspFirmwareError::MissingFirmwareVersion);
            },
        };
        if version.size == 0 || version.size > 32 || firmware[version.offset + version.size - 1]
            != 0 {
            return Err(GspFirmwareError::InvalidFirmwareVersion);
        }
        Ok(Self { image, version, gb20x_signature, section_count })
    }

    /// The version string, without its terminating zero.
    pub fn version_bytes<'a>(self, firmware: &'a [u8]) -> (r: &'a [u8])
        requires
            self.version.fits(firmware@.len() as int),
            self.version.size >= 1,
        ensures
            r@ == firmware@.subrange(
                self.version.offset as int,
                self.version.offset + self.version.size - 1,
            ),
    {
        let bytes = self.version.bytes(firmware);
        let n = bytes.len();
        &bytes[0..n - 1]
    }

    pub fn supports_gb20x(self) -> (r: bool)
        ensures
            r == self.gb20x_signature is Some,
    {
        self.gb20x_signature.is_some()
    }

    /// The layout of the boot memory for this firmware: radix-3 page tables over the image, the
    /// signature rounded to 256 bytes, and the standard shared memory.
    pub fn boot_layout(self) -> (r: Result<GspFirmwareLayout, GspBootPlanError>)
        ensures
            r == boot_layout_result(self),
    {
        let signature = match self.gb20x_signature {
            Some(s) => s,
            None => {
                return Err(GspBootPlanError::MissingGb20xSignature);
            },
        };
        if signature.size == 0 {
            return Err(GspBootPlanError::EmptyGb20xSignature);
        }
        let image_pages = match ceil_div_page(self.image.size) {
            Some(v) => v,
            None => {
                return Err(GspBootPlanError::SizeOverflow);
            },
        };
        if image_pages > NVIDIA_GSP_RADIX3_MAX_IMAGE_PAGES {
            return Err(
                GspBootPlanError::ImageTooLarge {
                    pages: image_pages,
                    limit: NVIDIA_GSP_RADIX3_MAX_IMAGE_PAGES,
                },
            );
        }
        let level2_bytes = match align_page(image_pages * 8) {
            Some(v) => v,
            None => {
                return Err(GspBootPlanError::SizeOverflow);
            },
        };
        let level2_pages = level2_bytes / NVIDIA_GSP_PAGE_SIZE;
        let signature_allocation_bytes = match align_value_256(signature.size) {
            Some(v) => v,
            None => {
                return Err(GspBootPlanError::SizeOverflow);
            },
        };
        let radix3 = GspRadix3Layout {
            image_pages,
            level0_bytes: NVIDIA_GSP_PAGE_SIZE,
            level1_bytes: NVIDIA_GSP_PAGE_SIZE,
            level2_bytes,
            level2_pages,
            total_bytes: NVIDIA_GSP_PAGE_SIZE * 2 + level2_bytes,
        };
        Ok(
            GspFirmwareLayout {
                image: self.image,
                signature,
                signature_allocation_bytes,
                radix3,
                shared_memory: GspSharedMemoryLayout::standard(),
            },
        )
    }
}

/// What a boot layout promises of every firmware it is planned for: the radix-3 tables cover the
/// image page by page (just enough 4 KiB pages for its bytes), the level-2 table holds one 8-byte
/// entry per image page in whole pages with less than a page to spare, the tables take one page
/// each at levels 0 and 1 plus the level-2 pages, and the signature's allocation is its size
/// rounded up to 256 bytes.
pub proof fn lemma_boot_layout_sizes(fw: GspFirmware)
    ensures
        boot_layout_result(fw) matches Ok(l) ==> {
            let r = l.radix3;
            &&& l.image == fw.image
            &&& fw.gb20x_signature == Some(l.signature)
            &&& r.image_pages * 4096 >= fw.image.size
            &&& r.image_pages * 4096 < fw.image.size + 4096
            &&& r.level2_bytes >= 8 * r.image_pages
            &&& r.level2_bytes < 8 * r.image_pages + 4096
            &&& r.level2_bytes % 4096 == 0
            &&& r.level2_pages * 4096 == r.level2_bytes
            &&& r.level0_bytes == 4096 && r.level1_bytes == 4096
            &&& r.total_bytes == r.level0_bytes + r.level1_bytes + r.level2_bytes
            &&& l.signature_allocation_bytes >= l.signature.size
            &&& l.signature_allocation_bytes < l.signature.size + 256
            &&& l.signature_allocation_bytes % 256 == 0
        },
{
    if let Ok(l) = boot_layout_result(fw) {
        let size = fw.image.size as int;
        let pages = div_ceil(size, 4096);
        let level2 = round_up(pages * 8, 4096);
        let sig = l.signature.size as int;
        assert(pages * 4096 >= size && pages * 4096 < size + 4096) by (nonlinear_arith)
            requires
                pages == (size + 4095) / 4096,
                size >= 0,
        ;
        assert(level2 >= 8 * pages && level2 < 8 * pages + 4096 && level2 % 4096 == 0) by (
        nonlinear_arith)
            requires
                level2 == (pages * 8 + 4095) / 4096 * 4096,
                pages >= 0,
        ;
        assert((level2 / 4096) * 4096 == level2);
        let alloc = round_up(sig, 256);
        assert(alloc >= sig && alloc < sig + 256 && alloc % 256 == 0) by (nonlinear_arith)
            requires
                alloc == (sig + 255) / 256 * 256,
                sig >= 0,
        ;
    }
}

} // verus!
