//! Bounded parser for the POSIX `newc` initramfs format.
//!
//! The boot disk carries the archive as one FAT root file. Keeping the parser independent from
//! FAT lets the kernel expose normal nested paths to the process loader and gives later package
//! and recovery code a stable archive boundary.
use vstd::prelude::*;
use crate::bytes::{field, range_equals};

verus! {

pub const NEWC_HEADER_SIZE: usize = 110;
pub const MAX_ARCHIVE_SIZE: usize = 393216;
pub const MAX_ENTRIES: usize = 32;
pub const MAX_PATH_LENGTH: usize = 63;
const S_IFMT: u32 = 0o170000;
const S_IFREG: u32 = 0o100000;

#[derive(Debug, Clone, Copy, PartialEq, Eq, Structural)]
pub enum Error {
    ArchiveTooLarge { size: usize },
    TruncatedHeader { offset: usize },
    InvalidMagic { offset: usize },
    InvalidHexField { offset: usize },
    InvalidName,
    NameTooLong { length: usize },
    NameNotTerminated { offset: usize },
    DataOutOfBounds { offset: usize, size: usize },
    EntryLimitExceeded { max_entries: usize },
    MissingTrailer,
}

/// One archive record: its path, its contents and its mode bits.
#[derive(Debug, Clone, Copy, PartialEq, Eq)]
pub struct Entry<'a> {
    pub name: &'a [u8],
    pub data: &'a [u8],
    pub mode: u32,
}

/// An archive record as byte sequences.
pub struct EntryView {
    pub name: Seq<u8>,
    pub data: Seq<u8>,
    pub mode: u32,
}

impl View for Entry<'_> {
    type V = EntryView;

    open spec fn view(&self) -> EntryView {
        EntryView { name: self.name@, data: self.data@, mode: self.mode }
    }
}

impl Entry<'_> {
    /// Whether the mode's file-type bits say "regular file".
    pub fn is_regular_file(self) -> (r: bool)
        ensures
            r == (self.mode & 0o170000u32 == 0o100000u32),
    {
        self.mode & S_IFMT == S_IFREG
    }
}

/// The `newc` magic, "070701".
pub open spec fn newc_magic() -> Seq<u8> {
    seq![48u8, 55, 48, 55, 48, 49]
}

/// The name of the closing record, "TRAILER!!!".
pub open spec fn trailer_name() -> Seq<u8> {
    seq![84u8, 82, 65, 73, 76, 69, 82, 33, 33, 33]
}

/// The value of one ASCII hexadecimal digit.
pub open spec fn hex_digit(b: u8) -> Option<nat> {
    if 48 <= b <= 57 {
        Some((b - 48) as nat)
    } else if 97 <= b <= 102 {
        Some((b - 87) as nat)
    } else if 65 <= b <= 70 {
        Some((b - 55) as nat)
    } else {
        None
    }
}

/// The number that the hexadecimal digits `s` spell, most significant first.
pub open spec fn hex_value(s: Seq<u8>) -> Option<nat>
    decreases s.len(),
{
    if s.len() == 0 {
        Some(0)
    } else {
        match (hex_value(s.drop_last()), hex_digit(s.last())) {
            (Some(v), Some(d)) => Some(v * 16 + d),
            _ => None,
        }
    }
}

pub open spec fn pow16(n: nat) -> nat
    decreases n,
{
    if n == 0 {
        1
    } else {
        16 * pow16((n - 1) as nat)
    }
}

proof fn lemma_hex_bound(s: Seq<u8>)
    requires
        hex_value(s) is Some,
    ensures
        hex_value(s)->0 < pow16(s.len()),
    decreases s.len(),
{
    if s.len() > 0 {
        lemma_hex_bound(s.drop_last());
    }
}

/// The eight-digit hexadecimal header field of `b` at `offset`.
pub open spec fn hex_field(b: Seq<u8>, offset: int) -> Result<u32, Error> {
    if offset + 8 > b.len() {
        Err(Error::InvalidHexField { offset: offset as usize })
    } else {
        match hex_value(field(b, offset, 8)) {
            Some(v) => Ok(v as u32),
            None => Err(Error::InvalidHexField { offset: offset as usize }),
        }
    }
}

/// `value` rounded up to a multiple of four.
pub open spec fn align4_spec(value: nat) -> nat {
    ((value + 3) / 4) * 4
}

/// Whether a path component starts at `i` of `name`.
pub open spec fn component_start(name: Seq<u8>, i: int) -> bool {
    i == 0 || name[i - 1] == 47
}

/// Whether the component that starts at `i` is `.` or `..`.
pub open spec fn dot_component(name: Seq<u8>, i: int) -> bool {
    &&& name[i] == 46
    &&& (i + 1 == name.len() || name[i + 1] == 47 || (name[i + 1] == 46 && (i + 2 == name.len()
        || name[i + 2] == 47)))
}

/// A relative path of at most 63 printable bytes whose components are neither empty, `.` nor
/// `..`.
pub open spec fn path_ok(name: Seq<u8>) -> bool {
    &&& 0 < name.len() <= 63
    &&& forall|i: int| 0 <= i < name.len() ==> 0x21 <= #[trigger] name[i] <= 0x7e
    &&& name[0] != 47
    &&& name.last() != 47
    &&& forall|i: int| 0 <= i < name.len() - 1 ==> !(#[trigger] name[i] == 47 && name[i + 1] == 47)
    &&& forall|i: int| 0 <= i < name.len() && component_start(name, i) ==> !dot_component(name, i)
}

/// The error that checking `name` as an archive path gives, if any.
pub open spec fn name_check(name: Seq<u8>) -> Option<Error> {
    if name.len() > 63 {
        Some(Error::NameTooLong { length: name.len() as usize })
    } else if path_ok(name) {
        None
    } else {
        Some(Error::InvalidName)
    }
}

/// One record of an archive, as the walk sees it.
pub enum RecordView {
    Trailer,
    File { entry: EntryView, data_end: nat, next: nat },
}

/// The record of `a` that starts at `offset`, or the error its header gives.
pub open spec fn record_spec(a: Seq<u8>, offset: nat) -> Result<RecordView, Error> {
    let header_end = offset + 110;
    if offset == a.len() {
        Err(Error::MissingTrailer)
    } else if header_end > a.len() {
        Err(Error::TruncatedHeader { offset: offset as usize })
    } else if field(a, offset as int, 6) != newc_magic() {
        Err(Error::InvalidMagic { offset: offset as usize })
    } else {
        match (
            hex_field(a, offset + 14int),
            hex_field(a, offset + 54int),
            hex_field(a, offset + 94int),
        ) {
            (Err(e), _, _) => Err(e),
            (Ok(_), Err(e), _) => Err(e),
            (Ok(_), Ok(_), Err(e)) => Err(e),
            (Ok(mode), Ok(file_size), Ok(name_size)) => {
                let name_end: nat = (header_end + name_size) as nat;
                let name = a.subrange(header_end as int, name_end - 1);
                let data_start = align4_spec(name_end);
                let data_end: nat = (data_start + file_size) as nat;
                if name_size == 0 {
                    Err(Error::InvalidName)
                } else if name_end > a.len() {
                    Err(Error::NameTooLong { length: name_size as usize })
                } else if a[name_end - 1] != 0 {
                    Err(Error::NameNotTerminated { offset: header_end as usize })
                } else if name == trailer_name() {
                    Ok(RecordView::Trailer)
                } else if name_check(name) is Some {
                    Err(name_check(name)->0)
                } else if data_end > a.len() {
                    Err(
                        Error::DataOutOfBounds {
                            offset: data_start as usize,
                            size: file_size as usize,
                        },
                    )
                } else {
                    Ok(
                        RecordView::File {
                            entry: EntryView {
                                name,
                                data: a.subrange(data_start as int, data_end as int),
                                mode,
                            },
                            data_end,
                            next: align4_spec(data_end),
                        },
                    )
                }
            },
        }
    }
}

/// A record's successor starts after it.
pub proof fn lemma_record_advances(a: Seq<u8>, offset: nat)
    ensures
        record_spec(a, offset) matches Ok(RecordView::File { next, .. }) ==> next > offset,
{
}

/// The entries that walking `a` from `offset`, with `count` entries already seen, reaches, and
/// how the walk ends: the number of entries at the trailer, or an error.
pub open spec fn walk(a: Seq<u8>, offset: nat, count: nat) -> (Seq<EntryView>, Result<usize, Error>)
    decreases a.len() - offset,
{
    match record_spec(a, offset) {
        Err(e) => (Seq::empty(), Err(e)),
        Ok(RecordView::Trailer) => (Seq::empty(), Ok(count as usize)),
        Ok(RecordView::File { entry, data_end, next }) => if count >= 32 {
            (Seq::empty(), Err(Error::EntryLimitExceeded { max_entries: 32 }))
        } else if next > a.len() {
            (seq![entry], Err(Error::DataOutOfBounds { offset: data_end as usize, size: 0 }))
        } else {
            proof {
                lemma_record_advances(a, offset);
            }
            let rest = walk(a, next, count + 1);
            (seq![entry] + rest.0, rest.1)
        },
    }
}

/// Every entry that a walk reaches has a safe relative path: no absolute path, no empty, `.` or
/// `..` component, only printable bytes.
pub proof fn lemma_walk_names_are_safe(a: Seq<u8>, offset: nat, count: nat)
    ensures
        forall|i: int|
            0 <= i < walk(a, offset, count).0.len() ==> path_ok(
                #[trigger] walk(a, offset, count).0[i].name,
            ),
    decreases a.len() - offset,
{
    lemma_record_advances(a, offset);
    match record_spec(a, offset) {
        Ok(RecordView::File { entry, data_end, next }) => {
            if count < 32 && next <= a.len() {
                lemma_walk_names_are_safe(a, next, count + 1);
                let rest = walk(a, next, count + 1);
                assert forall|i: int| 0 <= i < walk(a, offset, count).0.len() implies path_ok(
                    #[trigger] walk(a, offset, count).0[i].name,
                ) by {
                    if i > 0 {
                        assert(walk(a, offset, count).0[i] == rest.0[i - 1]);
                    }
                }
            }
        },
        _ => {},
    }
}

/// A walk that reaches the trailer has seen at most 32 entries, and as many as it reached.
pub proof fn lemma_walk_count(a: Seq<u8>, offset: nat, count: nat)
    requires
        count <= 32,
    ensures
        walk(a, offset, count).1 matches Ok(n) ==> n <= 32 && n == count + walk(
            a,
            offset,
            count,
        ).0.len(),
    decreases a.len() - offset,
{
    lemma_record_advances(a, offset);
    match record_spec(a, offset) {
        Ok(RecordView::File { entry, data_end, next }) => {
            if count < 32 && next <= a.len() {
                lemma_walk_count(a, next, count + 1);
            }
        },
        _ => {},
    }
}

/// The entries of archive `a`, in order, and how reading it ends.
pub open spec fn archive_walk(a: Seq<u8>) -> (Seq<EntryView>, Result<usize, Error>) {
    if a.len() > 393216 {
        (Seq::empty(), Err(Error::ArchiveTooLarge { size: a.len() as usize }))
    } else {
        walk(a, 0, 0)
    }
}

/// One record of an archive.
pub enum Record<'a> {
    Trailer,
    File { entry: Entry<'a>, data_end: usize, next: usize },
}

pub open spec fn record_view(r: Result<Record, Error>) -> Result<RecordView, Error> {
    match r {
        Ok(Record::Trailer) => Ok(RecordView::Trailer),
        Ok(Record::File { entry, data_end, next }) => Ok(
            RecordView::File { entry: entry@, data_end: data_end as nat, next: next as nat },
        ),
        Err(e) => Err(e),
    }
}

/// Reads the eight-digit hexadecimal field of `bytes` at `offset`.
pub fn read_hex(bytes: &[u8], offset: usize) -> (r: Result<u32, Error>)
    ensures
        r == hex_field(bytes@, offset as int),
{
    if offset > bytes.len() || bytes.len() - offset < 8 {
        return Err(Error::InvalidHexField { offset });
    }
    let mut value: u32 = 0;
    let mut k: usize = 0;
    proof {
        reveal_with_fuel(pow16, 9);
        assert(field(bytes@, offset as int, 0) =~= Seq::<u8>::empty());
    }
    while k < 8
        invariant
            k <= 8,
            offset + 8 <= bytes@.len() <= usize::MAX,
            hex_value(field(bytes@, offset as int, k as int)) == Some(value as nat),
            value < pow16(k as nat),
            pow16(7) == 0x1000_0000,
        decreases 8 - k,
    {
        let byte = bytes[offset + k];
        let ghost prefix = field(bytes@, offset as int, k + 1);
        assert(prefix.drop_last() =~= field(bytes@, offset as int, k as int));
        let digit: u32 = if 48 <= byte && byte <= 57 {
            (byte - 48) as u32
        } else if 97 <= byte && byte <= 102 {
            (byte - 87) as u32
        } else if 65 <= byte && byte <= 70 {
            (byte - 55) as u32
        } else {
            proof {
                assert(hex_value(prefix) is None);
                assert forall|j: int| k + 1 <= j <= 8 implies hex_value(
                    #[trigger] field(bytes@, offset as int, j),
                ) is None by {
                    lemma_hex_prefix_none(bytes@, offset as int, k + 1, j);
                }
            }
            return Err(Error::InvalidHexField { offset });
        };
        proof {
            if k < 7 {
                lemma_pow16_monotone(k as nat, 6);
            }
        }
        value = value * 16 + digit;
        k = k + 1;
    }
    Ok(value)
}

proof fn lemma_pow16_monotone(a: nat, b: nat)
    requires
        a <= b,
    ensures
        pow16(a) <= pow16(b),
    decreases b,
{
    if a < b {
        lemma_pow16_monotone(a, (b - 1) as nat);
    }
}

/// Once a prefix of the digits is not a number, no longer prefix is.
proof fn lemma_hex_prefix_none(b: Seq<u8>, offset: int, i: int, j: int)
    requires
        0 <= offset,
        0 <= i <= j,
        offset + j <= b.len(),
        hex_value(field(b, offset, i)) is None,
    ensures
        hex_value(field(b, offset, j)) is None,
    decreases j - i,
{
    if i < j {
        lemma_hex_prefix_none(b, offset, i, j - 1);
        assert(field(b, offset, j).drop_last() =~= field(b, offset, j - 1));
    }
}

/// `value` rounded up to a multiple of four.
pub fn align4(value: usize) -> (r: Option<usize>)
    ensures
        value + 3 > usize::MAX ==> r is None,
        value + 3 <= usize::MAX ==> r == Some(align4_spec(value as nat) as usize),
{
    match value.checked_add(3) {
        None => None,
        Some(v) => {
            assert(v & !3usize == (v / 4) * 4) by (bit_vector);
            Some(v & !3usize)
        },
    }
}

/// Checks that `name` is a relative path of printable bytes with no empty, `.` or `..`
/// component.
pub fn validate_name(name: &[u8]) -> (r: Result<(), Error>)
    ensures
        match name_check(name@) {
            Some(e) => r == Err::<(), Error>(e),
            None => r is Ok,
        },
{
    let n = name.len();
    if n > MAX_PATH_LENGTH {
        return Err(Error::NameTooLong { length: n });
    }
    if n == 0 || name[0] == 47 || name[n - 1] == 47 {
        return Err(Error::InvalidName);
    }
    let mut i: usize = 0;
    while i < n
        invariant
            0 < n == name@.len() <= 63,
            i <= n,
            name@[0] != 47,
            name@.last() != 47,
            forall|j: int| 0 <= j < i ==> 0x21 <= #[trigger] name@[j] <= 0x7e,
            forall|j: int| 0 <= j < i && j < n - 1 ==> !(#[trigger] name@[j] == 47 && name@[j + 1]
                == 47),
            forall|j: int| 0 <= j < i && component_start(name@, j) ==> !dot_component(name@, j),
        decreases n - i,
    {
        let b = name[i];
        if b < 0x21 || b > 0x7e {
            return Err(Error::InvalidName);
        }
        if b == 47 && i + 1 < n && name[i + 1] == 47 {
            return Err(Error::InvalidName);
        }
        if (i == 0 || name[i - 1] == 47) && b == 46 {
            if i + 1 == n || name[i + 1] == 47 {
                assert(component_start(name@, i as int) && dot_component(name@, i as int));
                return Err(Error::InvalidName);
            }
            if name[i + 1] == 46 && (i + 2 == n || name[i + 2] == 47) {
                assert(component_start(name@, i as int) && dot_component(name@, i as int));
                return Err(Error::InvalidName);
            }
        }
        i = i + 1;
    }
    Ok(())
}

/// Reads the record of `archive` at `offset`.
pub fn next_record<'a>(archive: &'a [u8], offset: usize) -> (r: Result<Record<'a>, Error>)
    requires
        offset <= archive@.len() <= 393216,
    ensures
        record_view(r) == record_spec(archive@, offset as nat),
        r matches Ok(Record::File { next, .. }) ==> next > offset,
{
    let len = archive.len();
    if offset == len {
        return Err(Error::MissingTrailer);
    }
    let header_end = offset + NEWC_HEADER_SIZE;
    if header_end > len {
        return Err(Error::TruncatedHeader { offset });
    }
    let magic: [u8; 6] = [48, 55, 48, 55, 48, 49];
    assert(magic@ =~= newc_magic());
    if !range_equals(archive, offset, offset + 6, &magic) {
        return Err(Error::InvalidMagic { offset });
    }
    let mode = match read_hex(archive, offset + 14) {
        Err(e) => return Err(e),
        Ok(v) => v,
    };
    let file_size = match read_hex(archive, offset + 54) {
        Err(e) => return Err(e),
        Ok(v) => v as usize,
    };
    let name_size = match read_hex(archive, offset + 94) {
        Err(e) => return Err(e),
        Ok(v) => v as usize,
    };
    if name_size == 0 {
        return Err(Error::InvalidName);
    }
    if name_size > len - header_end {
        return Err(Error::NameTooLong { length: name_size });
    }
    let name_end = header_end + name_size;
    if archive[name_end - 1] != 0 {
        return Err(Error::NameNotTerminated { offset: header_end });
    }
    let name = &archive[header_end..name_end - 1];
    let trailer: [u8; 10] = [84, 82, 65, 73, 76, 69, 82, 33, 33, 33];
    assert(trailer@ =~= trailer_name());
    if range_equals(archive, header_end, name_end - 1, &trailer) {
        return Ok(Record::Trailer);
    }
    match validate_name(name) {
        Err(e) => return Err(e),
        Ok(()) => {},
    }
    let data_start = match align4(name_end) {
        None => return Err(Error::DataOutOfBounds { offset: name_end, size: file_size }),
        Some(v) => v,
    };
    if data_start > len || file_size > len - data_start {
        return Err(Error::DataOutOfBounds { offset: data_start, size: file_size });
    }
    let data_end = data_start + file_size;
    let next = match align4(data_end) {
        None => return Err(Error::DataOutOfBounds { offset: data_end, size: 0 }),
        Some(v) => v,
    };
    let entry = Entry { name, data: &archive[data_start..data_end], mode };
    Ok(Record::File { entry, data_end, next })
}

/// The views of `entries`, in order.
pub open spec fn entry_views<'a>(entries: Seq<Entry<'a>>) -> Seq<EntryView> {
    entries.map_values(|e: Entry<'a>| e@)
}

/// Reads the records of `archive` in order up to its `TRAILER!!!` record: the entries the walk
/// reaches (those before an error too) and how it ends, with the number of entries at the
/// trailer or the archive's error.
pub fn entries<'a>(archive: &'a [u8]) -> (r: (Vec<Entry<'a>>, Result<usize, Error>))
    ensures
        entry_views(r.0@) == archive_walk(archive@).0,
        r.1 == archive_walk(archive@).1,
{
    let mut found: Vec<Entry<'a>> = Vec::new();
    let len = archive.len();
    if len > MAX_ARCHIVE_SIZE {
        assert(entry_views(found@) =~= Seq::<EntryView>::empty());
        return (found, Err(Error::ArchiveTooLarge { size: len }));
    }
    let mut offset: usize = 0;
    loop
        invariant
            offset <= len == archive@.len() <= 393216,
            found@.len() <= 32,
            archive_walk(archive@) == walk(archive@, 0, 0),
            walk(archive@, 0, 0).0 == entry_views(found@) + walk(
                archive@,
                offset as nat,
                found@.len(),
            ).0,
            walk(archive@, 0, 0).1 == walk(archive@, offset as nat, found@.len()).1,
        decreases len - offset,
    {
        let ghost before = entry_views(found@);
        let record = next_record(archive, offset);
        match record {
            Err(e) => {
                assert(walk(archive@, 0, 0).0 =~= entry_views(found@));
                return (found, Err(e));
            },
            Ok(Record::Trailer) => {
                assert(walk(archive@, 0, 0).0 =~= entry_views(found@));
                let count = found.len();
                return (found, Ok(count));
            },
            Ok(Record::File { entry, data_end, next }) => {
                if found.len() == MAX_ENTRIES {
                    assert(walk(archive@, 0, 0).0 =~= entry_views(found@));
                    return (found, Err(Error::EntryLimitExceeded { max_entries: MAX_ENTRIES }));
                }
                let ghost rest = walk(archive@, next as nat, (found@.len() + 1) as nat);
                found.push(entry);
                assert(entry_views(found@) =~= before.push(entry@));
                if next > len {
                    assert(walk(archive@, 0, 0).0 =~= entry_views(found@));
                    return (found, Err(Error::DataOutOfBounds { offset: data_end, size: 0 }));
                }
                assert(before + (seq![entry@] + rest.0) =~= entry_views(found@) + rest.0);
                offset = next;
            },
        }
    }
}

/// `visit` was called with an entry whose view is `v` and succeeded.
pub open spec fn visited_ok<'a, F: FnMut(Entry<'a>) -> Result<(), Error>>(visit: F, v: EntryView) -> bool {
    exists|e: Entry<'a>, out: Result<(), Error>|
        e@ == v && out is Ok && #[trigger] call_ensures(visit, (e,), out)
}

/// `visit` was called with an entry whose view is `v` and failed with `error`.
pub open spec fn visited_err<'a, F: FnMut(Entry<'a>) -> Result<(), Error>>(
    visit: F,
    v: EntryView,
    error: Error,
) -> bool {
    exists|e: Entry<'a>| e@ == v && #[trigger] call_ensures(visit, (e,), Err::<(), Error>(error))
}

/// Visits every archive record, stopping at the required `TRAILER!!!` record; gives the number
/// of entries visited.
///
/// The entries the walk reaches are handed to `visit` in order. Either every one of them was
/// visited successfully and the walk's own result comes back (the count at the trailer, or the
/// archive's error after the entries before it), or `visit` failed on one of them, after the
/// ones before it succeeded, and its error comes back.
pub fn for_each_entry<'a, F>(archive: &'a [u8], visit: F) -> (r: Result<usize, Error>) where
    F: FnMut(Entry<'a>) -> Result<(), Error>,

    requires
        forall|f: F, e: Entry<'a>| #[trigger] call_requires(f, (e,)),
    ensures
        ({
            let walked = archive_walk(archive@);
            ||| r == walked.1 && forall|i: int|
                0 <= i < walked.0.len() ==> visited_ok(visit, #[trigger] walked.0[i])
            ||| r is Err && exists|k: int|
                #![trigger walked.0[k]]
                0 <= k < walked.0.len() && visited_err(visit, walked.0[k], r->Err_0) && forall|
                    i: int,
                | 0 <= i < k ==> visited_ok(visit, #[trigger] walked.0[i])
        }),
        (forall|f: F, e: Entry<'a>, out: Result<(), Error>| call_ensures(f, (e,), out) ==> out is Ok)
            ==> r == archive_walk(archive@).1,
{
    let mut visitor = visit;
    let (found, end) = entries(archive);
    let ghost walked = archive_walk(archive@);
    let mut i: usize = 0;
    while i < found.len()
        invariant
            i <= found@.len(),
            entry_views(found@) == walked.0,
            walked == archive_walk(archive@),
            end == walked.1,
            visitor == visit,
            forall|f: F, e: Entry<'a>| #[trigger] call_requires(f, (e,)),
            forall|j: int| 0 <= j < i ==> visited_ok(visit, #[trigger] walked.0[j]),
        decreases found@.len() - i,
    {
        let entry = found[i];
        assert(walked.0[i as int] == entry@);
        let outcome = visitor(entry);
        match outcome {
            Err(e) => {
                assert(call_ensures(visit, (entry,), Err::<(), Error>(e)));
                assert(visited_err(visit, walked.0[i as int], e));
                return Err(e);
            },
            Ok(()) => {
                assert(call_ensures(visit, (entry,), outcome));
                assert(visited_ok(visit, walked.0[i as int]));
            },
        }
        i = i + 1;
    }
    end
}

/// The ASCII character of hexadecimal digit `d` (below 16), upper- or lower-case.
pub open spec fn hex_char(d: nat, upper: bool) -> u8 {
    if d < 10 {
        (48 + d) as u8
    } else if upper {
        (55 + d) as u8
    } else {
        (87 + d) as u8
    }
}

/// The `n` low-order hexadecimal digits of `v`, most significant first, as `printf("%0nX")` (or
/// `%0nx`) writes them.
pub open spec fn hex_text(v: nat, n: nat, upper: bool) -> Seq<u8>
    decreases n,
{
    if n == 0 {
        Seq::empty()
    } else {
        hex_text(v / 16, (n - 1) as nat, upper).push(hex_char(v % 16, upper))
    }
}

proof fn lemma_hex_text_value(v: nat, n: nat, upper: bool)
    ensures
        hex_text(v, n, upper).len() == n,
        hex_value(hex_text(v, n, upper)) == Some(v % pow16(n)),
    decreases n,
{
    if n > 0 {
        lemma_hex_text_value(v / 16, (n - 1) as nat, upper);
        let t = hex_text(v, n, upper);
        assert(t.drop_last() =~= hex_text(v / 16, (n - 1) as nat, upper));
        let d = v % 16;
        assert(hex_digit(hex_char(d, upper)) == Some(d));
        let p = pow16((n - 1) as nat);
        assert(p > 0) by {
            lemma_pow16_positive((n - 1) as nat);
        }
        let q = (v / 16) as int;
        let a = q / (p as int);
        let m = q % (p as int);
        assert(v == 16 * q + d);
        assert(q == (p as int) * a + m && 0 <= m < p) by {
            vstd::arithmetic::div_mod::lemma_fundamental_div_mod(q, p as int);
        }
        assert(v == a * (16 * p) + (16 * m + d)) by (nonlinear_arith)
            requires
                v == 16 * q + d,
                q == (p as int) * a + m,
        ;
        assert(0 <= 16 * m + d < 16 * p) by (nonlinear_arith)
            requires
                0 <= d < 16,
                0 <= m < p,
        ;
        vstd::arithmetic::div_mod::lemma_fundamental_div_mod_converse(
            v as int,
            (16 * p) as int,
            a,
            16 * m + d,
        );
        assert(pow16(n) == 16 * p);
    }
}

proof fn lemma_pow16_positive(n: nat)
    ensures
        pow16(n) > 0,
    decreases n,
{
    if n > 0 {
        lemma_pow16_positive((n - 1) as nat);
    }
}

/// Reading an eight-digit header field gives back the number that was written there in
/// hexadecimal, in upper or lower case, whatever surrounds it.
pub proof fn lemma_hex_field_reads_written_number(
    before: Seq<u8>,
    v: u32,
    upper: bool,
    after: Seq<u8>,
)
    ensures
        hex_field(before + hex_text(v as nat, 8, upper) + after, before.len() as int) == Ok::<
            u32,
            Error,
        >(v),
{
    lemma_hex_text_value(v as nat, 8, upper);
    let b = before + hex_text(v as nat, 8, upper) + after;
    assert(field(b, before.len() as int, 8) =~= hex_text(v as nat, 8, upper));
    reveal_with_fuel(pow16, 9);
    assert(pow16(8) == 0x1_0000_0000);
    assert((v as nat) % pow16(8) == v);
}

} // verus!
