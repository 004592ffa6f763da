use rustos::kernel::initramfs::{
    align4, entries, for_each_entry, next_record, read_hex, validate_name, Entry, Error, Record,
    NEWC_HEADER_SIZE,
};

const NEWC_MAGIC: &[u8; 6] = b"070701";
const TRAILER_NAME: &[u8] = b"TRAILER!!!";

fn header(mode: u32, size: usize, name_size: usize) -> [u8; NEWC_HEADER_SIZE] {
    let mut header = [b'0'; NEWC_HEADER_SIZE];
    header[..6].copy_from_slice(NEWC_MAGIC);
    write_hex(&mut header, 14, mode);
    write_hex(&mut header, 54, size as u32);
    write_hex(&mut header, 94, name_size as u32);
    header
}

fn write_hex(bytes: &mut [u8], offset: usize, value: u32) {
    for index in 0..8 {
        let shift = (7 - index) * 4;
        let digit = ((value >> shift) & 0xf) as u8;
        bytes[offset + index] = if digit < 10 { b'0' + digit } else { b'a' + digit - 10 };
    }
}

fn archive_with_file(name: &[u8], data: &[u8]) -> [u8; 256] {
    let mut archive = [0u8; 256];
    let mut offset = 0;
    let mut record = header(0o100755, data.len(), name.len() + 1);
    archive[offset..offset + NEWC_HEADER_SIZE].copy_from_slice(&record);
    offset += NEWC_HEADER_SIZE;
    archive[offset..offset + name.len()].copy_from_slice(name);
    offset += name.len();
    archive[offset] = 0;
    offset = align4(offset + 1).unwrap();
    archive[offset..offset + data.len()].copy_from_slice(data);
    offset = align4(offset + data.len()).unwrap();
    record = header(0, 0, TRAILER_NAME.len() + 1);
    archive[offset..offset + NEWC_HEADER_SIZE].copy_from_slice(&record);
    offset += NEWC_HEADER_SIZE;
    archive[offset..offset + TRAILER_NAME.len()].copy_from_slice(TRAILER_NAME);
    archive[offset + TRAILER_NAME.len()] = 0;
    archive
}

#[test]
fn parses_regular_file_and_trailer() {
    let archive = archive_with_file(b"sbin/init", b"ELF");
    let count = for_each_entry(&archive, |entry| {
        assert!(entry.is_regular_file());
        assert_eq!(entry.name, b"sbin/init");
        assert_eq!(entry.data, b"ELF");
        Ok(())
    })
    .unwrap();
    assert_eq!(count, 1);
}

#[test]
fn rejects_unsafe_nested_names() {
    let archive = archive_with_file(b"../init", b"ELF");
    assert_eq!(for_each_entry(&archive, |_| Ok(())), Err(Error::InvalidName));
}

#[test]
fn rejects_missing_trailer() {
    let archive = archive_with_file(b"sbin/init", b"ELF");
    assert_eq!(
        for_each_entry(&archive[..124], |_| Ok(())),
        Err(Error::MissingTrailer)
    );
}

#[test]
fn a_visitor_error_stops_the_walk() {
    let archive = archive_with_file(b"etc/motd", b"hello");
    assert_eq!(
        for_each_entry(&archive, |_| Err(Error::EntryLimitExceeded { max_entries: 7 })),
        Err(Error::EntryLimitExceeded { max_entries: 7 })
    );
}

#[test]
fn next_record_reads_a_file_and_its_successor() {
    let archive = archive_with_file(b"bin/sh", b"#!");
    match next_record(&archive, 0) {
        Ok(Record::File { entry, data_end, next }) => {
            assert_eq!(
                entry,
                Entry {
                    name: b"bin/sh",
                    data: b"#!",
                    mode: 0o100755
                }
            );
            assert_eq!(data_end, 120 + 2);
            assert_eq!(next, 124);
            assert!(matches!(next_record(&archive, next), Ok(Record::Trailer)));
        }
        _ => panic!("expected a file record"),
    }
    assert_eq!(
        next_record(&archive, 1).err(),
        Some(Error::InvalidMagic { offset: 1 })
    );
    assert_eq!(
        next_record(&archive[..100], 0).err(),
        Some(Error::TruncatedHeader { offset: 0 })
    );
}

#[test]
fn reads_hex_fields_in_either_case() {
    assert_eq!(read_hex(b"0000abCD", 0), Ok(0xabcd));
    assert_eq!(read_hex(b"ffffffff", 0), Ok(u32::MAX));
    assert_eq!(read_hex(b"0000000g", 0), Err(Error::InvalidHexField { offset: 0 }));
    assert_eq!(read_hex(b"1234567", 0), Err(Error::InvalidHexField { offset: 0 }));
}

#[test]
fn rounds_offsets_to_four_bytes() {
    assert_eq!(align4(0), Some(0));
    assert_eq!(align4(5), Some(8));
    assert_eq!(align4(8), Some(8));
    assert_eq!(align4(usize::MAX - 1), None);
}

#[test]
fn validates_relative_archive_paths() {
    assert_eq!(validate_name(b"sbin/init"), Ok(()));
    assert_eq!(validate_name(b"a/.hidden"), Ok(()));
    assert_eq!(validate_name(b""), Err(Error::InvalidName));
    assert_eq!(validate_name(b"/abs"), Err(Error::InvalidName));
    assert_eq!(validate_name(b"a//b"), Err(Error::InvalidName));
    assert_eq!(validate_name(b"a/./b"), Err(Error::InvalidName));
    assert_eq!(validate_name(b"a/.."), Err(Error::InvalidName));
    assert_eq!(validate_name(b"dir/"), Err(Error::InvalidName));
    assert_eq!(validate_name(b"sp ace"), Err(Error::InvalidName));
    assert_eq!(validate_name(&[b'a'; 64]), Err(Error::NameTooLong { length: 64 }));
}

#[test]
fn every_entry_is_visited_once_in_order() {
    let archive = archive_with_file(b"sbin/init", b"ELF");
    let mut seen: Vec<(Vec<u8>, Vec<u8>, u32)> = Vec::new();
    let count = for_each_entry(&archive, |entry| {
        seen.push((entry.name.to_vec(), entry.data.to_vec(), entry.mode));
        Ok(())
    });
    assert_eq!(count, Ok(1));
    assert_eq!(seen, vec![(b"sbin/init".to_vec(), b"ELF".to_vec(), 0o100755)]);

    let mut calls = 0;
    assert_eq!(
        for_each_entry(&archive_with_file(b"../init", b"ELF"), |_| {
            calls += 1;
            Ok(())
        }),
        Err(Error::InvalidName)
    );
    assert_eq!(calls, 0);

    let mut names: Vec<Vec<u8>> = Vec::new();
    assert_eq!(
        for_each_entry(&archive[..124], |entry| {
            names.push(entry.name.to_vec());
            Ok(())
        }),
        Err(Error::MissingTrailer)
    );
    assert_eq!(names, vec![b"sbin/init".to_vec()]);
}

#[test]
fn entries_lists_the_records_before_the_trailer() {
    let archive = archive_with_file(b"sbin/init", b"ELF");
    let (found, end) = entries(&archive);
    assert_eq!(end, Ok(1));
    assert_eq!(found, vec![Entry { name: b"sbin/init", data: b"ELF", mode: 0o100755 }]);
    let (found, end) = entries(&archive[..124]);
    assert_eq!(end, Err(Error::MissingTrailer));
    assert_eq!(found.len(), 1);
}
