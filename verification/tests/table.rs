use melee_inject::error::FstError;
use melee_inject::index::FstIndex;
use melee_inject::parse::{entry_count, read_table};
use melee_inject::record::UpdateFST;
use melee_inject::table::write_table;

fn entry(flag: u8, name: u32, offset: u32, length: u32) -> [u8; 12] {
    let n = name.to_be_bytes();
    let o = offset.to_be_bytes();
    let l = length.to_be_bytes();
    [flag, n[1], n[2], n[3], o[0], o[1], o[2], o[3], l[0], l[1], l[2], l[3]]
}

fn table(entries: &[[u8; 12]], strings: &[u8]) -> Vec<u8> {
    let mut bytes = Vec::new();
    for e in entries {
        bytes.extend_from_slice(e);
    }
    bytes.extend_from_slice(strings);
    bytes
}

fn record(name: &str, offset: u32, size: u32, updated_offset: u32, updated_size: u32) -> UpdateFST {
    let mut r = UpdateFST::new(name.to_string(), offset, size, vec![0xaa; 4]);
    r.updated_offset = updated_offset;
    r.updated_size = updated_size;
    r
}

fn sample() -> Vec<u8> {
    table(
        &[
            entry(1, 0, 0, 4),
            entry(0, 0, 0x1000, 100),
            entry(1, 6, 0, 4),
            entry(0, 10, 0x2000, 8),
        ],
        b"a.dat\0dir\0b.dat\0",
    )
}

#[test]
fn file_entries_get_the_updated_offset_and_size() {
    let mut index = FstIndex::new();
    index.insert(record("a.dat", 0x1000, 100, 0x1000, 76));
    index.insert(record("b.dat", 0x2000, 8, 0x2000 - 24, 8));
    let written = write_table(&sample(), &index).unwrap();
    let expected = table(
        &[
            entry(1, 0, 0, 4),
            entry(0, 0, 0x1000, 76),
            entry(1, 6, 0, 4),
            entry(0, 10, 0x2000 - 24, 8),
        ],
        b"a.dat\0dir\0b.dat\0",
    );
    assert_eq!(written, expected);
}

#[test]
fn an_untouched_index_writes_the_table_back_as_it_was() {
    let mut index = FstIndex::new();
    index.insert(record("a.dat", 0x1000, 100, 0x1000, 100));
    index.insert(record("b.dat", 0x2000, 8, 0x2000, 8));
    assert_eq!(write_table(&sample(), &index).unwrap(), sample());
}

#[test]
fn the_entry_count_and_the_length_stay() {
    let mut index = FstIndex::new();
    index.insert(record("a.dat", 0x1000, 100, 0x0123_4567, 0x89ab_cdef));
    index.insert(record("b.dat", 0x2000, 8, u32::MAX, u32::MAX));
    let written = write_table(&sample(), &index).unwrap();
    assert_eq!(written.len(), sample().len());
    assert_eq!(entry_count(&written), Ok(4));
    assert_eq!(&written[..12], &sample()[..12]);
    assert_eq!(&written[48..], &sample()[48..]);
    let entries = read_table(&written).unwrap();
    assert_eq!(entries[0].offset, 0x0123_4567);
    assert_eq!(entries[0].length, 0x89ab_cdef);
    assert_eq!(entries[1], read_table(&sample()).unwrap()[1]);
    assert_eq!(entries[2].offset, u32::MAX);
    assert_eq!(entries[2].length, u32::MAX);
}

#[test]
fn directories_are_never_rewritten() {
    // a directory whose parent field happens to be the offset of a record
    let bytes = table(&[entry(1, 0, 0, 3), entry(1, 0, 0x1000, 3), entry(0, 4, 0x1000, 100)], b"dir\0a\0");
    let mut index = FstIndex::new();
    index.insert(record("a", 0x1000, 100, 0x0800, 50));
    let written = write_table(&bytes, &index).unwrap();
    assert_eq!(
        written,
        table(&[entry(1, 0, 0, 3), entry(1, 0, 0x1000, 3), entry(0, 4, 0x0800, 50)], b"dir\0a\0")
    );
}

#[test]
fn records_without_an_entry_are_ignored() {
    let mut index = FstIndex::new();
    index.insert(record("a.dat", 0x1000, 100, 0x1000, 100));
    index.insert(record("b.dat", 0x2000, 8, 0x2000, 8));
    index.insert(record("c.dat", 0x3000, 8, 0x3000, 8));
    assert_eq!(write_table(&sample(), &index).unwrap(), sample());
}

#[test]
fn a_file_entry_without_a_record_is_a_mismatch() {
    let mut index = FstIndex::new();
    index.insert(record("a.dat", 0x1000, 100, 0x1000, 76));
    assert_eq!(
        write_table(&sample(), &index),
        Err(FstError::IndexMismatch { entry: 3, offset: 0x2000 })
    );
    let empty = FstIndex::new();
    assert_eq!(
        write_table(&sample(), &empty),
        Err(FstError::IndexMismatch { entry: 1, offset: 0x1000 })
    );
}

#[test]
fn a_table_shorter_than_its_entries_is_corrupt() {
    let mut index = FstIndex::new();
    index.insert(record("a.dat", 0x1000, 100, 0x1000, 76));
    index.insert(record("b.dat", 0x2000, 8, 0x2000, 8));
    let bytes = sample();
    assert_eq!(write_table(&bytes[..47], &index), Err(FstError::TableCorrupt));
    assert_eq!(write_table(&bytes[..11], &index), Err(FstError::TableCorrupt));
    assert_eq!(write_table(&[], &index), Err(FstError::TableCorrupt));
    // corruption is reported before a mismatch
    assert_eq!(write_table(&bytes[..47], &FstIndex::new()), Err(FstError::TableCorrupt));
    // without the string table the entries are still all there
    assert!(write_table(&bytes[..48], &index).is_ok());
}

#[test]
fn a_file_of_a_1212_entry_table_shrinks_by_24_bytes() {
    // 1212 entries, one of them a file at 0x1000
    let mut entries = vec![entry(1, 0, 0, 0x04bc)];
    entries.push(entry(0, 0, 0x1000, 100));
    for i in 2..1212u32 {
        entries.push(entry(0, 0, 0x1000 + 0x100 * i, 0x80));
    }
    let bytes = table(&entries, b"x\0");
    let mut index = FstIndex::new();
    index.insert(record("pivot", 0x1000, 100, 0x1000, 100));
    for i in 2..1212u32 {
        index.insert(record("other", 0x1000 + 0x100 * i, 0x80, 0x1000 + 0x100 * i, 0x80));
    }
    assert_eq!(index.apply("pivot", vec![1; 76]), Ok(()));
    let written = write_table(&bytes, &index).unwrap();
    assert_eq!(entry_count(&written), Ok(0x04bc));
    let decoded = read_table(&written).unwrap();
    assert_eq!(decoded.len(), 1211);
    assert_eq!(decoded[0].offset, 0x1000);
    assert_eq!(decoded[0].length, 76);
    for i in 2..1212u32 {
        let e = decoded[(i - 1) as usize];
        assert_eq!(e.offset, 0x1000 + 0x100 * i - 24);
        assert_eq!(e.length, 0x80);
        let r = index.get(0x1000 + 0x100 * i).unwrap();
        assert_eq!(r.updated_offset, r.original_offset - 24);
    }
}
