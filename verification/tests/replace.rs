use melee_inject::characters::{CaptainFalcon, CaptainFalconFile, Character};
use melee_inject::error::FstError;
use melee_inject::image::{FST_LENGTH, FST_OFFSET};
use melee_inject::parse::{entry_count, read_table};
use melee_inject::replace::{
    build_iso, index_files, rebuild_fst, table_region, FsNode, Replacement, UpdateFST,
};

const A: u32 = 0x45f000;
const B: u32 = 0x45f064;
const C: u32 = 0x45f100;
const IMAGE_LEN: usize = 0x45f140;

fn entry(flag: u8, name: u32, offset: u32, length: u32) -> [u8; 12] {
    let n = name.to_be_bytes();
    let o = offset.to_be_bytes();
    let l = length.to_be_bytes();
    [flag, n[1], n[2], n[3], o[0], o[1], o[2], o[3], l[0], l[1], l[2], l[3]]
}

fn table_of(a: (u32, u32), b: (u32, u32), c: (u32, u32)) -> Vec<u8> {
    let mut bytes = Vec::new();
    bytes.extend_from_slice(&entry(1, 0, 0, 5));
    bytes.extend_from_slice(&entry(0, 0, a.0, a.1));
    bytes.extend_from_slice(&entry(1, 9, 0, 5));
    bytes.extend_from_slice(&entry(0, 13, b.0, b.1));
    bytes.extend_from_slice(&entry(0, 24, c.0, c.1));
    bytes.extend_from_slice(b"PlCa.dat\0dir\0PlCaNr.dat\0PlCaGr.dat\0");
    bytes
}

fn payload(seed: u8, length: usize) -> Vec<u8> {
    (0..length).map(|i| seed.wrapping_add((i % 7) as u8) | 1).collect()
}

fn put(image: &mut Vec<u8>, at: usize, bytes: &[u8]) {
    image[at..at + bytes.len()].copy_from_slice(bytes);
}

/// An image of the disc's layout: a preamble, the table, three files, and
/// the padding that a rebuild gives an image of this content.
fn disc() -> Vec<u8> {
    let mut image = vec![0u8; IMAGE_LEN];
    for i in 0..FST_OFFSET {
        image[i] = (i % 251) as u8;
    }
    put(&mut image, FST_OFFSET, &table_of((A, 100), (B, 32), (C, 8)));
    put(&mut image, A as usize, &payload(0x10, 100));
    put(&mut image, B as usize, &payload(0x20, 32));
    put(&mut image, C as usize, &payload(0x30, 8));
    image
}

fn listing() -> Vec<FsNode> {
    vec![
        FsNode::File { name: "PlCa.dat".to_string(), offset: A, size: 100 },
        FsNode::Directory { name: "dir".to_string(), parent_index: 0, end_index: 5 },
        FsNode::File { name: "PlCaNr.dat".to_string(), offset: B, size: 32 },
        FsNode::File { name: "PlCaGr.dat".to_string(), offset: C, size: 8 },
    ]
}

fn region_with(table: &[u8]) -> Vec<u8> {
    let mut region = vec![0u8; FST_LENGTH];
    region[..table.len()].copy_from_slice(table);
    region
}

#[test]
fn the_table_region_is_cut_at_the_end_of_the_image() {
    let image = disc();
    assert_eq!(table_region(&image), &image[FST_OFFSET..FST_OFFSET + FST_LENGTH]);
    assert_eq!(table_region(&image[..FST_OFFSET + 10]), &image[FST_OFFSET..FST_OFFSET + 10]);
    assert_eq!(table_region(&image[..FST_OFFSET]), &[] as &[u8]);
    assert_eq!(table_region(&image[..100]), &[] as &[u8]);
    assert_eq!(table_region(&[]), &[] as &[u8]);
}

#[test]
fn index_files_reads_every_file_and_no_directory() {
    let image = disc();
    let index = index_files(&image, &listing()).unwrap();
    assert_eq!(index.len(), 3);
    assert_eq!(
        index.get(A),
        Some(&UpdateFST::new("PlCa.dat".to_string(), A, 100, payload(0x10, 100)))
    );
    assert_eq!(
        index.get(B),
        Some(&UpdateFST::new("PlCaNr.dat".to_string(), B, 32, payload(0x20, 32)))
    );
    assert_eq!(
        index.get(C),
        Some(&UpdateFST::new("PlCaGr.dat".to_string(), C, 8, payload(0x30, 8)))
    );
    assert_eq!(index_files(&image, &vec![]).unwrap().len(), 0);
}

#[test]
fn index_files_fails_on_the_first_file_outside_the_image() {
    let image = disc();
    let mut files = listing();
    files.push(FsNode::File { name: "x".to_string(), offset: IMAGE_LEN as u32 - 3, size: 4 });
    files.push(FsNode::File { name: "y".to_string(), offset: IMAGE_LEN as u32, size: 1 });
    assert_eq!(
        index_files(&image, &files),
        Err(FstError::ImageOpenFailure { offset: IMAGE_LEN as u32 - 3 })
    );
}

#[test]
fn rebuilding_without_replacements_changes_nothing() {
    let image = disc();
    let rebuilt = rebuild_fst(&image, &listing(), &vec![]).unwrap();
    assert_eq!(rebuilt.new_fst, &image[FST_OFFSET..FST_OFFSET + FST_LENGTH]);
    assert_eq!(rebuilt.replacements, index_files(&image, &listing()).unwrap());
    let iso = build_iso(&image, &rebuilt).unwrap();
    assert_eq!(iso.len(), image.len());
    assert!(iso == image);
}

#[test]
fn try_replace_dat_same_size() {
    let image = disc();
    let replacements = vec![
        // replace common files
        Replacement { target_file: CaptainFalcon::PlCa, replacement: vec![0xee; 100] },
        // replace neutral skin
        Replacement { target_file: CaptainFalcon::PlCaNr, replacement: vec![0xdd; 32] },
    ];

    // rebuild the table using the replacements
    let updates = rebuild_fst(&image, &listing(), &replacements).unwrap();
    assert_eq!(updates.new_fst, &image[FST_OFFSET..FST_OFFSET + FST_LENGTH]);
    for key in [A, B, C] {
        let r = updates.replacements.get(key).unwrap();
        assert_eq!(r.updated_offset, r.original_offset);
        assert_eq!(r.updated_size, r.original_size);
    }

    let rebuilt_iso = build_iso(&image, &updates).unwrap();
    let mut expected = image.clone();
    put(&mut expected, A as usize, &[0xee; 100]);
    put(&mut expected, B as usize, &[0xdd; 32]);
    assert!(rebuilt_iso == expected);
}

#[test]
fn replace_try_replace_dat_diff_size() {
    let image = disc();
    let replacements = vec![
        // replace the first file by a shorter one
        Replacement { target_file: CaptainFalcon::PlCa, replacement: vec![0xee; 76] },
    ];

    let updates = rebuild_fst(&image, &listing(), &replacements).unwrap();
    assert_eq!(updates.new_fst, region_with(&table_of((A, 76), (B - 24, 32), (C - 24, 8))));
    assert_eq!(entry_count(&updates.new_fst), Ok(5));

    let rebuilt_iso = build_iso(&image, &updates).unwrap();
    let mut expected = vec![0u8; 0x45f120];
    expected[..FST_OFFSET].copy_from_slice(&image[..FST_OFFSET]);
    put(&mut expected, FST_OFFSET, &updates.new_fst);
    put(&mut expected, A as usize, &[0xee; 76]);
    put(&mut expected, (B - 24) as usize, &payload(0x20, 32));
    put(&mut expected, (C - 24) as usize, &payload(0x30, 8));
    assert_eq!(rebuilt_iso.len(), expected.len());
    assert!(rebuilt_iso == expected);
}

#[test]
fn main_try_replace_dat_diff_size() {
    let image = disc();
    let target = Character::CaptainFalcon(CaptainFalconFile::PlCaGr);
    assert!(Character::has_filename(&target));
    let replacements = vec![
        // replace the green costume by a longer file
        Replacement { target_file: Character::filename(&target), replacement: vec![0xee; 20] },
    ];

    // rebuild the table using the replacements
    let updates = rebuild_fst(&image, &listing(), &replacements).unwrap();

    // the table is modified: the size of the last file has changed
    assert_ne!(updates.new_fst, &image[FST_OFFSET..FST_OFFSET + FST_LENGTH]);
    assert_eq!(updates.new_fst, region_with(&table_of((A, 100), (B, 32), (C, 20))));
}

#[test]
fn a_larger_file_pushes_the_files_behind_it() {
    let image = disc();
    let replacements =
        vec![Replacement { target_file: CaptainFalcon::PlCaNr, replacement: vec![0xee; 50] }];
    let updates = rebuild_fst(&image, &listing(), &replacements).unwrap();
    // 18 bytes more, rounded up to 20
    assert_eq!(updates.new_fst, region_with(&table_of((A, 100), (B, 50), (C + 20, 8))));
    let rebuilt_iso = build_iso(&image, &updates).unwrap();
    // content ends at C + 20 + 8 = 0x45f11c, padded to 0x45f120 + 32
    let mut expected = vec![0u8; 0x45f140];
    expected[..FST_OFFSET].copy_from_slice(&image[..FST_OFFSET]);
    put(&mut expected, FST_OFFSET, &updates.new_fst);
    put(&mut expected, A as usize, &payload(0x10, 100));
    put(&mut expected, B as usize, &[0xee; 50]);
    put(&mut expected, (C + 20) as usize, &payload(0x30, 8));
    assert!(rebuilt_iso == expected);
}

#[test]
fn the_second_replacement_sees_what_the_first_has_done() {
    let image = disc();
    let replacements = vec![
        Replacement { target_file: CaptainFalcon::PlCa, replacement: vec![0xee; 76] },
        Replacement { target_file: CaptainFalcon::PlCaNr, replacement: vec![0xdd; 16] },
    ];
    let updates = rebuild_fst(&image, &listing(), &replacements).unwrap();
    let b = updates.replacements.get(B).unwrap();
    assert_eq!(b.original_offset, B);
    assert_eq!(b.updated_offset, B - 24);
    assert_eq!(b.updated_size, 16);
    let c = updates.replacements.get(C).unwrap();
    assert_eq!(c.updated_offset, C - 24 - 16);
    assert_eq!(updates.new_fst, region_with(&table_of((A, 76), (B - 24, 16), (C - 24 - 16, 8))));
    // the other way round the result is the same here, each file moving by
    // the sum of what the files in front of it have lost
    let reversed = vec![replacements[1].clone(), replacements[0].clone()];
    let other = rebuild_fst(&image, &listing(), &reversed).unwrap();
    assert_eq!(other.new_fst, updates.new_fst);
}

#[test]
fn a_rebuild_fails_on_an_unknown_target() {
    let image = disc();
    let replacements = vec![
        Replacement { target_file: CaptainFalcon::PlCa, replacement: vec![0xee; 76] },
        Replacement { target_file: CaptainFalcon::PlCaBu, replacement: vec![0xee; 76] },
    ];
    assert_eq!(
        rebuild_fst(&image, &listing(), &replacements),
        Err(FstError::AmbiguousOrMissingTarget { target: "PlCaBu.dat".to_string(), found: 0 })
    );
}

#[test]
fn a_rebuild_fails_on_a_target_that_two_files_share() {
    let image = disc();
    let mut files = listing();
    files.push(FsNode::File { name: "PlCa.dat".to_string(), offset: 0x10, size: 4 });
    let replacements =
        vec![Replacement { target_file: CaptainFalcon::PlCa, replacement: vec![0xee; 76] }];
    assert_eq!(
        rebuild_fst(&image, &files, &replacements),
        Err(FstError::AmbiguousOrMissingTarget { target: "PlCa.dat".to_string(), found: 2 })
    );
}

#[test]
fn a_rebuild_fails_when_the_listing_lacks_a_file_of_the_table() {
    let image = disc();
    let mut files = listing();
    files.remove(2);
    assert_eq!(
        rebuild_fst(&image, &files, &vec![]),
        Err(FstError::IndexMismatch { entry: 3, offset: B })
    );
}

#[test]
fn a_rebuild_fails_on_an_image_without_a_table() {
    let image = disc();
    assert_eq!(rebuild_fst(&image[..FST_OFFSET], &vec![], &vec![]), Err(FstError::TableCorrupt));
    assert_eq!(rebuild_fst(&image[..FST_OFFSET + 11], &vec![], &vec![]), Err(FstError::TableCorrupt));
    assert_eq!(rebuild_fst(&image[..FST_OFFSET + 59], &vec![], &vec![]), Err(FstError::TableCorrupt));
    assert_eq!(rebuild_fst(&[], &vec![], &vec![]), Err(FstError::TableCorrupt));
}

#[test]
fn failures_are_reported_in_the_order_of_the_stages() {
    let image = disc();
    let mut files = listing();
    files.push(FsNode::File { name: "x".to_string(), offset: u32::MAX, size: 1 });
    let replacements =
        vec![Replacement { target_file: CaptainFalcon::PlCaBu, replacement: vec![0xee; 76] }];
    // the unreadable file comes before the unknown target
    assert_eq!(
        rebuild_fst(&image, &files, &replacements),
        Err(FstError::ImageOpenFailure { offset: u32::MAX })
    );
    assert_eq!(
        rebuild_fst(&image[..FST_OFFSET], &files, &replacements),
        Err(FstError::ImageOpenFailure { offset: A })
    );
    // the unknown target comes before the corrupt table
    assert_eq!(
        rebuild_fst(&image[..FST_OFFSET], &vec![], &replacements),
        Err(FstError::AmbiguousOrMissingTarget { target: "PlCaBu.dat".to_string(), found: 0 })
    );
}

#[test]
fn the_rewritten_table_lists_the_same_entries() {
    let image = disc();
    let replacements =
        vec![Replacement { target_file: CaptainFalcon::PlCaGr, replacement: vec![1; 1000] }];
    let updates = rebuild_fst(&image, &listing(), &replacements).unwrap();
    let before = read_table(table_region(&image)).unwrap();
    let after = read_table(&updates.new_fst).unwrap();
    assert_eq!(before.len(), after.len());
    for (b, a) in before.iter().zip(after.iter()) {
        assert_eq!(b.is_directory, a.is_directory);
        assert_eq!(b.name_offset, a.name_offset);
    }
    assert_eq!(after[3].length, 1000);
    assert_eq!(after[3].offset, C);
}

#[test]
fn a_short_image_gives_a_short_preamble() {
    let mut index_image = vec![5u8; 64];
    index_image[40] = 9;
    let rebuilt = melee_inject::replace::RebuiltFST {
        new_fst: vec![1, 2, 3],
        replacements: index_files(
            &index_image,
            &vec![FsNode::File { name: "f".to_string(), offset: 40, size: 2 }],
        )
        .unwrap(),
    };
    let iso = build_iso(&index_image[..10], &rebuilt).unwrap();
    let mut expected = vec![0u8; 96];
    expected[..10].copy_from_slice(&[5; 10]);
    expected[10..13].copy_from_slice(&[1, 2, 3]);
    expected[40] = 9;
    expected[41] = 5;
    assert_eq!(iso, expected);
}
