use melee_inject::image::{assemble, write_payload, FST_LENGTH, FST_OFFSET, IMAGE_ALIGNMENT};
use melee_inject::index::FstIndex;
use melee_inject::record::UpdateFST;

fn record(offset: u32, updated_offset: u32, data: &[u8]) -> UpdateFST {
    let mut r = UpdateFST::new("f".to_string(), offset, data.len() as u32, data.to_vec());
    r.updated_offset = updated_offset;
    r
}

fn padded(content: &[u8], length: usize) -> Vec<u8> {
    let mut image = content.to_vec();
    assert!(length >= image.len());
    image.resize(length, 0);
    image
}

#[test]
fn the_table_sits_where_the_disc_has_it() {
    assert_eq!(FST_OFFSET, 0x456e00);
    assert_eq!(FST_LENGTH, 0x7529);
    assert_eq!(IMAGE_ALIGNMENT, 32);
}

#[test]
fn write_payload_overwrites_in_place() {
    let mut buf = vec![1, 2, 3, 4, 5];
    write_payload(&mut buf, 1, &[9, 8]);
    assert_eq!(buf, vec![1, 9, 8, 4, 5]);
    write_payload(&mut buf, 0, &[]);
    assert_eq!(buf, vec![1, 9, 8, 4, 5]);
    write_payload(&mut buf, 5, &[]);
    assert_eq!(buf, vec![1, 9, 8, 4, 5]);
}

#[test]
fn write_payload_grows_the_buffer() {
    let mut buf = vec![1, 2, 3];
    write_payload(&mut buf, 2, &[7, 7, 7]);
    assert_eq!(buf, vec![1, 2, 7, 7, 7]);
    write_payload(&mut buf, 5, &[6]);
    assert_eq!(buf, vec![1, 2, 7, 7, 7, 6]);
}

#[test]
fn write_payload_fills_the_gap_with_zeros() {
    let mut buf = vec![1, 2, 3];
    write_payload(&mut buf, 6, &[7, 7]);
    assert_eq!(buf, vec![1, 2, 3, 0, 0, 0, 7, 7]);
    // an empty payload behind the end still grows the buffer up to its place
    write_payload(&mut buf, 10, &[]);
    assert_eq!(buf, vec![1, 2, 3, 0, 0, 0, 7, 7, 0, 0]);
}

#[test]
fn the_image_is_preamble_table_payloads_and_padding() {
    let mut index = FstIndex::new();
    index.insert(record(8, 8, &[9, 9]));
    let image = assemble(&[1, 2, 3], &[4, 5], &index).unwrap();
    assert_eq!(image, padded(&[1, 2, 3, 4, 5, 0, 0, 0, 9, 9], 64));
}

#[test]
fn the_padding_reaches_a_boundary_and_adds_a_block() {
    let index = FstIndex::new();
    for (content, total) in [(0usize, 32usize), (1, 64), (31, 64), (32, 64), (33, 96), (64, 96), (65, 128)] {
        let preamble = vec![0xffu8; content];
        let image = assemble(&preamble, &[], &index).unwrap();
        assert_eq!(image.len(), total, "content of {content} bytes");
        assert_eq!(image.len() % 32, 0);
        assert!(image.len() > content);
        assert_eq!(&image[..content], &preamble[..]);
        assert!(image[content..].iter().all(|b| *b == 0));
    }
}

#[test]
fn payloads_are_written_at_their_updated_offsets() {
    let mut index = FstIndex::new();
    index.insert(record(100, 6, &[1, 1]));
    index.insert(record(50, 12, &[2, 2, 2]));
    index.insert(record(10, 9, &[3]));
    let image = assemble(&[7, 7], &[8, 8], &index).unwrap();
    assert_eq!(image, padded(&[7, 7, 8, 8, 0, 0, 1, 1, 0, 3, 0, 0, 2, 2, 2], 64));
}

#[test]
fn a_later_payload_overwrites_an_earlier_one() {
    let mut index = FstIndex::new();
    index.insert(record(1, 4, &[1, 1, 1, 1]));
    index.insert(record(2, 6, &[2, 2, 2, 2]));
    let image = assemble(&[], &[], &index).unwrap();
    assert_eq!(image, padded(&[0, 0, 0, 0, 1, 1, 2, 2, 2, 2], 64));
    // the order of insertion plays no part
    let mut index = FstIndex::new();
    index.insert(record(2, 6, &[2, 2, 2, 2]));
    index.insert(record(1, 4, &[1, 1, 1, 1]));
    assert_eq!(assemble(&[], &[], &index).unwrap(), image);
}

#[test]
fn at_the_same_offset_the_greater_original_offset_is_written_last() {
    let mut index = FstIndex::new();
    index.insert(record(30, 4, &[3, 3]));
    index.insert(record(10, 4, &[1, 1, 1]));
    index.insert(record(20, 4, &[2]));
    let image = assemble(&[], &[], &index).unwrap();
    assert_eq!(image, padded(&[0, 0, 0, 0, 3, 3, 1], 64));
}

#[test]
fn a_payload_may_overwrite_the_table() {
    let mut index = FstIndex::new();
    index.insert(record(1, 1, &[9, 9, 9]));
    let image = assemble(&[1, 2], &[3, 4, 5], &index).unwrap();
    assert_eq!(image, padded(&[1, 9, 9, 9, 5], 64));
}

#[test]
fn an_empty_payload_behind_the_end_extends_the_content() {
    let mut index = FstIndex::new();
    index.insert(record(40, 40, &[]));
    let image = assemble(&[1], &[], &index).unwrap();
    assert_eq!(image, padded(&[1], 96));
}
