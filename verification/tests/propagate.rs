use melee_inject::error::FstError;
use melee_inject::index::FstIndex;
use melee_inject::propagate::{padded_delta, PAYLOAD_ALIGNMENT};
use melee_inject::record::UpdateFST;

fn record(name: &str, offset: u32, size: u32) -> UpdateFST {
    UpdateFST::new(name.to_string(), offset, size, vec![0xaa; size as usize])
}

fn index_of(records: &[(&str, u32, u32)]) -> FstIndex {
    let mut index = FstIndex::new();
    for (name, offset, size) in records {
        index.insert(record(name, *offset, *size));
    }
    index
}

fn offsets(index: &FstIndex, keys: &[u32]) -> Vec<u32> {
    keys.iter().map(|k| index.get(*k).unwrap().updated_offset).collect()
}

#[test]
fn padded_delta_rounds_the_difference_up_to_four() {
    assert_eq!(PAYLOAD_ALIGNMENT, 4);
    assert_eq!(padded_delta(100, 100), 0);
    assert_eq!(padded_delta(100, 76), 24);
    assert_eq!(padded_delta(76, 100), 24);
    assert_eq!(padded_delta(100, 99), 4);
    assert_eq!(padded_delta(100, 98), 4);
    assert_eq!(padded_delta(100, 97), 4);
    assert_eq!(padded_delta(100, 96), 4);
    assert_eq!(padded_delta(100, 95), 8);
    assert_eq!(padded_delta(100, 101), 4);
    assert_eq!(padded_delta(100, 105), 8);
    assert_eq!(padded_delta(0, 0), 0);
    assert_eq!(padded_delta(0, 1), 4);
    assert_eq!(padded_delta(0, u32::MAX), 0x1_0000_0000);
    assert_eq!(padded_delta(u32::MAX, 0), 0x1_0000_0000);
    assert_eq!(padded_delta(u32::MAX, 3), 0xffff_fffc);
}

#[test]
fn a_smaller_payload_moves_later_files_backward() {
    let mut index = index_of(&[
        ("first", 0x0800, 16),
        ("pivot", 0x1000, 100),
        ("next", 0x1064, 32),
        ("last", 0x5000, 8),
    ]);
    assert_eq!(index.apply("pivot", vec![7; 76]), Ok(()));
    let pivot = index.get(0x1000).unwrap();
    assert_eq!(pivot.updated_size, 76);
    assert_eq!(pivot.original_size, 100);
    assert_eq!(pivot.updated_offset, 0x1000);
    assert_eq!(pivot.original_offset, 0x1000);
    assert_eq!(pivot.data, vec![7; 76]);
    assert_eq!(pivot.name, "pivot");
    assert_eq!(offsets(&index, &[0x0800, 0x1064, 0x5000]), vec![0x0800, 0x1064 - 24, 0x5000 - 24]);
    // everything but the updated offset of a moved record stays
    let mut expected = record("next", 0x1064, 32);
    expected.updated_offset = 0x1064 - 24;
    assert_eq!(index.get(0x1064), Some(&expected));
    assert_eq!(index.get(0x0800), Some(&record("first", 0x0800, 16)));
    assert_eq!(index.len(), 4);
}

#[test]
fn a_larger_payload_moves_later_files_forward() {
    let mut index = index_of(&[
        ("first", 0x0800, 16),
        ("pivot", 0x1000, 100),
        ("next", 0x1064, 32),
        ("last", 0x5000, 8),
    ]);
    assert_eq!(index.apply("pivot", vec![7; 130]), Ok(()));
    let pivot = index.get(0x1000).unwrap();
    assert_eq!(pivot.updated_size, 130);
    assert_eq!(pivot.updated_offset, 0x1000);
    assert_eq!(pivot.data, vec![7; 130]);
    // 30 bytes more, rounded up to 32
    assert_eq!(offsets(&index, &[0x0800, 0x1064, 0x5000]), vec![0x0800, 0x1064 + 32, 0x5000 + 32]);
}

#[test]
fn a_payload_of_the_same_size_moves_nothing() {
    let mut index = index_of(&[
        ("first", 0x0800, 16),
        ("pivot", 0x1000, 100),
        ("next", 0x1064, 32),
    ]);
    let before = index.clone();
    assert_eq!(index.apply("pivot", vec![7; 100]), Ok(()));
    assert_eq!(offsets(&index, &[0x0800, 0x1000, 0x1064]), vec![0x0800, 0x1000, 0x1064]);
    assert_eq!(index.get(0x0800), before.get(0x0800));
    assert_eq!(index.get(0x1064), before.get(0x1064));
    let pivot = index.get(0x1000).unwrap();
    assert_eq!(pivot.updated_size, 100);
    assert_eq!(pivot.data, vec![7; 100]);
}

#[test]
fn an_unaligned_difference_is_rounded_up() {
    let mut index = index_of(&[("pivot", 0x1000, 100), ("next", 0x2000, 32)]);
    assert_eq!(index.apply("pivot", vec![7; 99]), Ok(()));
    assert_eq!(offsets(&index, &[0x2000]), vec![0x2000 - 4]);
    let mut index = index_of(&[("pivot", 0x1000, 100), ("next", 0x2000, 32)]);
    assert_eq!(index.apply("pivot", vec![7; 101]), Ok(()));
    assert_eq!(offsets(&index, &[0x2000]), vec![0x2000 + 4]);
    let mut index = index_of(&[("pivot", 0x1000, 100), ("next", 0x2000, 32)]);
    assert_eq!(index.apply("pivot", vec![7; 95]), Ok(()));
    assert_eq!(offsets(&index, &[0x2000]), vec![0x2000 - 8]);
}

#[test]
fn replacements_compose_in_order() {
    let mut index = index_of(&[
        ("a", 0x1000, 100),
        ("b", 0x5000, 200),
        ("c", 0x9000, 8),
    ]);
    assert_eq!(index.apply("a", vec![1; 76]), Ok(()));
    assert_eq!(offsets(&index, &[0x1000, 0x5000, 0x9000]), vec![0x1000, 0x5000 - 24, 0x9000 - 24]);
    assert_eq!(index.apply("b", vec![2; 160]), Ok(()));
    // the second replacement starts from what the first has left
    assert_eq!(
        offsets(&index, &[0x1000, 0x5000, 0x9000]),
        vec![0x1000, 0x5000 - 24, 0x9000 - 24 - 40]
    );
    assert_eq!(index.get(0x5000).unwrap().updated_size, 160);
    assert_eq!(index.get(0x5000).unwrap().original_offset, 0x5000);
}

#[test]
fn the_difference_is_taken_from_the_original_size() {
    let mut index = index_of(&[("a", 0x1000, 100), ("b", 0x5000, 200)]);
    assert_eq!(index.apply("a", vec![1; 76]), Ok(()));
    assert_eq!(index.apply("a", vec![1; 60]), Ok(()));
    let a = index.get(0x1000).unwrap();
    assert_eq!(a.updated_size, 60);
    assert_eq!(a.original_size, 100);
    assert_eq!(offsets(&index, &[0x5000]), vec![0x5000 - 24 - 40]);
}

#[test]
fn a_missing_target_changes_nothing() {
    let mut index = index_of(&[("a", 0x1000, 100), ("b", 0x5000, 200)]);
    let before = index.clone();
    assert_eq!(
        index.apply("zzz", vec![1; 4]),
        Err(FstError::AmbiguousOrMissingTarget { target: "zzz".to_string(), found: 0 })
    );
    assert_eq!(index, before);
}

#[test]
fn an_ambiguous_target_changes_nothing() {
    let mut index = index_of(&[("a", 0x1000, 100), ("a", 0x3000, 100), ("b", 0x5000, 200)]);
    let before = index.clone();
    assert_eq!(
        index.apply("a", vec![1; 4]),
        Err(FstError::AmbiguousOrMissingTarget { target: "a".to_string(), found: 2 })
    );
    assert_eq!(index, before);
}

#[test]
fn an_offset_below_zero_is_rejected_and_changes_nothing() {
    let mut index = index_of(&[("a", 0, 100), ("b", 16, 4), ("c", 0x5000, 200)]);
    let before = index.clone();
    assert_eq!(
        index.apply("a", vec![1; 80]),
        Err(FstError::OffsetOutOfRange { target: "a".to_string() })
    );
    assert_eq!(index, before);
    // one byte less of a move and it fits
    assert_eq!(index.apply("a", vec![1; 84]), Ok(()));
    assert_eq!(offsets(&index, &[16, 0x5000]), vec![0, 0x5000 - 16]);
}

#[test]
fn an_offset_above_the_field_is_rejected_and_changes_nothing() {
    let mut index = index_of(&[("a", 0x1000, 0), ("b", 0xffff_fff0, 4)]);
    let before = index.clone();
    assert_eq!(
        index.apply("a", vec![1; 17]),
        Err(FstError::OffsetOutOfRange { target: "a".to_string() })
    );
    assert_eq!(index, before);
    assert_eq!(index.apply("a", vec![1; 12]), Ok(()));
    assert_eq!(offsets(&index, &[0xffff_fff0]), vec![0xffff_fffc]);
}

#[test]
fn the_last_file_can_shrink_and_grow_freely() {
    let mut index = index_of(&[("a", 0x1000, 100), ("b", 0xffff_fff0, 4)]);
    assert_eq!(index.apply("b", vec![1; 4000]), Ok(()));
    assert_eq!(offsets(&index, &[0x1000, 0xffff_fff0]), vec![0x1000, 0xffff_fff0]);
    assert_eq!(index.get(0xffff_fff0).unwrap().updated_size, 4000);
    assert_eq!(index.apply("b", vec![]), Ok(()));
    assert_eq!(index.get(0xffff_fff0).unwrap().updated_size, 0);
    assert_eq!(index.get(0xffff_fff0).unwrap().data, Vec::<u8>::new());
}
