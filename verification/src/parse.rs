//! Decoding of file-system table entries.
//!
//! The table is a run of 12-byte entries followed by a string table. The
//! first entry is the root directory; its last four bytes hold the number of
//! entries, the root included.
//!
//! ```text
//! +--------+------+----------------------------------------------+
//! | offset | size | field                                        |
//! +--------+------+----------------------------------------------+
//! |  0x00  |  1   | flag: 0 for a file, nonzero for a directory  |
//! |  0x01  |  3   | offset of the name in the string table       |
//! |  0x04  |  4   | file offset, or parent offset (directory)    |
//! |  0x08  |  4   | file size, entry count (root), or next       |
//! |        |      | offset (directory)                           |
//! +--------+------+----------------------------------------------+
//! ```
//!
//! All multi-byte fields are big-endian.

use crate::error::FstError;
use vstd::prelude::*;

verus! {

/// Size in bytes of one table entry.
pub const ENTRY_SIZE: usize = 12;

/// The unsigned 32-bit number whose big-endian bytes are `b0 b1 b2 b3`.
pub open spec fn be_u32(b0: u8, b1: u8, b2: u8, b3: u8) -> u32 {
    (b0 as int * 0x100_0000 + b1 as int * 0x1_0000 + b2 as int * 0x100 + b3 as int) as u32
}

/// The big-endian number held by the four bytes of `bytes` that start at `at`.
pub open spec fn be_u32_at(bytes: Seq<u8>, at: int) -> u32
    recommends
        0 <= at,
        at + 4 <= bytes.len(),
{
    be_u32(bytes[at], bytes[at + 1], bytes[at + 2], bytes[at + 3])
}

/// Byte `i` (0 is the most significant) of the big-endian form of `value`.
pub open spec fn be_byte(value: u32, i: int) -> u8
    recommends
        0 <= i < 4,
{
    if i == 0 {
        (value as int / 0x100_0000) as u8
    } else if i == 1 {
        (value as int / 0x1_0000 % 0x100) as u8
    } else if i == 2 {
        (value as int / 0x100 % 0x100) as u8
    } else {
        (value as int % 0x100) as u8
    }
}

/// The four big-endian bytes of `value`.
pub open spec fn be_bytes(value: u32) -> Seq<u8> {
    seq![be_byte(value, 0), be_byte(value, 1), be_byte(value, 2), be_byte(value, 3)]
}

/// Decoding the big-endian bytes of a number gives the number back.
pub proof fn lemma_be_round_trip(value: u32)
    ensures
        be_u32(be_byte(value, 0), be_byte(value, 1), be_byte(value, 2), be_byte(value, 3))
            == value,
        be_u32_at(be_bytes(value), 0) == value,
{
}

/// Encoding a decoded number gives the four bytes back.
pub proof fn lemma_be_bytes_of_decoded(b0: u8, b1: u8, b2: u8, b3: u8)
    ensures
        be_bytes(be_u32(b0, b1, b2, b3)) == seq![b0, b1, b2, b3],
{
    let v = be_u32(b0, b1, b2, b3);
    assert(v == b0 as int * 0x100_0000 + b1 as int * 0x1_0000 + b2 as int * 0x100 + b3 as int);
    assert(be_byte(v, 0) == b0);
    assert(be_byte(v, 1) == b1);
    assert(be_byte(v, 2) == b2);
    assert(be_byte(v, 3) == b3);
    assert(be_bytes(v) =~= seq![b0, b1, b2, b3]);
}

/// Decodes four big-endian bytes.
pub fn u32_from_be(b0: u8, b1: u8, b2: u8, b3: u8) -> (value: u32)
    ensures
        value == be_u32(b0, b1, b2, b3),
{
    (b0 as u32) * 0x100_0000 + (b1 as u32) * 0x1_0000 + (b2 as u32) * 0x100 + (b3 as u32)
}

/// Encodes a number as four big-endian bytes.
pub fn u32_to_be(value: u32) -> (bytes: [u8; 4])
    ensures
        bytes@ == be_bytes(value),
{
    let bytes = [
        (value / 0x100_0000) as u8,
        (value / 0x1_0000 % 0x100) as u8,
        (value / 0x100 % 0x100) as u8,
        (value % 0x100) as u8,
    ];
    assert(bytes@ =~= be_bytes(value));
    bytes
}

/// Bytes 4 to 8 of an entry: for a file, the offset of its payload in the
/// image.
pub fn node_file_offset(node: [u8; 12]) -> (offset: u32)
    ensures
        offset == be_u32_at(node@, 4),
{
    u32_from_be(node[4], node[5], node[6], node[7])
}

/// Bytes 8 to 12 of an entry: for the root, the number of entries in the
/// table.
pub fn root_node_num_entries(node: [u8; 12]) -> (num_entries: u32)
    ensures
        num_entries == be_u32_at(node@, 8),
{
    u32_from_be(node[8], node[9], node[10], node[11])
}

/// Whether the entry describes a directory: byte 0 is not zero.
pub fn node_is_directory(node: [u8; 12]) -> (is_directory: bool)
    ensures
        is_directory == (node@[0] != 0),
{
    node[0] != 0
}

/// One decoded entry of the table.
///
/// What the two 4-byte fields mean depends on the entry: for a file they are
/// the offset and the size of its payload, for the root the second one is the
/// number of entries, for another directory they refer to its parent and to
/// the entry behind its last child.
#[derive(Debug, Clone, Copy, PartialEq, Eq, Structural)]
pub struct TableEntry {
    /// Whether the entry describes a directory.
    pub is_directory: bool,
    /// Where the entry's name starts in the string table.
    pub name_offset: u32,
    /// Bytes 4 to 8: the file offset.
    pub offset: u32,
    /// Bytes 8 to 12: the file size.
    pub length: u32,
}

/// The entry that the 12 bytes of `fst` from `12 * i` on decode to.
pub open spec fn entry_spec(fst: Seq<u8>, i: int) -> TableEntry
    recommends
        0 <= i,
        12 * i + 12 <= fst.len(),
{
    TableEntry {
        is_directory: fst[12 * i] != 0,
        name_offset: be_u32(0, fst[12 * i + 1], fst[12 * i + 2], fst[12 * i + 3]),
        offset: be_u32_at(fst, 12 * i + 4),
        length: be_u32_at(fst, 12 * i + 8),
    }
}

/// The number of entries that the root entry of `fst` announces, the root
/// included.
pub open spec fn num_entries(fst: Seq<u8>) -> u32
    recommends
        fst.len() >= 12,
{
    be_u32_at(fst, 8)
}

/// Whether `fst` is long enough to hold a root entry and all the entries that
/// the root entry announces.
pub open spec fn table_ok(fst: Seq<u8>) -> bool {
    fst.len() >= 12 && num_entries(fst) * 12 <= fst.len()
}

/// The entries of `fst` behind the root, in table order.
pub open spec fn entries_spec(fst: Seq<u8>) -> Seq<TableEntry> {
    Seq::new(
        if num_entries(fst) >= 1 {
            (num_entries(fst) - 1) as nat
        } else {
            0
        },
        |j: int| entry_spec(fst, j + 1),
    )
}

/// Decodes one entry.
pub fn decode_entry(node: [u8; 12]) -> (entry: TableEntry)
    ensures
        entry == entry_spec(node@, 0),
{
    TableEntry {
        is_directory: node_is_directory(node),
        name_offset: u32_from_be(0, node[1], node[2], node[3]),
        offset: node_file_offset(node),
        length: root_node_num_entries(node),
    }
}

/// The 12 bytes of entry number `i` of `fst`, if `fst` holds all of them.
pub fn entry_at(fst: &[u8], i: usize) -> (node: Option<[u8; 12]>)
    ensures
        match node {
            Some(bytes) => 12 * i + 12 <= fst@.len() && bytes@ == fst@.subrange(
                12 * i,
                12 * i + 12,
            ),
            None => 12 * i + 12 > fst@.len(),
        },
{
    if fst.len() < ENTRY_SIZE || i > (fst.len() - ENTRY_SIZE) / ENTRY_SIZE {
        return None;
    }
    let at: usize = i * ENTRY_SIZE;
    let bytes: [u8; 12] = [
        fst[at],
        fst[at + 1],
        fst[at + 2],
        fst[at + 3],
        fst[at + 4],
        fst[at + 5],
        fst[at + 6],
        fst[at + 7],
        fst[at + 8],
        fst[at + 9],
        fst[at + 10],
        fst[at + 11],
    ];
    assert(bytes@ =~= fst@.subrange(12 * i, 12 * i + 12));
    Some(bytes)
}

/// The number of entries of a table, or `TableCorrupt` if the buffer cannot
/// hold that many.
pub fn entry_count(fst: &[u8]) -> (result: Result<u32, FstError>)
    ensures
        table_ok(fst@) ==> result == Ok::<u32, FstError>(num_entries(fst@)),
        !table_ok(fst@) ==> result == Err::<u32, FstError>(FstError::TableCorrupt),
{
    match entry_at(fst, 0) {
        None => Err(FstError::TableCorrupt),
        Some(root) => {
            let count = root_node_num_entries(root);
            if count as u64 * 12 > fst.len() as u64 {
                Err(FstError::TableCorrupt)
            } else {
                Ok(count)
            }
        },
    }
}

/// Decodes the table: every entry behind the root, in table order.
///
/// Fails with `TableCorrupt` exactly when the buffer is shorter than one
/// entry or than the number of entries that the root announces.
pub fn read_table(fst: &[u8]) -> (result: Result<Vec<TableEntry>, FstError>)
    ensures
        table_ok(fst@) ==> (result matches Ok(entries) && entries@ == entries_spec(fst@)),
        !table_ok(fst@) ==> result == Err::<Vec<TableEntry>, FstError>(FstError::TableCorrupt),
{
    let count = match entry_count(fst) {
        Ok(count) => count as usize,
        Err(error) => {
            return Err(error);
        },
    };
    let mut entries: Vec<TableEntry> = Vec::new();
    let mut i: usize = 1;
    while i < count
        invariant
            table_ok(fst@),
            count == num_entries(fst@),
            1 <= i,
            i <= count || i == 1,
            entries@.len() == i - 1,
            forall|j: int| 0 <= j < entries@.len() ==> entries@[j] == entry_spec(fst@, j + 1),
        decreases count - i,
    {
        match entry_at(fst, i) {
            Some(node) => {
                entries.push(decode_entry(node));
            },
            None => {
                assert(false);
            },
        }
        i = i + 1;
    }
    assert(entries@ =~= entries_spec(fst@));
    Ok(entries)
}

} // verus!
