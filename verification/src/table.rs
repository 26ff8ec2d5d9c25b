//! The table writer: the table with every file entry brought up to date.
//!
//! The writer walks the entries behind the root. A directory is left as it
//! is. A file entry is looked up in the index by the offset that the table
//! holds for it, which is the file's original offset, and its offset and size
//! fields are overwritten with the updated offset and size of its record. The
//! root entry and the string table are never touched.

use crate::error::{FstError, FstErrorView};
use crate::index::FstIndex;
use crate::parse::{
    be_byte, entries_spec, entry_spec, num_entries, read_table, table_ok, u32_to_be, TableEntry,
};
use crate::record::Record;
use vstd::prelude::*;
use vstd::slice::slice_to_vec;

verus! {

/// Whether entry number `i` of `fst` is a file entry behind the root.
pub open spec fn is_file_entry(fst: Seq<u8>, i: int) -> bool {
    1 <= i < num_entries(fst) && !entry_spec(fst, i).is_directory
}

/// Whether entry number `i` of `fst` is a file entry for which `m` holds no
/// record.
pub open spec fn is_missing(fst: Seq<u8>, m: Map<u32, Record>, i: int) -> bool {
    is_file_entry(fst, i) && !m.contains_key(entry_spec(fst, i).offset)
}

/// The first entry from number `from` on for which `m` holds no record.
pub open spec fn first_missing(fst: Seq<u8>, m: Map<u32, Record>, from: int) -> Option<int>
    decreases num_entries(fst) - from,
{
    if from >= num_entries(fst) {
        None
    } else if is_missing(fst, m, from) {
        Some(from)
    } else {
        first_missing(fst, m, from + 1)
    }
}

/// The byte at position `p` of the rewritten table: a byte of the updated
/// offset or size where `p` lies in one of these fields of a file entry, and
/// the byte of `fst` everywhere else.
pub open spec fn rewritten_byte(fst: Seq<u8>, m: Map<u32, Record>, p: int) -> u8 {
    let i = p / 12;
    let field = p % 12;
    if is_file_entry(fst, i) && field >= 4 {
        let record = m[entry_spec(fst, i).offset];
        if field < 8 {
            be_byte(record.updated_offset, field - 4)
        } else {
            be_byte(record.updated_size, field - 8)
        }
    } else {
        fst[p]
    }
}

/// The table `fst` with every file entry brought up to date from `m`.
pub open spec fn rewritten(fst: Seq<u8>, m: Map<u32, Record>) -> Seq<u8> {
    Seq::new(fst.len(), |p: int| rewritten_byte(fst, m, p))
}

/// What writing the table gives: the rewritten table, or the reason why it
/// cannot be written.
pub open spec fn write_table_spec(fst: Seq<u8>, m: Map<u32, Record>) -> Result<
    Seq<u8>,
    FstErrorView,
> {
    if !table_ok(fst) {
        Err(FstErrorView::TableCorrupt)
    } else {
        match first_missing(fst, m, 1) {
            Some(i) => Err(
                FstErrorView::IndexMismatch { entry: i as u32, offset: entry_spec(fst, i).offset },
            ),
            None => Ok(rewritten(fst, m)),
        }
    }
}

/// `first_missing` finds an entry without a record, and none lies before it.
pub proof fn lemma_first_missing(fst: Seq<u8>, m: Map<u32, Record>, from: int)
    requires
        1 <= from,
    ensures
        match first_missing(fst, m, from) {
            Some(i) => from <= i < num_entries(fst) && is_missing(fst, m, i) && forall|j: int|
                from <= j < i ==> !is_missing(fst, m, j),
            None => forall|j: int| from <= j ==> !is_missing(fst, m, j),
        },
    decreases num_entries(fst) - from,
{
    if from < num_entries(fst) && !is_missing(fst, m, from) {
        lemma_first_missing(fst, m, from + 1);
    }
}

/// The rewritten table is as long as the table and has the same root entry,
/// so that it announces as many entries.
pub proof fn lemma_rewritten_keeps_root(fst: Seq<u8>, m: Map<u32, Record>)
    requires
        fst.len() >= 12,
    ensures
        rewritten(fst, m).len() == fst.len(),
        rewritten(fst, m).subrange(0, 12) == fst.subrange(0, 12),
        num_entries(rewritten(fst, m)) == num_entries(fst),
{
    assert forall|p: int| 0 <= p < 12 implies rewritten(fst, m)[p] == fst[p] by {
        assert(p / 12 == 0);
    }
    assert(rewritten(fst, m).subrange(0, 12) =~= fst.subrange(0, 12));
}

/// Rewrites the table from the index.
///
/// Fails with `TableCorrupt` when the buffer cannot hold the entries that
/// its root announces, and otherwise with `IndexMismatch` for the first file
/// entry whose offset has no record in the index.
pub fn write_table(fst: &[u8], index: &FstIndex) -> (result: Result<Vec<u8>, FstError>)
    ensures
        match write_table_spec(fst@, index@) {
            Ok(table) => result matches Ok(t) && t@ == table,
            Err(error) => result matches Err(e) && e@ == error,
        },
{
    let entries = match read_table(fst) {
        Ok(entries) => entries,
        Err(error) => {
            return Err(error);
        },
    };
    let mut table = slice_to_vec(fst);
    let length: usize = fst.len();
    let mut j: usize = 0;
    while j < entries.len()
        invariant
            table_ok(fst@),
            fst@.len() == length,
            entries@ == entries_spec(fst@),
            j <= entries@.len(),
            table@.len() == fst@.len(),
            first_missing(fst@, index@, 1) == first_missing(fst@, index@, j + 1),
            forall|p: int|
                0 <= p < table@.len() ==> table@[p] == if p < 12 * (j + 1) {
                    rewritten_byte(fst@, index@, p)
                } else {
                    fst@[p]
                },
        decreases entries.len() - j,
    {
        let entry: TableEntry = entries[j];
        let ghost i: int = j + 1;
        assert(entry == entry_spec(fst@, i));
        assert(1 <= i < num_entries(fst@));
        assert(12 * (j + 2) <= fst@.len());
        if !entry.is_directory {
            match index.get(entry.offset) {
                None => {
                    assert(is_missing(fst@, index@, i));
                    return Err(
                        FstError::IndexMismatch { entry: (j + 1) as u32, offset: entry.offset },
                    );
                },
                Some(record) => {
                    let at: usize = (j + 1) * 12;
                    let offset = u32_to_be(record.updated_offset);
                    let size = u32_to_be(record.updated_size);
                    table.set(at + 4, offset[0]);
                    table.set(at + 5, offset[1]);
                    table.set(at + 6, offset[2]);
                    table.set(at + 7, offset[3]);
                    table.set(at + 8, size[0]);
                    table.set(at + 9, size[1]);
                    table.set(at + 10, size[2]);
                    table.set(at + 11, size[3]);
                    proof {
                        assert(is_file_entry(fst@, i));
                        assert(record@ == index@[entry.offset]);
                        assert forall|p: int| 0 <= p < table@.len() implies table@[p] == if p < 12
                            * (j + 2) {
                            rewritten_byte(fst@, index@, p)
                        } else {
                            fst@[p]
                        } by {
                            if 12 * i <= p < 12 * i + 12 {
                                assert(p / 12 == i);
                                assert(p % 12 == p - 12 * i);
                            }
                        }
                    }
                },
            }
        } else {
            proof {
                assert(!is_file_entry(fst@, i));
                assert forall|p: int| 0 <= p < table@.len() implies table@[p] == if p < 12 * (j
                    + 2) {
                    rewritten_byte(fst@, index@, p)
                } else {
                    fst@[p]
                } by {
                    if 12 * i <= p < 12 * i + 12 {
                        assert(p / 12 == i);
                    }
                }
            }
        }
        j = j + 1;
    }
    proof {
        assert(first_missing(fst@, index@, j + 1) is None) by {
            if num_entries(fst@) >= 1 {
                assert(j + 1 == num_entries(fst@));
            }
        }
        assert forall|p: int| 0 <= p < table@.len() implies table@[p] == rewritten_byte(
            fst@,
            index@,
            p,
        ) by {
            if p >= 12 * (j + 1) {
                assert(p / 12 >= j + 1);
                assert(!is_file_entry(fst@, p / 12));
            }
        }
        assert(table@ =~= rewritten(fst@, index@));
    }
    Ok(table)
}

} // verus!
