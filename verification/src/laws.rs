//! What holds of every rebuild.
//!
//! The functions of this module are theorems about the definitions that the
//! contracts of the library are stated in. Each states a law in its contract,
//! and its body is the proof.

use crate::error::FstErrorView;
use crate::image::{
    image_spec, is_write_order, lemma_write_all_grows, lemma_write_order_is, padded_len,
    with_padding, write_all, write_at, write_order, writes_before,
};
use crate::index::{keyed, matching, resolve_spec};
use crate::parse::{
    be_byte, be_u32_at, entry_spec, lemma_be_bytes_of_decoded, num_entries, table_ok,
};
use crate::propagate::{
    apply_spec, fits, is_later, lemma_round_up, offset_shift, padded_delta_spec, replaced,
    size_delta,
};
use crate::image::{content_spec, fst_region, preamble_of};
use crate::record::{FsNodeView, Record};
use crate::replace::{apply_all_spec, index_spec, rebuild_spec, ReplacementView};
use crate::table::{
    first_missing, is_file_entry, is_missing, lemma_first_missing, rewritten, rewritten_byte,
    write_table_spec,
};
use vstd::prelude::*;

verus! {

/// A replacement changes what the records say, never which records there
/// are, and never the original offset, the original size or the name of a
/// record. Each record stays under its own original offset.
pub proof fn lemma_replacement_keeps_the_keys(m: Map<u32, Record>, pivot: u32, payload: Seq<u8>)
    requires
        m.contains_key(pivot),
    ensures
        replaced(m, pivot, payload).dom() == m.dom(),
        forall|k: u32| #[trigger]
            m.contains_key(k) ==> {
                &&& replaced(m, pivot, payload)[k].original_offset == m[k].original_offset
                &&& replaced(m, pivot, payload)[k].original_size == m[k].original_size
                &&& replaced(m, pivot, payload)[k].name == m[k].name
            },
        keyed(m) ==> keyed(replaced(m, pivot, payload)),
{
    assert(replaced(m, pivot, payload).dom() =~= m.dom());
}

/// A queue of replacements that succeeds leaves the index with the records
/// it had, each under its key and with its name, its original offset and its
/// original size.
pub proof fn lemma_queue_keeps_the_keys(
    m: Map<u32, Record>,
    queue: Seq<ReplacementView>,
    after: Map<u32, Record>,
)
    requires
        m.dom().finite(),
        apply_all_spec(m, queue) == Ok::<Map<u32, Record>, FstErrorView>(after),
    ensures
        after.dom() == m.dom(),
        forall|k: u32| #[trigger]
            m.contains_key(k) ==> {
                &&& after[k].original_offset == m[k].original_offset
                &&& after[k].original_size == m[k].original_size
                &&& after[k].name == m[k].name
            },
        keyed(m) ==> keyed(after),
    decreases queue.len(),
{
    if queue.len() > 0 {
        let before = apply_all_spec(m, queue.drop_last())->Ok_0;
        lemma_queue_keeps_the_keys(m, queue.drop_last(), before);
        let target = queue.last().target;
        let payload = queue.last().payload;
        let pivot = resolve_spec(before, target)->Ok_0;
        crate::index::lemma_resolved_is_unique(before, target, pivot);
        lemma_replacement_keeps_the_keys(before, pivot, payload);
        assert forall|k: u32| #[trigger] m.contains_key(k) implies {
            &&& after[k].original_offset == m[k].original_offset
            &&& after[k].original_size == m[k].original_size
            &&& after[k].name == m[k].name
        } by {
            assert(before.contains_key(k));
        }
    }
}

/// Size-preserving replacement: where the new payload is as long as the file
/// was in the source image, the replacement always succeeds, no offset
/// changes anywhere, and no record but the pivot's changes at all. The pivot
/// has the new payload and its original size.
pub proof fn lemma_same_size_moves_nothing(m: Map<u32, Record>, pivot: u32, payload: Seq<u8>)
    requires
        m.contains_key(pivot),
        payload.len() == m[pivot].original_size,
    ensures
        fits(m, pivot, payload),
        forall|k: u32| #[trigger]
            m.contains_key(k) ==> replaced(m, pivot, payload)[k].updated_offset
                == m[k].updated_offset,
        forall|k: u32| #[trigger]
            m.contains_key(k) && k != pivot ==> replaced(m, pivot, payload)[k] == m[k],
        replaced(m, pivot, payload)[pivot] == (Record {
            updated_size: m[pivot].original_size,
            data: payload,
            ..m[pivot]
        }),
{
    let size = m[pivot].original_size;
    assert(size_delta(size, size) == 0);
    assert(offset_shift(size, size) == 0);
    assert(payload.len() as u32 == size);
}

/// Size-changing replacement: where the new payload has another length than
/// the file had in the source image, every file whose original offset is
/// greater than the pivot's moves by the same distance, which is the
/// difference of the sizes rounded up to a multiple of 4: backward if the
/// pivot shrinks, forward if it grows. The files at or before the pivot keep
/// their offset, and the pivot's updated size is the length of the payload.
pub proof fn lemma_size_change_moves_later_files(m: Map<u32, Record>, pivot: u32, payload: Seq<u8>)
    requires
        m.contains_key(pivot),
        payload.len() != m[pivot].original_size,
        fits(m, pivot, payload),
    ensures
        ({
            let shift = offset_shift(m[pivot].original_size, payload.len() as u32);
            let distance = padded_delta_spec(m[pivot].original_size, payload.len() as u32);
            &&& distance > 0
            &&& distance % 4 == 0
            &&& size_delta(m[pivot].original_size, payload.len() as u32) <= distance < size_delta(
                m[pivot].original_size,
                payload.len() as u32,
            ) + 4
            &&& payload.len() < m[pivot].original_size ==> shift == -distance
            &&& payload.len() > m[pivot].original_size ==> shift == distance
            &&& forall|k: u32| #[trigger]
                m.contains_key(k) && m[k].original_offset > m[pivot].original_offset ==> replaced(
                    m,
                    pivot,
                    payload,
                )[k].updated_offset == m[k].updated_offset + shift
            &&& forall|k: u32| #[trigger]
                m.contains_key(k) && m[k].original_offset <= m[pivot].original_offset ==> replaced(
                    m,
                    pivot,
                    payload,
                )[k].updated_offset == m[k].updated_offset
        }),
        replaced(m, pivot, payload)[pivot].updated_size == payload.len(),
{
    let original = m[pivot].original_size;
    let new_len = payload.len() as u32;
    lemma_round_up(size_delta(original, new_len), 4);
    let shift = offset_shift(original, new_len);
    assert forall|k: u32| #[trigger]
        m.contains_key(k) && m[k].original_offset > m[pivot].original_offset implies replaced(
        m,
        pivot,
        payload,
    )[k].updated_offset == m[k].updated_offset + shift by {
        assert(k != pivot);
        assert(is_later(m, pivot, k));
    }
}

/// Uniqueness: a replacement whose target names no record, or more than one,
/// is rejected, whatever the payload, and the error tells how many records
/// there were. [`FstIndex::apply`](crate::index::FstIndex) leaves the index
/// as it was whenever it fails.
pub proof fn lemma_target_must_be_unique(m: Map<u32, Record>, target: Seq<char>, payload: Seq<u8>)
    requires
        matching(m, target).len() != 1,
    ensures
        apply_spec(m, target, payload) == Err::<Map<u32, Record>, FstErrorView>(
            FstErrorView::AmbiguousOrMissingTarget { target, found: matching(m, target).len() },
        ),
{
}

/// A replacement whose target names exactly one record succeeds if and only
/// if the new size and the moved offsets fit in 32 bits, and then the result
/// is the index with the payload of that record replaced.
pub proof fn lemma_unique_target_is_replaced(
    m: Map<u32, Record>,
    target: Seq<char>,
    payload: Seq<u8>,
    pivot: u32,
)
    requires
        m.dom().finite(),
        m.contains_key(pivot),
        m[pivot].name == target,
        forall|k: u32| m.contains_key(k) && m[k].name == target ==> k == pivot,
    ensures
        resolve_spec(m, target) == Ok::<u32, FstErrorView>(pivot),
        fits(m, pivot, payload) ==> apply_spec(m, target, payload) == Ok::<
            Map<u32, Record>,
            FstErrorView,
        >(replaced(m, pivot, payload)),
        !fits(m, pivot, payload) ==> apply_spec(m, target, payload) == Err::<
            Map<u32, Record>,
            FstErrorView,
        >(FstErrorView::OffsetOutOfRange { target }),
{
    let found = matching(m, target);
    assert(found =~= set![pivot]);
    assert(found.len() == 1);
    assert(found.contains(found.choose()));
}

/// Alignment: the image is longer than its content, its length is a positive
/// multiple of 32, the content stands at its start and everything behind the
/// content is zero. The padding is at least 32 and less than 64 bytes long.
pub proof fn lemma_padding(content: Seq<u8>)
    ensures
        with_padding(content).len() == padded_len(content.len()),
        padded_len(content.len()) % 32 == 0,
        padded_len(content.len()) > 0,
        content.len() + 32 <= padded_len(content.len()) < content.len() + 64,
        with_padding(content).subrange(0, content.len() as int) == content,
        forall|p: int|
            content.len() <= p < with_padding(content).len() ==> with_padding(content)[p] == 0,
{
    lemma_round_up(content.len(), 32);
    assert(with_padding(content).subrange(0, content.len() as int) =~= content);
}

/// Whether the two indexes hold records under the same keys, with the same
/// updated offsets and sizes.
pub open spec fn same_placement(m1: Map<u32, Record>, m2: Map<u32, Record>) -> bool {
    &&& forall|k: u32| m1.contains_key(k) <==> m2.contains_key(k)
    &&& forall|k: u32| #[trigger]
        m1.contains_key(k) ==> m1[k].updated_offset == m2[k].updated_offset && m1[k].updated_size
            == m2[k].updated_size
}

/// The first entry without a record depends only on which keys the index has.
proof fn lemma_first_missing_same_keys(
    fst: Seq<u8>,
    m1: Map<u32, Record>,
    m2: Map<u32, Record>,
    from: int,
)
    requires
        forall|k: u32| m1.contains_key(k) <==> m2.contains_key(k),
    ensures
        first_missing(fst, m1, from) == first_missing(fst, m2, from),
    decreases num_entries(fst) - from,
{
    if from < num_entries(fst) {
        assert(is_missing(fst, m1, from) == is_missing(fst, m2, from));
        if !is_missing(fst, m1, from) {
            lemma_first_missing_same_keys(fst, m1, m2, from + 1);
        }
    }
}

/// The table is written from the updated offsets and sizes of the records
/// alone: names and payloads play no part.
pub proof fn lemma_table_shows_placement_only(
    fst: Seq<u8>,
    m1: Map<u32, Record>,
    m2: Map<u32, Record>,
)
    requires
        same_placement(m1, m2),
    ensures
        write_table_spec(fst, m1) == write_table_spec(fst, m2),
{
    lemma_first_missing_same_keys(fst, m1, m2, 1);
    if table_ok(fst) && first_missing(fst, m1, 1) is None {
        lemma_first_missing(fst, m1, 1);
        assert forall|p: int| 0 <= p < fst.len() implies rewritten_byte(fst, m1, p)
            == rewritten_byte(fst, m2, p) by {
            let i = p / 12;
            if is_file_entry(fst, i) {
                assert(!is_missing(fst, m1, i));
                assert(m1.contains_key(entry_spec(fst, i).offset));
            }
        }
        assert(rewritten(fst, m1) =~= rewritten(fst, m2));
    }
}

/// Whether the index holds, for every file entry of the table, a record that
/// places the file where the table has it, with the size that the table has
/// for it.
pub open spec fn agrees_with_table(fst: Seq<u8>, m: Map<u32, Record>) -> bool {
    forall|i: int| #[trigger]
        is_file_entry(fst, i) ==> {
            &&& m.contains_key(entry_spec(fst, i).offset)
            &&& m[entry_spec(fst, i).offset].updated_offset == entry_spec(fst, i).offset
            &&& m[entry_spec(fst, i).offset].updated_size == entry_spec(fst, i).length
        }
}

/// Identity of the table: written from an index that places every file where
/// the table has it, the table comes out byte for byte as it went in.
pub proof fn lemma_untouched_table_is_kept(fst: Seq<u8>, m: Map<u32, Record>)
    requires
        table_ok(fst),
        agrees_with_table(fst, m),
    ensures
        write_table_spec(fst, m) == Ok::<Seq<u8>, FstErrorView>(fst),
{
    lemma_first_missing(fst, m, 1);
    if first_missing(fst, m, 1) is Some {
        let i = first_missing(fst, m, 1)->0;
        assert(is_file_entry(fst, i));
    }
    assert forall|p: int| 0 <= p < fst.len() implies rewritten_byte(fst, m, p) == fst[p] by {
        let i = p / 12;
        let field = p % 12;
        if is_file_entry(fst, i) && field >= 4 {
            let at = 12 * i;
            assert(12 * i + 12 <= fst.len());
            lemma_be_bytes_of_decoded(fst[at + 4], fst[at + 5], fst[at + 6], fst[at + 7]);
            lemma_be_bytes_of_decoded(fst[at + 8], fst[at + 9], fst[at + 10], fst[at + 11]);
            let offset = be_u32_at(fst, at + 4);
            let length = be_u32_at(fst, at + 8);
            if field < 8 {
                assert(crate::parse::be_bytes(offset)[field - 4] == be_byte(offset, field - 4));
            } else {
                assert(crate::parse::be_bytes(length)[field - 8] == be_byte(length, field - 8));
            }
        }
    }
    assert(rewritten(fst, m) =~= fst);
}

/// A replacement by a payload of the original size leaves the table as it
/// is, provided that the size of the pivot had not been changed before.
pub proof fn lemma_same_size_keeps_table(
    fst: Seq<u8>,
    m: Map<u32, Record>,
    pivot: u32,
    payload: Seq<u8>,
)
    requires
        m.contains_key(pivot),
        payload.len() == m[pivot].original_size,
        m[pivot].updated_size == m[pivot].original_size,
    ensures
        write_table_spec(fst, replaced(m, pivot, payload)) == write_table_spec(fst, m),
{
    lemma_same_size_moves_nothing(m, pivot, payload);
    lemma_replacement_keeps_the_keys(m, pivot, payload);
    let after = replaced(m, pivot, payload);
    assert(same_placement(after, m)) by {
        assert forall|k: u32| #[trigger] after.contains_key(k) implies after[k].updated_offset
            == m[k].updated_offset && after[k].updated_size == m[k].updated_size by {
            assert(m.contains_key(k));
        }
    }
    lemma_table_shows_placement_only(fst, after, m);
}

/// Entry count: the rewritten table is as long as the table, has the same
/// root entry and so announces as many entries, whatever the index holds.
pub proof fn lemma_entry_count_is_kept(fst: Seq<u8>, m: Map<u32, Record>, table: Seq<u8>)
    requires
        write_table_spec(fst, m) == Ok::<Seq<u8>, FstErrorView>(table),
    ensures
        table.len() == fst.len(),
        num_entries(table) == num_entries(fst),
        forall|i: int|
            0 <= i && 12 * i + 12 <= fst.len() ==> (#[trigger] entry_spec(table, i)).is_directory
                == entry_spec(fst, i).is_directory && entry_spec(table, i).name_offset
                == entry_spec(fst, i).name_offset,
{
    crate::table::lemma_rewritten_keeps_root(fst, m);
    assert forall|i: int| 0 <= i && 12 * i + 12 <= fst.len() implies (#[trigger] entry_spec(
        table,
        i,
    )).is_directory == entry_spec(fst, i).is_directory && entry_spec(table, i).name_offset
        == entry_spec(fst, i).name_offset by {
        assert((12 * i) / 12 == i && (12 * i) % 12 == 0);
        assert((12 * i + 1) / 12 == i && (12 * i + 1) % 12 == 1);
        assert((12 * i + 2) / 12 == i && (12 * i + 2) % 12 == 2);
        assert((12 * i + 3) / 12 == i && (12 * i + 3) % 12 == 3);
    }
}

/// Whether the listing names the files of the table: every file entry of the
/// table has a file of the listing at its offset, and every file of the
/// listing at that offset has the size that the table has for it.
pub open spec fn listing_matches_table(fst: Seq<u8>, files: Seq<FsNodeView>) -> bool {
    &&& forall|i: int| #[trigger]
        is_file_entry(fst, i) ==> exists|j: int|
            0 <= j < files.len() && (#[trigger] files[j]) is File && files[j]->offset
                == entry_spec(fst, i).offset
    &&& forall|i: int, j: int|
        is_file_entry(fst, i) && 0 <= j < files.len() && (#[trigger] files[j]) is File
            && files[j]->offset == (#[trigger] entry_spec(fst, i)).offset ==> files[j]->size
            == entry_spec(fst, i).length
}

/// What the index of a listing holds: under the offset of every file of the
/// listing, and under no other key, the unchanged record of a file of the
/// listing at that offset, with the bytes that the image has there.
pub proof fn lemma_indexed_records(image: Seq<u8>, files: Seq<FsNodeView>, m: Map<u32, Record>)
    requires
        index_spec(image, files) == Ok::<Map<u32, Record>, FstErrorView>(m),
    ensures
        m.dom().finite(),
        keyed(m),
        forall|j: int|
            0 <= j < files.len() && (#[trigger] files[j]) is File ==> m.contains_key(
                files[j]->offset,
            ),
        forall|k: u32| #[trigger]
            m.contains_key(k) ==> {
                &&& m[k].is_unchanged()
                &&& m[k].original_offset == k
                &&& k + m[k].original_size <= image.len()
                &&& m[k].data == image.subrange(k as int, k + m[k].original_size)
                &&& exists|j: int|
                    0 <= j < files.len() && (#[trigger] files[j]) is File && files[j]->offset == k
                        && files[j]->size == m[k].original_size && files[j]->File_name
                        == m[k].name
            },
    decreases files.len(),
{
    if files.len() > 0 {
        let front = files.drop_last();
        let m0 = index_spec(image, front)->Ok_0;
        lemma_indexed_records(image, front, m0);
        assert forall|j: int| 0 <= j < files.len() && (#[trigger] files[j]) is File implies m.contains_key(
            files[j]->offset,
        ) by {
            if j < front.len() {
                assert(front[j] == files[j]);
            }
        }
        assert forall|k: u32| #[trigger] m.contains_key(k) implies {
            &&& m[k].is_unchanged()
            &&& m[k].original_offset == k
            &&& k + m[k].original_size <= image.len()
            &&& m[k].data == image.subrange(k as int, k + m[k].original_size)
            &&& exists|j: int|
                0 <= j < files.len() && (#[trigger] files[j]) is File && files[j]->offset == k
                    && files[j]->size == m[k].original_size && files[j]->File_name == m[k].name
        } by {
            let last = files.last();
            if last is File && last->offset == k {
                let j = files.len() - 1;
                assert(files[j] is File && files[j]->offset == k);
            } else {
                assert(m0.contains_key(k));
                assert(m[k] == m0[k]);
                let j = choose|j: int|
                    0 <= j < front.len() && (#[trigger] front[j]) is File && front[j]->offset == k
                        && front[j]->size == m0[k].original_size && front[j]->File_name
                        == m0[k].name;
                assert(files[j] == front[j]);
            }
        }
    }
}

/// Identity of the table: a rebuild without replacements, on a listing that
/// names the files of the table, gives back the table of the image byte for
/// byte, with the index of the listing.
pub proof fn lemma_rebuild_without_replacements(
    image: Seq<u8>,
    files: Seq<FsNodeView>,
    m: Map<u32, Record>,
)
    requires
        table_ok(fst_region(image)),
        listing_matches_table(fst_region(image), files),
        index_spec(image, files) == Ok::<Map<u32, Record>, FstErrorView>(m),
    ensures
        rebuild_spec(image, files, Seq::<ReplacementView>::empty()) == Ok::<
            (Seq<u8>, Map<u32, Record>),
            FstErrorView,
        >((fst_region(image), m)),
{
    let fst = fst_region(image);
    lemma_indexed_records(image, files, m);
    assert(agrees_with_table(fst, m)) by {
        assert forall|i: int| #[trigger] is_file_entry(fst, i) implies {
            &&& m.contains_key(entry_spec(fst, i).offset)
            &&& m[entry_spec(fst, i).offset].updated_offset == entry_spec(fst, i).offset
            &&& m[entry_spec(fst, i).offset].updated_size == entry_spec(fst, i).length
        } by {
            let k = entry_spec(fst, i).offset;
            let j0 = choose|j: int|
                0 <= j < files.len() && (#[trigger] files[j]) is File && files[j]->offset == k;
            assert(m.contains_key(files[j0]->offset));
            let j = choose|j: int|
                0 <= j < files.len() && (#[trigger] files[j]) is File && files[j]->offset == k
                    && files[j]->size == m[k].original_size && files[j]->File_name == m[k].name;
            assert(files[j]->size == entry_spec(fst, i).length);
        }
    }
    lemma_untouched_table_is_kept(fst, m);
    assert(apply_all_spec(m, Seq::<ReplacementView>::empty()) == Ok::<
        Map<u32, Record>,
        FstErrorView,
    >(m));
}

/// Whether the two buffers are equally long and hold the same bytes
/// everywhere but from `low` up to `high`.
pub open spec fn same_outside(x: Seq<u8>, y: Seq<u8>, low: int, high: int) -> bool {
    &&& x.len() == y.len()
    &&& forall|p: int| 0 <= p < x.len() && !(low <= p < high) ==> x[p] == y[p]
}

/// Whether the second index is the first but for the payload of the record
/// under `pivot`, which is as long in both and stands at the same place.
pub open spec fn same_but_payload(m1: Map<u32, Record>, m2: Map<u32, Record>, pivot: u32) -> bool {
    &&& m1.contains_key(pivot)
    &&& forall|k: u32| m1.contains_key(k) <==> m2.contains_key(k)
    &&& forall|k: u32| #[trigger] m1.contains_key(k) && k != pivot ==> m1[k] == m2[k]
    &&& m1[pivot].updated_offset == m2[pivot].updated_offset
    &&& m1[pivot].data.len() == m2[pivot].data.len()
}

/// Writing the payloads of two indexes that differ in one payload only, into
/// the same buffer and in the same order, gives buffers that differ only
/// where that payload stands.
proof fn lemma_writes_differ_in_payload_only(
    buf: Seq<u8>,
    m1: Map<u32, Record>,
    m2: Map<u32, Record>,
    pivot: u32,
    order: Seq<u32>,
)
    requires
        same_but_payload(m1, m2, pivot),
        forall|i: int| 0 <= i < order.len() ==> m1.contains_key(#[trigger] order[i]),
    ensures
        same_outside(
            write_all(buf, m1, order),
            write_all(buf, m2, order),
            m1[pivot].updated_offset as int,
            m1[pivot].end(),
        ),
    decreases order.len(),
{
    if order.len() > 0 {
        let front = order.drop_last();
        assert forall|i: int| 0 <= i < front.len() implies m1.contains_key(
            #[trigger] front[i],
        ) by {
            assert(front[i] == order[i]);
        }
        lemma_writes_differ_in_payload_only(buf, m1, m2, pivot, front);
        let k = order.last();
        assert(m1.contains_key(order[order.len() - 1]));
    }
}

/// Size-preserving replacement, in the image: where the new payload is as
/// long as the file was in the source image, and as long as the payload that
/// it replaces, the image is as long as it would have been without the
/// replacement, and differs from it at most where the pivot's payload
/// stands.
pub proof fn lemma_same_size_changes_the_payload_only(
    preamble: Seq<u8>,
    table: Seq<u8>,
    m: Map<u32, Record>,
    pivot: u32,
    payload: Seq<u8>,
)
    requires
        m.dom().finite(),
        m.contains_key(pivot),
        payload.len() == m[pivot].original_size,
        payload.len() == m[pivot].data.len(),
    ensures
        same_outside(
            image_spec(preamble, table, replaced(m, pivot, payload)),
            image_spec(preamble, table, m),
            m[pivot].updated_offset as int,
            m[pivot].updated_offset + payload.len(),
        ),
{
    let after = replaced(m, pivot, payload);
    lemma_same_size_moves_nothing(m, pivot, payload);
    lemma_replacement_keeps_the_keys(m, pivot, payload);
    assert(same_but_payload(m, after, pivot)) by {
        assert forall|k: u32| m.contains_key(k) <==> after.contains_key(k) by {}
    }
    crate::image::lemma_write_order_exists(m);
    let order = write_order(m);
    assert(is_write_order(after, order)) by {
        assert forall|k: u32| order.contains(k) <==> after.contains_key(k) by {}
        assert forall|i: int, j: int| 0 <= i < j < order.len() implies writes_before(
            after,
            #[trigger] order[i],
            #[trigger] order[j],
        ) by {
            assert(order.contains(order[i]) && order.contains(order[j]));
            assert(m.contains_key(order[i]) && m.contains_key(order[j]));
            assert(writes_before(m, order[i], order[j]));
        }
    }
    lemma_write_order_is(after, order);
    assert forall|i: int| 0 <= i < order.len() implies m.contains_key(#[trigger] order[i]) by {
        assert(order.contains(order[i]));
    }
    lemma_writes_differ_in_payload_only(preamble + table, m, after, pivot, order);
}

/// Whether some payload of the index stands at position `p` of the image.
pub open spec fn covered(m: Map<u32, Record>, p: int) -> bool {
    exists|k: u32| m.contains_key(k) && (#[trigger] m[k]).covers(p)
}

/// Whether the payloads of the index are the bytes that `image` holds where
/// the index places them.
pub open spec fn holds_bytes_of(m: Map<u32, Record>, image: Seq<u8>) -> bool {
    forall|k: u32| #[trigger]
        m.contains_key(k) ==> m[k].end() <= image.len() && m[k].data == image.subrange(
            m[k].updated_offset as int,
            m[k].end(),
        )
}

/// Whether `image` holds zeros wherever a rebuild would fill a gap: behind
/// the first `start` bytes, in front of a payload, and where no payload
/// stands.
pub open spec fn zero_in_gaps(m: Map<u32, Record>, image: Seq<u8>, start: int) -> bool {
    forall|p: int, k: u32|
        start <= p < image.len() && m.contains_key(k) && p < (#[trigger] m[k]).updated_offset
            && !covered(m, p) ==> #[trigger] image[p] == 0
}

/// Writing back the bytes of an image in write order gives a prefix of the
/// image.
proof fn lemma_writes_rebuild_prefix(
    image: Seq<u8>,
    base: Seq<u8>,
    m: Map<u32, Record>,
    order: Seq<u32>,
    i: int,
)
    requires
        is_write_order(m, order),
        0 <= i <= order.len(),
        base.len() <= image.len(),
        base == image.subrange(0, base.len() as int),
        holds_bytes_of(m, image),
        zero_in_gaps(m, image, base.len() as int),
    ensures
        write_all(base, m, order.take(i)).len() <= image.len(),
        write_all(base, m, order.take(i)) == image.subrange(
            0,
            write_all(base, m, order.take(i)).len() as int,
        ),
    decreases i,
{
    if i == 0 {
        assert(order.take(0) =~= Seq::<u32>::empty());
    } else {
        lemma_writes_rebuild_prefix(image, base, m, order, i - 1);
        let front = order.take(i - 1);
        assert(order.take(i).drop_last() =~= front);
        assert(order.take(i).last() == order[i - 1]);
        let key = order[i - 1];
        assert(order.contains(key));
        assert(m.contains_key(key));
        let before = write_all(base, m, front);
        let after = write_all(base, m, order.take(i));
        let at = m[key].updated_offset as int;
        assert(after == write_at(before, at, m[key].data));
        lemma_write_all_grows(base, m, front, 0);
        assert(front.take(0) =~= Seq::<u32>::empty());
        assert forall|p: int| 0 <= p < after.len() implies after[p] == image[p] by {
            if at <= p < at + m[key].data.len() {
                assert(m[key].data[p - at] == image[p]);
            } else if p < before.len() {
                assert(before[p] == image.subrange(0, before.len() as int)[p]);
            } else {
                // a gap: nothing written so far reaches `p`, and nothing
                // written later starts before it
                assert(!covered(m, p)) by {
                    if covered(m, p) {
                        let k = choose|k: u32| m.contains_key(k) && (#[trigger] m[k]).covers(p);
                        assert(order.contains(k));
                        let j = choose|j: int| 0 <= j < order.len() && order[j] == k;
                        if j < i - 1 {
                            lemma_write_all_grows(base, m, front, j);
                            assert(front[j] == k);
                        } else if j > i - 1 {
                            assert(writes_before(m, order[i - 1], order[j]));
                        }
                    }
                }
                assert(image[p] == 0);
            }
        }
        assert(after =~= image.subrange(0, after.len() as int));
    }
}

/// Identity of the image: where the payloads of the index are the bytes that
/// the image holds at their places, and the image holds zeros in the gaps
/// that a rebuild fills, the rebuilt image is the image up to the end of its
/// last payload, followed by the padding.
pub proof fn lemma_untouched_image_is_kept(
    image: Seq<u8>,
    preamble: Seq<u8>,
    table: Seq<u8>,
    m: Map<u32, Record>,
)
    requires
        m.dom().finite(),
        preamble.len() + table.len() <= image.len(),
        preamble + table == image.subrange(0, (preamble + table).len() as int),
        holds_bytes_of(m, image),
        zero_in_gaps(m, image, (preamble + table).len() as int),
    ensures
        content_spec(preamble, table, m).len() <= image.len(),
        content_spec(preamble, table, m) == image.subrange(
            0,
            content_spec(preamble, table, m).len() as int,
        ),
        image_spec(preamble, table, m) == with_padding(
            image.subrange(0, content_spec(preamble, table, m).len() as int),
        ),
{
    crate::image::lemma_write_order_exists(m);
    let order = write_order(m);
    lemma_writes_rebuild_prefix(image, preamble + table, m, order, order.len() as int);
    assert(order.take(order.len() as int) =~= order);
}

/// Identity of the image: with the table as the image has it and the index
/// of a listing, the rebuilt image is the image up to the end of its last
/// file, followed by the padding, provided that the image holds zeros in the
/// gaps that a rebuild fills.
pub proof fn lemma_rebuild_without_replacements_keeps_image(
    image: Seq<u8>,
    files: Seq<FsNodeView>,
    m: Map<u32, Record>,
)
    requires
        index_spec(image, files) == Ok::<Map<u32, Record>, FstErrorView>(m),
        zero_in_gaps(m, image, (preamble_of(image) + fst_region(image)).len() as int),
    ensures
        content_spec(preamble_of(image), fst_region(image), m).len() <= image.len(),
        image_spec(preamble_of(image), fst_region(image), m) == with_padding(
            image.subrange(0, content_spec(preamble_of(image), fst_region(image), m).len() as int),
        ),
{
    lemma_indexed_records(image, files, m);
    let base = preamble_of(image) + fst_region(image);
    assert(base =~= image.subrange(0, base.len() as int));
    assert(holds_bytes_of(m, image)) by {
        assert forall|k: u32| #[trigger] m.contains_key(k) implies m[k].end() <= image.len()
            && m[k].data == image.subrange(m[k].updated_offset as int, m[k].end()) by {
            assert(m[k].data.len() == m[k].original_size);
        }
    }
    lemma_untouched_image_is_kept(image, preamble_of(image), fst_region(image), m);
}

} // verus!
