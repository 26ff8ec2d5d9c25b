//! Replacing files of the image: the rebuild of the table and of the image.
//!
//! A rebuild reads every file of the listing into the index, applies the
//! queued replacements in the order in which they were queued, each to the
//! index as the one before has left it, and rewrites the table. The image is
//! then put together around the rewritten table.

use crate::error::{FstError, FstErrorView};
use crate::image::{assemble, fst_region, image_spec, preamble_of, FST_LENGTH, FST_OFFSET};
use crate::index::FstIndex;
use crate::parse::num_entries;
use crate::propagate::apply_spec;
pub use crate::record::{nodes_view, read_file, FsNode, UpdateFST};
use crate::record::{read_file_spec, FsNodeView, Record};
use crate::table::{write_table, write_table_spec};
use vstd::prelude::*;
use vstd::slice::{slice_subrange, slice_to_vec};

verus! {

/// A queued replacement, to be executed by a rebuild.
#[derive(Debug, Clone, PartialEq, Eq)]
pub struct Replacement {
    /// Which file to replace: its name in the image.
    pub target_file: &'static str,
    /// The replacement data.
    pub replacement: Vec<u8>,
}

/// The mathematical value of a [`Replacement`].
pub struct ReplacementView {
    pub target: Seq<char>,
    pub payload: Seq<u8>,
}

impl View for Replacement {
    type V = ReplacementView;

    open spec fn view(&self) -> ReplacementView {
        ReplacementView { target: self.target_file@, payload: self.replacement@ }
    }
}

/// A rebuilt table, with the index that it was written from.
///
/// Can be used to create a bootable image.
#[derive(Debug, PartialEq, Eq)]
pub struct RebuiltFST {
    /// The rewritten table.
    pub new_fst: Vec<u8>,
    /// The update records, keyed by original offset.
    pub replacements: FstIndex,
}

/// The values of a queue of replacements.
pub open spec fn queue_view(replacements: Seq<Replacement>) -> Seq<ReplacementView> {
    replacements.map_values(|replacement: Replacement| replacement@)
}

/// The index of the files of a listing: each file read from the image and
/// stored under its offset, a later file taking the place of an earlier one
/// at the same offset. Directories have no record. The first file that the
/// image cannot supply fails the whole index.
pub open spec fn index_spec(image: Seq<u8>, files: Seq<FsNodeView>) -> Result<
    Map<u32, Record>,
    FstErrorView,
>
    decreases files.len(),
{
    if files.len() == 0 {
        Ok(Map::empty())
    } else {
        match index_spec(image, files.drop_last()) {
            Err(error) => Err(error),
            Ok(m) => match files.last() {
                FsNodeView::Directory { .. } => Ok(m),
                FsNodeView::File { name, offset, size } => match read_file_spec(
                    image,
                    name,
                    offset,
                    size,
                ) {
                    Err(error) => Err(error),
                    Ok(record) => Ok(m.insert(offset, record)),
                },
            },
        }
    }
}

/// The index after the replacements of the queue have been applied to `m` in
/// order, each to what the one before has left. The first replacement that
/// fails fails the queue.
pub open spec fn apply_all_spec(m: Map<u32, Record>, queue: Seq<ReplacementView>) -> Result<
    Map<u32, Record>,
    FstErrorView,
>
    decreases queue.len(),
{
    if queue.len() == 0 {
        Ok(m)
    } else {
        match apply_all_spec(m, queue.drop_last()) {
            Err(error) => Err(error),
            Ok(before) => apply_spec(before, queue.last().target, queue.last().payload),
        }
    }
}

/// What a rebuild gives: the rewritten table and the index it was written
/// from, or the first failure on the way. The files are indexed first, then
/// the replacements are applied, then the table is written.
pub open spec fn rebuild_spec(
    image: Seq<u8>,
    files: Seq<FsNodeView>,
    queue: Seq<ReplacementView>,
) -> Result<(Seq<u8>, Map<u32, Record>), FstErrorView> {
    match index_spec(image, files) {
        Err(error) => Err(error),
        Ok(unchanged) => match apply_all_spec(unchanged, queue) {
            Err(error) => Err(error),
            Ok(m) => match write_table_spec(fst_region(image), m) {
                Err(error) => Err(error),
                Ok(table) => Ok((table, m)),
            },
        },
    }
}

/// Reads every file of the listing from the image into an index.
///
/// Fails with `ImageOpenFailure` for the first file that the image is too
/// short to hold.
pub fn index_files(image: &[u8], files: &Vec<FsNode>) -> (result: Result<FstIndex, FstError>)
    ensures
        match index_spec(image@, nodes_view(files@)) {
            Ok(m) => result matches Ok(index) && index@ == m,
            Err(error) => result matches Err(e) && e@ == error,
        },
{
    let mut index = FstIndex::new();
    let ghost nodes = nodes_view(files@);
    let mut i: usize = 0;
    while i < files.len()
        invariant
            i <= files@.len(),
            nodes == nodes_view(files@),
            index_spec(image@, nodes.take(i as int)) == Ok::<Map<u32, Record>, FstErrorView>(
                index@,
            ),
        decreases files@.len() - i,
    {
        proof {
            assert(nodes.take(i + 1).drop_last() =~= nodes.take(i as int));
            assert(nodes.take(i + 1).last() == files@[i as int]@);
            lemma_index_prefix_fails(image@, nodes, i + 1);
        }
        match &files[i] {
            FsNode::Directory { .. } => {},
            file => {
                match read_file(image, file) {
                    Ok(record) => {
                        index.insert(record);
                    },
                    Err(error) => {
                        return Err(error);
                    },
                }
            },
        }
        i = i + 1;
    }
    assert(nodes.take(i as int) =~= nodes);
    Ok(index)
}

/// Once a part of the listing has failed to be indexed, the whole listing
/// fails in the same way.
pub proof fn lemma_index_prefix_fails(image: Seq<u8>, files: Seq<FsNodeView>, i: int)
    requires
        0 <= i <= files.len(),
    ensures
        index_spec(image, files.take(i)) is Err ==> index_spec(image, files) == index_spec(
            image,
            files.take(i),
        ),
    decreases files.len() - i,
{
    if i == files.len() {
        assert(files.take(i) =~= files);
    } else {
        assert(files.take(i + 1).drop_last() =~= files.take(i));
        lemma_index_prefix_fails(image, files, i + 1);
    }
}

/// Once a part of the queue has failed, the whole queue fails in the same
/// way.
pub proof fn lemma_queue_prefix_fails(m: Map<u32, Record>, queue: Seq<ReplacementView>, i: int)
    requires
        0 <= i <= queue.len(),
    ensures
        apply_all_spec(m, queue.take(i)) is Err ==> apply_all_spec(m, queue) == apply_all_spec(
            m,
            queue.take(i),
        ),
    decreases queue.len() - i,
{
    if i == queue.len() {
        assert(queue.take(i) =~= queue);
    } else {
        assert(queue.take(i + 1).drop_last() =~= queue.take(i));
        lemma_queue_prefix_fails(m, queue, i + 1);
    }
}

/// The part of the image that holds the table and its string table, as far
/// as the image reaches.
pub fn table_region(image: &[u8]) -> (region: &[u8])
    ensures
        region@ == fst_region(image@),
{
    let start: usize = if image.len() < FST_OFFSET {
        image.len()
    } else {
        FST_OFFSET
    };
    let end: usize = if image.len() < FST_OFFSET + FST_LENGTH {
        image.len()
    } else {
        FST_OFFSET + FST_LENGTH
    };
    slice_subrange(image, start, end)
}

/// Given the image, its listing and a queue of replacements, rebuilds the
/// table.
///
/// The files of the listing are read from the image, the replacements are
/// applied in order, and the table of the image is rewritten from the result.
/// The first failure ends the rebuild: see [`index_files`],
/// [`FstIndex::apply`] and [`write_table`] for the failures of each stage.
/// The rewritten table is as long as the table of the image and announces as
/// many entries.
pub fn rebuild_fst(image: &[u8], files: &Vec<FsNode>, replacements: &Vec<Replacement>) -> (result:
    Result<RebuiltFST, FstError>)
    ensures
        match rebuild_spec(image@, nodes_view(files@), queue_view(replacements@)) {
            Ok((table, m)) => result matches Ok(rebuilt) && rebuilt.new_fst@ == table
                && rebuilt.replacements@ == m,
            Err(error) => result matches Err(e) && e@ == error,
        },
        result matches Ok(rebuilt) ==> rebuilt.new_fst@.len() == fst_region(image@).len()
            && num_entries(rebuilt.new_fst@) == num_entries(fst_region(image@)),
{
    let mut index = match index_files(image, files) {
        Ok(index) => index,
        Err(error) => {
            return Err(error);
        },
    };
    let ghost unchanged = index@;
    let ghost queue = queue_view(replacements@);
    let mut i: usize = 0;
    while i < replacements.len()
        invariant
            i <= replacements@.len(),
            queue == queue_view(replacements@),
            index_spec(image@, nodes_view(files@)) == Ok::<Map<u32, Record>, FstErrorView>(
                unchanged,
            ),
            apply_all_spec(unchanged, queue.take(i as int)) == Ok::<
                Map<u32, Record>,
                FstErrorView,
            >(index@),
        decreases replacements@.len() - i,
    {
        proof {
            assert(queue.take(i + 1).drop_last() =~= queue.take(i as int));
            assert(queue.take(i + 1).last() == replacements@[i as int]@);
            lemma_queue_prefix_fails(unchanged, queue, i + 1);
        }
        let replacement = &replacements[i];
        let payload = slice_to_vec(replacement.replacement.as_slice());
        match index.apply(replacement.target_file, payload) {
            Ok(()) => {},
            Err(error) => {
                return Err(error);
            },
        }
        i = i + 1;
    }
    assert(queue.take(i as int) =~= queue);
    let region = table_region(image);
    match write_table(region, &index) {
        Ok(new_fst) => {
            proof {
                crate::table::lemma_rewritten_keeps_root(region@, index@);
            }
            Ok(RebuiltFST { new_fst, replacements: index })
        },
        Err(error) => Err(error),
    }
}

/// Rebuilds the image, given the table that a rebuild has written.
///
/// The bytes of the source image in front of the table are taken over, the
/// rewritten table follows, every payload of the index is written at its
/// updated offset, and the image is padded. Returns `None` exactly when the
/// image would be longer than this machine can address.
pub fn build_iso(image: &[u8], fst: &RebuiltFST) -> (result: Option<Vec<u8>>)
    ensures
        match result {
            Some(rebuilt) => rebuilt@ == image_spec(
                preamble_of(image@),
                fst.new_fst@,
                fst.replacements@,
            ),
            None => crate::image::padded_len(
                crate::image::content_spec(preamble_of(image@), fst.new_fst@, fst.replacements@).len(),
            ) > usize::MAX,
        },
{
    let end: usize = if image.len() < FST_OFFSET {
        image.len()
    } else {
        FST_OFFSET
    };
    let preamble = slice_subrange(image, 0, end);
    assemble(preamble, fst.new_fst.as_slice(), &fst.replacements)
}

} // verus!
