//! Looking up DAT files in the listing of an image.

use crate::error::{FstError, FstErrorView};
use crate::record::{nodes_view, read_file, read_node_spec, FsNode, FsNodeView};
use vstd::prelude::*;

verus! {

/// Whether `name` ends in `.dat`.
pub open spec fn is_dat_name(name: Seq<char>) -> bool {
    name.len() >= 4 && name.subrange(name.len() - 4, name.len() as int) == seq!['.', 'd', 'a', 't']
}

/// Whether the node is a file whose name ends in `.dat`.
pub open spec fn is_dat_file(node: FsNodeView) -> bool {
    node is File && is_dat_name(node->File_name)
}

/// The positions of the listing that hold a DAT file named `query`.
pub open spec fn dat_matches(files: Seq<FsNodeView>, query: Seq<char>) -> Set<int> {
    Set::new(
        |j: int| 0 <= j < files.len() && is_dat_file(files[j]) && files[j]->File_name == query,
    )
}

/// What a search for the DAT file named `query` gives: the bytes of the one
/// file of that name, or the error that tells how many files there were
/// where one was required, or that the image does not hold the file.
pub open spec fn search_spec(image: Seq<u8>, files: Seq<FsNodeView>, query: Seq<char>) -> Result<
    Seq<u8>,
    FstErrorView,
> {
    let found = dat_matches(files, query);
    if found.len() == 1 {
        match read_node_spec(image, files[found.choose()]) {
            Ok(record) => Ok(record.data),
            Err(error) => Err(error),
        }
    } else {
        Err(FstErrorView::AmbiguousOrMissingTarget { target: query, found: found.len() })
    }
}

/// Tells whether `name` ends in `.dat`.
pub fn has_dat_suffix(name: &str) -> (dat: bool)
    ensures
        dat == is_dat_name(name@),
{
    let length = name.unicode_len();
    if length < 4 {
        return false;
    }
    let dat = name.get_char(length - 4) == '.' && name.get_char(length - 3) == 'd' && name.get_char(
        length - 2,
    ) == 'a' && name.get_char(length - 1) == 't';
    proof {
        let tail = name@.subrange(name@.len() - 4, name@.len() as int);
        assert(tail[0] == name@[length - 4]);
        assert(tail[1] == name@[length - 3]);
        assert(tail[2] == name@[length - 2]);
        assert(tail[3] == name@[length - 1]);
        if dat {
            assert(tail =~= seq!['.', 'd', 'a', 't']);
        }
    }
    dat
}

/// Tells whether the node is a file whose name ends in `.dat`.
pub fn node_is_dat_file(node: &FsNode) -> (dat: bool)
    ensures
        dat == is_dat_file(node@),
{
    match node {
        FsNode::File { name, .. } => has_dat_suffix(name.as_str()),
        FsNode::Directory { .. } => false,
    }
}

/// The positions of the DAT files in the listing, in ascending order.
pub fn dat_files(files: &Vec<FsNode>) -> (positions: Vec<usize>)
    ensures
        forall|a: int, b: int|
            0 <= a < b < positions@.len() ==> (#[trigger] positions@[a]) < (
            #[trigger] positions@[b]),
        forall|a: int|
            0 <= a < positions@.len() ==> (#[trigger] positions@[a]) < files@.len() && is_dat_file(
                files@[positions@[a] as int]@,
            ),
        forall|j: int|
            0 <= j < files@.len() && is_dat_file((#[trigger] files@[j])@) ==> positions@.contains(
                j as usize,
            ),
{
    let mut positions: Vec<usize> = Vec::new();
    let mut i: usize = 0;
    while i < files.len()
        invariant
            i <= files@.len(),
            forall|a: int|
                0 <= a < positions@.len() ==> (#[trigger] positions@[a]) < i && is_dat_file(
                    files@[positions@[a] as int]@,
                ),
            forall|a: int, b: int|
                0 <= a < b < positions@.len() ==> (#[trigger] positions@[a]) < (
                #[trigger] positions@[b]),
            forall|j: int|
                0 <= j < i && is_dat_file((#[trigger] files@[j])@) ==> positions@.contains(
                    j as usize,
                ),
        decreases files@.len() - i,
    {
        if node_is_dat_file(&files[i]) {
            let ghost before = positions@;
            positions.push(i);
            proof {
                assert(positions@[before.len() as int] == i);
                assert forall|j: int|
                    0 <= j < i + 1 && is_dat_file((#[trigger] files@[j])@) implies positions@.contains(
                    j as usize,
                ) by {
                    if j < i {
                        assert(before.contains(j as usize));
                        let a = choose|a: int| 0 <= a < before.len() && before[a] == j as usize;
                        assert(positions@[a] == j as usize);
                    }
                }
            }
        }
        i = i + 1;
    }
    positions
}

/// Searches the listing for the DAT file named `query` and returns its bytes.
///
/// Fails with `AmbiguousOrMissingTarget` exactly when the number of DAT
/// files of that name is not one, and otherwise with `ImageOpenFailure` when
/// the image is too short to hold the file.
pub fn search_dat(image: &[u8], files: &Vec<FsNode>, query: &str) -> (result: Result<
    Vec<u8>,
    FstError,
>)
    ensures
        match search_spec(image@, nodes_view(files@), query@) {
            Ok(bytes) => result matches Ok(data) && data@ == bytes,
            Err(error) => result matches Err(e) && e@ == error,
        },
{
    let wanted: String = query.to_owned();
    let ghost nodes = nodes_view(files@);
    let ghost mut seen: Set<int> = Set::empty();
    let mut found: usize = 0;
    let mut at: usize = 0;
    let mut i: usize = 0;
    while i < files.len()
        invariant
            i <= files@.len(),
            wanted@ == query@,
            nodes == nodes_view(files@),
            seen.finite(),
            found == seen.len(),
            found <= i,
            found > 0 ==> seen.contains(at as int),
            forall|j: int| seen.contains(j) <==> dat_matches(nodes, query@).contains(j) && j < i,
        decreases files@.len() - i,
    {
        let ghost before = seen;
        let is_match = match &files[i] {
            FsNode::File { name, .. } => has_dat_suffix(name.as_str()) && *name == wanted,
            FsNode::Directory { .. } => false,
        };
        assert(nodes[i as int] == files@[i as int]@);
        assert(is_match == dat_matches(nodes, query@).contains(i as int));
        if is_match {
            proof {
                seen = seen.insert(i as int);
            }
            found = found + 1;
            at = i;
        }
        i = i + 1;
    }
    proof {
        assert(seen =~= dat_matches(nodes, query@));
        if found == 1 {
            Set::lemma_is_singleton(seen);
            assert(seen.contains(seen.choose()));
        }
    }
    if found != 1 {
        return Err(FstError::AmbiguousOrMissingTarget { target: wanted, found });
    }
    assert(nodes[at as int] == files@[at as int]@);
    match read_file(image, &files[at]) {
        Ok(record) => Ok(record.data),
        Err(error) => Err(error),
    }
}

} // verus!
