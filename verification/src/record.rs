//! Update records: what the rebuild knows of one file of the image.

use crate::error::{FstError, FstErrorView};
use vstd::prelude::*;
use vstd::slice::{slice_subrange, slice_to_vec};

verus! {

/// An update to execute against one file entry of the table.
///
/// A record starts out describing the file as the image holds it: both
/// offsets and both sizes equal, and the payload the file's own bytes. A
/// replacement changes the updated size and the payload of its target and the
/// updated offset of the files behind it. The original offset and size never
/// change: the original offset is the key under which the record is found.
#[derive(Debug, Clone, PartialEq, Eq)]
pub struct UpdateFST {
    /// Name of the file in the string table.
    pub name: String,
    /// Offset of the payload in the source image.
    pub original_offset: u32,
    /// Offset of the payload in the rebuilt image.
    pub updated_offset: u32,
    /// Size of the payload in the source image.
    pub original_size: u32,
    /// Size of the payload in the rebuilt image.
    pub updated_size: u32,
    /// The payload to place in the rebuilt image.
    pub data: Vec<u8>,
}

/// The mathematical value of an [`UpdateFST`].
pub struct Record {
    pub name: Seq<char>,
    pub original_offset: u32,
    pub updated_offset: u32,
    pub original_size: u32,
    pub updated_size: u32,
    pub data: Seq<u8>,
}

impl View for UpdateFST {
    type V = Record;

    open spec fn view(&self) -> Record {
        Record {
            name: self.name@,
            original_offset: self.original_offset,
            updated_offset: self.updated_offset,
            original_size: self.original_size,
            updated_size: self.updated_size,
            data: self.data@,
        }
    }
}

impl Record {
    /// The record of a file that no replacement has touched.
    pub open spec fn unchanged(name: Seq<char>, offset: u32, size: u32, data: Seq<u8>) -> Record {
        Record {
            name,
            original_offset: offset,
            updated_offset: offset,
            original_size: size,
            updated_size: size,
            data,
        }
    }

    /// Whether the record still describes the file as the source image holds
    /// it, as far as offsets and sizes go.
    pub open spec fn is_unchanged(self) -> bool {
        &&& self.updated_offset == self.original_offset
        &&& self.updated_size == self.original_size
    }

    /// One past the last byte that the payload occupies in the rebuilt image.
    pub open spec fn end(self) -> int {
        self.updated_offset + self.data.len()
    }

    /// Whether the payload occupies position `p` of the rebuilt image.
    pub open spec fn covers(self, p: int) -> bool {
        self.updated_offset <= p < self.end()
    }
}

impl UpdateFST {
    /// The record of a file that no replacement has touched.
    pub fn new(name: String, offset: u32, size: u32, data: Vec<u8>) -> (record: UpdateFST)
        ensures
            record@ == Record::unchanged(name@, offset, size, data@),
    {
        UpdateFST {
            name,
            original_offset: offset,
            updated_offset: offset,
            original_size: size,
            updated_size: size,
            data,
        }
    }
}

/// One node of the image's file system, as the disc reader lists it.
#[derive(Debug, Clone, PartialEq, Eq)]
pub enum FsNode {
    /// A file: `size` bytes of the image starting at `offset`.
    File { name: String, offset: u32, size: u32 },
    /// A directory, which spans the entries up to `end_index`.
    Directory { name: String, parent_index: u32, end_index: u32 },
}

/// The mathematical value of an [`FsNode`].
pub enum FsNodeView {
    File { name: Seq<char>, offset: u32, size: u32 },
    Directory { name: Seq<char>, parent_index: u32, end_index: u32 },
}

impl View for FsNode {
    type V = FsNodeView;

    open spec fn view(&self) -> FsNodeView {
        match *self {
            FsNode::File { name, offset, size } => FsNodeView::File { name: name@, offset, size },
            FsNode::Directory { name, parent_index, end_index } => {
                FsNodeView::Directory { name: name@, parent_index, end_index }
            },
        }
    }
}

/// The values of the nodes of a listing.
pub open spec fn nodes_view(files: Seq<FsNode>) -> Seq<FsNodeView> {
    files.map_values(|node: FsNode| node@)
}

/// What reading the file `name` of `size` bytes at `offset` from `image`
/// gives: the unchanged record that holds exactly those bytes, or a failure
/// if the image ends before the file does.
pub open spec fn read_file_spec(image: Seq<u8>, name: Seq<char>, offset: u32, size: u32) -> Result<
    Record,
    FstErrorView,
> {
    if offset + size <= image.len() {
        Ok(Record::unchanged(name, offset, size, image.subrange(offset as int, offset + size)))
    } else {
        Err(FstErrorView::ImageOpenFailure { offset })
    }
}

/// What [`read_file`] gives for a node of the listing. Only a file can be
/// read.
pub open spec fn read_node_spec(image: Seq<u8>, node: FsNodeView) -> Result<Record, FstErrorView>
    recommends
        node is File,
{
    read_file_spec(image, node->File_name, node->File_offset, node->File_size)
}

/// Reads a file entry out of the image, returning the record that leaves the
/// file as it is.
///
/// Fails with `ImageOpenFailure` exactly when the image is too short to hold
/// all of the file.
pub fn read_file(image: &[u8], file: &FsNode) -> (result: Result<UpdateFST, FstError>)
    requires
        file@ is File,
    ensures
        match read_node_spec(image@, file@) {
            Ok(record) => result matches Ok(r) && r@ == record,
            Err(error) => result matches Err(e) && e@ == error,
        },
{
    match file {
        FsNode::File { name, offset, size } => {
            let start: usize = *offset as usize;
            let length: usize = *size as usize;
            if image.len() < start || image.len() - start < length {
                return Err(FstError::ImageOpenFailure { offset: *offset });
            }
            let data = slice_to_vec(slice_subrange(image, start, start + length));
            Ok(UpdateFST::new(name.clone(), *offset, *size, data))
        },
        FsNode::Directory { .. } => {
            assert(false);
            Err(FstError::TableCorrupt)
        },
    }
}

} // verus!
