//! The ways in which a rebuild can fail.
//!
//! No failure is recoverable within one rebuild: nothing is retried and no
//! partial result is produced. Each error names the replacement or the table
//! entry that caused it. The library works on bytes in memory: failures to
//! read the image or a payload from disk, or to write the result, are for its
//! caller to report.

use vstd::prelude::*;

verus! {

/// Why a rebuild was abandoned.
#[derive(Debug, Clone, PartialEq, Eq)]
pub enum FstError {
    /// The source image could not supply the bytes of the file stored at
    /// `offset`: it ends before the file does.
    ImageOpenFailure { offset: u32 },
    /// The entry count of the table or the length of its buffer does not fit
    /// the fixed 12-byte entry layout.
    TableCorrupt,
    /// The replacement target `target` names `found` entries of the index
    /// where exactly one is required.
    AmbiguousOrMissingTarget { target: String, found: usize },
    /// Entry number `entry` of the table is a file whose offset `offset` has
    /// no record in the index.
    IndexMismatch { entry: u32, offset: u32 },
    /// Replacing `target` would need a size or an offset that the 32-bit
    /// fields of the table cannot hold.
    OffsetOutOfRange { target: String },
}

/// The mathematical value of an [`FstError`].
pub enum FstErrorView {
    ImageOpenFailure { offset: u32 },
    TableCorrupt,
    AmbiguousOrMissingTarget { target: Seq<char>, found: nat },
    IndexMismatch { entry: u32, offset: u32 },
    OffsetOutOfRange { target: Seq<char> },
}

impl View for FstError {
    type V = FstErrorView;

    open spec fn view(&self) -> FstErrorView {
        match *self {
            FstError::ImageOpenFailure { offset } => FstErrorView::ImageOpenFailure { offset },
            FstError::TableCorrupt => FstErrorView::TableCorrupt,
            FstError::AmbiguousOrMissingTarget { target, found } => {
                FstErrorView::AmbiguousOrMissingTarget { target: target@, found: found as nat }
            },
            FstError::IndexMismatch { entry, offset } => {
                FstErrorView::IndexMismatch { entry, offset }
            },
            FstError::OffsetOutOfRange { target } => {
                FstErrorView::OffsetOutOfRange { target: target@ }
            },
        }
    }
}

} // verus!
