//! The failures that inspecting or patching an image can end in.

use vstd::prelude::*;

verus! {

/// Which of the two import directories an entry belongs to.
#[derive(Debug, Clone, Copy, PartialEq, Eq, Structural)]
pub enum ImportTable {
    /// The ordinary import directory, resolved at load time.
    Normal,
    /// The delay-load import directory, resolved at first use.
    Delayed,
}

/// Every way in which a run can fail. No failure is recovered from.
#[derive(Debug, Clone, PartialEq, Eq)]
pub enum FixPathError {
    /// The leading bytes match no known object file format.
    UnknownFileKind,
    /// The file is a recognised object file, but neither PE32 nor PE32+.
    NotPeFile,
    /// The PE headers or the section table cannot be read.
    MalformedImage,
    /// The image has no `.fixPath` section.
    MetadataSectionMissing,
    /// The header or a name table of the `.fixPath` section is inconsistent.
    MalformedMetadataSection,
    /// An import directory is missing where one is needed, or cannot be parsed.
    MalformedImportTable,
    /// A descriptor's name cannot be located, is not terminated, or is not text.
    MalformedImportName,
    /// The metadata records `expected` names for `table`, which has `actual` descriptors.
    ImportCountMismatch { table: ImportTable, expected: usize, actual: usize },
    /// The new name is `requested` bytes long, which with its terminator exceeds `capacity`.
    NameTooLong { requested: usize, capacity: u32 },
    /// No recorded name of either table equals `from`.
    DllNotFound { from: String },
    /// A write of `length` bytes at `abs_address` would leave the image.
    WriteOutsideImage { abs_address: u32, length: usize },
}

/// The mathematical content of a [`FixPathError`].
pub ghost enum ErrorView {
    UnknownFileKind,
    NotPeFile,
    MalformedImage,
    MetadataSectionMissing,
    MalformedMetadataSection,
    MalformedImportTable,
    MalformedImportName,
    ImportCountMismatch { table: ImportTable, expected: int, actual: int },
    NameTooLong { requested: int, capacity: int },
    DllNotFound { from: Seq<char> },
    WriteOutsideImage { abs_address: int, length: int },
}

impl View for FixPathError {
    type V = ErrorView;

    open spec fn view(&self) -> ErrorView {
        match *self {
            FixPathError::UnknownFileKind => ErrorView::UnknownFileKind,
            FixPathError::NotPeFile => ErrorView::NotPeFile,
            FixPathError::MalformedImage => ErrorView::MalformedImage,
            FixPathError::MetadataSectionMissing => ErrorView::MetadataSectionMissing,
            FixPathError::MalformedMetadataSection => ErrorView::MalformedMetadataSection,
            FixPathError::MalformedImportTable => ErrorView::MalformedImportTable,
            FixPathError::MalformedImportName => ErrorView::MalformedImportName,
            FixPathError::ImportCountMismatch { table, expected, actual } => {
                ErrorView::ImportCountMismatch { table, expected: expected as int, actual: actual as int }
            },
            FixPathError::NameTooLong { requested, capacity } => {
                ErrorView::NameTooLong { requested: requested as int, capacity: capacity as int }
            },
            FixPathError::DllNotFound { from } => ErrorView::DllNotFound { from: from@ },
            FixPathError::WriteOutsideImage { abs_address, length } => {
                ErrorView::WriteOutsideImage { abs_address: abs_address as int, length: length as int }
            },
        }
    }
}

} // verus!
