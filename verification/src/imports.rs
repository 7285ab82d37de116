//! Walker of the two import directories: for each descriptor, the DLL name
//! that the image presently holds and the file offset of that name's bytes.

use vstd::prelude::*;

use crate::address::{file_range_at, file_range_in, FileRange};
use crate::error::{ErrorView, FixPathError};
use crate::image::{ImportDirectory, ImportDirectoryView, SectionHeader};
use crate::text::{decode_text, leading_name, read_leading_name, text_of};

verus! {

/// One entry of an import directory.
#[derive(Debug, Clone, PartialEq, Eq)]
pub struct Import {
    /// The DLL name that the image holds for the entry.
    pub dll_name: String,
    /// File offset of the first byte of that name.
    pub abs_address: u32,
}

/// The mathematical content of an [`Import`].
pub ghost struct ImportView {
    pub dll_name: Seq<char>,
    pub abs_address: u32,
}

impl View for Import {
    type V = ImportView;

    open spec fn view(&self) -> ImportView {
        ImportView { dll_name: self.dll_name@, abs_address: self.abs_address }
    }
}

/// The contents of a list of imports.
pub open spec fn imports_view(imports: Seq<Import>) -> Seq<ImportView> {
    Seq::new(imports.len(), |i: int| imports[i]@)
}

/// The contents of what a walk returns.
pub open spec fn walk_view(walked: Result<Vec<Import>, FixPathError>) -> Result<
    Seq<ImportView>,
    ErrorView,
> {
    match walked {
        Ok(imports) => Ok(imports_view(imports@)),
        Err(e) => Err(e@),
    }
}

/// The part of the image in which a name at `range` may lie: from the
/// range's offset to its end or to the end of the image, whichever is first.
pub open spec fn name_window(image: Seq<u8>, range: FileRange) -> Seq<u8> {
    let end = if range.offset + range.size < image.len() {
        range.offset + range.size
    } else {
        image.len() as int
    };
    if range.offset <= end {
        image.subrange(range.offset as int, end)
    } else {
        Seq::empty()
    }
}

/// The import that a descriptor stands for, given where its name address
/// lies in the file: the NUL-terminated name found there, as text, with the
/// offset of its first byte. There is none where the address lies in no
/// section, where no NUL follows inside the section and the image, or where
/// the name is not valid UTF-8.
pub open spec fn import_at(image: Seq<u8>, range: Option<FileRange>) -> Option<ImportView> {
    match range {
        None => None,
        Some(range) => match leading_name(name_window(image, range)) {
            None => None,
            Some(name) => match text_of(name) {
                None => None,
                Some(dll_name) => Some(ImportView { dll_name, abs_address: range.offset }),
            },
        },
    }
}

/// The imports that a list of located name addresses stands for, in the same
/// order, where every one of them stands for an import.
pub open spec fn imports_at(image: Seq<u8>, ranges: Seq<Option<FileRange>>) -> Option<
    Seq<ImportView>,
> {
    if forall|i: int| 0 <= i < ranges.len() ==> import_at(image, #[trigger] ranges[i]) is Some {
        Some(Seq::new(ranges.len(), |i: int| import_at(image, ranges[i])->0))
    } else {
        None
    }
}

/// Where each of `names` lies in the file, by the section table.
pub open spec fn name_ranges(sections: Seq<SectionHeader>, names: Seq<u32>) -> Seq<
    Option<FileRange>,
> {
    Seq::new(names.len(), |i: int| file_range_in(sections, names[i]))
}

/// What walking a directory gives. An unreadable directory is a malformed
/// table, and so is an absent one where the directory is `required`; an
/// absent one that is not required has no imports. A name that cannot be
/// read is a malformed name.
pub open spec fn walk_of(
    image: Seq<u8>,
    sections: Seq<SectionHeader>,
    directory: ImportDirectoryView,
    required: bool,
) -> Result<Seq<ImportView>, ErrorView> {
    match directory {
        ImportDirectoryView::Unreadable => Err(ErrorView::MalformedImportTable),
        ImportDirectoryView::Absent => if required {
            Err(ErrorView::MalformedImportTable)
        } else {
            Ok(Seq::empty())
        },
        ImportDirectoryView::Names(names) => match imports_at(image, name_ranges(sections, names)) {
            Some(imports) => Ok(imports),
            None => Err(ErrorView::MalformedImportName),
        },
    }
}

/// A walk keeps the table's order and length: it gives one import for each
/// name address, at the same position, and the offset of each import is the
/// file offset that its name address resolves to.
pub proof fn lemma_walk_keeps_table_order(
    image: Seq<u8>,
    sections: Seq<SectionHeader>,
    names: Seq<u32>,
    required: bool,
)
    requires
        walk_of(image, sections, ImportDirectoryView::Names(names), required) is Ok,
    ensures
        walk_of(image, sections, ImportDirectoryView::Names(names), required)->Ok_0.len()
            == names.len(),
        forall|i: int|
            0 <= i < names.len() ==> {
                &&& file_range_in(sections, #[trigger] names[i]) is Some
                &&& walk_of(
                    image,
                    sections,
                    ImportDirectoryView::Names(names),
                    required,
                )->Ok_0[i].abs_address == file_range_in(sections, names[i])->0.offset
            },
{
    let ranges = name_ranges(sections, names);
    let imports = walk_of(image, sections, ImportDirectoryView::Names(names), required)->Ok_0;
    assert forall|i: int| 0 <= i < names.len() implies {
        &&& file_range_in(sections, #[trigger] names[i]) is Some
        &&& imports[i].abs_address == file_range_in(sections, names[i])->0.offset
    } by {
        assert(import_at(image, ranges[i]) is Some);
    }
}

/// Reads the import whose name address lies at `range`.
pub fn read_import(image: &[u8], range: Option<FileRange>) -> (import: Option<Import>)
    ensures
        match import {
            Some(found) => import_at(image@, range) == Some(found@),
            None => import_at(image@, range) is None,
        },
{
    let range = match range {
        Some(range) => range,
        None => {
            return None;
        },
    };
    let length: u64 = image.len() as u64;
    let range_end: u64 = range.offset as u64 + range.size as u64;
    let end: u64 = if range_end < length {
        range_end
    } else {
        length
    };
    if range.offset as u64 > end {
        proof {
            crate::text::lemma_first_nul(Seq::<u8>::empty(), 0);
        }
        return None;
    }
    let name = match read_leading_name(image, range.offset as usize, end as usize) {
        Some(name) => name,
        None => {
            return None;
        },
    };
    match decode_text(name) {
        Some(dll_name) => Some(Import { dll_name, abs_address: range.offset }),
        None => None,
    }
}

/// Reads the imports whose name addresses lie at `ranges`, in that order.
///
/// Fails with `MalformedImportName` where one of them cannot be read.
pub fn read_imports(image: &[u8], ranges: &Vec<Option<FileRange>>) -> (imports: Result<
    Vec<Import>,
    FixPathError,
>)
    ensures
        match imports {
            Ok(list) => imports_at(image@, ranges@) == Some(imports_view(list@)),
            Err(e) => e == FixPathError::MalformedImportName && imports_at(image@, ranges@)
                is None,
        },
{
    let mut list: Vec<Import> = Vec::new();
    let mut at: usize = 0;
    while at < ranges.len()
        invariant
            at <= ranges.len(),
            list.len() == at,
            forall|i: int| 0 <= i < at ==> import_at(image@, #[trigger] ranges@[i]) == Some(list[i]@),
        decreases ranges.len() - at,
    {
        match read_import(image, ranges[at]) {
            Some(import) => {
                list.push(import);
            },
            None => {
                assert(import_at(image@, ranges@[at as int]) is None);
                return Err(FixPathError::MalformedImportName);
            },
        }
        at = at + 1;
    }
    proof {
        assert(imports_at(image@, ranges@)->0 == imports_view(list@));
    }
    Ok(list)
}

/// Finds for each of `names` where it lies in the file.
pub fn locate_names(sections: &Vec<SectionHeader>, names: &Vec<u32>) -> (ranges: Vec<
    Option<FileRange>,
>)
    ensures
        ranges@ == name_ranges(sections@, names@),
{
    let mut ranges: Vec<Option<FileRange>> = Vec::new();
    let mut at: usize = 0;
    while at < names.len()
        invariant
            at <= names.len(),
            ranges.len() == at,
            forall|i: int| 0 <= i < at ==> ranges[i] == file_range_in(sections@, names[i]),
        decreases names.len() - at,
    {
        ranges.push(file_range_at(sections, names[at]));
        at = at + 1;
    }
    proof {
        assert(ranges@ == name_ranges(sections@, names@));
    }
    ranges
}

/// Walks an import directory of `image`, given the section table: one
/// import for each of the directory's name addresses, in table order.
///
/// Fails with `MalformedImportTable` where the directory is unreadable, or
/// absent though `required`; and with `MalformedImportName` where a name
/// lies in no section, is not terminated inside its section and the image,
/// or is not valid UTF-8.
pub fn walk(
    image: &[u8],
    sections: &Vec<SectionHeader>,
    directory: &ImportDirectory,
    required: bool,
) -> (walked: Result<Vec<Import>, FixPathError>)
    ensures
        walk_view(walked) == walk_of(image@, sections@, directory@, required),
{
    match directory {
        ImportDirectory::Unreadable => Err(FixPathError::MalformedImportTable),
        ImportDirectory::Absent => {
            if required {
                Err(FixPathError::MalformedImportTable)
            } else {
                let none: Vec<Import> = Vec::new();
                proof {
                    assert(imports_view(none@) == Seq::<ImportView>::empty());
                }
                Ok(none)
            }
        },
        ImportDirectory::Names(names) => {
            let ranges = locate_names(sections, names);
            read_imports(image, &ranges)
        },
    }
}

} // verus!
