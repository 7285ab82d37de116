//! Access to the container structure of a PE image: its kind, its section
//! table, and the descriptors of its two import directories.
//!
//! All of this is the `object` crate's work. Each function here hands it the
//! image's bytes and takes plain values back; what it returns is a function of
//! those bytes alone, which the contracts name and the rest of the library
//! reasons about without looking inside.

use object::pe::{ImageDelayloadDescriptor, ImageImportDescriptor, ImageSectionHeader};
use object::{File, FileKind, LittleEndian};
use vstd::prelude::*;

verus! {

/// What the leading bytes of a file say it is.
#[derive(Debug, Clone, Copy, PartialEq, Eq, Structural)]
pub enum ImageKind {
    /// No known object file format.
    Unknown,
    /// A 32-bit PE image.
    Pe32,
    /// A 64-bit PE image (PE32+).
    Pe64,
    /// An object file of another format.
    Other,
}

/// One entry of the section table, as far as this library reads it.
#[derive(Debug, Clone, Copy, PartialEq, Eq)]
pub struct SectionHeader {
    /// The eight bytes of the name field.
    pub name: [u8; 8],
    /// Bytes that the section takes in memory.
    pub virtual_size: u32,
    /// Relative virtual address of the section's first byte.
    pub virtual_address: u32,
    /// Bytes that the section takes in the file.
    pub size_of_raw_data: u32,
    /// File offset of the section's first byte.
    pub pointer_to_raw_data: u32,
}

/// What an image holds for one of its two import directories.
#[derive(Debug, Clone, PartialEq, Eq)]
pub enum ImportDirectory {
    /// The headers, the directory or one of its descriptors cannot be read.
    Unreadable,
    /// The image has no such directory.
    Absent,
    /// The name address of each descriptor before the null one, in table order.
    Names(Vec<u32>),
}

/// The mathematical content of an [`ImportDirectory`].
pub ghost enum ImportDirectoryView {
    Unreadable,
    Absent,
    Names(Seq<u32>),
}

impl View for ImportDirectory {
    type V = ImportDirectoryView;

    open spec fn view(&self) -> ImportDirectoryView {
        match *self {
            ImportDirectory::Unreadable => ImportDirectoryView::Unreadable,
            ImportDirectory::Absent => ImportDirectoryView::Absent,
            ImportDirectory::Names(names) => ImportDirectoryView::Names(names@),
        }
    }
}

/// The kind that `object` finds for a file of these bytes.
pub uninterp spec fn pe_image_kind(image: Seq<u8>) -> ImageKind;

/// The section table that `object` parses from an image of these bytes,
/// where it can parse the image as PE32 or PE32+.
pub uninterp spec fn pe_section_headers(image: Seq<u8>) -> Option<Seq<SectionHeader>>;

/// What `object` finds for the import directory of an image of these bytes.
pub uninterp spec fn pe_import_directory(image: Seq<u8>) -> ImportDirectoryView;

/// What `object` finds for the delay-load import directory of an image of
/// these bytes.
pub uninterp spec fn pe_delay_import_directory(image: Seq<u8>) -> ImportDirectoryView;

/// `object::FileKind::parse`: the file format that the first bytes announce.
/// The two PE kinds are told apart, every other format is `Other`, and a
/// file that the crate gives no kind for is `Unknown`.
#[verifier::external_body]
pub(crate) fn image_kind(image: &[u8]) -> (kind: ImageKind)
    ensures
        kind == pe_image_kind(image@),
{
    match FileKind::parse(image) {
        Ok(FileKind::Pe32) => ImageKind::Pe32,
        Ok(FileKind::Pe64) => ImageKind::Pe64,
        Ok(_) => ImageKind::Other,
        Err(_) => ImageKind::Unknown,
    }
}

/// `object::read::pe::PeFile::section_table` on the image that
/// `object::File::parse` returns: the name, the two sizes and the two
/// addresses of each section header, in table order. `None` where the bytes
/// do not parse as a PE image.
#[verifier::external_body]
pub(crate) fn section_headers(image: &[u8]) -> (headers: Option<Vec<SectionHeader>>)
    ensures
        match headers {
            Some(list) => pe_section_headers(image@) == Some(list@),
            None => pe_section_headers(image@) is None,
        },
{
    let table = match File::parse(image).ok()? {
        File::Pe32(file) => file.section_table(),
        File::Pe64(file) => file.section_table(),
        _ => return None,
    };
    let header = |s: &ImageSectionHeader| SectionHeader {
        name: s.name,
        virtual_size: s.virtual_size.get(LittleEndian),
        virtual_address: s.virtual_address.get(LittleEndian),
        size_of_raw_data: s.size_of_raw_data.get(LittleEndian),
        pointer_to_raw_data: s.pointer_to_raw_data.get(LittleEndian),
    };
    Some(table.iter().map(header).collect())
}

/// `object::read::pe::PeFile::import_table`, then
/// `ImportTable::descriptors`, walked to the null descriptor: the `name`
/// field of each descriptor. `Absent` where the data directory has no import
/// entry, `Unreadable` where any step fails.
#[verifier::external_body]
pub(crate) fn import_directory(image: &[u8]) -> (directory: ImportDirectory)
    ensures
        directory@ == pe_import_directory(image@),
{
    let table = match File::parse(image) {
        Ok(File::Pe32(file)) => file.import_table(),
        Ok(File::Pe64(file)) => file.import_table(),
        _ => return ImportDirectory::Unreadable,
    };
    let descriptors = match table {
        Ok(Some(table)) => table.descriptors(),
        Ok(None) => return ImportDirectory::Absent,
        Err(_) => return ImportDirectory::Unreadable,
    };
    let name = |d: &ImageImportDescriptor| d.name.get(LittleEndian);
    let names = descriptors.and_then(|all| all.map(|d| d.map(name)).collect());
    names.map_or(ImportDirectory::Unreadable, ImportDirectory::Names)
}

/// `object::read::pe::DataDirectories::delay_load_import_table`, then
/// `DelayLoadImportTable::descriptors`, walked to the null descriptor: the
/// `dll_name_rva` field of each descriptor. `Absent` where the data directory
/// has no delay-load entry, `Unreadable` where any step fails.
#[verifier::external_body]
pub(crate) fn delay_import_directory(image: &[u8]) -> (directory: ImportDirectory)
    ensures
        directory@ == pe_delay_import_directory(image@),
{
    let table = match File::parse(image) {
        Ok(File::Pe32(f)) => f.data_directories().delay_load_import_table(image, &f.section_table()),
        Ok(File::Pe64(f)) => f.data_directories().delay_load_import_table(image, &f.section_table()),
        _ => return ImportDirectory::Unreadable,
    };
    let descriptors = match table {
        Ok(Some(table)) => table.descriptors(),
        Ok(None) => return ImportDirectory::Absent,
        Err(_) => return ImportDirectory::Unreadable,
    };
    let name = |d: &ImageDelayloadDescriptor| d.dll_name_rva.get(LittleEndian);
    let names = descriptors.and_then(|all| all.map(|d| d.map(name)).collect());
    names.map_or(ImportDirectory::Unreadable, ImportDirectory::Names)
}

} // verus!
