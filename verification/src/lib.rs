//! Inspection and in-place redirection of the DLL imports of a Windows
//! Portable Executable image that carries a `.fixPath` metadata section.
//!
//! The section records, for each entry of the import directory and of the
//! delay-load import directory, the DLL name that the image was linked with,
//! and how many bytes are reserved for a name. With it an import can be made
//! to load another path by overwriting its name where it stands, without
//! relinking and without moving a byte of the rest.
//!
//! - [`image`] asks the `object` crate for the kind of a file, its section
//!   table and the name addresses of its import descriptors.
//! - [`address`] resolves a relative virtual address to a file offset.
//! - [`imports`] walks a directory: the name at each address, and its offset.
//! - [`metadata`] finds and reads the `.fixPath` section.
//! - [`dataset`] puts imports and recorded names side by side, and lists them.
//! - [`plan`] plans a rename, [`patch`] carries it out.
//! - [`process`] runs the whole over the bytes of a file.
//!
//! Everything but the calls into `object` and one call into std is verified
//! against the contracts stated with each function.

pub mod address;
pub mod dataset;
pub mod error;
pub mod image;
pub mod imports;
pub mod metadata;
pub mod patch;
pub mod plan;
pub mod process;
pub mod text;

pub use address::{file_range_at, section_file_range_at, FileRange};
pub use dataset::{compare_names, list_imports, FixPathData, ImportReport, ListedImport};
pub use error::{FixPathError, ImportTable};
pub use image::{ImageKind, ImportDirectory, SectionHeader};
pub use imports::{locate_names, read_import, read_imports, walk, Import};
pub use metadata::{
    locate_section, parse_header, parse_section, read_metadata, read_name_table, FixDataHeader,
    FixPathSectionInfo,
};
pub use patch::{applied_changes, apply_writes, patch_image, write_plan, PatchWrite};
pub use plan::{
    fits_capacity, make_change_set, try_find_in_vec, ChangeImport, MakeChangeSet, RequestChangeSet,
};
pub use process::{
    assemble, list_or_plan, process_file, process_imports, read_fix_path_data, read_section_table,
    set_import, Outcome,
};
