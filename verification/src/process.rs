//! The two runs over an image: listing its imports beside the names recorded
//! for them, and planning a rename. Both read the image in one order: the
//! section table, the metadata, the import directory, the delay-load import
//! directory. The first failure ends the run.

use vstd::prelude::*;

use crate::dataset::{correlate_of, list_imports, report_of, FixPathData, FixPathDataView, ImportReport, ImportReportView};
use crate::error::{ErrorView, FixPathError};
use crate::image::{
    delay_import_directory, image_kind, import_directory, pe_delay_import_directory,
    pe_image_kind, pe_import_directory, pe_section_headers, section_headers, ImageKind,
    ImportDirectory, ImportDirectoryView, SectionHeader,
};
use crate::imports::{walk, walk_of};
use crate::metadata::{metadata_of, read_metadata};
use crate::patch::{patch_image, patch_of};
use crate::plan::{
    make_change_set, plan_of, ChangeImportView, MakeChangeSet, RequestChangeSet, RequestView,
};

verus! {

/// What a run over an image ends in.
#[derive(Debug, Clone, PartialEq, Eq)]
pub enum Outcome {
    /// No rename was asked for: the imports as they are.
    Listing(ImportReport),
    /// A rename was asked for: the entries to rewrite.
    Changes(MakeChangeSet),
}

/// The mathematical content of an [`Outcome`].
pub ghost enum OutcomeView {
    Listing(ImportReportView),
    Changes(Seq<ChangeImportView>),
}

impl View for Outcome {
    type V = OutcomeView;

    open spec fn view(&self) -> OutcomeView {
        match *self {
            Outcome::Listing(report) => OutcomeView::Listing(report@),
            Outcome::Changes(changes) => OutcomeView::Changes(changes@),
        }
    }
}

/// The contents of what reading an image returns.
pub open spec fn data_view(read: Result<FixPathData, FixPathError>) -> Result<
    FixPathDataView,
    ErrorView,
> {
    match read {
        Ok(data) => Ok(data@),
        Err(e) => Err(e@),
    }
}

/// The contents of what a run returns.
pub open spec fn run_view(run: Result<Outcome, FixPathError>) -> Result<OutcomeView, ErrorView> {
    match run {
        Ok(outcome) => Ok(outcome@),
        Err(e) => Err(e@),
    }
}

/// The contents of a request that may be missing.
pub open spec fn request_view(request: Option<RequestChangeSet>) -> Option<RequestView> {
    match request {
        Some(change) => Some(change@),
        None => None,
    }
}

/// What an image holds, given its section table and its two import
/// directories: its imports beside the names recorded for them. The
/// metadata, the import directory, which must be there, and the delay-load
/// import directory, which need not, are read in this order, and the first
/// of them that fails says how. Last, the lengths must agree.
pub open spec fn data_from(
    image: Seq<u8>,
    sections: Seq<SectionHeader>,
    imports: ImportDirectoryView,
    delayed_imports: ImportDirectoryView,
) -> Result<FixPathDataView, ErrorView> {
    match metadata_of(image, sections) {
        Err(e) => Err(e),
        Ok(info) => match walk_of(image, sections, imports, true) {
            Err(e) => Err(e),
            Ok(normal) => match walk_of(image, sections, delayed_imports, false) {
                Err(e) => Err(e),
                Ok(delayed) => correlate_of(normal, delayed, info),
            },
        },
    }
}

/// What an image holds. An image whose headers do not parse is malformed;
/// of any other, the section table and the two directories decide.
pub open spec fn fix_path_data_of(image: Seq<u8>) -> Result<FixPathDataView, ErrorView> {
    match pe_section_headers(image) {
        None => Err(ErrorView::MalformedImage),
        Some(sections) => data_from(
            image,
            sections,
            pe_import_directory(image),
            pe_delay_import_directory(image),
        ),
    }
}

/// What a run over what an image holds ends in: the listing where no rename
/// is asked for, and the plan of the rename where one is.
pub open spec fn outcome_of(data: FixPathDataView, request: Option<RequestView>) -> Result<
    OutcomeView,
    ErrorView,
> {
    match request {
        None => Ok(OutcomeView::Listing(report_of(data))),
        Some(change) => match plan_of(data, change) {
            Ok(changes) => Ok(OutcomeView::Changes(changes)),
            Err(e) => Err(e),
        },
    }
}

/// What a run over a PE image ends in.
pub open spec fn process_file_of(image: Seq<u8>, request: Option<RequestView>) -> Result<
    OutcomeView,
    ErrorView,
> {
    match fix_path_data_of(image) {
        Err(e) => Err(e),
        Ok(data) => outcome_of(data, request),
    }
}

/// What a run over a file ends in: a file of no known kind and one of
/// another kind than PE are refused, each in its own way, before anything
/// else is read.
pub open spec fn process_imports_of(image: Seq<u8>, request: Option<RequestView>) -> Result<
    OutcomeView,
    ErrorView,
> {
    match pe_image_kind(image) {
        ImageKind::Unknown => Err(ErrorView::UnknownFileKind),
        ImageKind::Other => Err(ErrorView::NotPeFile),
        ImageKind::Pe32 | ImageKind::Pe64 => process_file_of(image, request),
    }
}

/// Whatever an image holds, what is read from it is consistent: each table
/// has as many imports as the metadata has names for it. An image of which
/// this does not hold is not read; it fails with a count mismatch.
pub proof fn lemma_read_data_is_consistent(image: Seq<u8>)
    ensures
        fix_path_data_of(image) matches Ok(data) ==> data.consistent(),
{
}

/// Reads the section table of a PE image.
///
/// Fails with `MalformedImage` where the headers do not parse.
pub fn read_section_table(in_data: &[u8]) -> (read: Result<Vec<SectionHeader>, FixPathError>)
    ensures
        match read {
            Ok(sections) => pe_section_headers(in_data@) == Some(sections@),
            Err(e) => e == FixPathError::MalformedImage && pe_section_headers(in_data@) is None,
        },
{
    match section_headers(in_data) {
        Some(sections) => Ok(sections),
        None => Err(FixPathError::MalformedImage),
    }
}

/// Puts together what an image holds, from its bytes, its section table and
/// its two import directories.
///
/// Fails with what [`read_metadata`] fails with, then with what [`walk`]
/// fails with for the import directory, which must be there, and for the
/// delay-load import directory, which need not, and last with
/// `ImportCountMismatch` where a table has another number of entries than
/// the metadata has names for it.
pub fn assemble(
    in_data: &[u8],
    sections: &Vec<SectionHeader>,
    imports: &ImportDirectory,
    delayed_imports: &ImportDirectory,
) -> (read: Result<FixPathData, FixPathError>)
    ensures
        data_view(read) == data_from(in_data@, sections@, imports@, delayed_imports@),
{
    let info = read_metadata(in_data, sections)?;
    let normal = walk(in_data, sections, imports, true)?;
    let delayed = walk(in_data, sections, delayed_imports, false)?;
    FixPathData::correlate(normal, delayed, info)
}

/// Reads what a PE image holds: the metadata and the entries of both import
/// directories, correlated.
///
/// Fails with `MalformedImage` where the headers do not parse, and else as
/// [`assemble`] does.
pub fn read_fix_path_data(in_data: &[u8]) -> (read: Result<FixPathData, FixPathError>)
    ensures
        data_view(read) == fix_path_data_of(in_data@),
{
    let sections = read_section_table(in_data)?;
    let imports = import_directory(in_data);
    let delayed_imports = delay_import_directory(in_data);
    assemble(in_data, &sections, &imports, &delayed_imports)
}

/// Answers a run on what an image holds: lists the imports where `dll_change`
/// is `None`, and plans the rename where it is given.
///
/// Fails as [`make_change_set`] does.
pub fn list_or_plan(data: &FixPathData, dll_change: Option<RequestChangeSet>) -> (run: Result<
    Outcome,
    FixPathError,
>)
    ensures
        run_view(run) == outcome_of(data@, request_view(dll_change)),
{
    match dll_change {
        None => Ok(Outcome::Listing(list_imports(data))),
        Some(change) => match make_change_set(data, &change) {
            Ok(changes) => Ok(Outcome::Changes(changes)),
            Err(e) => Err(e),
        },
    }
}

/// Runs over a PE image: reads what it holds, then lists its imports or
/// plans the rename that `dll_change` asks for. The image is not changed.
///
/// Fails as [`read_fix_path_data`] and [`make_change_set`] do.
pub fn process_file(in_data: &[u8], dll_change: Option<RequestChangeSet>) -> (run: Result<
    Outcome,
    FixPathError,
>)
    ensures
        run_view(run) == process_file_of(in_data@, request_view(dll_change)),
{
    let data = read_fix_path_data(in_data)?;
    list_or_plan(&data, dll_change)
}

/// Runs over the bytes of a file: tells what kind of file it is, and goes on
/// as [`process_file`] does where it is a PE image.
///
/// Fails with `UnknownFileKind` where the bytes are of no known format, with
/// `NotPeFile` where they are of another one, and else as `process_file` does.
pub fn process_imports(in_data: &[u8], dll_change: Option<RequestChangeSet>) -> (run: Result<
    Outcome,
    FixPathError,
>)
    ensures
        run_view(run) == process_imports_of(in_data@, request_view(dll_change)),
{
    match image_kind(in_data) {
        ImageKind::Unknown => Err(FixPathError::UnknownFileKind),
        ImageKind::Other => Err(FixPathError::NotPeFile),
        ImageKind::Pe32 | ImageKind::Pe64 => process_file(in_data, dll_change),
    }
}

/// The plan of a rename on the bytes of a file: what [`process_imports_of`]
/// gives for the request, as the entries to rewrite.
pub open spec fn planned_of(image: Seq<u8>, request: RequestView) -> Result<
    Seq<ChangeImportView>,
    ErrorView,
> {
    match pe_image_kind(image) {
        ImageKind::Unknown => Err(ErrorView::UnknownFileKind),
        ImageKind::Other => Err(ErrorView::NotPeFile),
        ImageKind::Pe32 | ImageKind::Pe64 => match fix_path_data_of(image) {
            Err(e) => Err(e),
            Ok(data) => plan_of(data, request),
        },
    }
}

/// What redirecting an import of an image held in memory gives: the image
/// as it is afterwards, and the entries written or the failure. An image
/// for which no plan is made is left as it was.
pub open spec fn set_import_of(image: Seq<u8>, request: RequestView) -> (
    Seq<u8>,
    Result<Seq<ChangeImportView>, ErrorView>,
) {
    match planned_of(image, request) {
        Err(e) => (image, Err(e)),
        Ok(changes) => patch_of(image, changes),
    }
}

/// A run with a request ends in the plan for it.
pub proof fn lemma_run_with_request_plans(image: Seq<u8>, request: RequestView)
    ensures
        process_imports_of(image, Some(request)) == match planned_of(image, request) {
            Ok(changes) => Ok::<OutcomeView, ErrorView>(OutcomeView::Changes(changes)),
            Err(e) => Err(e),
        },
{
}

/// Redirects, in an image held in memory, the import that was linked as
/// `dll_change.from` to `dll_change.to`, in each table that records one, and
/// returns the entries written. An entry that holds the new name already is
/// not written and not returned.
///
/// Fails as [`process_imports`] does, with the image untouched; and as
/// [`patch_image`] does, with the entries before the failing one written.
pub fn set_import(image: &mut Vec<u8>, dll_change: &RequestChangeSet) -> (changed: Result<
    MakeChangeSet,
    FixPathError,
>)
    ensures
        (final(image)@, crate::plan::plan_view(changed)) == set_import_of(old(image)@, dll_change@),
{
    match image_kind(image.as_slice()) {
        ImageKind::Unknown => {
            return Err(FixPathError::UnknownFileKind);
        },
        ImageKind::Other => {
            return Err(FixPathError::NotPeFile);
        },
        ImageKind::Pe32 | ImageKind::Pe64 => {},
    }
    let data = read_fix_path_data(image.as_slice())?;
    let changes = make_change_set(&data, dll_change)?;
    patch_image(image, &changes)
}

} // verus!
