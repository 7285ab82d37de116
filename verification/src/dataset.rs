//! Correlation of the names that the metadata records with the entries of
//! the import directories. The two are matched by position, never by name,
//! so the lists of each table must be of one length.

use vstd::prelude::*;

use crate::error::{ErrorView, FixPathError, ImportTable};
use crate::imports::{imports_view, Import, ImportView};
use crate::metadata::{names_view, FixPathSectionInfo, SectionInfoView};

verus! {

/// The imports of an image beside the names recorded for them: entry `i` of
/// a list of imports belongs to entry `i` of the recorded names of its table.
#[derive(Debug, PartialEq, Eq)]
pub struct FixPathData {
    imports: Vec<Import>,
    delayed_imports: Vec<Import>,
    info: FixPathSectionInfo,
}

/// The mathematical content of a [`FixPathData`].
pub ghost struct FixPathDataView {
    pub imports: Seq<ImportView>,
    pub delayed_imports: Seq<ImportView>,
    pub info: SectionInfoView,
}

impl FixPathDataView {
    /// Each table has as many imports as recorded names.
    pub open spec fn consistent(self) -> bool {
        &&& self.imports.len() == self.info.idata_entries.len()
        &&& self.delayed_imports.len() == self.info.didata_entries.len()
    }
}

/// What correlating gives: the three parts side by side where the lengths
/// agree, and else the first table that disagrees, with the number of names
/// recorded for it and the number of descriptors it has.
pub open spec fn correlate_of(
    imports: Seq<ImportView>,
    delayed_imports: Seq<ImportView>,
    info: SectionInfoView,
) -> Result<FixPathDataView, ErrorView> {
    if imports.len() != info.idata_entries.len() {
        Err(
            ErrorView::ImportCountMismatch {
                table: ImportTable::Normal,
                expected: info.idata_entries.len() as int,
                actual: imports.len() as int,
            },
        )
    } else if delayed_imports.len() != info.didata_entries.len() {
        Err(
            ErrorView::ImportCountMismatch {
                table: ImportTable::Delayed,
                expected: info.didata_entries.len() as int,
                actual: delayed_imports.len() as int,
            },
        )
    } else {
        Ok(FixPathDataView { imports, delayed_imports, info })
    }
}

/// The contents of what correlating returns.
pub open spec fn correlated_view(correlated: Result<FixPathData, FixPathError>) -> Result<
    FixPathDataView,
    ErrorView,
> {
    match correlated {
        Ok(data) => Ok(data@),
        Err(e) => Err(e@),
    }
}

impl View for FixPathData {
    type V = FixPathDataView;

    closed spec fn view(&self) -> FixPathDataView {
        FixPathDataView {
            imports: imports_view(self.imports@),
            delayed_imports: imports_view(self.delayed_imports@),
            info: self.info@,
        }
    }
}

impl FixPathData {
    #[verifier::type_invariant]
    spec fn lengths_agree(&self) -> bool {
        &&& self.imports.len() == self.info.idata_entries.len()
        &&& self.delayed_imports.len() == self.info.didata_entries.len()
    }

    /// Puts the imports of the two tables beside the names recorded for them.
    ///
    /// Fails with `ImportCountMismatch` where a table has another number of
    /// descriptors than the metadata has names for it; the ordinary table is
    /// looked at first.
    pub fn correlate(
        imports: Vec<Import>,
        delayed_imports: Vec<Import>,
        info: FixPathSectionInfo,
    ) -> (correlated: Result<FixPathData, FixPathError>)
        ensures
            correlated_view(correlated) == correlate_of(
                imports_view(imports@),
                imports_view(delayed_imports@),
                info@,
            ),
            correlated matches Ok(data) ==> data@.consistent(),
    {
        if imports.len() != info.idata_entries.len() {
            return Err(
                FixPathError::ImportCountMismatch {
                    table: ImportTable::Normal,
                    expected: info.idata_entries.len(),
                    actual: imports.len(),
                },
            );
        }
        if delayed_imports.len() != info.didata_entries.len() {
            return Err(
                FixPathError::ImportCountMismatch {
                    table: ImportTable::Delayed,
                    expected: info.didata_entries.len(),
                    actual: delayed_imports.len(),
                },
            );
        }
        Ok(FixPathData { imports, delayed_imports, info })
    }

    /// The entries of the ordinary import directory.
    pub fn imports(&self) -> (imports: &Vec<Import>)
        ensures
            imports_view(imports@) == self@.imports,
            self@.consistent(),
    {
        proof {
            use_type_invariant(self);
        }
        &self.imports
    }

    /// The entries of the delay-load import directory.
    pub fn delayed_imports(&self) -> (imports: &Vec<Import>)
        ensures
            imports_view(imports@) == self@.delayed_imports,
            self@.consistent(),
    {
        proof {
            use_type_invariant(self);
        }
        &self.delayed_imports
    }

    /// What the metadata section records.
    pub fn info(&self) -> (info: &FixPathSectionInfo)
        ensures
            info@ == self@.info,
            self@.consistent(),
    {
        proof {
            use_type_invariant(self);
        }
        &self.info
    }
}

/// Correlation never mends a disagreement. It succeeds exactly when each
/// table has as many imports as recorded names, and then hands the three
/// parts on as they are, nothing dropped and nothing added; and it fails
/// with a count mismatch in every other case.
pub proof fn lemma_correlate_checks_lengths(
    imports: Seq<ImportView>,
    delayed_imports: Seq<ImportView>,
    info: SectionInfoView,
)
    ensures
        correlate_of(imports, delayed_imports, info) is Ok <==> imports.len()
            == info.idata_entries.len() && delayed_imports.len() == info.didata_entries.len(),
        correlate_of(imports, delayed_imports, info) matches Ok(data) ==> data.consistent()
            && data.imports == imports && data.delayed_imports == delayed_imports && data.info
            == info,
        correlate_of(imports, delayed_imports, info) matches Err(e) ==> e
            is ImportCountMismatch,
{
}

/// One line of a report: an import beside the name recorded for it.
#[derive(Debug, Clone, PartialEq, Eq)]
pub struct ListedImport {
    /// Position of the entry in its table, counted from zero.
    pub index: usize,
    /// The name that the metadata records: the one linked against.
    pub fix_path_dll_name: String,
    /// The name that the import directory holds now.
    pub imports_dll_name: String,
    /// File offset of the name in the import directory.
    pub abs_address: u32,
    /// Whether the two names differ.
    pub modified: bool,
}

/// The mathematical content of a [`ListedImport`].
pub ghost struct ListedImportView {
    pub index: int,
    pub fix_path_dll_name: Seq<char>,
    pub imports_dll_name: Seq<char>,
    pub abs_address: u32,
    pub modified: bool,
}

impl View for ListedImport {
    type V = ListedImportView;

    open spec fn view(&self) -> ListedImportView {
        ListedImportView {
            index: self.index as int,
            fix_path_dll_name: self.fix_path_dll_name@,
            imports_dll_name: self.imports_dll_name@,
            abs_address: self.abs_address,
            modified: self.modified,
        }
    }
}

/// The contents of a list of report lines.
pub open spec fn listed_view(lines: Seq<ListedImport>) -> Seq<ListedImportView> {
    Seq::new(lines.len(), |i: int| lines[i]@)
}

/// What a listing shows of an image.
#[derive(Debug, Clone, PartialEq, Eq)]
pub struct ImportReport {
    /// Layout version of the metadata section.
    pub version: u32,
    /// Bytes reserved for each name, terminator included.
    pub fix_path_size: u32,
    /// One line for each entry of the ordinary import directory.
    pub imports: Vec<ListedImport>,
    /// One line for each entry of the delay-load import directory.
    pub delayed_imports: Vec<ListedImport>,
}

/// The mathematical content of an [`ImportReport`].
pub ghost struct ImportReportView {
    pub version: u32,
    pub fix_path_size: u32,
    pub imports: Seq<ListedImportView>,
    pub delayed_imports: Seq<ListedImportView>,
}

impl View for ImportReport {
    type V = ImportReportView;

    open spec fn view(&self) -> ImportReportView {
        ImportReportView {
            version: self.version,
            fix_path_size: self.fix_path_size,
            imports: listed_view(self.imports@),
            delayed_imports: listed_view(self.delayed_imports@),
        }
    }
}

/// An import counts as modified exactly when the name it holds is another
/// text than the recorded one. Texts are compared as they are: case counts.
pub open spec fn is_modified(recorded: Seq<char>, current: Seq<char>) -> bool {
    recorded != current
}

/// The line for entry `index` of a table.
pub open spec fn line_of(entries: Seq<Seq<char>>, imports: Seq<ImportView>, index: int) -> ListedImportView {
    ListedImportView {
        index,
        fix_path_dll_name: entries[index],
        imports_dll_name: imports[index].dll_name,
        abs_address: imports[index].abs_address,
        modified: is_modified(entries[index], imports[index].dll_name),
    }
}

/// The lines for a table: one for each import, in table order.
pub open spec fn lines_of(entries: Seq<Seq<char>>, imports: Seq<ImportView>) -> Seq<
    ListedImportView,
> {
    Seq::new(imports.len(), |i: int| line_of(entries, imports, i))
}

/// What a listing shows of correlated data.
pub open spec fn report_of(data: FixPathDataView) -> ImportReportView {
    ImportReportView {
        version: data.info.version,
        fix_path_size: data.info.fix_path_size,
        imports: lines_of(data.info.idata_entries, data.imports),
        delayed_imports: lines_of(data.info.didata_entries, data.delayed_imports),
    }
}

/// Tells whether an import has been redirected: whether the name it holds
/// differs from the recorded one.
pub fn compare_names(recorded: &String, current: &String) -> (modified: bool)
    ensures
        modified == is_modified(recorded@, current@),
{
    !(*recorded == *current)
}

/// Lists one table.
fn list_table(entries: &Vec<String>, imports: &Vec<Import>) -> (lines: Vec<ListedImport>)
    requires
        entries.len() == imports.len(),
    ensures
        listed_view(lines@) == lines_of(names_view(entries@), imports_view(imports@)),
{
    let mut lines: Vec<ListedImport> = Vec::new();
    let mut index: usize = 0;
    while index < imports.len()
        invariant
            index <= imports.len(),
            entries.len() == imports.len(),
            lines.len() == index,
            forall|i: int|
                0 <= i < index ==> (#[trigger] lines[i])@ == line_of(
                    names_view(entries@),
                    imports_view(imports@),
                    i,
                ),
        decreases imports.len() - index,
    {
        let modified = compare_names(&entries[index], &imports[index].dll_name);
        lines.push(
            ListedImport {
                index,
                fix_path_dll_name: entries[index].clone(),
                imports_dll_name: imports[index].dll_name.clone(),
                abs_address: imports[index].abs_address,
                modified,
            },
        );
        index = index + 1;
    }
    proof {
        assert(listed_view(lines@) == lines_of(
            names_view(entries@),
            imports_view(imports@),
        ));
    }
    lines
}

/// Lists the imports of both tables: for each, its position, the recorded
/// name, the name held now, the file offset, and whether the two differ.
pub fn list_imports(data: &FixPathData) -> (report: ImportReport)
    ensures
        report@ == report_of(data@),
{
    let info = data.info();
    ImportReport {
        version: info.version,
        fix_path_size: info.fix_path_size,
        imports: list_table(&info.idata_entries, data.imports()),
        delayed_imports: list_table(&info.didata_entries, data.delayed_imports()),
    }
}

} // verus!
