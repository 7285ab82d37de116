//! Planner of a rename: which entries of the import directories are to hold
//! the new name. Entries are found by the name that the metadata records for
//! them, so an import that was redirected before is still found by the name
//! it was linked with.

use vstd::prelude::*;
use vstd::string::StringSliceAdditionalSpecFns;

use crate::dataset::{FixPathData, FixPathDataView};
use crate::error::{ErrorView, FixPathError};
use crate::imports::{imports_view, Import, ImportView};
use crate::metadata::names_view;
use crate::text::bytes_of;

verus! {

/// The wish to have every import that was linked as `from` load `to`.
#[derive(Debug, Clone, PartialEq, Eq)]
pub struct RequestChangeSet {
    /// The name as the metadata records it.
    pub from: String,
    /// The name, or path, to load in its place.
    pub to: String,
}

/// The mathematical content of a [`RequestChangeSet`].
pub ghost struct RequestView {
    pub from: Seq<char>,
    pub to: Seq<char>,
}

impl View for RequestChangeSet {
    type V = RequestView;

    open spec fn view(&self) -> RequestView {
        RequestView { from: self.from@, to: self.to@ }
    }
}

/// One entry of an import directory that is to hold a new name.
#[derive(Debug, Clone, PartialEq, Eq)]
pub struct ChangeImport {
    /// The name that the metadata records for the entry.
    pub original_dll_name: String,
    /// The name that the entry holds now; the original one unless the entry
    /// was redirected before.
    pub old_dll_name: String,
    /// The name that the entry is to hold.
    pub new_dll_name: String,
    /// File offset of the entry's name.
    pub abs_address: u32,
}

/// The mathematical content of a [`ChangeImport`].
pub ghost struct ChangeImportView {
    pub original_dll_name: Seq<char>,
    pub old_dll_name: Seq<char>,
    pub new_dll_name: Seq<char>,
    pub abs_address: u32,
}

impl View for ChangeImport {
    type V = ChangeImportView;

    open spec fn view(&self) -> ChangeImportView {
        ChangeImportView {
            original_dll_name: self.original_dll_name@,
            old_dll_name: self.old_dll_name@,
            new_dll_name: self.new_dll_name@,
            abs_address: self.abs_address,
        }
    }
}

/// The entries to rewrite, in the order in which they are written.
#[derive(Debug, Clone, PartialEq, Eq)]
pub struct MakeChangeSet {
    pub dll_changes: Vec<ChangeImport>,
}

/// The contents of a list of changes.
pub open spec fn changes_view(changes: Seq<ChangeImport>) -> Seq<ChangeImportView> {
    Seq::new(changes.len(), |i: int| changes[i]@)
}

impl View for MakeChangeSet {
    type V = Seq<ChangeImportView>;

    open spec fn view(&self) -> Seq<ChangeImportView> {
        changes_view(self.dll_changes@)
    }
}

/// The contents of what planning returns.
pub open spec fn plan_view(planned: Result<MakeChangeSet, FixPathError>) -> Result<
    Seq<ChangeImportView>,
    ErrorView,
> {
    match planned {
        Ok(changes) => Ok(changes@),
        Err(e) => Err(e@),
    }
}

/// A name of `name_length` bytes fits a slot of `capacity` bytes where there
/// is room for it and the NUL that ends it.
pub open spec fn fits(name_length: int, capacity: int) -> bool {
    name_length + 1 <= capacity
}

/// `at` is the first position of `entries` that holds `name`.
pub open spec fn is_first_match(entries: Seq<Seq<char>>, name: Seq<char>, at: int) -> bool {
    &&& 0 <= at < entries.len()
    &&& entries[at] == name
    &&& forall|i: int| 0 <= i < at ==> entries[i] != name
}

/// The first position of `entries` that holds `name`, where one does.
pub open spec fn first_match(entries: Seq<Seq<char>>, name: Seq<char>) -> Option<int> {
    if exists|at: int| is_first_match(entries, name, at) {
        Some(choose|at: int| is_first_match(entries, name, at))
    } else {
        None
    }
}

/// The changes that a request asks for in one table: none where no recorded
/// name equals `from`, and else one, for the first entry recorded as `from`.
pub open spec fn changes_in(entries: Seq<Seq<char>>, imports: Seq<ImportView>, request: RequestView) -> Seq<
    ChangeImportView,
> {
    match first_match(entries, request.from) {
        Some(at) => seq![
            ChangeImportView {
                original_dll_name: entries[at],
                old_dll_name: imports[at].dll_name,
                new_dll_name: request.to,
                abs_address: imports[at].abs_address,
            },
        ],
        None => Seq::empty(),
    }
}

/// What planning gives. A new name that does not fit the reserved slot is
/// refused before anything is looked up. Then both tables are searched, the
/// ordinary one first, and a request that finds nothing in either fails.
pub open spec fn plan_of(data: FixPathDataView, request: RequestView) -> Result<
    Seq<ChangeImportView>,
    ErrorView,
> {
    let requested = bytes_of(request.to).len() as int;
    let capacity = data.info.fix_path_size as int;
    let changes = changes_in(data.info.idata_entries, data.imports, request) + changes_in(
        data.info.didata_entries,
        data.delayed_imports,
        request,
    );
    if !fits(requested, capacity) {
        Err(ErrorView::NameTooLong { requested, capacity })
    } else if changes.len() == 0 {
        Err(ErrorView::DllNotFound { from: request.from })
    } else {
        Ok(changes)
    }
}

/// There is at most one first match.
pub proof fn lemma_first_match_unique(entries: Seq<Seq<char>>, name: Seq<char>, at: int)
    requires
        is_first_match(entries, name, at),
    ensures
        first_match(entries, name) == Some(at),
{
    let chosen = choose|at: int| is_first_match(entries, name, at);
    assert(is_first_match(entries, name, chosen));
    if chosen < at {
        assert(entries[chosen] != name);
    } else if at < chosen {
        assert(entries[at] != name);
    }
}

/// The capacity check comes first and looks at nothing but the two
/// numbers. A plan fails with `NameTooLong` exactly when the new name and
/// its terminator take more bytes than a slot has, whatever `from` is and
/// whatever the tables hold. So a name that fills the slot to the last byte
/// is not refused for its length.
pub proof fn lemma_capacity_checked_first(data: FixPathDataView, request: RequestView)
    ensures
        plan_of(data, request) is Err && plan_of(data, request)->Err_0 is NameTooLong
            <==> bytes_of(request.to).len() + 1 > data.info.fix_path_size,
        bytes_of(request.to).len() + 1 == data.info.fix_path_size ==> !(plan_of(data, request)
            is Err && plan_of(data, request)->Err_0 is NameTooLong),
        plan_of(data, request) matches Err(ErrorView::NameTooLong { requested, capacity })
            ==> requested == bytes_of(request.to).len() && capacity == data.info.fix_path_size,
{
}

/// What a plan holds. It has one entry or two, and each entry's recorded
/// name is `from` and its new name is `to`. A plan fails with `DllNotFound`
/// exactly when the new name fits and neither table records `from`.
pub proof fn lemma_plan_entries(data: FixPathDataView, request: RequestView)
    requires
        data.consistent(),
    ensures
        plan_of(data, request) matches Ok(changes) ==> {
            &&& 1 <= changes.len() <= 2
            &&& forall|i: int|
                0 <= i < changes.len() ==> (#[trigger] changes[i]).original_dll_name
                    == request.from && changes[i].new_dll_name == request.to
        },
        plan_of(data, request) is Err && plan_of(data, request)->Err_0 is DllNotFound <==> fits(
            bytes_of(request.to).len() as int,
            data.info.fix_path_size as int,
        ) && first_match(data.info.idata_entries, request.from) is None && first_match(
            data.info.didata_entries,
            request.from,
        ) is None,
{
    let normal = first_match(data.info.idata_entries, request.from);
    let delayed = first_match(data.info.didata_entries, request.from);
    if normal is Some {
        assert(is_first_match(data.info.idata_entries, request.from, normal->0));
    }
    if delayed is Some {
        assert(is_first_match(data.info.didata_entries, request.from, delayed->0));
    }
}

/// Tells whether a name of `name_length` bytes fits a slot of `capacity`
/// bytes, the terminating NUL counted.
pub fn fits_capacity(name_length: usize, capacity: u32) -> (accepted: bool)
    ensures
        accepted == fits(name_length as int, capacity as int),
{
    name_length < capacity as usize
}

/// Finds the first entry of `v` that equals `from`.
pub fn try_find_in_vec(v: &Vec<String>, from: &String) -> (found: Option<usize>)
    ensures
        match found {
            Some(at) => first_match(names_view(v@), from@) == Some(at as int),
            None => first_match(names_view(v@), from@) is None,
        },
        found matches Some(at) ==> at < v.len(),
{
    let mut at: usize = 0;
    while at < v.len()
        invariant
            at <= v.len(),
            forall|i: int| 0 <= i < at ==> names_view(v@)[i] != from@,
        decreases v.len() - at,
    {
        if v[at] == *from {
            proof {
                assert(names_view(v@)[at as int] == from@);
                lemma_first_match_unique(names_view(v@), from@, at as int);
            }
            return Some(at);
        }
        at = at + 1;
    }
    None
}

/// Plans the changes of one table.
fn find_changes(
    entries: &Vec<String>,
    imports: &Vec<Import>,
    change: &RequestChangeSet,
    changes: &mut Vec<ChangeImport>,
)
    requires
        entries.len() == imports.len(),
    ensures
        changes_view(final(changes)@) == changes_view(old(changes)@) + changes_in(
            names_view(entries@),
            imports_view(imports@),
            change@,
        ),
{
    let ghost before = changes_view(changes@);
    match try_find_in_vec(entries, &change.from) {
        Some(at) => {
            let found = ChangeImport {
                original_dll_name: entries[at].clone(),
                old_dll_name: imports[at].dll_name.clone(),
                new_dll_name: change.to.clone(),
                abs_address: imports[at].abs_address,
            };
            changes.push(found);
            proof {
                assert(changes_view(changes@) == before + seq![found@]);
            }
        },
        None => {
            proof {
                assert(changes_view(changes@) == before + Seq::<ChangeImportView>::empty());
            }
        },
    }
}

/// Plans a rename on correlated data.
///
/// Fails with `NameTooLong` where the new name and its terminator take more
/// bytes than the metadata reserves for a name, whatever `from` is; and with
/// `DllNotFound` where no recorded name of either table equals `from`.
pub fn make_change_set(data: &FixPathData, change: &RequestChangeSet) -> (planned: Result<
    MakeChangeSet,
    FixPathError,
>)
    ensures
        plan_view(planned) == plan_of(data@, change@),
{
    let info = data.info();
    let requested: usize = change.to.as_str().as_bytes().len();
    if !fits_capacity(requested, info.fix_path_size) {
        return Err(FixPathError::NameTooLong { requested, capacity: info.fix_path_size });
    }
    let mut dll_changes: Vec<ChangeImport> = Vec::new();
    find_changes(&info.idata_entries, data.imports(), change, &mut dll_changes);
    find_changes(&info.didata_entries, data.delayed_imports(), change, &mut dll_changes);
    if dll_changes.len() == 0 {
        return Err(FixPathError::DllNotFound { from: change.from.clone() });
    }
    Ok(MakeChangeSet { dll_changes })
}

} // verus!
