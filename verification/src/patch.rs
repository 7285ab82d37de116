//! Writer of a planned rename. An entry that already holds the new name is
//! left alone. Every other one gets the bytes of the new name and one NUL at
//! the file offset of its old name: nothing before, nothing after, and the
//! image keeps its length.

use vstd::prelude::*;

use crate::dataset::{is_modified, FixPathDataView};
use crate::error::{ErrorView, FixPathError};
use crate::address::FileRange;
use crate::imports::{import_at, name_window, ImportView};
use crate::plan::{
    changes_view, lemma_plan_entries, plan_of, plan_view, ChangeImport, ChangeImportView,
    MakeChangeSet, RequestView,
};
use crate::text::{bytes_of, lemma_leading_name_of, lemma_text_round_trip, nul_free, terminated, terminated_bytes};

verus! {

/// Bytes to put at a file offset.
#[derive(Debug, Clone, PartialEq, Eq)]
pub struct PatchWrite {
    /// File offset of the first byte to overwrite.
    pub abs_address: u32,
    /// What to write there.
    pub bytes: Vec<u8>,
}

/// The mathematical content of a [`PatchWrite`].
pub ghost struct PatchWriteView {
    pub abs_address: u32,
    pub bytes: Seq<u8>,
}

impl View for PatchWrite {
    type V = PatchWriteView;

    open spec fn view(&self) -> PatchWriteView {
        PatchWriteView { abs_address: self.abs_address, bytes: self.bytes@ }
    }
}

/// The contents of a list of writes.
pub open spec fn writes_view(writes: Seq<PatchWrite>) -> Seq<PatchWriteView> {
    Seq::new(writes.len(), |i: int| writes[i]@)
}

/// The contents of an outcome without a value.
pub open spec fn outcome_view(outcome: Result<(), FixPathError>) -> Result<(), ErrorView> {
    match outcome {
        Ok(_) => Ok(()),
        Err(e) => Err(e@),
    }
}

/// An entry is written exactly when the name it holds is not yet the new one.
pub open spec fn needs_write(change: ChangeImportView) -> bool {
    change.old_dll_name != change.new_dll_name
}

/// What is written for an entry: the new name and its terminator, at the
/// offset of the entry's name.
pub open spec fn write_of(change: ChangeImportView) -> PatchWriteView {
    PatchWriteView { abs_address: change.abs_address, bytes: terminated(change.new_dll_name) }
}

/// The writes of a change set: one for each entry that needs one, in order.
pub open spec fn writes_of(changes: Seq<ChangeImportView>) -> Seq<PatchWriteView>
    decreases changes.len(),
{
    if changes.len() == 0 {
        Seq::empty()
    } else if needs_write(changes.last()) {
        writes_of(changes.drop_last()).push(write_of(changes.last()))
    } else {
        writes_of(changes.drop_last())
    }
}

/// The entries of a change set that are written: those that need a write,
/// in order.
pub open spec fn applied_of(changes: Seq<ChangeImportView>) -> Seq<ChangeImportView>
    decreases changes.len(),
{
    if changes.len() == 0 {
        Seq::empty()
    } else if needs_write(changes.last()) {
        applied_of(changes.drop_last()).push(changes.last())
    } else {
        applied_of(changes.drop_last())
    }
}

/// The image with `bytes` in place of what it held from `at` on. Every other
/// byte stays, and so does the length.
pub open spec fn write_at(image: Seq<u8>, at: int, bytes: Seq<u8>) -> Seq<u8> {
    Seq::new(
        image.len(),
        |i: int|
            if at <= i < at + bytes.len() {
                bytes[i - at]
            } else {
                image[i]
            },
    )
}

/// The write lies inside an image of `length` bytes.
pub open spec fn fits_image(length: int, write: PatchWriteView) -> bool {
    write.abs_address + write.bytes.len() <= length
}

/// The image after all of `writes`, one after another.
pub open spec fn patched(image: Seq<u8>, writes: Seq<PatchWriteView>) -> Seq<u8>
    decreases writes.len(),
{
    if writes.len() == 0 {
        image
    } else {
        write_at(
            patched(image, writes.drop_last()),
            writes.last().abs_address as int,
            writes.last().bytes,
        )
    }
}

/// `at` is the first of `writes` that does not lie inside the image.
pub open spec fn is_first_misfit(length: int, writes: Seq<PatchWriteView>, at: int) -> bool {
    &&& 0 <= at < writes.len()
    &&& !fits_image(length, writes[at])
    &&& forall|i: int| 0 <= i < at ==> fits_image(length, #[trigger] writes[i])
}

/// The first of `writes` that does not lie inside the image, where one does not.
pub open spec fn first_misfit(length: int, writes: Seq<PatchWriteView>) -> Option<int> {
    if exists|at: int| is_first_misfit(length, writes, at) {
        Some(choose|at: int| is_first_misfit(length, writes, at))
    } else {
        None
    }
}

/// What applying `writes` to an image gives: the image after them, and
/// success, where all of them lie inside it; and else the image after those
/// before the first that does not, and that one as the failure. What was
/// written before a failure stays written.
pub open spec fn apply_of(image: Seq<u8>, writes: Seq<PatchWriteView>) -> (Seq<u8>, Result<(), ErrorView>) {
    match first_misfit(image.len() as int, writes) {
        None => (patched(image, writes), Ok(())),
        Some(at) => (
            patched(image, writes.take(at)),
            Err(
                ErrorView::WriteOutsideImage {
                    abs_address: writes[at].abs_address as int,
                    length: writes[at].bytes.len() as int,
                },
            ),
        ),
    }
}

/// What carrying a change set out on an image gives: the image after the
/// writes of the set, and the entries written, where every write lies inside
/// the image; and else what [`apply_of`] gives for the writes of the set.
pub open spec fn patch_of(image: Seq<u8>, changes: Seq<ChangeImportView>) -> (
    Seq<u8>,
    Result<Seq<ChangeImportView>, ErrorView>,
) {
    match apply_of(image, writes_of(changes)) {
        (patched, Ok(_)) => (patched, Ok(applied_of(changes))),
        (patched, Err(e)) => (patched, Err(e)),
    }
}

/// There is at most one first misfit.
proof fn lemma_first_misfit_unique(length: int, writes: Seq<PatchWriteView>, at: int)
    requires
        is_first_misfit(length, writes, at),
    ensures
        first_misfit(length, writes) == Some(at),
{
    let chosen = choose|at: int| is_first_misfit(length, writes, at);
    assert(is_first_misfit(length, writes, chosen));
    if chosen < at {
        assert(fits_image(length, writes[chosen]));
    } else if at < chosen {
        assert(fits_image(length, writes[at]));
    }
}

/// Patching keeps the length of the image.
pub proof fn lemma_patched_length(image: Seq<u8>, writes: Seq<PatchWriteView>)
    ensures
        patched(image, writes).len() == image.len(),
    decreases writes.len(),
{
    if writes.len() > 0 {
        lemma_patched_length(image, writes.drop_last());
    }
}

impl ChangeImport {
    /// Tells whether the entry is written: whether the name it holds differs
    /// from the new one.
    pub fn needs_write(&self) -> (needed: bool)
        ensures
            needed == needs_write(self@),
    {
        !(self.old_dll_name == self.new_dll_name)
    }

    /// Tells whether the change puts the recorded name back.
    pub fn restores_original(&self) -> (restores: bool)
        ensures
            restores == (self@.original_dll_name == self@.new_dll_name),
    {
        self.original_dll_name == self.new_dll_name
    }

    /// The write that carries the change out.
    pub fn patch_write(&self) -> (write: PatchWrite)
        ensures
            write@ == write_of(self@),
    {
        PatchWrite { abs_address: self.abs_address, bytes: terminated_bytes(&self.new_dll_name) }
    }
}

/// Lists the writes that carry a change set out: one for each entry whose
/// name is not yet the new one, in the order of the entries.
pub fn write_plan(changes: &MakeChangeSet) -> (writes: Vec<PatchWrite>)
    ensures
        writes_view(writes@) == writes_of(changes@),
{
    let mut writes: Vec<PatchWrite> = Vec::new();
    let mut at: usize = 0;
    proof {
        assert(changes@.take(0) == Seq::<ChangeImportView>::empty());
        assert(writes_view(writes@) == Seq::<PatchWriteView>::empty());
    }
    while at < changes.dll_changes.len()
        invariant
            at <= changes.dll_changes.len(),
            writes_view(writes@) == writes_of(changes@.take(at as int)),
        decreases changes.dll_changes.len() - at,
    {
        let change = &changes.dll_changes[at];
        let ghost before = writes_view(writes@);
        proof {
            let next = changes@.take(at + 1);
            assert(next.drop_last() == changes@.take(at as int));
            assert(next.last() == change@);
        }
        if change.needs_write() {
            let write = change.patch_write();
            writes.push(write);
            proof {
                assert(writes_view(writes@) == before.push(write@));
            }
        } else {
            proof {
                assert(writes_view(writes@) == before);
            }
        }
        at = at + 1;
    }
    proof {
        assert(changes@.take(at as int) == changes@);
    }
    writes
}

/// Puts `bytes` into the image from `at` on.
fn overwrite(image: &mut Vec<u8>, at: usize, bytes: &Vec<u8>)
    requires
        at + bytes.len() <= old(image).len(),
    ensures
        final(image)@ == write_at(old(image)@, at as int, bytes@),
{
    let mut done: usize = 0;
    while done < bytes.len()
        invariant
            done <= bytes.len(),
            at + bytes.len() <= image.len(),
            image@ == write_at(old(image)@, at as int, bytes@.take(done as int)),
        decreases bytes.len() - done,
    {
        image.set(at + done, bytes[done]);
        done = done + 1;
        proof {
            assert(image@ == write_at(old(image)@, at as int, bytes@.take(done as int)));
        }
    }
    proof {
        assert(bytes@.take(done as int) == bytes@);
    }
}

/// Applies `writes` to an image held in memory, one after another.
///
/// Fails with `WriteOutsideImage` at the first write that would reach past
/// the end of the image; the writes before it have been made, that one and
/// those after it have not.
pub fn apply_writes(image: &mut Vec<u8>, writes: &Vec<PatchWrite>) -> (outcome: Result<
    (),
    FixPathError,
>)
    ensures
        (final(image)@, outcome_view(outcome)) == apply_of(old(image)@, writes_view(writes@)),
{
    let ghost all = writes_view(writes@);
    let ghost length = image.len() as int;
    let mut at: usize = 0;
    proof {
        assert(all.take(0) == Seq::<PatchWriteView>::empty());
    }
    while at < writes.len()
        invariant
            at <= writes.len(),
            all == writes_view(writes@),
            image.len() == length,
            length == old(image).len(),
            image@ == patched(old(image)@, all.take(at as int)),
            forall|i: int| 0 <= i < at ==> fits_image(length, #[trigger] all[i]),
        decreases writes.len() - at,
    {
        let write = &writes[at];
        let start: usize = write.abs_address as usize;
        if write.bytes.len() > image.len() || start > image.len() - write.bytes.len() {
            proof {
                assert(all[at as int] == write@);
                lemma_first_misfit_unique(length, all, at as int);
            }
            return Err(
                FixPathError::WriteOutsideImage {
                    abs_address: write.abs_address,
                    length: write.bytes.len(),
                },
            );
        }
        overwrite(image, start, &write.bytes);
        proof {
            let next = all.take(at + 1);
            assert(next.drop_last() == all.take(at as int));
            assert(next.last() == write@);
        }
        at = at + 1;
    }
    proof {
        assert(all.take(at as int) == all);
        assert(first_misfit(length, all) is None);
    }
    Ok(())
}

/// Lists the entries of a change set that are written: those whose name is
/// not yet the new one, in order.
pub fn applied_changes(changes: &MakeChangeSet) -> (applied: MakeChangeSet)
    ensures
        applied@ == applied_of(changes@),
{
    let mut dll_changes: Vec<ChangeImport> = Vec::new();
    let mut at: usize = 0;
    proof {
        assert(changes@.take(0) == Seq::<ChangeImportView>::empty());
        assert(changes_view(dll_changes@) == Seq::<ChangeImportView>::empty());
    }
    while at < changes.dll_changes.len()
        invariant
            at <= changes.dll_changes.len(),
            changes_view(dll_changes@) == applied_of(changes@.take(at as int)),
        decreases changes.dll_changes.len() - at,
    {
        let change = &changes.dll_changes[at];
        let ghost before = changes_view(dll_changes@);
        proof {
            let next = changes@.take(at + 1);
            assert(next.drop_last() == changes@.take(at as int));
            assert(next.last() == change@);
        }
        if change.needs_write() {
            let copy = ChangeImport {
                original_dll_name: change.original_dll_name.clone(),
                old_dll_name: change.old_dll_name.clone(),
                new_dll_name: change.new_dll_name.clone(),
                abs_address: change.abs_address,
            };
            dll_changes.push(copy);
            proof {
                assert(changes_view(dll_changes@) == before.push(change@));
            }
        } else {
            proof {
                assert(changes_view(dll_changes@) == before);
            }
        }
        at = at + 1;
    }
    proof {
        assert(changes@.take(at as int) == changes@);
    }
    MakeChangeSet { dll_changes }
}

/// Carries a change set out on an image held in memory, and returns the
/// entries that were written: their old names, new names and offsets.
///
/// Fails with `WriteOutsideImage` at the first entry whose new name would
/// reach past the end of the image; the entries before it have been written.
pub fn patch_image(image: &mut Vec<u8>, changes: &MakeChangeSet) -> (outcome: Result<
    MakeChangeSet,
    FixPathError,
>)
    ensures
        (final(image)@, plan_view(outcome)) == patch_of(old(image)@, changes@),
{
    let writes = write_plan(changes);
    match apply_writes(image, &writes) {
        Ok(_) => Ok(applied_changes(changes)),
        Err(e) => Err(e),
    }
}

/// Two writes leave each other alone: they are one and the same write, or
/// they touch no byte in common.
pub open spec fn compatible(a: PatchWriteView, b: PatchWriteView) -> bool {
    ||| a == b
    ||| a.abs_address + a.bytes.len() <= b.abs_address
    ||| b.abs_address + b.bytes.len() <= a.abs_address
}

/// A write that fails has a first one that fails before or at it.
proof fn lemma_misfit_has_first(length: int, writes: Seq<PatchWriteView>, at: int)
    requires
        0 <= at < writes.len(),
        !fits_image(length, writes[at]),
    ensures
        first_misfit(length, writes) is Some,
    decreases at,
{
    if forall|i: int| 0 <= i < at ==> fits_image(length, #[trigger] writes[i]) {
        assert(is_first_misfit(length, writes, at));
    } else {
        let before = choose|i: int| 0 <= i < at && !fits_image(length, #[trigger] writes[i]);
        lemma_misfit_has_first(length, writes, before);
    }
}

/// Applying writes succeeds exactly when every one of them lies inside the
/// image, and then the image holds all of them, applied in order.
pub proof fn lemma_apply_succeeds(image: Seq<u8>, writes: Seq<PatchWriteView>)
    ensures
        apply_of(image, writes).1 is Ok <==> forall|i: int|
            0 <= i < writes.len() ==> fits_image(image.len() as int, #[trigger] writes[i]),
        apply_of(image, writes).1 is Ok ==> apply_of(image, writes).0 == patched(image, writes),
        apply_of(image, writes).0.len() == image.len(),
{
    let length = image.len() as int;
    if first_misfit(length, writes) is Some {
        let at = first_misfit(length, writes)->0;
        assert(is_first_misfit(length, writes, at));
        lemma_patched_length(image, writes.take(at));
    } else {
        assert forall|i: int| 0 <= i < writes.len() implies fits_image(
            length,
            #[trigger] writes[i],
        ) by {
            if !fits_image(length, writes[i]) {
                lemma_misfit_has_first(length, writes, i);
            }
        }
        lemma_patched_length(image, writes);
    }
}

/// Where every entry already holds its new name, nothing is written: the
/// plan of writes is empty, the image keeps every byte, and the patch
/// succeeds.
pub proof fn lemma_unchanged_names_write_nothing(image: Seq<u8>, changes: Seq<ChangeImportView>)
    requires
        forall|i: int|
            0 <= i < changes.len() ==> (#[trigger] changes[i]).old_dll_name
                == changes[i].new_dll_name,
    ensures
        writes_of(changes) == Seq::<PatchWriteView>::empty(),
        applied_of(changes) == Seq::<ChangeImportView>::empty(),
        apply_of(image, writes_of(changes)) == (image, Ok::<(), ErrorView>(())),
        patch_of(image, changes) == (
            image,
            Ok::<Seq<ChangeImportView>, ErrorView>(Seq::<ChangeImportView>::empty()),
        ),
    decreases changes.len(),
{
    if changes.len() > 0 {
        assert(!needs_write(changes.last()));
        lemma_unchanged_names_write_nothing(image, changes.drop_last());
    }
    lemma_apply_succeeds(image, Seq::<PatchWriteView>::empty());
}

/// A write puts its bytes where it says, and nowhere else.
pub proof fn lemma_write_at(image: Seq<u8>, at: int, bytes: Seq<u8>)
    requires
        0 <= at,
        at + bytes.len() <= image.len(),
    ensures
        write_at(image, at, bytes).len() == image.len(),
        write_at(image, at, bytes).subrange(at, at + bytes.len()) == bytes,
        forall|i: int|
            0 <= i < image.len() && !(at <= i < at + bytes.len()) ==> write_at(image, at, bytes)[i]
                == image[i],
{
    assert(write_at(image, at, bytes).subrange(at, at + bytes.len()) =~= bytes);
}

/// A byte that lies in the range of none of the writes is after them what
/// it was before.
pub proof fn lemma_patch_touches_only_its_writes(
    image: Seq<u8>,
    writes: Seq<PatchWriteView>,
    position: int,
)
    requires
        0 <= position < image.len(),
        forall|k: int|
            0 <= k < writes.len() ==> !((#[trigger] writes[k]).abs_address <= position
                < writes[k].abs_address + writes[k].bytes.len()),
    ensures
        patched(image, writes)[position] == image[position],
    decreases writes.len(),
{
    if writes.len() > 0 {
        let rest = writes.drop_last();
        assert forall|k: int| 0 <= k < rest.len() implies !((#[trigger] rest[k]).abs_address
            <= position < rest[k].abs_address + rest[k].bytes.len()) by {
            assert(rest[k] == writes[k]);
        }
        lemma_patch_touches_only_its_writes(image, rest, position);
        lemma_patched_length(image, rest);
        assert(!(writes[writes.len() - 1].abs_address <= position < writes[writes.len()
            - 1].abs_address + writes[writes.len() - 1].bytes.len()));
    }
}

/// Every write of a change set whose entries all get the name `to` carries
/// that name and its terminator, and nothing else.
pub proof fn lemma_writes_carry_new_name(changes: Seq<ChangeImportView>, to: Seq<char>)
    requires
        forall|i: int| 0 <= i < changes.len() ==> (#[trigger] changes[i]).new_dll_name == to,
    ensures
        forall|k: int|
            0 <= k < writes_of(changes).len() ==> (#[trigger] writes_of(changes)[k]).bytes
                == terminated(to),
    decreases changes.len(),
{
    if changes.len() > 0 {
        let rest = changes.drop_last();
        assert forall|i: int| 0 <= i < rest.len() implies (#[trigger] rest[i]).new_dll_name
            == to by {
            assert(rest[i] == changes[i]);
        }
        lemma_writes_carry_new_name(rest, to);
        assert(changes[changes.len() - 1].new_dll_name == to);
        assert forall|k: int| 0 <= k < writes_of(changes).len() implies (#[trigger] writes_of(
            changes,
        )[k]).bytes == terminated(to) by {
            if k < writes_of(rest).len() {
                assert(writes_of(changes)[k] == writes_of(rest)[k]);
            }
        }
    }
}

/// No planned write outgrows the slot reserved for a name: every write of
/// a plan is the new name and its terminator, which together take no more
/// bytes than the metadata reserves.
pub proof fn lemma_planned_writes_stay_in_slot(data: FixPathDataView, request: RequestView)
    requires
        data.consistent(),
        plan_of(data, request) is Ok,
    ensures
        forall|k: int|
            0 <= k < writes_of(plan_of(data, request)->Ok_0).len() ==> {
                &&& (#[trigger] writes_of(plan_of(data, request)->Ok_0)[k]).bytes == terminated(
                    request.to,
                )
                &&& writes_of(plan_of(data, request)->Ok_0)[k].bytes.len()
                    <= data.info.fix_path_size
            },
{
    lemma_plan_entries(data, request);
    lemma_writes_carry_new_name(plan_of(data, request)->Ok_0, request.to);
}

/// After the writes of a change set, a written entry's slot holds the bytes
/// written for it, where every write lies inside the image and none of the
/// other writes of the set touches the slot with other bytes.
proof fn lemma_written_slot(image: Seq<u8>, changes: Seq<ChangeImportView>, at: int)
    requires
        0 <= at < changes.len(),
        needs_write(changes[at]),
        forall|i: int|
            0 <= i < changes.len() && needs_write(#[trigger] changes[i]) ==> fits_image(
                image.len() as int,
                write_of(changes[i]),
            ),
        forall|i: int|
            0 <= i < changes.len() && needs_write(#[trigger] changes[i]) ==> compatible(
                write_of(changes[at]),
                write_of(changes[i]),
            ),
    ensures
        patched(image, writes_of(changes)).len() == image.len(),
        patched(image, writes_of(changes)).subrange(
            changes[at].abs_address as int,
            changes[at].abs_address + terminated(changes[at].new_dll_name).len(),
        ) == terminated(changes[at].new_dll_name),
    decreases changes.len(),
{
    let rest = changes.drop_last();
    let last = changes.last();
    let before = patched(image, writes_of(rest));
    let own = write_of(changes[at]);
    lemma_patched_length(image, writes_of(rest));
    lemma_patched_length(image, writes_of(changes));
    if needs_write(last) {
        let write = write_of(last);
        assert(writes_of(changes) == writes_of(rest).push(write));
        assert(writes_of(rest).push(write).drop_last() == writes_of(rest));
        assert(patched(image, writes_of(changes)) == write_at(
            before,
            write.abs_address as int,
            write.bytes,
        ));
        assert(fits_image(image.len() as int, write_of(changes[changes.len() - 1])));
        lemma_write_at(before, write.abs_address as int, write.bytes);
        if at < changes.len() - 1 {
            assert(rest[at] == changes[at]);
            assert forall|i: int| 0 <= i < rest.len() && needs_write(#[trigger] rest[i]) implies {
                &&& fits_image(image.len() as int, write_of(rest[i]))
                &&& compatible(write_of(rest[at]), write_of(rest[i]))
            } by {
                assert(rest[i] == changes[i]);
            }
            lemma_written_slot(image, rest, at);
            assert(compatible(own, write_of(changes[changes.len() - 1])));
            let after = patched(image, writes_of(changes));
            let from = own.abs_address as int;
            assert(after.subrange(from, from + own.bytes.len()) =~= own.bytes) by {
                assert forall|i: int| 0 <= i < own.bytes.len() implies after[from + i]
                    == own.bytes[i] by {
                    assert(before.subrange(from, from + own.bytes.len())[i] == before[from + i]);
                }
            }
        }
    } else {
        assert(writes_of(changes) == writes_of(rest));
        assert(rest[at] == changes[at]);
        assert forall|i: int| 0 <= i < rest.len() && needs_write(#[trigger] rest[i]) implies {
            &&& fits_image(image.len() as int, write_of(rest[i]))
            &&& compatible(write_of(rest[at]), write_of(rest[i]))
        } by {
            assert(rest[i] == changes[i]);
        }
        lemma_written_slot(image, rest, at);
    }
}

/// All writes of a change set lie inside an image exactly when the write of
/// every entry that needs one does.
proof fn lemma_writes_of_entries(length: int, changes: Seq<ChangeImportView>)
    ensures
        (forall|k: int|
            0 <= k < writes_of(changes).len() ==> fits_image(
                length,
                #[trigger] writes_of(changes)[k],
            )) <==> (forall|i: int|
            0 <= i < changes.len() && needs_write(#[trigger] changes[i]) ==> fits_image(
                length,
                write_of(changes[i]),
            )),
    decreases changes.len(),
{
    if changes.len() > 0 {
        let rest = changes.drop_last();
        let last = changes.last();
        lemma_writes_of_entries(length, rest);
        let all_writes_fit = forall|k: int|
            0 <= k < writes_of(changes).len() ==> fits_image(
                length,
                #[trigger] writes_of(changes)[k],
            );
        let all_entries_fit = forall|i: int|
            0 <= i < changes.len() && needs_write(#[trigger] changes[i]) ==> fits_image(
                length,
                write_of(changes[i]),
            );
        if all_writes_fit {
            assert forall|i: int|
                0 <= i < changes.len() && needs_write(#[trigger] changes[i]) implies fits_image(
                length,
                write_of(changes[i]),
            ) by {
                if i < changes.len() - 1 {
                    assert forall|k: int| 0 <= k < writes_of(rest).len() implies fits_image(
                        length,
                        #[trigger] writes_of(rest)[k],
                    ) by {
                        assert(writes_of(rest)[k] == writes_of(changes)[k]);
                    }
                    assert(rest[i] == changes[i]);
                    assert(needs_write(rest[i]));
                } else {
                    assert(writes_of(changes)[writes_of(changes).len() - 1] == write_of(last));
                }
            }
        }
        if all_entries_fit {
            assert forall|i: int| 0 <= i < rest.len() && needs_write(#[trigger] rest[i]) implies fits_image(
                length,
                write_of(rest[i]),
            ) by {
                assert(rest[i] == changes[i]);
            }
            assert forall|k: int| 0 <= k < writes_of(changes).len() implies fits_image(
                length,
                #[trigger] writes_of(changes)[k],
            ) by {
                if k < writes_of(rest).len() {
                    assert(writes_of(changes)[k] == writes_of(rest)[k]);
                } else {
                    assert(needs_write(changes[changes.len() - 1]));
                    assert(writes_of(changes)[k] == write_of(last));
                }
            }
        }
    }
}

/// Reading back what was written. After a patch that succeeded, the entry
/// `at` of the change set, if it was written, reads as its new name: a
/// descriptor whose name address lies at the entry's offset, in a section
/// that reaches past the name and its terminator, stands for an import of
/// the new name at that offset. A listing shows it as modified exactly when
/// the new name is another than the recorded one.
///
/// This holds of a new name without a NUL in it, and of a change set in
/// which no other written entry's slot overlaps this one, unless it is the
/// same slot with the same new name.
pub proof fn lemma_patched_entry_reads_new_name(
    image: Seq<u8>,
    changes: Seq<ChangeImportView>,
    at: int,
    range: FileRange,
)
    requires
        0 <= at < changes.len(),
        needs_write(changes[at]),
        patch_of(image, changes).1 is Ok,
        nul_free(bytes_of(changes[at].new_dll_name)),
        forall|i: int|
            0 <= i < changes.len() && needs_write(#[trigger] changes[i]) ==> compatible(
                write_of(changes[at]),
                write_of(changes[i]),
            ),
        range.offset == changes[at].abs_address,
        range.size >= terminated(changes[at].new_dll_name).len(),
    ensures
        import_at(patch_of(image, changes).0, Some(range)) == Some(
            ImportView {
                dll_name: changes[at].new_dll_name,
                abs_address: changes[at].abs_address,
            },
        ),
        is_modified(
            changes[at].original_dll_name,
            import_at(patch_of(image, changes).0, Some(range))->0.dll_name,
        ) <==> changes[at].original_dll_name != changes[at].new_dll_name,
{
    let writes = writes_of(changes);
    let after = apply_of(image, writes).0;
    let name = bytes_of(changes[at].new_dll_name);
    let written = terminated(changes[at].new_dll_name);
    let from = changes[at].abs_address as int;
    lemma_apply_succeeds(image, writes);
    lemma_writes_of_entries(image.len() as int, changes);
    lemma_written_slot(image, changes, at);
    assert(fits_image(image.len() as int, write_of(changes[at])));
    let window = name_window(after, range);
    assert(after.subrange(from, from + written.len())[name.len() as int] == written[name.len() as int]);
    assert(window.take(name.len() as int) =~= name) by {
        assert forall|i: int| 0 <= i < name.len() implies window[i] == name[i] by {
            assert(after.subrange(from, from + written.len())[i] == written[i]);
        }
    }
    lemma_leading_name_of(window, name);
    lemma_text_round_trip(changes[at].new_dll_name);
}

} // verus!
