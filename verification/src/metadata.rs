//! Reader of the `.fixPath` section: a fixed header of four little-endian
//! 32-bit fields, then two tables of NUL-terminated names, the first for the
//! ordinary imports and the second for the delay-loaded ones.

use vstd::prelude::*;
use vstd::utf8::{decode_utf8, valid_utf8};

use crate::error::{ErrorView, FixPathError};
use crate::image::SectionHeader;
use crate::text::{
    decode_text, le_u32_at, leading_name, lemma_leading_name, lemma_leading_name_of, nul_free,
    read_le_u32, read_leading_name,
};

verus! {

/// Number of bytes of the fixed header.
pub const HEADER_SIZE: usize = 16;

/// The fixed header at the start of the section.
#[derive(Debug, Clone, Copy, PartialEq, Eq, Structural)]
pub struct FixDataHeader {
    /// Layout version of the section.
    pub version: u32,
    /// Bytes reserved for each name in the import tables, terminator included.
    pub fix_path_size: u32,
    /// Bytes taken by the table of ordinary import names.
    pub idata_name_table_size: u32,
    /// Bytes taken by the table of delay-load import names.
    pub didata_name_table_size: u32,
}

/// What the section records: the header's version and capacity, and the two
/// lists of names as they were at link time.
#[derive(Debug, Clone, PartialEq, Eq)]
pub struct FixPathSectionInfo {
    pub version: u32,
    pub fix_path_size: u32,
    pub idata_entries: Vec<String>,
    pub didata_entries: Vec<String>,
}

/// The mathematical content of a [`FixPathSectionInfo`].
pub ghost struct SectionInfoView {
    pub version: u32,
    pub fix_path_size: u32,
    pub idata_entries: Seq<Seq<char>>,
    pub didata_entries: Seq<Seq<char>>,
}

/// The texts of a list of strings.
pub open spec fn names_view(names: Seq<String>) -> Seq<Seq<char>> {
    Seq::new(names.len(), |i: int| names[i]@)
}

impl View for FixPathSectionInfo {
    type V = SectionInfoView;

    open spec fn view(&self) -> SectionInfoView {
        SectionInfoView {
            version: self.version,
            fix_path_size: self.fix_path_size,
            idata_entries: names_view(self.idata_entries@),
            didata_entries: names_view(self.didata_entries@),
        }
    }
}

/// The header that the first sixteen bytes of `section` spell, where there
/// are that many.
pub open spec fn header_of(section: Seq<u8>) -> Option<FixDataHeader> {
    if section.len() < HEADER_SIZE {
        None
    } else {
        Some(
            FixDataHeader {
                version: le_u32_at(section, 0) as u32,
                fix_path_size: le_u32_at(section, 4) as u32,
                idata_name_table_size: le_u32_at(section, 8) as u32,
                didata_name_table_size: le_u32_at(section, 12) as u32,
            },
        )
    }
}

/// The names of a table: each runs up to the next NUL, and the last NUL is
/// the table's last byte. A table with bytes after its last NUL has no names.
pub open spec fn split_names(table: Seq<u8>) -> Option<Seq<Seq<u8>>>
    decreases table.len(),
{
    if table.len() == 0 {
        Some(Seq::empty())
    } else {
        match leading_name(table) {
            Some(name) => prepend(name, split_names(table.skip(name.len() as int + 1))),
            None => None,
        }
    }
}

/// `first` put in front of the names in `rest`, where there are any.
pub open spec fn prepend(first: Seq<u8>, rest: Option<Seq<Seq<u8>>>) -> Option<Seq<Seq<u8>>> {
    match rest {
        Some(names) => Some(seq![first] + names),
        None => None,
    }
}

/// The texts that `names` spell, where every one of them is valid UTF-8.
pub open spec fn texts_of(names: Seq<Seq<u8>>) -> Option<Seq<Seq<char>>> {
    if forall|i: int| 0 <= i < names.len() ==> valid_utf8(#[trigger] names[i]) {
        Some(Seq::new(names.len(), |i: int| decode_utf8(names[i])))
    } else {
        None
    }
}

/// The names that a table records, as text.
pub open spec fn table_names(table: Seq<u8>) -> Option<Seq<Seq<char>>> {
    match split_names(table) {
        Some(names) => texts_of(names),
        None => None,
    }
}

/// What a section records, where its header is complete, both tables lie
/// inside it and each is a run of NUL-terminated UTF-8 names that fills its
/// declared size exactly.
pub open spec fn section_info_of(section: Seq<u8>) -> Option<SectionInfoView> {
    match header_of(section) {
        None => None,
        Some(header) => {
            let idata_end = HEADER_SIZE + header.idata_name_table_size;
            let didata_end = idata_end + header.didata_name_table_size;
            if didata_end > section.len() {
                None
            } else {
                match (
                    table_names(section.subrange(HEADER_SIZE as int, idata_end)),
                    table_names(section.subrange(idata_end, didata_end)),
                ) {
                    (Some(idata_entries), Some(didata_entries)) => Some(
                        SectionInfoView {
                            version: header.version,
                            fix_path_size: header.fix_path_size,
                            idata_entries,
                            didata_entries,
                        },
                    ),
                    _ => None,
                }
            }
        },
    }
}

/// The table that records `names`: each of them followed by one NUL.
pub open spec fn join_names(names: Seq<Seq<u8>>) -> Seq<u8>
    decreases names.len(),
{
    if names.len() == 0 {
        Seq::empty()
    } else {
        names.first().push(0u8) + join_names(names.drop_first())
    }
}

/// Reading a table gives back the names it was written from: the table
/// that records names without a NUL in them splits into exactly those names.
pub proof fn lemma_split_inverts_join(names: Seq<Seq<u8>>)
    requires
        forall|i: int| 0 <= i < names.len() ==> nul_free(#[trigger] names[i]),
    ensures
        split_names(join_names(names)) == Some(names),
    decreases names.len(),
{
    if names.len() > 0 {
        let first = names.first();
        let rest = names.drop_first();
        let table = join_names(names);
        assert(nul_free(names[0]));
        assert(table.take(first.len() as int) == first);
        lemma_leading_name_of(table, first);
        assert(table.skip(first.len() as int + 1) == join_names(rest));
        assert forall|i: int| 0 <= i < rest.len() implies nul_free(#[trigger] rest[i]) by {
            assert(rest[i] == names[i + 1]);
        }
        lemma_split_inverts_join(rest);
        assert(seq![first] + rest == names);
    }
}

/// Every byte of a table belongs to a name or ends one: the names that a
/// table splits into hold no NUL, and written out again, each with its
/// NUL, they give the table back.
pub proof fn lemma_join_inverts_split(table: Seq<u8>)
    ensures
        split_names(table) matches Some(names) ==> join_names(names) == table && forall|i: int|
            0 <= i < names.len() ==> nul_free(#[trigger] names[i]),
    decreases table.len(),
{
    if table.len() > 0 && split_names(table) is Some {
        lemma_leading_name(table);
        let name = leading_name(table)->0;
        let tail = table.skip(name.len() as int + 1);
        lemma_join_inverts_split(tail);
        let rest = split_names(tail)->0;
        let names = seq![name] + rest;
        assert(names.first() == name);
        assert(names.drop_first() == rest);
        assert(name.push(0u8) + tail == table);
        assert forall|i: int| 0 <= i < names.len() implies nul_free(#[trigger] names[i]) by {
            if i > 0 {
                assert(names[i] == rest[i - 1]);
            }
        }
    }
}

/// Where the names before a position are known, the names of the whole table
/// are those followed by the names of what is left.
spec fn names_so_far(done: Seq<Seq<u8>>, rest: Option<Seq<Seq<u8>>>) -> Option<Seq<Seq<u8>>> {
    match rest {
        Some(names) => Some(done + names),
        None => None,
    }
}

/// Reads the fixed header at the start of `section`.
pub fn parse_header(section: &[u8]) -> (header: Option<FixDataHeader>)
    ensures
        header == header_of(section@),
{
    if section.len() < HEADER_SIZE {
        return None;
    }
    Some(
        FixDataHeader {
            version: read_le_u32(section, 0),
            fix_path_size: read_le_u32(section, 4),
            idata_name_table_size: read_le_u32(section, 8),
            didata_name_table_size: read_le_u32(section, 12),
        },
    )
}

/// Reads the table of names that fills `[start, end)` of `section`.
fn read_names_in(section: &[u8], start: usize, end: usize) -> (names: Result<
    Vec<String>,
    FixPathError,
>)
    requires
        start <= end <= section.len(),
    ensures
        match names {
            Ok(list) => table_names(section@.subrange(start as int, end as int)) == Some(
                names_view(list@),
            ),
            Err(e) => e == FixPathError::MalformedMetadataSection && table_names(
                section@.subrange(start as int, end as int),
            ) is None,
        },
{
    let ghost table = section@.subrange(start as int, end as int);
    let mut list: Vec<String> = Vec::new();
    let ghost mut done: Seq<Seq<u8>> = Seq::empty();
    let mut at: usize = start;
    proof {
        assert(Seq::<Seq<u8>>::empty() + split_names(table)->0 == split_names(table)->0);
    }
    while at < end
        invariant
            start <= at <= end <= section.len(),
            table == section@.subrange(start as int, end as int),
            split_names(table) == names_so_far(
                done,
                split_names(section@.subrange(at as int, end as int)),
            ),
            done.len() == list.len(),
            forall|i: int| 0 <= i < done.len() ==> valid_utf8(#[trigger] done[i]),
            forall|i: int| 0 <= i < done.len() ==> (#[trigger] list[i])@ == decode_utf8(done[i]),
        decreases end - at,
    {
        let ghost rest = section@.subrange(at as int, end as int);
        let raw = match read_leading_name(section, at, end) {
            Some(raw) => raw,
            None => {
                return Err(FixPathError::MalformedMetadataSection);
            },
        };
        let next: usize = at + raw.len() + 1;
        let ghost tail = split_names(section@.subrange(next as int, end as int));
        proof {
            lemma_leading_name(rest);
            assert(rest.skip(raw@.len() as int + 1) == section@.subrange(next as int, end as int));
            if tail is Some {
                assert(done + (seq![raw@] + tail->0) == done.push(raw@) + tail->0);
            }
            assert(split_names(table) == names_so_far(done.push(raw@), tail));
            if tail is Some && !valid_utf8(raw@) {
                let all = done.push(raw@) + tail->0;
                assert(all[done.len() as int] == raw@);
                assert(texts_of(all) is None);
            }
        }
        match decode_text(raw) {
            Some(name) => {
                list.push(name);
                proof {
                    done = done.push(raw@);
                }
            },
            None => {
                return Err(FixPathError::MalformedMetadataSection);
            },
        }
        at = next;
    }
    proof {
        assert(section@.subrange(at as int, end as int).len() == 0);
        assert(done + Seq::<Seq<u8>>::empty() == done);
        assert(split_names(table) == Some(done));
        assert(texts_of(done)->0 == names_view(list@));
    }
    Ok(list)
}

/// Reads a table of names: a run of NUL-terminated UTF-8 strings that fills
/// `table` exactly.
///
/// Fails with `MalformedMetadataSection` where the table does not end on a
/// NUL, or where a name is not valid UTF-8.
pub fn read_name_table(table: &[u8]) -> (names: Result<Vec<String>, FixPathError>)
    ensures
        match names {
            Ok(list) => table_names(table@) == Some(names_view(list@)),
            Err(e) => e == FixPathError::MalformedMetadataSection && table_names(table@) is None,
        },
{
    assert(table@.subrange(0, table@.len() as int) == table@);
    read_names_in(table, 0, table.len())
}

/// Reads a whole `.fixPath` section: the header, then the table of ordinary
/// import names, then the table of delay-load import names.
///
/// Fails with `MalformedMetadataSection` where the header is incomplete, a
/// table reaches past the end of `section`, a table does not end on a NUL,
/// or a name is not valid UTF-8.
pub fn parse_section(section: &[u8]) -> (info: Result<FixPathSectionInfo, FixPathError>)
    ensures
        match info {
            Ok(found) => section_info_of(section@) == Some(found@),
            Err(e) => e == FixPathError::MalformedMetadataSection && section_info_of(section@)
                is None,
        },
{
    let header = match parse_header(section) {
        Some(header) => header,
        None => {
            return Err(FixPathError::MalformedMetadataSection);
        },
    };
    let length: u64 = section.len() as u64;
    let idata_end: u64 = HEADER_SIZE as u64 + header.idata_name_table_size as u64;
    let didata_end: u64 = idata_end + header.didata_name_table_size as u64;
    if didata_end > length {
        return Err(FixPathError::MalformedMetadataSection);
    }
    let idata_entries = read_names_in(section, HEADER_SIZE, idata_end as usize)?;
    let didata_entries = read_names_in(section, idata_end as usize, didata_end as usize)?;
    Ok(
        FixPathSectionInfo {
            version: header.version,
            fix_path_size: header.fix_path_size,
            idata_entries,
            didata_entries,
        },
    )
}

/// The name field of the metadata section: the eight bytes of `.fixPath`.
pub open spec fn metadata_section_name() -> Seq<u8> {
    seq![0x2eu8, 0x66u8, 0x69u8, 0x78u8, 0x50u8, 0x61u8, 0x74u8, 0x68u8]
}

/// `at` is the first section whose name field is that of the metadata section.
pub open spec fn is_metadata_section(sections: Seq<SectionHeader>, at: int) -> bool {
    &&& 0 <= at < sections.len()
    &&& sections[at].name@ == metadata_section_name()
    &&& forall|i: int| 0 <= i < at ==> (#[trigger] sections[i]).name@ != metadata_section_name()
}

/// Position of the metadata section in the table: that of the first section
/// named `.fixPath`, where there is one.
pub open spec fn metadata_index(sections: Seq<SectionHeader>) -> Option<int> {
    if exists|at: int| is_metadata_section(sections, at) {
        Some(choose|at: int| is_metadata_section(sections, at))
    } else {
        None
    }
}

/// What the metadata of an image records, given its section table. The
/// section's content is what the file holds from the section's raw-data
/// pointer on, for as many bytes as the section takes in the file; an image
/// that ends before then does not hold the section.
pub open spec fn metadata_of(image: Seq<u8>, sections: Seq<SectionHeader>) -> Result<
    SectionInfoView,
    ErrorView,
> {
    match metadata_index(sections) {
        None => Err(ErrorView::MetadataSectionMissing),
        Some(at) => {
            let start = sections[at].pointer_to_raw_data as int;
            let end = start + sections[at].size_of_raw_data;
            if end > image.len() {
                Err(ErrorView::MalformedMetadataSection)
            } else {
                match section_info_of(image.subrange(start, end)) {
                    Some(info) => Ok(info),
                    None => Err(ErrorView::MalformedMetadataSection),
                }
            }
        },
    }
}

/// The contents of what reading the metadata returns.
pub open spec fn metadata_view(read: Result<FixPathSectionInfo, FixPathError>) -> Result<
    SectionInfoView,
    ErrorView,
> {
    match read {
        Ok(info) => Ok(info@),
        Err(e) => Err(e@),
    }
}

/// There is at most one first section of the name.
proof fn lemma_metadata_section_unique(sections: Seq<SectionHeader>, at: int)
    requires
        is_metadata_section(sections, at),
    ensures
        metadata_index(sections) == Some(at),
{
    let chosen = choose|at: int| is_metadata_section(sections, at);
    assert(is_metadata_section(sections, chosen));
    if chosen < at {
        assert(sections[chosen].name@ != metadata_section_name());
    } else if at < chosen {
        assert(sections[at].name@ != metadata_section_name());
    }
}

/// Tells whether a section header carries the name `.fixPath`.
fn has_metadata_name(header: &SectionHeader) -> (named: bool)
    ensures
        named == (header.name@ == metadata_section_name()),
{
    let name = &header.name;
    let named = name[0] == 0x2e && name[1] == 0x66 && name[2] == 0x69 && name[3] == 0x78
        && name[4] == 0x50 && name[5] == 0x61 && name[6] == 0x74 && name[7] == 0x68;
    proof {
        if named {
            assert(header.name@ =~= metadata_section_name());
        }
    }
    named
}

/// Finds the metadata section in a section table: the position of the first
/// section named `.fixPath`.
pub fn locate_section(sections: &Vec<SectionHeader>) -> (found: Option<usize>)
    ensures
        match found {
            Some(at) => metadata_index(sections@) == Some(at as int) && at < sections.len(),
            None => metadata_index(sections@) is None,
        },
{
    let mut at: usize = 0;
    while at < sections.len()
        invariant
            at <= sections.len(),
            forall|i: int| 0 <= i < at ==> (#[trigger] sections[i]).name@ != metadata_section_name(),
        decreases sections.len() - at,
    {
        if has_metadata_name(&sections[at]) {
            proof {
                lemma_metadata_section_unique(sections@, at as int);
            }
            return Some(at);
        }
        at = at + 1;
    }
    None
}

/// Reads the metadata of an image, given its section table.
///
/// Fails with `MetadataSectionMissing` where no section is named `.fixPath`,
/// and with `MalformedMetadataSection` where that section reaches past the
/// end of the image or does not hold what its header announces.
pub fn read_metadata(image: &[u8], sections: &Vec<SectionHeader>) -> (read: Result<
    FixPathSectionInfo,
    FixPathError,
>)
    ensures
        metadata_view(read) == metadata_of(image@, sections@),
{
    let at = match locate_section(sections) {
        Some(at) => at,
        None => {
            return Err(FixPathError::MetadataSectionMissing);
        },
    };
    let start: u64 = sections[at].pointer_to_raw_data as u64;
    let end: u64 = start + sections[at].size_of_raw_data as u64;
    if end > image.len() as u64 {
        return Err(FixPathError::MalformedMetadataSection);
    }
    let section = vstd::slice::slice_subrange(image, start as usize, end as usize);
    parse_section(section)
}

} // verus!
