//! Resolution of a relative virtual address to a file offset. An address
//! lies in the first section of the table whose bytes in the file cover it,
//! as far from the section's first byte in the file as it is in memory.

use vstd::prelude::*;

use crate::image::SectionHeader;

verus! {

/// Where the bytes of a relative virtual address lie in the file.
#[derive(Debug, Clone, Copy, PartialEq, Eq, Structural)]
pub struct FileRange {
    /// File offset of the address.
    pub offset: u32,
    /// Bytes from there to the end of the section that holds the address.
    pub size: u32,
}

/// Bytes of a section that are both in the file and in memory: the smaller
/// of its two sizes.
pub open spec fn bytes_in_file(section: SectionHeader) -> int {
    if section.virtual_size < section.size_of_raw_data {
        section.virtual_size as int
    } else {
        section.size_of_raw_data as int
    }
}

/// Where `address` lies in the file, if `section` holds it: the address is
/// not before the section, is nearer to its start than the section has
/// bytes in the file, and its file offset fits in 32 bits.
pub open spec fn section_range_at(section: SectionHeader, address: u32) -> Option<FileRange> {
    let inside = address - section.virtual_address;
    if 0 <= inside < bytes_in_file(section) && section.pointer_to_raw_data + inside <= u32::MAX {
        Some(
            FileRange {
                offset: (section.pointer_to_raw_data + inside) as u32,
                size: (bytes_in_file(section) - inside) as u32,
            },
        )
    } else {
        None
    }
}

/// Where `address` lies in the file: in the first section that holds it.
pub open spec fn file_range_in(sections: Seq<SectionHeader>, address: u32) -> Option<FileRange>
    decreases sections.len(),
{
    if sections.len() == 0 {
        None
    } else {
        match section_range_at(sections.first(), address) {
            Some(range) => Some(range),
            None => file_range_in(sections.drop_first(), address),
        }
    }
}

/// A resolved address keeps its distance from the start of its section,
/// and the range that comes with it ends where the section's bytes in the
/// file end.
pub proof fn lemma_section_range(section: SectionHeader, address: u32)
    ensures
        section_range_at(section, address) matches Some(range) ==> {
            &&& section.virtual_address <= address
            &&& range.offset - section.pointer_to_raw_data == address - section.virtual_address
            &&& range.size > 0
            &&& range.offset + range.size == section.pointer_to_raw_data + bytes_in_file(section)
        },
{
}

/// `at` is the first section of the table that holds `address`.
pub open spec fn is_first_holder(sections: Seq<SectionHeader>, address: u32, at: int) -> bool {
    &&& 0 <= at < sections.len()
    &&& section_range_at(sections[at], address) is Some
    &&& forall|i: int| 0 <= i < at ==> section_range_at(#[trigger] sections[i], address) is None
}

/// An address that no section holds lies nowhere in the file, and one that
/// some section holds lies where the first of them puts it.
pub proof fn lemma_file_range(sections: Seq<SectionHeader>, address: u32)
    ensures
        match file_range_in(sections, address) {
            None => forall|i: int|
                0 <= i < sections.len() ==> section_range_at(#[trigger] sections[i], address)
                    is None,
            Some(range) => exists|at: int|
                #[trigger] is_first_holder(sections, address, at) && section_range_at(
                    sections[at],
                    address,
                ) == Some(range),
        },
    decreases sections.len(),
{
    if sections.len() > 0 {
        let rest = sections.drop_first();
        lemma_file_range(rest, address);
        if section_range_at(sections.first(), address) is None {
            assert forall|i: int| 0 <= i < rest.len() implies rest[i] == sections[i + 1] by {}
            if file_range_in(rest, address) is Some {
                let at = choose|at: int|
                    #[trigger] is_first_holder(rest, address, at) && section_range_at(
                        rest[at],
                        address,
                    ) == file_range_in(rest, address);
                assert forall|i: int| 0 <= i < at + 1 implies section_range_at(
                    #[trigger] sections[i],
                    address,
                ) is None by {
                    if i > 0 {
                        assert(sections[i] == rest[i - 1]);
                    }
                }
                assert(is_first_holder(sections, address, at + 1));
            } else {
                assert forall|i: int| 0 <= i < sections.len() implies section_range_at(
                    #[trigger] sections[i],
                    address,
                ) is None by {
                    if i > 0 {
                        assert(sections[i] == rest[i - 1]);
                    }
                }
            }
        } else {
            assert(is_first_holder(sections, address, 0));
        }
    }
}

/// Resolves `address` within one section.
pub fn section_file_range_at(section: &SectionHeader, address: u32) -> (range: Option<FileRange>)
    ensures
        range == section_range_at(*section, address),
{
    let size: u32 = if section.virtual_size < section.size_of_raw_data {
        section.virtual_size
    } else {
        section.size_of_raw_data
    };
    if address < section.virtual_address {
        return None;
    }
    let inside: u32 = address - section.virtual_address;
    if inside >= size || inside > u32::MAX - section.pointer_to_raw_data {
        return None;
    }
    Some(FileRange { offset: section.pointer_to_raw_data + inside, size: size - inside })
}

/// Resolves `address` to a file offset, with the number of bytes that
/// follow it in its section.
pub fn file_range_at(sections: &Vec<SectionHeader>, address: u32) -> (range: Option<FileRange>)
    ensures
        range == file_range_in(sections@, address),
{
    let mut at: usize = 0;
    proof {
        assert(sections@.skip(0) == sections@);
    }
    while at < sections.len()
        invariant
            at <= sections.len(),
            file_range_in(sections@, address) == file_range_in(sections@.skip(at as int), address),
        decreases sections.len() - at,
    {
        proof {
            assert(sections@.skip(at as int).first() == sections@[at as int]);
            assert(sections@.skip(at as int).drop_first() == sections@.skip(at + 1));
        }
        match section_file_range_at(&sections[at], address) {
            Some(range) => {
                return Some(range);
            },
            None => {},
        }
        at = at + 1;
    }
    None
}

} // verus!
