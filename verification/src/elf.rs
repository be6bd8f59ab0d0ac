//! Sections of the executable, looked up by name, and its loadable
//! segments.

use object::Object;
use object::ObjectSection;
use object::ObjectSegment;
use vstd::prelude::*;

verus! {

/// A section of an object file.
#[derive(Debug)]
pub struct SectionData {
    /// The section's bytes, uncompressed.
    pub bytes: Vec<u8>,
    /// The address at which the section is to be loaded.
    pub address: u64,
}

/// What the `object` crate finds under a section name in the bytes of an
/// object file: the section's bytes, uncompressed, and its address; or
/// nothing where the bytes are no object file, hold no such section, or its
/// bytes cannot be had.
pub uninterp spec fn elf_section(file: Seq<u8>, name: Seq<char>) -> Option<(Seq<u8>, u64)>;

/// `object::File::parse`, then `section_by_name`, and `uncompressed_data`
/// and `address` of what it found: the answer depends on the file's bytes
/// and the name alone and is named by `elf_section`.
#[verifier::external_body]
pub(crate) fn find_section(file: &[u8], name: &str) -> (found: Option<SectionData>)
    ensures
        match found {
            Some(section) => elf_section(file@, name@) == Some((section.bytes@, section.address)),
            None => elf_section(file@, name@) is None,
        },
{
    let parsed = object::File::parse(file).ok()?;
    let section = parsed.section_by_name(name)?;
    let bytes = section.uncompressed_data().ok()?.into_owned();
    Some(SectionData { bytes, address: section.address() })
}

/// The link-time addresses of the loadable segments that the `object` crate
/// finds in the bytes of an object file, in the order of the file's program
/// headers; none where the bytes are no object file.
pub uninterp spec fn elf_segments(file: Seq<u8>) -> Seq<u64>;

/// `object::File::parse`, then `segments`, and `address` of each segment:
/// the answer depends on the file's bytes alone and is named by
/// `elf_segments`.
#[verifier::external_body]
pub(crate) fn segment_addresses(file: &[u8]) -> (addresses: Vec<u64>)
    ensures
        addresses@ == elf_segments(file@),
{
    match object::File::parse(file) {
        Ok(parsed) => parsed.segments().map(|segment| segment.address()).collect(),
        Err(_) => Vec::new(),
    }
}

} // verus!
