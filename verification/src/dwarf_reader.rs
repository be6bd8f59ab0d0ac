//! Reads the compilation units out of the debug sections of an executable.
//!
//! The decoding is `gimli`'s. Its handles are opaque to the proofs of this
//! library, and of each of its calls this is taken on trust: that the
//! result depends on the arguments alone. Each such result has a name, and
//! what is read is stated over those names: which calls are made, in which
//! order, and what is kept of each result. Every loop over them is bounded
//! by the size of the section it reads.
//!
//! One step of `gimli` can overflow: that through the rows of a line program
//! which steps the line number back by the least 64-bit number. It is taken
//! on trust, too, that a line program is read from the bytes of the
//! `.debug_line` section that was loaded; no line program is stepped through
//! where that section holds the number.

use std::sync::Arc;
use vstd::prelude::*;
use crate::elf::{elf_section, find_section};
use crate::dwarf_records::{
    attr_views,
    die_views,
    slot_view,
    slot_views,
    text_of,
    unit_views,
    AttrModel,
    AttrRecord,
    DieModel,
    DieRecord,
    FileModel,
    FileRecord,
    LineProgramModel,
    LineProgramRecord,
    RowRecord,
    UnitModel,
    UnitRecord,
    DW_TAG_SUBPROGRAM,
};

verus! {

/// A section of the executable by its name.
#[derive(Debug)]
pub struct NamedSection {
    /// The section's name.
    pub name: String,
    /// The section's bytes, uncompressed.
    pub bytes: Vec<u8>,
}

/// A section as a plain value.
pub struct SectionModel {
    pub name: Seq<char>,
    pub bytes: Seq<u8>,
}

impl View for NamedSection {
    type V = SectionModel;

    open spec fn view(&self) -> SectionModel {
        SectionModel { name: self.name@, bytes: self.bytes@ }
    }
}

/// The plain values of the sections, in their order.
pub open spec fn section_contents(sections: Seq<NamedSection>) -> Seq<SectionModel> {
    sections.map_values(|section: NamedSection| section@)
}

/// The index of the first of the first `n` sections that is named `name`;
/// -1 if there is none.
pub open spec fn content_index(contents: Seq<SectionModel>, name: Seq<char>, n: int) -> int
    decreases n,
{
    if n <= 0 {
        -1
    } else {
        let earlier = content_index(contents, name, n - 1);
        if earlier >= 0 {
            earlier
        } else if contents[n - 1].name == name {
            n - 1
        } else {
            -1
        }
    }
}

/// The bytes of the first of the sections that is named `name`; none where
/// there is no such section.
pub open spec fn content_bytes(contents: Seq<SectionModel>, name: Seq<char>) -> Seq<u8> {
    let index = content_index(contents, name, contents.len() as int);
    if index >= 0 {
        contents[index].bytes
    } else {
        Seq::empty()
    }
}

/// A section is found among sections where it is found among their plain
/// values.
pub proof fn lemma_content_index(sections: Seq<NamedSection>, name: Seq<char>, n: int)
    requires
        0 <= n <= sections.len(),
    ensures
        content_index(section_contents(sections), name, n) == section_index(sections, name, n),
    decreases n,
{
    if n > 0 {
        lemma_content_index(sections, name, n - 1);
    }
}

/// The sections hold under a name what their plain values hold under it.
pub proof fn lemma_content_bytes(sections: Seq<NamedSection>, name: Seq<char>)
    ensures
        content_bytes(section_contents(sections), name) == section_bytes(sections, name),
{
    lemma_content_index(sections, name, sections.len() as int);
    lemma_section_index(sections, name, sections.len() as int);
}

/// The sections that an object file has among the first `k` of the names of
/// `debug_section_names`, in the order of the names.
pub open spec fn sections_found(file: Seq<u8>, k: int) -> Seq<SectionModel>
    decreases k,
{
    if k <= 0 {
        Seq::empty()
    } else {
        let earlier = sections_found(file, k - 1);
        let name = debug_section_names()[k - 1];
        match elf_section(file, name) {
            Some((bytes, _)) => earlier.push(SectionModel { name: name, bytes: bytes }),
            None => earlier,
        }
    }
}

/// The debug sections of an object file as plain values.
pub open spec fn debug_sections_of(file: Seq<u8>) -> Seq<SectionModel> {
    sections_found(file, debug_section_names().len() as int)
}

/// The debug sections of an executable.
#[derive(Debug)]
pub struct DebugSections {
    /// The sections that the executable has, each once.
    pub sections: Vec<NamedSection>,
}

/// The index of the first of the first `n` sections that is named `name`;
/// -1 if there is none.
pub open spec fn section_index(sections: Seq<NamedSection>, name: Seq<char>, n: int) -> int
    decreases n,
{
    if n <= 0 {
        -1
    } else {
        let earlier = section_index(sections, name, n - 1);
        if earlier >= 0 {
            earlier
        } else if sections[n - 1].name@ == name {
            n - 1
        } else {
            -1
        }
    }
}

/// Once `section_index` has found a section, it finds the same one among
/// more sections.
pub proof fn lemma_section_index_stays(sections: Seq<NamedSection>, name: Seq<char>, n: int, m: int)
    requires
        0 <= n <= m,
        section_index(sections, name, n) >= 0,
    ensures
        section_index(sections, name, m) == section_index(sections, name, n),
    decreases m - n,
{
    if n < m {
        lemma_section_index_stays(sections, name, n, m - 1);
    }
}

impl DebugSections {
    /// The bytes of the section `name`: those of the first section of that
    /// name, none where there is no such section.
    pub open spec fn bytes(&self, name: Seq<char>) -> Seq<u8> {
        section_bytes(self.sections@, name)
    }

    /// The bytes of the section `name`.
    pub fn bytes_of(&self, name: &str) -> (bytes: &[u8])
        ensures
            bytes@ == self.bytes(name@),
    {
        let wanted = name.to_owned();
        let mut i: usize = 0;
        while i < self.sections.len()
            invariant
                i <= self.sections@.len(),
                wanted@ == name@,
                section_index(self.sections@, name@, i as int) < 0,
            decreases self.sections@.len() - i,
        {
            if self.sections[i].name == wanted {
                proof {
                    lemma_section_index_stays(
                        self.sections@,
                        name@,
                        i as int + 1,
                        self.sections@.len() as int,
                    );
                }
                return self.sections[i].bytes.as_slice();
            }
            i = i + 1;
        }
        let none: &[u8] = &[];
        assert(none@ =~= Seq::<u8>::empty());
        none
    }

    /// Adds the section `name` of the object file `file`, where the file has
    /// one.
    fn take(&mut self, file: &[u8], name: &str)
        requires
            taken_from(old(self).sections@, file@),
        ensures
            taken_from(final(self).sections@, file@),
            has_section(final(self).sections@, file@, name@),
            final(self).sections@.len() <= old(self).sections@.len() + 1,
            section_contents(final(self).sections@) == (match elf_section(file@, name@) {
                Some((bytes, _)) => section_contents(old(self).sections@).push(
                    SectionModel { name: name@, bytes: bytes },
                ),
                None => section_contents(old(self).sections@),
            }),
            forall|other: Seq<char>|
                has_section(old(self).sections@, file@, other) ==> has_section(
                    final(self).sections@,
                    file@,
                    other,
                ),
    {
        let ghost before = self.sections@;
        if let Some(section) = find_section(file, name) {
            self.sections.push(NamedSection { name: name.to_owned(), bytes: section.bytes });
            assert(self.sections@[before.len() as int].name@ == name@);
            assert(section_contents(self.sections@) =~= section_contents(before).push(
                SectionModel { name: name@, bytes: section.bytes@ },
            ));
            assert forall|other: Seq<char>| has_section(before, file@, other) implies has_section(
                self.sections@,
                file@,
                other,
            ) by {
                if elf_section(file@, other) is Some {
                    let i = choose|i: int| 0 <= i < before.len() && (#[trigger] before[i]).name@ == other;
                    assert(self.sections@[i].name@ == other);
                }
            }
        }
    }

    /// The debug sections of the object file `file`: each section that
    /// `debug_section_names` lists and the file has, with the bytes that the file
    /// has under that name.
    pub fn load(file: &[u8]) -> (sections: DebugSections)
        ensures
            section_contents(sections.sections@) == debug_sections_of(file@),
            taken_from(sections.sections@, file@),
            forall|k: int|
                0 <= k < debug_section_names().len() ==> sections.bytes(
                    #[trigger] debug_section_names()[k],
                ) == found_bytes(file@, debug_section_names()[k]),
    {
        let mut sections = DebugSections { sections: Vec::new() };
        assert(section_contents(sections.sections@) =~= sections_found(file@, 0));
        let mut taken: usize = 0;
        while taken < DEBUG_SECTION_COUNT
            invariant
                taken <= DEBUG_SECTION_COUNT,
                taken_from(sections.sections@, file@),
                section_contents(sections.sections@) == sections_found(file@, taken as int),
                forall|k: int|
                    0 <= k < taken ==> has_section(
                        sections.sections@,
                        file@,
                        #[trigger] debug_section_names()[k],
                    ),
            decreases DEBUG_SECTION_COUNT - taken,
        {
            let ghost before = sections.sections@;
            sections.take(file, debug_section_name(taken));
            assert forall|k: int| 0 <= k < taken + 1 implies has_section(
                sections.sections@,
                file@,
                #[trigger] debug_section_names()[k],
            ) by {
                if k < taken {
                    assert(has_section(before, file@, debug_section_names()[k]));
                }
            }
            taken = taken + 1;
        }
        proof {
            assert forall|k: int| 0 <= k < debug_section_names().len() implies sections.bytes(
                #[trigger] debug_section_names()[k],
            ) == found_bytes(file@, debug_section_names()[k]) by {
                let name = debug_section_names()[k];
                assert(has_section(sections.sections@, file@, name));
                lemma_taken_bytes(sections.sections@, file@, name);
            }
        }
        sections
    }
}

/// How many sections hold debug information.
pub const DEBUG_SECTION_COUNT: usize = 16;

/// The name of the section at a place among those that hold debug
/// information.
fn debug_section_name(place: usize) -> (name: &'static str)
    requires
        place < DEBUG_SECTION_COUNT,
    ensures
        name@ == debug_section_names()[place as int],
{
    if place == 0 {
        ".debug_abbrev"
    } else if place == 1 {
        ".debug_addr"
    } else if place == 2 {
        ".debug_aranges"
    } else if place == 3 {
        ".debug_info"
    } else if place == 4 {
        ".debug_line"
    } else if place == 5 {
        ".debug_line_str"
    } else if place == 6 {
        ".debug_loc"
    } else if place == 7 {
        ".debug_loclists"
    } else if place == 8 {
        ".debug_macinfo"
    } else if place == 9 {
        ".debug_macro"
    } else if place == 10 {
        ".debug_names"
    } else if place == 11 {
        ".debug_ranges"
    } else if place == 12 {
        ".debug_rnglists"
    } else if place == 13 {
        ".debug_str"
    } else if place == 14 {
        ".debug_str_offsets"
    } else {
        ".debug_types"
    }
}

/// The names of the sections that hold debug information.
pub open spec fn debug_section_names() -> Seq<Seq<char>> {
    seq![
        ".debug_abbrev"@,
        ".debug_addr"@,
        ".debug_aranges"@,
        ".debug_info"@,
        ".debug_line"@,
        ".debug_line_str"@,
        ".debug_loc"@,
        ".debug_loclists"@,
        ".debug_macinfo"@,
        ".debug_macro"@,
        ".debug_names"@,
        ".debug_ranges"@,
        ".debug_rnglists"@,
        ".debug_str"@,
        ".debug_str_offsets"@,
        ".debug_types"@,
    ]
}

/// The bytes that an object file has under a section name; none where it
/// has no such section.
pub open spec fn found_bytes(file: Seq<u8>, name: Seq<char>) -> Seq<u8> {
    match elf_section(file, name) {
        Some((bytes, _)) => bytes,
        None => Seq::empty(),
    }
}

/// Whether each of the sections holds the bytes that the object file has
/// under the section's name.
pub open spec fn taken_from(sections: Seq<NamedSection>, file: Seq<u8>) -> bool {
    forall|i: int|
        0 <= i < sections.len() ==> elf_section(file, (#[trigger] sections[i]).name@) is Some
            && found_bytes(file, sections[i].name@) == sections[i].bytes@
}

/// Whether the sections have the section `name` if the object file has it.
pub open spec fn has_section(sections: Seq<NamedSection>, file: Seq<u8>, name: Seq<char>) -> bool {
    elf_section(file, name) is Some ==> exists|i: int|
        0 <= i < sections.len() && (#[trigger] sections[i]).name@ == name
}

/// What `section_index` finds is named as asked, and where it finds
/// nothing, no section is.
pub proof fn lemma_section_index(sections: Seq<NamedSection>, name: Seq<char>, n: int)
    requires
        0 <= n <= sections.len(),
    ensures
        -1 <= section_index(sections, name, n) < n,
        section_index(sections, name, n) >= 0 ==> sections[section_index(sections, name, n)].name@
            == name,
        section_index(sections, name, n) < 0 ==> forall|i: int|
            0 <= i < n ==> (#[trigger] sections[i]).name@ != name,
    decreases n,
{
    if n > 0 {
        lemma_section_index(sections, name, n - 1);
    }
}

/// Sections that were taken from an object file, the section `name` among
/// them if the file has it, hold under `name` what the file has under it.
pub proof fn lemma_taken_bytes(sections: Seq<NamedSection>, file: Seq<u8>, name: Seq<char>)
    requires
        taken_from(sections, file),
        has_section(sections, file, name),
    ensures
        section_bytes(sections, name) == found_bytes(file, name),
{
    lemma_section_index(sections, name, sections.len() as int);
    let index = section_index(sections, name, sections.len() as int);
    if index >= 0 {
        assert(found_bytes(file, sections[index].name@) == sections[index].bytes@);
    } else if elf_section(file, name) is Some {
        let i = choose|i: int| 0 <= i < sections.len() && (#[trigger] sections[i]).name@ == name;
        assert(sections[i].name@ != name);
    }
}

/// The bytes of the first of the sections that is named `name`; none where
/// there is no such section.
pub open spec fn section_bytes(sections: Seq<NamedSection>, name: Seq<char>) -> Seq<u8> {
    let index = section_index(sections, name, sections.len() as int);
    if index >= 0 {
        sections[index].bytes@
    } else {
        Seq::empty()
    }
}

/// The debug information of an executable as `gimli` holds it.
#[verifier::external_body]
pub struct DwarfFile {
    dwarf: gimli::Dwarf<gimli::EndianArcSlice<gimli::RunTimeEndian>>,
}

/// `gimli`'s place in the list of the units of an executable.
#[verifier::external_body]
pub struct UnitCursor {
    headers: gimli::DebugInfoUnitHeadersIter<gimli::EndianArcSlice<gimli::RunTimeEndian>>,
}

/// A compilation unit as `gimli` holds it.
#[verifier::external_body]
pub struct UnitHandle {
    unit: gimli::Unit<gimli::EndianArcSlice<gimli::RunTimeEndian>>,
}

/// `gimli`'s place in the rows of a line program.
#[verifier::external_body]
pub struct RowCursor {
    rows: gimli::LineRows<
        gimli::EndianArcSlice<gimli::RunTimeEndian>,
        gimli::IncompleteLineProgram<gimli::EndianArcSlice<gimli::RunTimeEndian>>,
    >,
}

/// `gimli`'s place in the entries of a unit.
#[verifier::external_body]
pub struct DieCursor<'a> {
    entries: gimli::EntriesCursor<'a, gimli::EndianArcSlice<gimli::RunTimeEndian>>,
}

/// The value of an attribute as `gimli` holds it.
#[verifier::external_body]
pub struct ValueHandle {
    value: gimli::AttributeValue<gimli::EndianArcSlice<gimli::RunTimeEndian>>,
}

/// What came of the step to the next unit.
pub enum UnitStep {
    /// There is no further unit.
    End,
    /// The list of units cannot be read any further.
    Broken,
    /// There is a unit, and it cannot be read.
    Unreadable,
    /// The next unit.
    Unit(UnitHandle),
}

/// What came of the step to the next row.
pub enum RowStep {
    /// There is no further row.
    End,
    /// The line program cannot be read any further.
    Broken,
    /// The next row.
    Row(RowRecord),
}

/// What came of the step to the next entry.
pub enum EntryStep {
    /// There is no further entry.
    End,
    /// The entries cannot be read any further.
    Broken,
    /// The next entry: its tag and the number of its attributes.
    Entry { tag: u16, attrs: usize },
}

/// An entry of a file table as `gimli` holds it.
pub struct FileFacts {
    pub directory_index: u64,
    pub directory: Option<ValueHandle>,
    pub name: ValueHandle,
}

/// An attribute as `gimli` holds it.
pub struct AttrFacts {
    pub name: u16,
    pub unsigned: Option<u64>,
    pub value: ValueHandle,
}

/// A step along the units: what came of it, and where the cursor stands
/// after it.
pub struct UnitAdvance {
    pub step: UnitStep,
    pub after: UnitCursor,
}

/// A step along the rows: what came of it, and where the cursor stands
/// after it.
pub struct RowAdvance {
    pub step: RowStep,
    pub after: RowCursor,
}

/// A step along the entries: what came of it, and where the cursor stands
/// after it.
pub struct EntryAdvance<'a> {
    pub step: EntryStep,
    pub after: DieCursor<'a>,
}

/// What `Dwarf::load` makes of sections with these names and bytes.
pub uninterp spec fn loaded_dwarf(sections: Seq<SectionModel>) -> Option<DwarfFile>;

/// Where `Dwarf::units` starts in a file.
pub uninterp spec fn unit_cursor(file: DwarfFile) -> UnitCursor;

/// What the step from a place in the list of units to the next unit of a
/// file comes to.
pub uninterp spec fn unit_advance(cursor: UnitCursor, file: DwarfFile) -> UnitAdvance;

/// The version in the header of a unit.
pub uninterp spec fn unit_version_of(unit: UnitHandle) -> u16;

/// The compilation directory of a unit as text, where it names one.
pub uninterp spec fn unit_comp_dir_of(unit: UnitHandle) -> Option<Seq<char>>;

/// Where the rows of a unit's line program start, where it has one.
pub uninterp spec fn row_cursor(unit: UnitHandle) -> Option<RowCursor>;

/// What the step from a place in the rows to the next row comes to.
pub uninterp spec fn row_advance(cursor: RowCursor) -> RowAdvance;

/// How many files the header of a unit's line program names.
pub uninterp spec fn file_count_of(unit: UnitHandle) -> usize;

/// The file that a file index names in a unit's line program.
pub uninterp spec fn file_facts(unit: UnitHandle, index: u64) -> Option<FileFacts>;

/// The value of an attribute as text, where its form allows that reading.
pub uninterp spec fn value_text_of(file: DwarfFile, unit: UnitHandle, value: ValueHandle) -> Option<
    Seq<char>,
>;

/// The value of an attribute as an address, where its form allows that
/// reading.
pub uninterp spec fn value_address_of(file: DwarfFile, unit: UnitHandle, value: ValueHandle) -> Option<
    u64,
>;

/// Where the entries of a unit start.
pub uninterp spec fn die_cursor(unit: &UnitHandle) -> DieCursor<'_>;

/// What the step from a place in the entries to the next entry comes to.
pub uninterp spec fn entry_advance(cursor: DieCursor<'_>) -> EntryAdvance<'_>;

/// The attribute at a place among the attributes of the entry at which a
/// cursor stands.
pub uninterp spec fn attr_facts(cursor: DieCursor<'_>, index: usize) -> Option<AttrFacts>;

/// The bytes of the `.debug_line` section that a loaded file holds.
pub uninterp spec fn file_line_bytes(file: DwarfFile) -> Seq<u8>;

/// The bytes of the `.debug_line` section of the file that a unit was read
/// from; the unit's line program, where it has one, lies within them.
pub uninterp spec fn unit_line_bytes(unit: UnitHandle) -> Seq<u8>;

/// The bytes of the `.debug_line` section from which the steps from a place
/// in the rows of a line program read.
pub uninterp spec fn cursor_line_bytes(cursor: RowCursor) -> Seq<u8>;

/// The one way to write the least 64-bit number as a signed LEB128 number:
/// nine bytes that go on with nothing set, and the byte that ends it.
pub open spec fn least_operand() -> Seq<u8> {
    seq![0x80u8, 0x80u8, 0x80u8, 0x80u8, 0x80u8, 0x80u8, 0x80u8, 0x80u8, 0x80u8, 0x7fu8]
}

/// Whether the least 64-bit number stands written at a place in the bytes.
pub open spec fn least_operand_at(bytes: Seq<u8>, at: int) -> bool {
    0 <= at && at + 10 <= bytes.len() && bytes.subrange(at, at + 10) == least_operand()
}

/// Whether the least 64-bit number stands written anywhere in the bytes. A
/// line program among such bytes may ask to step back by that number of
/// lines, which is more than a line number can be stepped back.
pub open spec fn has_least_operand(bytes: Seq<u8>) -> bool {
    exists|at: int| least_operand_at(bytes, at)
}

/// Whether the least 64-bit number stands written at `at`.
fn is_least_operand(bytes: &[u8], at: usize) -> (is: bool)
    requires
        at + 10 <= bytes@.len(),
    ensures
        is == least_operand_at(bytes@, at as int),
{
    let len = bytes.len();
    let mut k: usize = 0;
    while k < 10
        invariant
            k <= 10,
            at + 10 <= len,
            len == bytes@.len(),
            forall|j: int| 0 <= j < k ==> bytes@[at + j] == least_operand()[j],
        decreases 10 - k,
    {
        let wanted: u8 = if k < 9 {
            0x80
        } else {
            0x7f
        };
        if bytes[at + k] != wanted {
            assert(bytes@.subrange(at as int, at + 10)[k as int] != least_operand()[k as int]);
            return false;
        }
        k = k + 1;
    }
    assert(bytes@.subrange(at as int, at + 10) =~= least_operand());
    true
}

/// Whether the least 64-bit number stands written anywhere in the bytes.
pub fn holds_least_operand(bytes: &[u8]) -> (found: bool)
    ensures
        found == has_least_operand(bytes@),
{
    if bytes.len() < 10 {
        return false;
    }
    let last = bytes.len() - 10;
    let mut at: usize = 0;
    while at <= last
        invariant
            at <= last + 1,
            last + 10 <= usize::MAX,
            last + 10 == bytes@.len(),
            forall|a: int| 0 <= a < at ==> !least_operand_at(bytes@, a),
        decreases last + 1 - at,
    {
        if is_least_operand(bytes, at) {
            return true;
        }
        at = at + 1;
    }
    false
}

/// `Dwarf::load` with little-endian readers over the bytes of the sections:
/// what comes back depends on the names and bytes of the sections alone and
/// is named by `loaded_dwarf`. The file holds, as its `.debug_line`, the
/// bytes that the sections have under that name.
#[verifier::external_body]
fn open_dwarf(sections: &DebugSections) -> (opened: Option<DwarfFile>)
    ensures
        opened == loaded_dwarf(section_contents(sections.sections@)),
        opened matches Some(file) ==> file_line_bytes(file) == sections.bytes(".debug_line"@),
{
    let loaded = gimli::Dwarf::load(|id| -> Result<_, ()> {
        let bytes: Arc<[u8]> = Arc::from(sections.bytes_of(id.name()));
        Ok(gimli::EndianArcSlice::new(bytes, gimli::RunTimeEndian::Little))
    });
    loaded.ok().map(|dwarf| DwarfFile { dwarf })
}

/// `Dwarf::units`: the cursor depends on the file alone and is named by
/// `unit_cursor`.
#[verifier::external_body]
fn units_of(file: &DwarfFile) -> (cursor: UnitCursor)
    ensures
        cursor == unit_cursor(*file),
{
    UnitCursor { headers: file.dwarf.units() }
}

/// `DebugInfoUnitHeadersIter::next`, then `Dwarf::unit` on the header it
/// found: what comes back, and where the cursor stands afterwards, depend on
/// the cursor and the file alone and are named by `unit_advance`. The line
/// program of a unit lies within the `.debug_line` of its file.
#[verifier::external_body]
fn next_unit(cursor: &mut UnitCursor, file: &DwarfFile) -> (step: UnitStep)
    ensures
        step == unit_advance(*old(cursor), *file).step,
        *final(cursor) == unit_advance(*old(cursor), *file).after,
        step matches UnitStep::Unit(unit) ==> unit_line_bytes(unit) == file_line_bytes(*file),
{
    match cursor.headers.next() {
        Ok(Some(header)) => match file.dwarf.unit(header) {
            Ok(unit) => UnitStep::Unit(UnitHandle { unit }),
            Err(_) => UnitStep::Unreadable,
        },
        Ok(None) => UnitStep::End,
        Err(_) => UnitStep::Broken,
    }
}

/// `UnitHeader::version` of the unit's header, named by `unit_version_of`.
#[verifier::external_body]
fn unit_version(unit: &UnitHandle) -> (version: u16)
    ensures
        version == unit_version_of(*unit),
{
    unit.unit.header.version()
}

/// The unit's `comp_dir` as text, by `Reader::to_string_lossy`: the text
/// depends on the unit alone and is named by `unit_comp_dir_of`.
#[verifier::external_body]
fn unit_comp_dir(unit: &UnitHandle) -> (dir: Option<String>)
    ensures
        text_of(dir) == unit_comp_dir_of(*unit),
{
    let dir = unit.unit.comp_dir.as_ref()?;
    Some(gimli::Reader::to_string_lossy(dir).ok()?.into_owned())
}

/// `IncompleteLineProgram::rows` of the unit's line program, where it has
/// one: the cursor depends on the unit alone and is named by `row_cursor`.
/// It stands within the bytes within which the line program lies.
#[verifier::external_body]
fn rows_of(unit: &UnitHandle) -> (found: Option<RowCursor>)
    ensures
        found == row_cursor(*unit),
        found matches Some(cursor) ==> cursor_line_bytes(cursor) == unit_line_bytes(*unit),
{
    unit.unit.line_program.clone().map(|program| RowCursor { rows: program.rows() })
}

/// `LineRows::next_row`: what comes back, and where the cursor stands
/// afterwards, depend on the cursor alone and are named by `row_advance`.
/// The cursor stays within its bytes.
///
/// The step negates the operand of an instruction that steps the line
/// number back, which overflows for the least 64-bit number alone. The
/// operand is a signed LEB128 number read from the bytes of the line
/// program, so the bytes must not hold that number.
#[verifier::external_body]
fn next_row(cursor: &mut RowCursor) -> (step: RowStep)
    requires
        !has_least_operand(cursor_line_bytes(*old(cursor))),
    ensures
        step == row_advance(*old(cursor)).step,
        *final(cursor) == row_advance(*old(cursor)).after,
        cursor_line_bytes(*final(cursor)) == cursor_line_bytes(*old(cursor)),
{
    match cursor.rows.next_row() {
        Ok(Some((_, row))) => RowStep::Row(RowRecord {
            address: row.address(),
            file_index: row.file_index(),
            line: row.line().map_or(0, |line| line.get()),
            column: match row.column() {
                gimli::ColumnType::LeftEdge => 0,
                gimli::ColumnType::Column(column) => column.get(),
            },
            end_sequence: row.end_sequence(),
        }),
        Ok(None) => RowStep::End,
        Err(_) => RowStep::Broken,
    }
}

/// The length of `LineProgramHeader::file_names` of the unit's line
/// program, 0 where it has none; named by `file_count_of`.
#[verifier::external_body]
fn file_count(unit: &UnitHandle) -> (count: usize)
    ensures
        count == file_count_of(*unit),
{
    unit.unit.line_program.as_ref().map_or(0, |program| program.header().file_names().len())
}

/// `LineProgramHeader::file` for a file index: what comes back depends on
/// the unit and the index alone and is named by `file_facts`.
#[verifier::external_body]
fn file_at(unit: &UnitHandle, index: u64) -> (found: Option<FileFacts>)
    ensures
        found == file_facts(*unit, index),
{
    let header = unit.unit.line_program.as_ref()?.header();
    let entry = header.file(index)?;
    Some(FileFacts {
        directory_index: entry.directory_index(),
        directory: entry.directory(header).map(|value| ValueHandle { value }),
        name: ValueHandle { value: entry.path_name() },
    })
}

/// `Dwarf::attr_string` as text, by `Reader::to_string_lossy`: the text
/// depends on the file, the unit and the value alone and is named by
/// `value_text_of`.
#[verifier::external_body]
fn value_text(file: &DwarfFile, unit: &UnitHandle, value: &ValueHandle) -> (text: Option<String>)
    ensures
        text_of(text) == value_text_of(*file, *unit, *value),
{
    let text = file.dwarf.attr_string(&unit.unit, value.value.clone()).ok()?;
    Some(gimli::Reader::to_string_lossy(&text).ok()?.into_owned())
}

/// `Dwarf::attr_address`: the address depends on the file, the unit and the
/// value alone and is named by `value_address_of`.
#[verifier::external_body]
fn value_address(file: &DwarfFile, unit: &UnitHandle, value: &ValueHandle) -> (address: Option<u64>)
    ensures
        address == value_address_of(*file, *unit, *value),
{
    file.dwarf.attr_address(&unit.unit, value.value.clone()).ok().flatten()
}

/// `Unit::entries`: the cursor depends on the unit alone and is named by
/// `die_cursor`.
#[verifier::external_body]
fn entries_of<'a>(unit: &'a UnitHandle) -> (cursor: DieCursor<'a>)
    ensures
        cursor == die_cursor(unit),
{
    DieCursor { entries: unit.unit.entries() }
}

/// `EntriesCursor::next_dfs`: what comes back, and where the cursor stands
/// afterwards, depend on the cursor alone and are named by `entry_advance`.
#[verifier::external_body]
fn next_entry<'a>(cursor: &mut DieCursor<'a>) -> (step: EntryStep)
    ensures
        step == entry_advance(*old(cursor)).step,
        *final(cursor) == entry_advance(*old(cursor)).after,
{
    match cursor.entries.next_dfs() {
        Ok(Some(entry)) => EntryStep::Entry { tag: entry.tag().0, attrs: entry.attrs().len() },
        Ok(None) => EntryStep::End,
        Err(_) => EntryStep::Broken,
    }
}

/// An attribute of the entry at which the cursor stands, by
/// `EntriesCursor::current` and `DebuggingInformationEntry::attrs`: what
/// comes back depends on the cursor and the index alone and is named by
/// `attr_facts`.
#[verifier::external_body]
fn entry_attr<'a>(cursor: &DieCursor<'a>, index: usize) -> (found: Option<AttrFacts>)
    ensures
        found == attr_facts(*cursor, index),
{
    let attr = cursor.entries.current()?.attrs().get(index)?;
    Some(AttrFacts {
        name: attr.name().0,
        unsigned: attr.udata_value(),
        value: ValueHandle { value: attr.value() },
    })
}

/// The unit that stands for one of which nothing could be read.
pub open spec fn unreadable_model() -> UnitModel {
    UnitModel {
        version: 0,
        comp_dir: None,
        line_program: None,
        entries: Seq::empty(),
        malformed: true,
    }
}

/// A unit of which nothing could be read.
fn unreadable_unit() -> (unit: UnitRecord)
    ensures
        unit@ == unreadable_model(),
        unit.entries@.len() == 0,
{
    let unit = UnitRecord {
        version: 0,
        comp_dir: None,
        line_program: None,
        entries: Vec::new(),
        malformed: true,
    };
    assert(die_views(unit.entries@) =~= Seq::<DieModel>::empty());
    unit
}

/// Rows that were read, and whether they were read to their end.
pub struct RowsRead {
    pub rows: Seq<RowRecord>,
    pub complete: bool,
}

/// The rows that at most `limit` steps from a place in the rows yield, in
/// their order, and whether the steps came to the end of the rows: they do
/// not where the rows cannot be read further, or go on behind the last
/// step.
pub open spec fn rows_read(cursor: RowCursor, limit: nat) -> RowsRead
    decreases limit,
{
    if limit == 0 {
        RowsRead { rows: Seq::empty(), complete: false }
    } else {
        let advance = row_advance(cursor);
        match advance.step {
            RowStep::Row(row) => {
                let rest = rows_read(advance.after, (limit - 1) as nat);
                RowsRead { rows: seq![row] + rest.rows, complete: rest.complete }
            },
            RowStep::End => RowsRead { rows: Seq::empty(), complete: true },
            RowStep::Broken => RowsRead { rows: Seq::empty(), complete: false },
        }
    }
}

/// Reads the rows of a line program, at most `limit` of them. The answer
/// says whether they were read to their end.
fn read_rows(cursor: &mut RowCursor, limit: usize) -> (read: (Vec<RowRecord>, bool))
    requires
        !has_least_operand(cursor_line_bytes(*old(cursor))),
    ensures
        read.0@ == rows_read(*old(cursor), limit as nat).rows,
        read.1 == rows_read(*old(cursor), limit as nat).complete,
        read.0@.len() <= limit,
{
    let ghost whole = rows_read(*cursor, limit as nat);
    let mut rows: Vec<RowRecord> = Vec::new();
    let mut left = limit;
    assert(rows@ + whole.rows =~= whole.rows);
    while left > 0
        invariant
            rows@.len() + left <= limit,
            !has_least_operand(cursor_line_bytes(*cursor)),
            whole == rows_read(*old(cursor), limit as nat),
            rows@ + rows_read(*cursor, left as nat).rows == whole.rows,
            rows_read(*cursor, left as nat).complete == whole.complete,
        decreases left,
    {
        let ghost before = rows@;
        let ghost ahead = rows_read(*cursor, left as nat);
        left = left - 1;
        match next_row(cursor) {
            RowStep::Row(row) => {
                rows.push(row);
                assert(rows@ + rows_read(*cursor, left as nat).rows =~= before + ahead.rows);
            },
            RowStep::End => {
                assert(rows@ =~= before + ahead.rows);
                return (rows, true);
            },
            RowStep::Broken => {
                assert(rows@ =~= before + ahead.rows);
                return (rows, false);
            },
        }
    }
    assert(rows@ =~= rows@ + rows_read(*cursor, 0).rows);
    (rows, false)
}

/// The text of the directory of a file of the table, where the table names
/// one and it can be read as text.
pub open spec fn directory_read(file: DwarfFile, unit: UnitHandle, facts: FileFacts) -> Option<
    Seq<char>,
> {
    match facts.directory {
        Some(value) => value_text_of(file, unit, value),
        None => None,
    }
}

/// The slot of the file table for a file index: the file that the index
/// names, with its directory and name as text; nothing where the index
/// names no file or the file's name cannot be read as text.
pub open spec fn slot_read(file: DwarfFile, unit: UnitHandle, index: u64) -> Option<FileModel> {
    match file_facts(unit, index) {
        Some(facts) => match value_text_of(file, unit, facts.name) {
            Some(name) => Some(
                FileModel {
                    directory_index: facts.directory_index,
                    directory: directory_read(file, unit, facts),
                    name: name,
                },
            ),
            None => None,
        },
        None => None,
    }
}

/// Whether the texts of the file that a file index names could be read:
/// its name, and its directory where the table names one.
pub open spec fn slot_sound(file: DwarfFile, unit: UnitHandle, index: u64) -> bool {
    match file_facts(unit, index) {
        Some(facts) => value_text_of(file, unit, facts.name) is Some && (facts.directory is Some
            ==> directory_read(file, unit, facts) is Some),
        None => true,
    }
}

/// The slots of a file table, and whether each of their texts could be
/// read.
pub struct FilesRead {
    pub slots: Seq<Option<FileModel>>,
    pub sound: bool,
}

/// The slots of the file table for the file indices below `n`.
pub open spec fn files_read(file: DwarfFile, unit: UnitHandle, n: int) -> FilesRead
    decreases n,
{
    if n <= 0 {
        FilesRead { slots: Seq::empty(), sound: true }
    } else {
        let earlier = files_read(file, unit, n - 1);
        FilesRead {
            slots: earlier.slots.push(slot_read(file, unit, (n - 1) as u64)),
            sound: earlier.sound && slot_sound(file, unit, (n - 1) as u64),
        }
    }
}

/// How many slots the file table of a line program that names `count`
/// files has: one for each file index from 0 to `count`, as far as indices
/// can be counted.
pub open spec fn slots_wanted(count: usize) -> int {
    if count < usize::MAX {
        count + 1
    } else {
        count as int
    }
}

/// Reads the file table of a unit whose line program names `count` files:
/// the slots for the file indices 0 to `count`. The answer says whether
/// each text of the table could be read.
fn read_files(file: &DwarfFile, unit: &UnitHandle, count: usize) -> (read: (
    Vec<Option<FileRecord>>,
    bool,
))
    ensures
        slot_views(read.0@) == files_read(*file, *unit, slots_wanted(count)).slots,
        read.1 == files_read(*file, *unit, slots_wanted(count)).sound,
        read.0@.len() <= count + 1,
{
    let mut files: Vec<Option<FileRecord>> = Vec::new();
    let mut sound = true;
    let mut index: usize = 0;
    assert(slot_views(files@) =~= files_read(*file, *unit, 0).slots);
    while index <= count && index < usize::MAX
        invariant
            index <= count + 1,
            index <= slots_wanted(count),
            files@.len() == index,
            slot_views(files@) == files_read(*file, *unit, index as int).slots,
            sound == files_read(*file, *unit, index as int).sound,
        decreases count + 1 - index,
    {
        let ghost before = files@;
        let slot = match file_at(unit, index as u64) {
            Some(facts) => {
                let directory = match &facts.directory {
                    Some(value) => {
                        let text = value_text(file, unit, value);
                        if text.is_none() {
                            sound = false;
                        }
                        text
                    },
                    None => None,
                };
                match value_text(file, unit, &facts.name) {
                    Some(name) => Some(
                        FileRecord { directory_index: facts.directory_index, directory, name },
                    ),
                    None => {
                        sound = false;
                        None
                    },
                }
            },
            None => None,
        };
        assert(slot_view(slot) == slot_read(*file, *unit, index as u64));
        files.push(slot);
        assert(slot_views(files@) =~= slot_views(before).push(slot_view(slot)));
        index = index + 1;
    }
    (files, sound)
}

/// An attribute with its value read as an address and as text.
pub open spec fn attr_read(file: DwarfFile, unit: UnitHandle, facts: AttrFacts) -> AttrModel {
    AttrModel {
        name: facts.name,
        address: value_address_of(file, unit, facts.value),
        unsigned: facts.unsigned,
        text: value_text_of(file, unit, facts.value),
    }
}

/// The attributes at the places below `n` of the entry at which a cursor
/// stands, each read in each way, in their order.
pub open spec fn attrs_read(file: DwarfFile, unit: UnitHandle, cursor: DieCursor<'_>, n: int) -> Seq<
    AttrModel,
>
    decreases n,
{
    if n <= 0 {
        Seq::empty()
    } else {
        let earlier = attrs_read(file, unit, cursor, n - 1);
        match attr_facts(cursor, (n - 1) as usize) {
            Some(facts) => earlier.push(attr_read(file, unit, facts)),
            None => earlier,
        }
    }
}

/// Reads the attributes of the entry at which the cursor stands.
fn read_attrs<'a>(file: &DwarfFile, unit: &UnitHandle, cursor: &DieCursor<'a>, count: usize) -> (attrs:
    Vec<AttrRecord>)
    ensures
        attr_views(attrs@) == attrs_read(*file, *unit, *cursor, count as int),
        attrs@.len() <= count,
{
    let mut attrs: Vec<AttrRecord> = Vec::new();
    let mut index: usize = 0;
    assert(attr_views(attrs@) =~= attrs_read(*file, *unit, *cursor, 0));
    while index < count
        invariant
            index <= count,
            attrs@.len() <= index,
            attr_views(attrs@) == attrs_read(*file, *unit, *cursor, index as int),
        decreases count - index,
    {
        let ghost before = attrs@;
        if let Some(facts) = entry_attr(cursor, index) {
            let record = AttrRecord {
                name: facts.name,
                address: value_address(file, unit, &facts.value),
                unsigned: facts.unsigned,
                text: value_text(file, unit, &facts.value),
            };
            assert(record@ == attr_read(*file, *unit, facts));
            attrs.push(record);
            assert(attr_views(attrs@) =~= attr_views(before).push(record@));
        }
        index = index + 1;
    }
    attrs
}

/// Whether each entry is one that describes a function.
pub open spec fn only_subprograms(entries: Seq<DieRecord>) -> bool {
    forall|i: int| 0 <= i < entries.len() ==> (#[trigger] entries[i]).tag == DW_TAG_SUBPROGRAM
}

/// Entries that were read, and whether the entries were read to their end.
pub struct EntriesRead {
    pub entries: Seq<DieModel>,
    pub complete: bool,
}

/// The entries that describe functions among those that at most `limit`
/// steps from a place in the entries yield, each with its attributes, in
/// their order; and whether the steps came to the end of the entries.
pub open spec fn entries_read(file: DwarfFile, unit: UnitHandle, cursor: DieCursor<'_>, limit: nat) -> EntriesRead
    decreases limit,
{
    if limit == 0 {
        EntriesRead { entries: Seq::empty(), complete: false }
    } else {
        let advance = entry_advance(cursor);
        match advance.step {
            EntryStep::Entry { tag, attrs } => {
                let rest = entries_read(file, unit, advance.after, (limit - 1) as nat);
                if tag == DW_TAG_SUBPROGRAM {
                    EntriesRead {
                        entries: seq![
                            DieModel {
                                tag: tag,
                                attrs: attrs_read(file, unit, advance.after, attrs as int),
                            },
                        ] + rest.entries,
                        complete: rest.complete,
                    }
                } else {
                    rest
                }
            },
            EntryStep::End => EntriesRead { entries: Seq::empty(), complete: true },
            EntryStep::Broken => EntriesRead { entries: Seq::empty(), complete: false },
        }
    }
}

/// Reads the entries of a unit that describe functions, looking at no more
/// than `limit` entries. The answer says whether the entries were read to
/// their end.
fn read_entries(file: &DwarfFile, unit: &UnitHandle, limit: usize) -> (read: (Vec<DieRecord>, bool))
    ensures
        die_views(read.0@) == entries_read(*file, *unit, die_cursor(unit), limit as nat).entries,
        read.1 == entries_read(*file, *unit, die_cursor(unit), limit as nat).complete,
        only_subprograms(read.0@),
        read.0@.len() <= limit,
{
    let mut cursor = entries_of(unit);
    let ghost whole = entries_read(*file, *unit, cursor, limit as nat);
    let mut entries: Vec<DieRecord> = Vec::new();
    let mut left = limit;
    assert(die_views(entries@) + whole.entries =~= whole.entries);
    while left > 0
        invariant
            only_subprograms(entries@),
            entries@.len() + left <= limit,
            whole == entries_read(*file, *unit, die_cursor(unit), limit as nat),
            die_views(entries@) + entries_read(*file, *unit, cursor, left as nat).entries
                == whole.entries,
            entries_read(*file, *unit, cursor, left as nat).complete == whole.complete,
        decreases left,
    {
        let ghost before = die_views(entries@);
        let ghost ahead = entries_read(*file, *unit, cursor, left as nat);
        left = left - 1;
        match next_entry(&mut cursor) {
            EntryStep::Entry { tag, attrs } => {
                if tag == DW_TAG_SUBPROGRAM {
                    let attrs = read_attrs(file, unit, &cursor, attrs);
                    let record = DieRecord { tag, attrs };
                    let ghost listed = entries@;
                    entries.push(record);
                    assert(die_views(entries@) =~= die_views(listed).push(record@));
                    assert(die_views(entries@) + entries_read(
                        *file,
                        *unit,
                        cursor,
                        left as nat,
                    ).entries =~= before + ahead.entries);
                }
            },
            EntryStep::End => {
                assert(die_views(entries@) =~= before + ahead.entries);
                return (entries, true);
            },
            EntryStep::Broken => {
                assert(die_views(entries@) =~= before + ahead.entries);
                return (entries, false);
            },
        }
    }
    assert(die_views(entries@) =~= die_views(entries@) + entries_read(
        *file,
        *unit,
        cursor,
        0,
    ).entries);
    (entries, false)
}

/// The line program of a unit, where it has one: its file table, and its
/// rows as far as at most `line_limit` steps yield them. Where the rows
/// cannot be stepped through safely (`rows_safe` is not set), none is read.
pub open spec fn program_read(
    file: DwarfFile,
    unit: UnitHandle,
    line_limit: nat,
    rows_safe: bool,
) -> Option<LineProgramModel> {
    match row_cursor(unit) {
        Some(cursor) => Some(
            LineProgramModel {
                files: files_read(file, unit, slots_wanted(file_count_of(unit))).slots,
                rows: if rows_safe {
                    rows_read(cursor, line_limit).rows
                } else {
                    Seq::empty()
                },
            },
        ),
        None => None,
    }
}

/// Whether a unit has a line program that was not read to its end, or
/// whose file table has a text that could not be read.
pub open spec fn program_broken(
    file: DwarfFile,
    unit: UnitHandle,
    line_limit: nat,
    rows_safe: bool,
) -> bool {
    match row_cursor(unit) {
        Some(cursor) => !rows_safe || !rows_read(cursor, line_limit).complete || !files_read(
            file,
            unit,
            slots_wanted(file_count_of(unit)),
        ).sound,
        None => false,
    }
}

/// A unit as it is read: its version and compilation directory, its line
/// program with at most `line_limit` rows, and those that describe functions
/// among at most `info_limit` of its entries. It is malformed where its line
/// program or its entries were not read to their end, or a text of its file
/// table could not be read.
pub open spec fn unit_read(
    file: DwarfFile,
    unit: UnitHandle,
    line_limit: nat,
    info_limit: nat,
    rows_safe: bool,
) -> UnitModel {
    let entries = entries_read(file, unit, die_cursor(&unit), info_limit);
    UnitModel {
        version: unit_version_of(unit),
        comp_dir: unit_comp_dir_of(unit),
        line_program: program_read(file, unit, line_limit, rows_safe),
        entries: entries.entries,
        malformed: program_broken(file, unit, line_limit, rows_safe) || !entries.complete,
    }
}

/// Reads one unit. A unit of which some part could not be read to its end
/// is marked as malformed. `rows_safe` says whether the rows of its line
/// program can be stepped through safely; where they cannot, none is read.
fn read_unit(
    file: &DwarfFile,
    unit: &UnitHandle,
    sections: &DebugSections,
    rows_safe: bool,
) -> (record: UnitRecord)
    requires
        rows_safe ==> !has_least_operand(unit_line_bytes(*unit)),
    ensures
        record@ == unit_read(
            *file,
            *unit,
            sections.bytes(".debug_line"@).len(),
            sections.bytes(".debug_info"@).len(),
            rows_safe,
        ),
        only_subprograms(record.entries@),
{
    let mut malformed = false;
    let line_program = match rows_of(unit) {
        Some(mut cursor) => {
            let (rows, complete) = if rows_safe {
                read_rows(&mut cursor, sections.bytes_of(".debug_line").len())
            } else {
                (Vec::new(), false)
            };
            let (files, sound) = read_files(file, unit, file_count(unit));
            if !complete || !sound {
                malformed = true;
            }
            Some(LineProgramRecord { files, rows })
        },
        None => None,
    };
    let (entries, complete) = read_entries(file, unit, sections.bytes_of(".debug_info").len());
    if !complete {
        malformed = true;
    }
    UnitRecord {
        version: unit_version(unit),
        comp_dir: unit_comp_dir(unit),
        line_program,
        entries,
        malformed,
    }
}

/// Whether the units are as `read_units` hands them out: each keeps, of its
/// entries, those that describe functions.
pub open spec fn as_read(units: Seq<UnitRecord>) -> bool {
    forall|i: int| 0 <= i < units.len() ==> only_subprograms((#[trigger] units[i]).entries@)
}

/// The units that at most `limit` steps from a place in the list of units
/// yield, in their order: each unit as it is read, and for each unit that
/// cannot be read the unit that stands for it. The list ends where there is
/// no further unit, and where it cannot be read further.
pub open spec fn units_from(
    file: DwarfFile,
    cursor: UnitCursor,
    line_limit: nat,
    info_limit: nat,
    rows_safe: bool,
    limit: nat,
) -> Seq<UnitModel>
    decreases limit,
{
    if limit == 0 {
        Seq::empty()
    } else {
        let advance = unit_advance(cursor, file);
        match advance.step {
            UnitStep::Unit(unit) => seq![unit_read(file, unit, line_limit, info_limit, rows_safe)]
                + units_from(
                file,
                advance.after,
                line_limit,
                info_limit,
                rows_safe,
                (limit - 1) as nat,
            ),
            UnitStep::Unreadable => seq![unreadable_model()] + units_from(
                file,
                advance.after,
                line_limit,
                info_limit,
                rows_safe,
                (limit - 1) as nat,
            ),
            UnitStep::End => Seq::empty(),
            UnitStep::Broken => Seq::empty(),
        }
    }
}

/// The units of the debug sections as they are read: none where the
/// sections cannot be loaded; else the units of the loaded file from its
/// first on, no more of them, and of the entries of each, than `.debug_info`
/// has bytes, and no more rows of each than `.debug_line` has bytes. No row
/// is read where `.debug_line` holds the least 64-bit number.
pub open spec fn units_read(sections: Seq<SectionModel>) -> Seq<UnitModel> {
    let line_limit = content_bytes(sections, ".debug_line"@).len();
    let info_limit = content_bytes(sections, ".debug_info"@).len();
    let rows_safe = !has_least_operand(content_bytes(sections, ".debug_line"@));
    match loaded_dwarf(sections) {
        Some(file) => units_from(
            file,
            unit_cursor(file),
            line_limit,
            info_limit,
            rows_safe,
            info_limit,
        ),
        None => Seq::empty(),
    }
}

/// The units of an object file as they are read out of its debug sections.
pub open spec fn units_of_file(file: Seq<u8>) -> Seq<UnitModel> {
    units_read(debug_sections_of(file))
}

/// Reads the compilation units out of the debug sections: for each unit its
/// version, its compilation directory, its line program with file table and
/// rows, and those of its entries that describe functions, each with its
/// attributes. A unit that cannot be read, or not to its end, is marked as
/// malformed; units behind it are still read. No unit takes more bytes than
/// its section has, so there are at most as many units as `.debug_info` has
/// bytes. Where `.debug_line` holds the least 64-bit number, whose negation
/// overflows, no line program is stepped through: its rows are not read, and
/// each unit that has a line program is marked as malformed.
pub fn read_units(sections: &DebugSections) -> (units: Vec<UnitRecord>)
    ensures
        unit_views(units@) == units_read(section_contents(sections.sections@)),
        as_read(units@),
        units@.len() <= sections.bytes(".debug_info"@).len(),
{
    let mut units: Vec<UnitRecord> = Vec::new();
    assert(unit_views(units@) =~= Seq::<UnitModel>::empty());
    proof {
        lemma_content_bytes(sections.sections@, ".debug_line"@);
        lemma_content_bytes(sections.sections@, ".debug_info"@);
    }
    let file = match open_dwarf(sections) {
        Some(file) => file,
        None => {
            return units;
        },
    };
    let mut cursor = units_of(&file);
    let rows_safe = !holds_least_operand(sections.bytes_of(".debug_line"));
    let limit = sections.bytes_of(".debug_info").len();
    let ghost line_limit = sections.bytes(".debug_line"@).len();
    let ghost info_limit = sections.bytes(".debug_info"@).len();
    let ghost whole = units_from(file, cursor, line_limit, info_limit, rows_safe, limit as nat);
    let mut left = limit;
    assert(unit_views(units@) + whole =~= whole);
    while left > 0
        invariant
            as_read(units@),
            units@.len() + left <= limit,
            limit == sections.bytes(".debug_info"@).len(),
            line_limit == sections.bytes(".debug_line"@).len(),
            info_limit == sections.bytes(".debug_info"@).len(),
            rows_safe == !has_least_operand(sections.bytes(".debug_line"@)),
            file_line_bytes(file) == sections.bytes(".debug_line"@),
            whole == units_read(section_contents(sections.sections@)),
            unit_views(units@) + units_from(file, cursor, line_limit, info_limit, rows_safe, left as nat)
                == whole,
        decreases left,
    {
        let ghost before = unit_views(units@);
        let ghost ahead = units_from(file, cursor, line_limit, info_limit, rows_safe, left as nat);
        let ghost listed = units@;
        left = left - 1;
        match next_unit(&mut cursor, &file) {
            UnitStep::Unit(unit) => {
                let record = read_unit(&file, &unit, sections, rows_safe);
                units.push(record);
                assert(unit_views(units@) =~= unit_views(listed).push(record@));
                assert(unit_views(units@) + units_from(
                    file,
                    cursor,
                    line_limit,
                    info_limit,
                    rows_safe,
                    left as nat,
                ) =~= before + ahead);
            },
            UnitStep::Unreadable => {
                let record = unreadable_unit();
                units.push(record);
                assert(unit_views(units@) =~= unit_views(listed).push(record@));
                assert(unit_views(units@) + units_from(
                    file,
                    cursor,
                    line_limit,
                    info_limit,
                    rows_safe,
                    left as nat,
                ) =~= before + ahead);
            },
            UnitStep::End => {
                assert(unit_views(units@) =~= before + ahead);
                return units;
            },
            UnitStep::Broken => {
                assert(unit_views(units@) =~= before + ahead);
                return units;
            },
        }
    }
    assert(unit_views(units@) =~= unit_views(units@) + units_from(
        file,
        cursor,
        line_limit,
        info_limit,
        rows_safe,
        0,
    ));
    units
}

} // verus!
