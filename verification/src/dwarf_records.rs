//! What the analyzer reads of a compilation unit's debug information, held
//! as plain values: the line program's file table and rows, and the
//! attributes of each debugging information entry.

use vstd::prelude::*;

verus! {

/// Tag of an entry that describes a function.
pub const DW_TAG_SUBPROGRAM: u16 = 0x2e;

/// Attribute: the entry's name.
pub const DW_AT_NAME: u16 = 0x03;

/// Attribute: first address of the entry's code.
pub const DW_AT_LOW_PC: u16 = 0x11;

/// Attribute: size of the entry's code, counted from its first address.
pub const DW_AT_HIGH_PC: u16 = 0x12;

/// Attribute: the entry was inlined, or may be.
pub const DW_AT_INLINE: u16 = 0x20;

/// Attribute: index, in the file table, of the file that declares the entry.
pub const DW_AT_DECL_FILE: u16 = 0x3a;

/// One row of a line program's matrix.
#[derive(Clone, Copy, Debug, PartialEq, Eq, Structural)]
pub struct RowRecord {
    /// Link-time address of the instruction.
    pub address: u64,
    /// Index into the unit's file table.
    pub file_index: u64,
    /// Source line, counted from 1; 0 where the row names no line.
    pub line: u64,
    /// Source column, counted from 1; 0 for the left edge of the line.
    pub column: u64,
    /// The row closes a sequence of rising addresses and names no
    /// instruction of its own.
    pub end_sequence: bool,
}

/// One entry of a line program's file table.
#[derive(Debug)]
pub struct FileRecord {
    /// 0 for the compilation directory, else an include directory.
    pub directory_index: u64,
    /// Text of the directory that the index names, where it names one.
    pub directory: Option<String>,
    /// File name as the table holds it: bare, relative or absolute.
    pub name: String,
}

/// One attribute of an entry, read in each of the ways the analyzer may ask
/// for. A reading that the attribute's form does not allow is `None`.
#[derive(Debug)]
pub struct AttrRecord {
    /// The attribute's code.
    pub name: u16,
    /// The value as an address.
    pub address: Option<u64>,
    /// The value as an unsigned constant.
    pub unsigned: Option<u64>,
    /// The value as text.
    pub text: Option<String>,
}

/// One debugging information entry.
#[derive(Debug)]
pub struct DieRecord {
    /// The entry's tag.
    pub tag: u16,
    /// Its attributes, in the order the unit lists them.
    pub attrs: Vec<AttrRecord>,
}

/// The line program of a unit.
#[derive(Debug)]
pub struct LineProgramRecord {
    /// The file table, by file index. A slot is `None` where the index names
    /// no file.
    pub files: Vec<Option<FileRecord>>,
    /// The rows in program order.
    pub rows: Vec<RowRecord>,
}

/// One compilation unit.
#[derive(Debug)]
pub struct UnitRecord {
    /// DWARF version of the unit.
    pub version: u16,
    /// Directory in which the unit was compiled.
    pub comp_dir: Option<String>,
    /// The unit's line program, if it has one.
    pub line_program: Option<LineProgramRecord>,
    /// The unit's entries in depth-first order.
    pub entries: Vec<DieRecord>,
    /// Some part of the unit could not be read; what the other fields hold
    /// is then not to be used.
    pub malformed: bool,
}

impl UnitRecord {
    /// The compilation directory as text, empty where the unit names none.
    pub open spec fn comp_dir_text(&self) -> Seq<char> {
        match self.comp_dir {
            Some(dir) => dir@,
            None => Seq::empty(),
        }
    }
}

impl LineProgramRecord {
    /// The file that a file index names.
    pub open spec fn file(&self, index: u64) -> Option<FileRecord> {
        if index < self.files.len() {
            self.files[index as int]
        } else {
            None
        }
    }
}

/// The text of an optional string.
pub open spec fn text_of(text: Option<String>) -> Option<Seq<char>> {
    match text {
        Some(text) => Some(text@),
        None => None,
    }
}

/// An entry of a file table as a plain value.
pub struct FileModel {
    pub directory_index: u64,
    pub directory: Option<Seq<char>>,
    pub name: Seq<char>,
}

/// An attribute as a plain value.
pub struct AttrModel {
    pub name: u16,
    pub address: Option<u64>,
    pub unsigned: Option<u64>,
    pub text: Option<Seq<char>>,
}

/// An entry as a plain value.
pub struct DieModel {
    pub tag: u16,
    pub attrs: Seq<AttrModel>,
}

/// A line program as a plain value.
pub struct LineProgramModel {
    pub files: Seq<Option<FileModel>>,
    pub rows: Seq<RowRecord>,
}

/// A compilation unit as a plain value.
pub struct UnitModel {
    pub version: u16,
    pub comp_dir: Option<Seq<char>>,
    pub line_program: Option<LineProgramModel>,
    pub entries: Seq<DieModel>,
    pub malformed: bool,
}

impl View for FileRecord {
    type V = FileModel;

    open spec fn view(&self) -> FileModel {
        FileModel {
            directory_index: self.directory_index,
            directory: text_of(self.directory),
            name: self.name@,
        }
    }
}

impl View for AttrRecord {
    type V = AttrModel;

    open spec fn view(&self) -> AttrModel {
        AttrModel {
            name: self.name,
            address: self.address,
            unsigned: self.unsigned,
            text: text_of(self.text),
        }
    }
}

/// The plain values of a list of attributes.
pub open spec fn attr_views(attrs: Seq<AttrRecord>) -> Seq<AttrModel> {
    attrs.map_values(|attr: AttrRecord| attr@)
}

impl View for DieRecord {
    type V = DieModel;

    open spec fn view(&self) -> DieModel {
        DieModel { tag: self.tag, attrs: attr_views(self.attrs@) }
    }
}

/// The plain values of a list of entries.
pub open spec fn die_views(entries: Seq<DieRecord>) -> Seq<DieModel> {
    entries.map_values(|entry: DieRecord| entry@)
}

/// The plain value of a slot of a file table.
pub open spec fn slot_view(slot: Option<FileRecord>) -> Option<FileModel> {
    match slot {
        Some(file) => Some(file@),
        None => None,
    }
}

/// The plain values of the slots of a file table.
pub open spec fn slot_views(slots: Seq<Option<FileRecord>>) -> Seq<Option<FileModel>> {
    slots.map_values(|slot: Option<FileRecord>| slot_view(slot))
}

impl View for LineProgramRecord {
    type V = LineProgramModel;

    open spec fn view(&self) -> LineProgramModel {
        LineProgramModel { files: slot_views(self.files@), rows: self.rows@ }
    }
}

impl View for UnitRecord {
    type V = UnitModel;

    open spec fn view(&self) -> UnitModel {
        UnitModel {
            version: self.version,
            comp_dir: text_of(self.comp_dir),
            line_program: match self.line_program {
                Some(program) => Some(program@),
                None => None,
            },
            entries: die_views(self.entries@),
            malformed: self.malformed,
        }
    }
}

/// The plain values of a list of units.
pub open spec fn unit_views(units: Seq<UnitRecord>) -> Seq<UnitModel> {
    units.map_values(|unit: UnitRecord| unit@)
}

} // verus!
