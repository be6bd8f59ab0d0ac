//! From the rows of a line program to the breakable locations of one source
//! file.

use vstd::prelude::*;
use crate::dwarf_records::{FileRecord, LineProgramRecord, RowRecord};
use crate::paths::{join_path, path_joined, paths_equal, same_path};

verus! {

/// A point at which a breakpoint can be installed.
#[derive(Clone, Copy, Debug, PartialEq, Eq, Structural)]
pub struct BreakableSrcLocation {
    /// Link-time address of the instruction.
    pub addr: u64,
    /// Source line, counted from 1; 0 where the line program names none.
    pub src_line: usize,
    /// Source column, counted from 1.
    pub src_col: usize,
}

/// The location that a row names. A row at the left edge of its line is
/// given column 1.
pub open spec fn location_of(row: RowRecord) -> BreakableSrcLocation {
    BreakableSrcLocation {
        addr: row.address,
        src_line: row.line as usize,
        src_col: if row.column == 0 {
            1usize
        } else {
            row.column as usize
        },
    }
}

/// The path of a file of the table: the compilation directory, then the
/// file's include directory unless its directory index is 0, then its name.
pub open spec fn resolved_path(comp_dir: Seq<char>, file: FileRecord) -> Seq<char> {
    let base = if file.directory_index != 0 && file.directory is Some {
        path_joined(comp_dir, file.directory->0@)
    } else {
        comp_dir
    };
    path_joined(base, file.name@)
}

/// Whether a slot of the file table holds a file whose path is `target`.
pub open spec fn slot_is_target(
    comp_dir: Seq<char>,
    slot: Option<FileRecord>,
    target: Seq<char>,
) -> bool {
    slot is Some && same_path(resolved_path(comp_dir, slot->0), target)
}

/// For each file index, whether it names `target`.
pub open spec fn target_slots(
    comp_dir: Seq<char>,
    files: Seq<Option<FileRecord>>,
    target: Seq<char>,
) -> Seq<bool> {
    Seq::new(files.len(), |i: int| slot_is_target(comp_dir, files[i], target))
}

/// Whether `index` is a file index that `slots` marks.
pub open spec fn slot_marked(slots: Seq<bool>, index: u64) -> bool {
    index < slots.len() && slots[index as int]
}

/// The file index that the scan holds after the first `n` rows: within a
/// sequence, the index of the first row whose file is marked, from that row
/// on; nothing before it, and nothing again once the sequence has ended.
pub open spec fn held_index(rows: Seq<RowRecord>, slots: Seq<bool>, n: int) -> Option<u64>
    decreases n,
{
    if n <= 0 {
        None
    } else {
        let before = held_index(rows, slots, n - 1);
        let row = rows[n - 1];
        if row.end_sequence {
            None
        } else if before is Some {
            before
        } else if slot_marked(slots, row.file_index) {
            Some(row.file_index)
        } else {
            None
        }
    }
}

/// Whether row `i` yields a location: it names an instruction, and its file
/// index is the one the scan holds once it has seen the row.
pub open spec fn row_yields(rows: Seq<RowRecord>, slots: Seq<bool>, i: int) -> bool {
    !rows[i].end_sequence && held_index(rows, slots, i + 1) == Some(rows[i].file_index)
}

/// The locations that the first `n` rows yield, in row order.
pub open spec fn locations_upto(rows: Seq<RowRecord>, slots: Seq<bool>, n: int) -> Seq<
    BreakableSrcLocation,
>
    decreases n,
{
    if n <= 0 {
        Seq::empty()
    } else {
        let earlier = locations_upto(rows, slots, n - 1);
        if row_yields(rows, slots, n - 1) {
            earlier.push(location_of(rows[n - 1]))
        } else {
            earlier
        }
    }
}

/// How many rows lie in closed sequences: one more than the index of the
/// last row that ends a sequence among the first `n`, 0 if there is none.
pub open spec fn closed_len(rows: Seq<RowRecord>, n: int) -> int
    decreases n,
{
    if n <= 0 {
        0
    } else if rows[n - 1].end_sequence {
        n
    } else {
        closed_len(rows, n - 1)
    }
}

/// The breakable locations of a line program for the files that `slots`
/// marks. Rows behind the last end of a sequence belong to no sequence and
/// yield nothing.
pub open spec fn program_locations(rows: Seq<RowRecord>, slots: Seq<bool>) -> Seq<
    BreakableSrcLocation,
> {
    locations_upto(rows, slots, closed_len(rows, rows.len() as int))
}

/// `closed_len` stays within the rows it was asked about.
pub proof fn lemma_closed_len_bounds(rows: Seq<RowRecord>, n: int)
    requires
        0 <= n <= rows.len(),
    ensures
        0 <= closed_len(rows, n) <= n,
    decreases n,
{
    if n > 0 && !rows[n - 1].end_sequence {
        lemma_closed_len_bounds(rows, n - 1);
    }
}

/// One past the last row that ends a sequence.
fn closed_rows(rows: &Vec<RowRecord>) -> (limit: usize)
    ensures
        limit == closed_len(rows@, rows@.len() as int),
        limit <= rows@.len(),
{
    let mut n: usize = rows.len();
    while n > 0 && !rows[n - 1].end_sequence
        invariant
            n <= rows@.len(),
            closed_len(rows@, n as int) == closed_len(rows@, rows@.len() as int),
        decreases n,
    {
        n = n - 1;
    }
    proof {
        lemma_closed_len_bounds(rows@, n as int);
    }
    n
}

/// The path of one file of the table.
pub fn resolve_path(comp_dir: &str, file: &FileRecord) -> (path: String)
    ensures
        path@ == resolved_path(comp_dir@, *file),
{
    match &file.directory {
        Some(directory) => {
            if file.directory_index != 0 {
                let base = join_path(comp_dir, directory.as_str());
                join_path(base.as_str(), file.name.as_str())
            } else {
                join_path(comp_dir, file.name.as_str())
            }
        },
        None => join_path(comp_dir, file.name.as_str()),
    }
}

/// Marks the file indices of `program` that name `target`.
pub fn mark_target_slots(comp_dir: &str, program: &LineProgramRecord, target: &str) -> (slots: Vec<
    bool,
>)
    ensures
        slots@ == target_slots(comp_dir@, program.files@, target@),
{
    let mut slots: Vec<bool> = Vec::new();
    let mut i: usize = 0;
    while i < program.files.len()
        invariant
            i <= program.files@.len(),
            slots@.len() == i,
            forall|k: int|
                0 <= k < i ==> slots@[k] == slot_is_target(
                    comp_dir@,
                    #[trigger] program.files@[k],
                    target@,
                ),
        decreases program.files@.len() - i,
    {
        let marked = match &program.files[i] {
            Some(file) => {
                let path = resolve_path(comp_dir, file);
                paths_equal(path.as_str(), target)
            },
            None => false,
        };
        slots.push(marked);
        i = i + 1;
    }
    assert(slots@ =~= target_slots(comp_dir@, program.files@, target@));
    slots
}

/// The breakable locations that the rows yield for the marked files.
pub fn scan_rows(rows: &Vec<RowRecord>, slots: &Vec<bool>) -> (locations: Vec<BreakableSrcLocation>)
    ensures
        locations@ == program_locations(rows@, slots@),
{
    let limit = closed_rows(rows);
    let mut locations: Vec<BreakableSrcLocation> = Vec::new();
    let mut held: Option<u64> = None;
    let mut i: usize = 0;
    while i < limit
        invariant
            i <= limit <= rows@.len(),
            held == held_index(rows@, slots@, i as int),
            locations@ == locations_upto(rows@, slots@, i as int),
        decreases limit - i,
    {
        let row = rows[i];
        if row.end_sequence {
            held = None;
        } else {
            if held.is_none() {
                let index = row.file_index;
                if index < slots.len() as u64 && slots[index as usize] {
                    held = Some(index);
                }
            }
            if held == Some(row.file_index) {
                let column: usize = if row.column == 0 {
                    1
                } else {
                    row.column as usize
                };
                locations.push(
                    BreakableSrcLocation {
                        addr: row.address,
                        src_line: row.line as usize,
                        src_col: column,
                    },
                );
            }
        }
        i = i + 1;
    }
    locations
}

} // verus!
