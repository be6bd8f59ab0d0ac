//! What is known of the executable before it runs: its disassembly and, for
//! each source file, the breakable locations and the subprograms.

use std::sync::Arc;
use vstd::prelude::*;
use crate::disassembly::DecompiledSrc;
use crate::dwarf_records::{LineProgramRecord, RowRecord, UnitRecord};
use crate::line_scan::{
    mark_target_slots,
    program_locations,
    resolve_path,
    resolved_path,
    scan_rows,
    target_slots,
    BreakableSrcLocation,
};
use crate::paths::{path_starts_with, path_under, paths_equal, same_path, text_starts_with};
use crate::src_file::{path_hash, SrcFile};
use crate::subprograms::{
    append_duplicates,
    read_subprograms,
    subprogram_views,
    subprograms_upto,
    Subprogram,
    SubprogramView,
};

verus! {

/// `Arc::clone`: one more pointer to the same value.
#[verifier::external_body]
pub(crate) fn share<T>(shared: &Arc<T>) -> (again: Arc<T>)
    ensures
        again == *shared,
{
    shared.clone()
}

/// What the debug information says of one source file.
#[derive(Debug)]
pub struct SrcFileDebugInfo {
    /// Identity of the file.
    pub src_file_hash: u64,
    /// The points of the file at which a breakpoint can be installed.
    pub breakable_locations: Vec<BreakableSrcLocation>,
    /// The subprograms that the file declares.
    pub subprograms: Vec<Subprogram>,
}

/// All that is known of the executable at one moment. A value of this type
/// is never changed once it has been handed out; a later state of knowledge
/// is a new value.
pub struct ThinOfflineDebugInfo {
    /// The disassembly, once the executable has been read.
    pub decompiled_src: Option<Arc<DecompiledSrc>>,
    /// The files that were analysed, in the order in which they were first
    /// analysed. No two entries have the same `src_file_hash`.
    pub src_file_info: Vec<Arc<SrcFileDebugInfo>>,
    /// The subprograms of all files, those of the file analysed last first.
    pub all_subprograms: Arc<Vec<Subprogram>>,
}

/// Whether no two entries of the list are about the same file.
pub open spec fn distinct_files(list: Seq<Arc<SrcFileDebugInfo>>) -> bool {
    forall|i: int, j: int|
        0 <= i < j < list.len() ==> (#[trigger] list[i]).src_file_hash != (
        #[trigger] list[j]).src_file_hash
}

/// The index of the entry about the file `hash` among the first `n`; -1 if
/// there is none.
pub open spec fn file_index_upto(list: Seq<Arc<SrcFileDebugInfo>>, hash: u64, n: int) -> int
    decreases n,
{
    if n <= 0 {
        -1
    } else if list[n - 1].src_file_hash == hash {
        n - 1
    } else {
        file_index_upto(list, hash, n - 1)
    }
}

/// The list with `info` in it: in the place of the entry about the same
/// file, or at the end where there was none.
pub open spec fn with_file(list: Seq<Arc<SrcFileDebugInfo>>, info: Arc<SrcFileDebugInfo>) -> Seq<
    Arc<SrcFileDebugInfo>,
> {
    let at = file_index_upto(list, info.src_file_hash, list.len() as int);
    if at >= 0 {
        list.update(at, info)
    } else {
        list.push(info)
    }
}

/// What `file_index_upto` finds is about the file, and nothing about the
/// file lies behind it.
pub proof fn lemma_file_index(list: Seq<Arc<SrcFileDebugInfo>>, hash: u64, n: int)
    requires
        0 <= n <= list.len(),
    ensures
        -1 <= file_index_upto(list, hash, n) < n,
        file_index_upto(list, hash, n) >= 0 ==> list[file_index_upto(
            list,
            hash,
            n,
        )].src_file_hash == hash,
        forall|k: int|
            file_index_upto(list, hash, n) < k < n ==> (#[trigger] list[k]).src_file_hash != hash,
    decreases n,
{
    if n > 0 && list[n - 1].src_file_hash != hash {
        lemma_file_index(list, hash, n - 1);
    }
}

/// Putting an entry into a list without doubles leaves it without doubles.
pub proof fn lemma_with_file_distinct(
    list: Seq<Arc<SrcFileDebugInfo>>,
    info: Arc<SrcFileDebugInfo>,
)
    requires
        distinct_files(list),
    ensures
        distinct_files(with_file(list, info)),
{
    lemma_file_index(list, info.src_file_hash, list.len() as int);
    let at = file_index_upto(list, info.src_file_hash, list.len() as int);
    let after = with_file(list, info);
    assert forall|i: int, j: int| 0 <= i < j < after.len() implies (#[trigger] after[i]).src_file_hash
        != (#[trigger] after[j]).src_file_hash by {
        if at >= 0 {
            if i == at {
                assert(list[i].src_file_hash != list[j].src_file_hash);
            } else if j == at {
                assert(list[i].src_file_hash != list[j].src_file_hash);
            } else {
                assert(list[i].src_file_hash != list[j].src_file_hash);
            }
        } else {
            if j == list.len() {
                assert(list[i].src_file_hash != info.src_file_hash);
            } else {
                assert(list[i].src_file_hash != list[j].src_file_hash);
            }
        }
    }
}

impl ThinOfflineDebugInfo {
    /// No file has two entries.
    pub open spec fn wf(&self) -> bool {
        distinct_files(self.src_file_info@)
    }

    /// Nothing is known yet.
    pub fn empty() -> (info: ThinOfflineDebugInfo)
        ensures
            info.decompiled_src is None,
            info.src_file_info@.len() == 0,
            info.all_subprograms@.len() == 0,
            info.wf(),
    {
        ThinOfflineDebugInfo {
            decompiled_src: None,
            src_file_info: Vec::new(),
            all_subprograms: Arc::new(Vec::new()),
        }
    }

    /// The same state of knowledge once more. The two values share what
    /// they hold.
    pub fn snapshot(&self) -> (copy: ThinOfflineDebugInfo)
        ensures
            copy.decompiled_src == self.decompiled_src,
            copy.src_file_info@ == self.src_file_info@,
            copy.all_subprograms == self.all_subprograms,
    {
        let decompiled_src = match &self.decompiled_src {
            Some(listing) => Some(share(listing)),
            None => None,
        };
        let mut src_file_info: Vec<Arc<SrcFileDebugInfo>> = Vec::new();
        let mut i: usize = 0;
        while i < self.src_file_info.len()
            invariant
                i <= self.src_file_info@.len(),
                src_file_info@ == self.src_file_info@.take(i as int),
            decreases self.src_file_info@.len() - i,
        {
            src_file_info.push(share(&self.src_file_info[i]));
            assert(src_file_info@ =~= self.src_file_info@.take(i + 1));
            i = i + 1;
        }
        assert(self.src_file_info@.take(i as int) =~= self.src_file_info@);
        ThinOfflineDebugInfo {
            decompiled_src,
            src_file_info,
            all_subprograms: share(&self.all_subprograms),
        }
    }

    /// What is known of the file `hash`, if it was analysed.
    pub fn file_info(&self, hash: u64) -> (found: Option<Arc<SrcFileDebugInfo>>)
        ensures
            match found {
                Some(info) => {
                    let at = file_index_upto(
                        self.src_file_info@,
                        hash,
                        self.src_file_info@.len() as int,
                    );
                    at >= 0 && info == self.src_file_info@[at]
                },
                None => file_index_upto(self.src_file_info@, hash, self.src_file_info@.len() as int)
                    < 0,
            },
    {
        let mut n: usize = self.src_file_info.len();
        while n > 0
            invariant
                n <= self.src_file_info@.len(),
                file_index_upto(self.src_file_info@, hash, n as int) == file_index_upto(
                    self.src_file_info@,
                    hash,
                    self.src_file_info@.len() as int,
                ),
            decreases n,
        {
            if self.src_file_info[n - 1].src_file_hash == hash {
                return Some(share(&self.src_file_info[n - 1]));
            }
            n = n - 1;
        }
        None
    }

    /// Puts what was found of one file into the state of knowledge: its
    /// entry takes the place of an earlier entry about the same file, or
    /// stands behind the others; its subprograms go before all others.
    pub fn record_file(
        &mut self,
        hash: u64,
        breakable_locations: Vec<BreakableSrcLocation>,
        subprograms: Vec<Subprogram>,
    )
        requires
            old(self).wf(),
        ensures
            final(self).wf(),
            final(self).decompiled_src == old(self).decompiled_src,
            final(self).src_file_info@.len() > 0,
            exists|info: Arc<SrcFileDebugInfo>|
                {
                    &&& info.src_file_hash == hash
                    &&& info.breakable_locations@ == breakable_locations@
                    &&& subprogram_views(info.subprograms@) == subprogram_views(subprograms@)
                    &&& final(self).src_file_info@ == with_file(old(self).src_file_info@, info)
                },
            subprogram_views(final(self).all_subprograms@) == subprogram_views(subprograms@)
                + subprogram_views(old(self).all_subprograms@),
    {
        let mut all: Vec<Subprogram> = Vec::new();
        append_duplicates(&mut all, &subprograms);
        append_duplicates(&mut all, &self.all_subprograms);
        assert(subprogram_views(all@) =~= subprogram_views(subprograms@) + subprogram_views(
            self.all_subprograms@,
        ));
        let info = Arc::new(
            SrcFileDebugInfo { src_file_hash: hash, breakable_locations, subprograms },
        );
        let mut n: usize = self.src_file_info.len();
        let mut at: Option<usize> = None;
        while n > 0 && at.is_none()
            invariant
                n <= self.src_file_info@.len(),
                self.src_file_info == old(self).src_file_info,
                match at {
                    Some(p) => p as int == file_index_upto(
                        self.src_file_info@,
                        hash,
                        self.src_file_info@.len() as int,
                    ),
                    None => file_index_upto(self.src_file_info@, hash, n as int)
                        == file_index_upto(
                        self.src_file_info@,
                        hash,
                        self.src_file_info@.len() as int,
                    ),
                },
            decreases n + (if at is None { 1int } else { 0int }),
        {
            if self.src_file_info[n - 1].src_file_hash == hash {
                at = Some((n - 1) as usize);
            } else {
                n = n - 1;
            }
        }
        proof {
            lemma_with_file_distinct(self.src_file_info@, info);
            lemma_file_index(self.src_file_info@, hash, self.src_file_info@.len() as int);
        }
        match at {
            Some(p) => {
                self.src_file_info.set(p, info);
            },
            None => {
                self.src_file_info.push(info);
            },
        }
        self.all_subprograms = Arc::new(all);
    }
}


/// What the worker is asked to do.
pub enum DebugInfoRequest {
    /// Read the text of a source file and, if `queue_debug_info` is set,
    /// analyse the file afterwards.
    ReadSrc { path: String, queue_debug_info: bool },
    /// Find the breakable locations and subprograms of a source file.
    DebugInfo(Arc<SrcFile>),
    /// Read the executable.
    ReadExec(String),
}

/// What the worker makes known.
pub enum DebugInfoResponse {
    /// A source file whose text was read.
    Src(Arc<SrcFile>),
    /// A source file that was analysed, with its line table.
    DebugInfo(Arc<SrcFile>),
    /// A new state of knowledge.
    ThinInfo(ThinOfflineDebugInfo),
}

/// Whether a unit is looked at for the file `target`: it could be read, it
/// has a line program, and the text of its compilation directory is how the
/// text of `target` begins.
pub open spec fn unit_is_scanned(unit: UnitRecord, target: Seq<char>) -> bool {
    !unit.malformed && unit.line_program is Some && unit.comp_dir_text().is_prefix_of(target)
}

/// The breakable locations that a unit has for the file `target`.
pub open spec fn unit_locations(unit: UnitRecord, target: Seq<char>) -> Seq<BreakableSrcLocation> {
    let program = unit.line_program->0;
    program_locations(program.rows@, target_slots(unit.comp_dir_text(), program.files@, target))
}

/// The subprograms that a unit has for the file `target`.
pub open spec fn unit_subprograms(unit: UnitRecord, target: Seq<char>, file_hash: u64) -> Seq<
    SubprogramView,
> {
    subprograms_upto(
        unit,
        target,
        file_hash,
        unit_locations(unit, target),
        unit.entries@.len() as int,
    )
}

/// The breakable locations that the first `n` units have for `target`, unit
/// after unit.
pub open spec fn locations_of_units(units: Seq<UnitRecord>, target: Seq<char>, n: int) -> Seq<
    BreakableSrcLocation,
>
    decreases n,
{
    if n <= 0 {
        Seq::empty()
    } else {
        let earlier = locations_of_units(units, target, n - 1);
        if unit_is_scanned(units[n - 1], target) {
            earlier + unit_locations(units[n - 1], target)
        } else {
            earlier
        }
    }
}

/// The subprograms that the first `n` units have for `target`, unit after
/// unit.
pub open spec fn subprograms_of_units(
    units: Seq<UnitRecord>,
    target: Seq<char>,
    file_hash: u64,
    n: int,
) -> Seq<SubprogramView>
    decreases n,
{
    if n <= 0 {
        Seq::empty()
    } else {
        let earlier = subprograms_of_units(units, target, file_hash, n - 1);
        if unit_is_scanned(units[n - 1], target) {
            earlier + unit_subprograms(units[n - 1], target, file_hash)
        } else {
            earlier
        }
    }
}

/// For each file index below `len`, whether one of the first `n` rows that
/// name an instruction refers to it.
pub open spec fn referenced_slots(rows: Seq<RowRecord>, len: nat, n: int) -> Seq<bool>
    decreases n,
{
    if n <= 0 {
        Seq::new(len, |i: int| false)
    } else {
        let earlier = referenced_slots(rows, len, n - 1);
        let row = rows[n - 1];
        if !row.end_sequence && row.file_index < len {
            earlier.update(row.file_index as int, true)
        } else {
            earlier
        }
    }
}

/// Whether one of `paths` is the same path as `path`.
pub open spec fn listed(paths: Seq<Seq<char>>, path: Seq<char>) -> bool {
    exists|i: int| 0 <= i < paths.len() && same_path(#[trigger] paths[i], path)
}

/// Whether a path is wanted under the given root: any path where there is no
/// root, else the paths that lie under it.
pub open spec fn wanted(path: Seq<char>, root: Option<Seq<char>>) -> bool {
    root is Some ==> path_under(path, root->0)
}

/// `paths`, and behind them the wanted paths to which the rows of `unit`
/// refer through the first `k` file indices, each once.
pub open spec fn unit_paths_upto(
    paths: Seq<Seq<char>>,
    unit: UnitRecord,
    root: Option<Seq<char>>,
    k: int,
) -> Seq<Seq<char>>
    decreases k,
{
    if k <= 0 {
        paths
    } else {
        let earlier = unit_paths_upto(paths, unit, root, k - 1);
        let program = unit.line_program->0;
        let slots = referenced_slots(program.rows@, program.files@.len(), program.rows@.len() as int);
        if slots[k - 1] && program.files@[k - 1] is Some {
            let path = resolved_path(unit.comp_dir_text(), program.files@[k - 1]->0);
            if wanted(path, root) && !listed(earlier, path) {
                earlier.push(path)
            } else {
                earlier
            }
        } else {
            earlier
        }
    }
}

/// The wanted source paths to which the line programs of the first `n`
/// units refer, each once, in the order of units and file indices.
pub open spec fn discovered_paths(units: Seq<UnitRecord>, root: Option<Seq<char>>, n: int) -> Seq<
    Seq<char>,
>
    decreases n,
{
    if n <= 0 {
        Seq::empty()
    } else {
        let earlier = discovered_paths(units, root, n - 1);
        let unit = units[n - 1];
        if unit.malformed || unit.line_program is None {
            earlier
        } else {
            unit_paths_upto(earlier, unit, root, unit.line_program->0.files@.len() as int)
        }
    }
}

/// Whether no path of the list is the same path as one behind it.
pub open spec fn no_path_twice(paths: Seq<Seq<char>>) -> bool {
    forall|i: int, j: int|
        0 <= i < j < paths.len() ==> !same_path(#[trigger] paths[i], #[trigger] paths[j])
}

/// The paths that a unit adds are added once: a list that has no path twice
/// has none twice with them.
pub proof fn lemma_unit_paths_once(
    paths: Seq<Seq<char>>,
    unit: UnitRecord,
    root: Option<Seq<char>>,
    k: int,
)
    requires
        no_path_twice(paths),
    ensures
        no_path_twice(unit_paths_upto(paths, unit, root, k)),
    decreases k,
{
    if k > 0 {
        lemma_unit_paths_once(paths, unit, root, k - 1);
        let earlier = unit_paths_upto(paths, unit, root, k - 1);
        let all = unit_paths_upto(paths, unit, root, k);
        assert forall|i: int, j: int| 0 <= i < j < all.len() implies !same_path(
            #[trigger] all[i],
            #[trigger] all[j],
        ) by {
            if j < earlier.len() {
                assert(!same_path(earlier[i], earlier[j]));
            } else {
                assert(all[i] == earlier[i]);
                assert(!listed(earlier, all[j]));
            }
        }
    }
}

/// The discovered paths are a set: none of them is the same path as
/// another.
pub proof fn law_discovered_paths_once(units: Seq<UnitRecord>, root: Option<Seq<char>>, n: int)
    ensures
        no_path_twice(discovered_paths(units, root, n)),
    decreases n,
{
    if n > 0 {
        law_discovered_paths_once(units, root, n - 1);
        let unit = units[n - 1];
        if !unit.malformed && unit.line_program is Some {
            lemma_unit_paths_once(
                discovered_paths(units, root, n - 1),
                unit,
                root,
                unit.line_program->0.files@.len() as int,
            );
        }
    }
}

/// The texts of a list of strings.
pub open spec fn texts(list: Seq<String>) -> Seq<Seq<char>> {
    list.map_values(|s: String| s@)
}

/// The text of an optional string.
pub open spec fn optional_text(text: Option<String>) -> Option<Seq<char>> {
    match text {
        Some(text) => Some(text@),
        None => None,
    }
}

/// The compilation directory of a unit, empty where it names none.
pub fn comp_dir_of(unit: &UnitRecord) -> (dir: &str)
    ensures
        dir@ == unit.comp_dir_text(),
{
    proof {
        reveal_strlit("");
    }
    match &unit.comp_dir {
        Some(dir) => dir.as_str(),
        None => {
            let dir = "";
            assert(dir@ =~= Seq::<char>::empty());
            dir
        },
    }
}

/// Marks the file indices to which the rows refer.
fn mark_referenced(program: &LineProgramRecord) -> (slots: Vec<bool>)
    ensures
        slots@ == referenced_slots(
            program.rows@,
            program.files@.len(),
            program.rows@.len() as int,
        ),
        slots@.len() == program.files@.len(),
{
    let mut slots: Vec<bool> = Vec::new();
    let mut k: usize = 0;
    while k < program.files.len()
        invariant
            k <= program.files@.len(),
            slots@.len() == k,
            forall|i: int| 0 <= i < k ==> !slots@[i],
        decreases program.files@.len() - k,
    {
        slots.push(false);
        k = k + 1;
    }
    assert(slots@ =~= referenced_slots(program.rows@, program.files@.len(), 0));
    let mut i: usize = 0;
    while i < program.rows.len()
        invariant
            i <= program.rows@.len(),
            slots@.len() == program.files@.len(),
            slots@ == referenced_slots(program.rows@, program.files@.len(), i as int),
        decreases program.rows@.len() - i,
    {
        let row = program.rows[i];
        if !row.end_sequence && row.file_index < slots.len() as u64 {
            slots.set(row.file_index as usize, true);
        }
        i = i + 1;
    }
    slots
}

/// Whether one of `paths` is the same path as `path`.
fn is_listed(paths: &Vec<String>, path: &str) -> (found: bool)
    ensures
        found == listed(texts(paths@), path@),
{
    let mut i: usize = 0;
    while i < paths.len()
        invariant
            i <= paths@.len(),
            forall|k: int| 0 <= k < i ==> !same_path(#[trigger] texts(paths@)[k], path@),
        decreases paths@.len() - i,
    {
        if paths_equal(paths[i].as_str(), path) {
            assert(same_path(texts(paths@)[i as int], path@));
            return true;
        }
        i = i + 1;
    }
    false
}

/// Adds to `paths` the wanted paths to which the rows of `unit` refer.
fn collect_unit_paths(paths: &mut Vec<String>, unit: &UnitRecord, root: &Option<String>)
    requires
        !unit.malformed,
        unit.line_program is Some,
    ensures
        texts(final(paths)@) == unit_paths_upto(
            texts(old(paths)@),
            *unit,
            optional_text(*root),
            unit.line_program->0.files@.len() as int,
        ),
{
    let program = match &unit.line_program {
        Some(program) => program,
        None => {
            return ;
        },
    };
    let slots = mark_referenced(program);
    let comp_dir = comp_dir_of(unit);
    let mut k: usize = 0;
    while k < program.files.len()
        invariant
            k <= program.files@.len(),
            unit.line_program == Some(*program),
            comp_dir@ == unit.comp_dir_text(),
            slots@.len() == program.files@.len(),
            slots@ == referenced_slots(
                program.rows@,
                program.files@.len(),
                program.rows@.len() as int,
            ),
            texts(paths@) == unit_paths_upto(
                texts(old(paths)@),
                *unit,
                optional_text(*root),
                k as int,
            ),
        decreases program.files@.len() - k,
    {
        if slots[k] {
            if let Some(file) = &program.files[k] {
                let path = resolve_path(comp_dir, file);
                let under = match root {
                    Some(root) => path_starts_with(path.as_str(), root.as_str()),
                    None => true,
                };
                if under && !is_listed(paths, path.as_str()) {
                    let ghost before = paths@;
                    paths.push(path);
                    assert(texts(paths@) =~= texts(before).push(path@));
                }
            }
        }
        k = k + 1;
    }
}

/// The wanted source paths to which the line programs of the units refer,
/// each once.
pub fn discover_paths(units: &Vec<UnitRecord>, root: &Option<String>) -> (paths: Vec<String>)
    ensures
        texts(paths@) == discovered_paths(units@, optional_text(*root), units@.len() as int),
{
    let mut paths: Vec<String> = Vec::new();
    assert(texts(paths@) =~= Seq::<Seq<char>>::empty());
    let mut n: usize = 0;
    while n < units.len()
        invariant
            n <= units@.len(),
            texts(paths@) == discovered_paths(units@, optional_text(*root), n as int),
        decreases units@.len() - n,
    {
        let unit = &units[n];
        if !unit.malformed && unit.line_program.is_some() {
            collect_unit_paths(&mut paths, unit, root);
        }
        n = n + 1;
    }
    paths
}

/// The breakable locations and the subprograms that the units have for the
/// source file at `target`, whose identity is `file_hash`.
pub fn analyse_units(units: &Vec<UnitRecord>, target: &str, file_hash: u64) -> (found: (
    Vec<BreakableSrcLocation>,
    Vec<Subprogram>,
))
    ensures
        found.0@ == locations_of_units(units@, target@, units@.len() as int),
        subprogram_views(found.1@) == subprograms_of_units(
            units@,
            target@,
            file_hash,
            units@.len() as int,
        ),
{
    let mut locations: Vec<BreakableSrcLocation> = Vec::new();
    let mut subprograms: Vec<Subprogram> = Vec::new();
    assert(subprogram_views(subprograms@) =~= Seq::<SubprogramView>::empty());
    let mut n: usize = 0;
    while n < units.len()
        invariant
            n <= units@.len(),
            locations@ == locations_of_units(units@, target@, n as int),
            subprogram_views(subprograms@) == subprograms_of_units(
                units@,
                target@,
                file_hash,
                n as int,
            ),
        decreases units@.len() - n,
    {
        let unit = &units[n];
        if !unit.malformed {
            if let Some(program) = &unit.line_program {
                let comp_dir = comp_dir_of(unit);
                if text_starts_with(target, comp_dir) {
                    let slots = mark_target_slots(comp_dir, program, target);
                    let mut unit_locations = scan_rows(&program.rows, &slots);
                    let mut unit_subprograms = read_subprograms(
                        unit,
                        target,
                        file_hash,
                        &unit_locations,
                    );
                    let ghost before = subprograms@;
                    let ghost added = unit_subprograms@;
                    subprograms.append(&mut unit_subprograms);
                    assert(subprogram_views(subprograms@) =~= subprogram_views(before)
                        + subprogram_views(added));
                    locations.append(&mut unit_locations);
                }
            }
        }
        n = n + 1;
    }
    (locations, subprograms)
}


/// The index of the entry for the file with digest `hash` among the first
/// `n` source files; -1 if there is none.
pub open spec fn src_index_upto(list: Seq<Arc<SrcFile>>, hash: u64, n: int) -> int
    decreases n,
{
    if n <= 0 {
        -1
    } else if path_hash(list[n - 1].path@) == hash {
        n - 1
    } else {
        src_index_upto(list, hash, n - 1)
    }
}

/// The list with `file` in it: in the place of the entry with the same
/// digest, or at the end where there was none.
pub open spec fn with_src(list: Seq<Arc<SrcFile>>, file: Arc<SrcFile>) -> Seq<Arc<SrcFile>> {
    let at = src_index_upto(list, path_hash(file.path@), list.len() as int);
    if at >= 0 {
        list.update(at, file)
    } else {
        list.push(file)
    }
}

/// Whether no two source files of the list have the same digest.
pub open spec fn distinct_sources(list: Seq<Arc<SrcFile>>) -> bool {
    forall|i: int, j: int|
        0 <= i < j < list.len() ==> path_hash((#[trigger] list[i]).path@) != path_hash(
            (#[trigger] list[j]).path@,
        )
}

/// What `src_index_upto` finds has the digest, and nothing behind it has.
pub proof fn lemma_src_index(list: Seq<Arc<SrcFile>>, hash: u64, n: int)
    requires
        0 <= n <= list.len(),
    ensures
        -1 <= src_index_upto(list, hash, n) < n,
        src_index_upto(list, hash, n) >= 0 ==> path_hash(
            list[src_index_upto(list, hash, n)].path@,
        ) == hash,
        forall|k: int|
            src_index_upto(list, hash, n) < k < n ==> path_hash((#[trigger] list[k]).path@)
                != hash,
    decreases n,
{
    if n > 0 && path_hash(list[n - 1].path@) != hash {
        lemma_src_index(list, hash, n - 1);
    }
}

/// Putting a file into a list without doubles leaves it without doubles.
pub proof fn lemma_with_src_distinct(list: Seq<Arc<SrcFile>>, file: Arc<SrcFile>)
    requires
        distinct_sources(list),
    ensures
        distinct_sources(with_src(list, file)),
{
    let hash = path_hash(file.path@);
    lemma_src_index(list, hash, list.len() as int);
    let after = with_src(list, file);
    assert forall|i: int, j: int| 0 <= i < j < after.len() implies path_hash(
        (#[trigger] after[i]).path@,
    ) != path_hash((#[trigger] after[j]).path@) by {
        if i < list.len() && j < list.len() {
            assert(path_hash(list[i].path@) != path_hash(list[j].path@));
        }
    }
}

/// The state of knowledge that the store holds once it has taken in a
/// response: the state that the response publishes, whole; or the state it
/// held, where the response publishes none.
pub open spec fn knowledge_after(
    held: ThinOfflineDebugInfo,
    response: DebugInfoResponse,
) -> ThinOfflineDebugInfo {
    match response {
        DebugInfoResponse::ThinInfo(info) => info,
        _ => held,
    }
}

/// The state of knowledge that the store holds once it has taken in the
/// first `n` of the responses in turn.
pub open spec fn knowledge_after_all(
    held: ThinOfflineDebugInfo,
    responses: Seq<DebugInfoResponse>,
    n: int,
) -> ThinOfflineDebugInfo
    decreases n,
{
    if n <= 0 {
        held
    } else {
        knowledge_after(knowledge_after_all(held, responses, n - 1), responses[n - 1])
    }
}

/// The source files that the store holds once it has taken in a response:
/// with the file that the response makes known, where it makes one known.
pub open spec fn sources_after(list: Seq<Arc<SrcFile>>, response: DebugInfoResponse) -> Seq<
    Arc<SrcFile>,
> {
    match response {
        DebugInfoResponse::Src(file) => with_src(list, file),
        DebugInfoResponse::DebugInfo(file) => with_src(list, file),
        DebugInfoResponse::ThinInfo(_) => list,
    }
}

/// The source files that the store holds once it has taken in the first `n`
/// of the responses in turn.
pub open spec fn sources_after_all(
    list: Seq<Arc<SrcFile>>,
    responses: Seq<DebugInfoResponse>,
    n: int,
) -> Seq<Arc<SrcFile>>
    decreases n,
{
    if n <= 0 {
        list
    } else {
        sources_after(sources_after_all(list, responses, n - 1), responses[n - 1])
    }
}

/// The index of the last of the first `n` responses that publishes a state
/// of knowledge; -1 if none does.
pub open spec fn last_publication(responses: Seq<DebugInfoResponse>, n: int) -> int
    decreases n,
{
    if n <= 0 {
        -1
    } else if responses[n - 1] is ThinInfo {
        n - 1
    } else {
        last_publication(responses, n - 1)
    }
}

/// What the store holds is one publication: after any responses, its state
/// of knowledge is the one that was published last, with the disassembly,
/// the files and the subprograms of that one publication; or the state it
/// began with, where none was published.
pub proof fn law_snapshot_is_one_publication(
    held: ThinOfflineDebugInfo,
    responses: Seq<DebugInfoResponse>,
    n: int,
)
    requires
        0 <= n <= responses.len(),
    ensures
        -1 <= last_publication(responses, n) < n,
        last_publication(responses, n) < 0 ==> knowledge_after_all(held, responses, n) == held,
        last_publication(responses, n) >= 0 ==> responses[last_publication(responses, n)]
            == DebugInfoResponse::ThinInfo(knowledge_after_all(held, responses, n)),
    decreases n,
{
    if n > 0 {
        law_snapshot_is_one_publication(held, responses, n - 1);
    }
}

/// Once the store has taken in responses of which the last publishes a
/// state of knowledge, it holds that state, whatever it held and whatever
/// came before. With it the store holds the subprograms that the worker had
/// found when it published the state.
pub proof fn law_sync_holds_the_latest_publication(
    held: ThinOfflineDebugInfo,
    responses: Seq<DebugInfoResponse>,
    info: ThinOfflineDebugInfo,
)
    requires
        responses.len() > 0,
        responses[responses.len() - 1] == DebugInfoResponse::ThinInfo(info),
    ensures
        knowledge_after_all(held, responses, responses.len() as int) == info,
        knowledge_after_all(held, responses, responses.len() as int).all_subprograms
            == info.all_subprograms,
{
}

/// The debugger's store of what the worker has made known, and the requests
/// that are to go to the worker.
pub struct OfflineDebugInfo {
    /// The source files that were made known, in the order in which each was
    /// first made known. No two have the same digest.
    pub src_files: Vec<Arc<SrcFile>>,
    /// The state of knowledge that was published last.
    pub debug_info: ThinOfflineDebugInfo,
    /// The requests that were made and not yet taken to the worker, in the
    /// order in which they were made.
    pub requests: Vec<DebugInfoRequest>,
}

impl OfflineDebugInfo {
    /// No source file is stored twice.
    pub open spec fn wf(&self) -> bool {
        distinct_sources(self.src_files@)
    }

    /// A store that knows nothing and has no request to send.
    pub fn new() -> (store: OfflineDebugInfo)
        ensures
            store.wf(),
            store.src_files@.len() == 0,
            store.requests@.len() == 0,
            store.debug_info.decompiled_src is None,
            store.debug_info.src_file_info@.len() == 0,
            store.debug_info.all_subprograms@.len() == 0,
    {
        OfflineDebugInfo {
            src_files: Vec::new(),
            debug_info: ThinOfflineDebugInfo::empty(),
            requests: Vec::new(),
        }
    }

    /// Asks the worker to read the executable.
    pub fn load_exec(&mut self, path: String)
        ensures
            final(self).requests@ == old(self).requests@.push(DebugInfoRequest::ReadExec(path)),
            final(self).src_files == old(self).src_files,
            final(self).debug_info == old(self).debug_info,
    {
        self.requests.push(DebugInfoRequest::ReadExec(path));
    }

    /// Asks the worker to read a source file and, where `queue_debug_info`
    /// is set, to analyse it afterwards.
    pub fn load_file(&mut self, path: String, queue_debug_info: bool)
        ensures
            final(self).requests@ == old(self).requests@.push(
                DebugInfoRequest::ReadSrc { path: path, queue_debug_info: queue_debug_info },
            ),
            final(self).src_files == old(self).src_files,
            final(self).debug_info == old(self).debug_info,
    {
        self.requests.push(DebugInfoRequest::ReadSrc { path, queue_debug_info });
    }

    /// Hands out the requests that were made, and keeps none.
    pub fn take_requests(&mut self) -> (requests: Vec<DebugInfoRequest>)
        ensures
            requests@ == old(self).requests@,
            final(self).requests@.len() == 0,
            final(self).src_files == old(self).src_files,
            final(self).debug_info == old(self).debug_info,
    {
        let mut requests: Vec<DebugInfoRequest> = Vec::new();
        requests.append(&mut self.requests);
        assert(requests@ =~= old(self).requests@);
        requests
    }

    /// What the state of knowledge that was published last says of a
    /// source file, if it says anything of it.
    pub fn get_debug_info(&self, file: &SrcFile) -> (found: Option<Arc<SrcFileDebugInfo>>)
        ensures
            ({
                let files = self.debug_info.src_file_info@;
                let at = file_index_upto(files, path_hash(file.path@), files.len() as int);
                match found {
                    Some(info) => at >= 0 && info == files[at],
                    None => at < 0,
                }
            }),
    {
        self.debug_info.file_info(file.simple_hash())
    }

    /// The state of knowledge that was published last, whole.
    pub fn snapshot(&self) -> (copy: ThinOfflineDebugInfo)
        ensures
            copy.decompiled_src == self.debug_info.decompiled_src,
            copy.src_file_info@ == self.debug_info.src_file_info@,
            copy.all_subprograms == self.debug_info.all_subprograms,
    {
        self.debug_info.snapshot()
    }

    /// Takes in the responses of the worker that are pending, in their
    /// order, and leaves none. A source file is stored in the place of the
    /// file with the same digest, or behind the others. A state of knowledge
    /// replaces the one that was held, whole.
    pub fn sync_debug_info(&mut self, responses: Vec<DebugInfoResponse>)
        requires
            old(self).wf(),
        ensures
            final(self).wf(),
            final(self).requests == old(self).requests,
            final(self).debug_info == knowledge_after_all(
                old(self).debug_info,
                responses@,
                responses@.len() as int,
            ),
            final(self).src_files@ == sources_after_all(
                old(self).src_files@,
                responses@,
                responses@.len() as int,
            ),
    {
        let ghost all = responses@;
        for response in it: responses.into_iter()
            invariant
                it.seq() == all,
                self.wf(),
                self.requests == old(self).requests,
                self.debug_info == knowledge_after_all(old(self).debug_info, all, it.index() as int),
                self.src_files@ == sources_after_all(old(self).src_files@, all, it.index() as int),
        {
            match response {
                DebugInfoResponse::Src(file) => {
                    self.store_src(file);
                },
                DebugInfoResponse::DebugInfo(file) => {
                    self.store_src(file);
                },
                DebugInfoResponse::ThinInfo(info) => {
                    self.debug_info = info;
                },
            }
        }
    }

    /// Stores a source file.
    fn store_src(&mut self, file: Arc<SrcFile>)
        requires
            old(self).wf(),
        ensures
            final(self).wf(),
            final(self).requests == old(self).requests,
            final(self).debug_info == old(self).debug_info,
            final(self).src_files@ == with_src(old(self).src_files@, file),
    {
        let hash = file.simple_hash();
        let mut n: usize = self.src_files.len();
        let mut at: Option<usize> = None;
        while n > 0 && at.is_none()
            invariant
                n <= self.src_files@.len(),
                self.src_files == old(self).src_files,
                self.requests == old(self).requests,
                self.debug_info == old(self).debug_info,
                match at {
                    Some(p) => p as int == src_index_upto(
                        self.src_files@,
                        hash,
                        self.src_files@.len() as int,
                    ),
                    None => src_index_upto(self.src_files@, hash, n as int) == src_index_upto(
                        self.src_files@,
                        hash,
                        self.src_files@.len() as int,
                    ),
                },
            decreases n + (if at is None { 1int } else { 0int }),
        {
            if self.src_files[n - 1].simple_hash() == hash {
                at = Some((n - 1) as usize);
            } else {
                n = n - 1;
            }
        }
        proof {
            lemma_with_src_distinct(self.src_files@, file);
            lemma_src_index(self.src_files@, hash, self.src_files@.len() as int);
        }
        match at {
            Some(p) => {
                self.src_files.set(p, file);
            },
            None => {
                self.src_files.push(file);
            },
        }
    }
}

} // verus!
