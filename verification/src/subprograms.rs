//! From the entries of a compilation unit to the subprograms of one source
//! file, each with the source lines that its code spans.

use vstd::prelude::*;
use vstd::string::StringExecFns;
use vstd::string::StrSliceExecFns;
use crate::dwarf_records::{
    AttrRecord,
    DieRecord,
    FileRecord,
    UnitRecord,
    DW_AT_DECL_FILE,
    DW_AT_HIGH_PC,
    DW_AT_INLINE,
    DW_AT_LOW_PC,
    DW_AT_NAME,
    DW_TAG_SUBPROGRAM,
};
use crate::line_scan::BreakableSrcLocation;
use crate::paths::{paths_equal, same_path};

verus! {

/// A function of the debuggee.
#[derive(Debug)]
pub struct Subprogram {
    /// The function's name.
    pub name: String,
    /// Address of its first instruction.
    pub low_addr: u64,
    /// First address behind its code.
    pub high_addr: u64,
    /// Identity of the source file that declares it.
    pub src_file_hash: u64,
    /// Line of the instruction at `low_addr`.
    pub start_line: usize,
    /// Line of the last instruction of its code.
    pub end_line: usize,
}

/// A subprogram as a plain value.
pub struct SubprogramView {
    pub name: Seq<char>,
    pub low_addr: u64,
    pub high_addr: u64,
    pub src_file_hash: u64,
    pub start_line: usize,
    pub end_line: usize,
}

impl View for Subprogram {
    type V = SubprogramView;

    open spec fn view(&self) -> SubprogramView {
        SubprogramView {
            name: self.name@,
            low_addr: self.low_addr,
            high_addr: self.high_addr,
            src_file_hash: self.src_file_hash,
            start_line: self.start_line,
            end_line: self.end_line,
        }
    }
}

impl SubprogramView {
    /// The code is not empty and spans more than one source line.
    pub open spec fn wf(&self) -> bool {
        self.low_addr < self.high_addr && self.start_line < self.end_line
    }

    /// Whether `addr` lies in the subprogram's address range, both ends
    /// counted in.
    pub open spec fn holds_addr(&self, addr: u64) -> bool {
        self.low_addr <= addr <= self.high_addr
    }
}

impl Subprogram {
    /// A copy with the same fields.
    pub fn duplicate(&self) -> (copy: Subprogram)
        ensures
            copy@ == self@,
    {
        Subprogram {
            name: self.name.clone(),
            low_addr: self.low_addr,
            high_addr: self.high_addr,
            src_file_hash: self.src_file_hash,
            start_line: self.start_line,
            end_line: self.end_line,
        }
    }

    /// Whether `addr` lies in the address range, both ends counted in.
    pub fn holds_addr(&self, addr: u64) -> (held: bool)
        ensures
            held == self@.holds_addr(addr),
    {
        self.low_addr <= addr && addr <= self.high_addr
    }
}

/// The plain values of a list of subprograms.
pub open spec fn subprogram_views(list: Seq<Subprogram>) -> Seq<SubprogramView> {
    list.map_values(|s: Subprogram| s@)
}

/// Appends copies of the subprograms of `list` to `out`.
pub fn append_duplicates(out: &mut Vec<Subprogram>, list: &Vec<Subprogram>)
    ensures
        subprogram_views(final(out)@) == subprogram_views(old(out)@) + subprogram_views(list@),
{
    let ghost start = out@;
    let mut i: usize = 0;
    while i < list.len()
        invariant
            i <= list@.len(),
            out@.len() == start.len() + i,
            forall|k: int| 0 <= k < start.len() ==> out@[k] == start[k],
            forall|j: int|
                start.len() <= j < out@.len() ==> (#[trigger] out@[j])@ == list@[j - start.len()]@,
        decreases list@.len() - i,
    {
        out.push(list[i].duplicate());
        i = i + 1;
    }
    assert(subprogram_views(out@) =~= subprogram_views(start) + subprogram_views(list@));
}

/// The text of a file of the table as a declaration names it: the file's
/// directory and name with `/` between them, behind the compilation directory
/// where the directory is an include directory given relative to it. Empty
/// where the index names no file, and for index 0 up to DWARF 4.
pub open spec fn declared_file_text(unit: UnitRecord, file_index: u64) -> Seq<char> {
    if file_index == 0 && unit.version <= 4 {
        Seq::empty()
    } else if unit.line_program is None {
        Seq::empty()
    } else if unit.line_program->0.file(file_index) is None {
        Seq::empty()
    } else {
        file_text(unit, unit.line_program->0.file(file_index)->0)
    }
}

/// Whether a text begins with `/`.
pub open spec fn is_rooted(text: Seq<char>) -> bool {
    text.len() > 0 && text[0] == '/'
}

/// The directory part of `file_text`.
pub open spec fn directory_text(unit: UnitRecord, file: FileRecord) -> Seq<char> {
    if file.directory is None {
        Seq::empty()
    } else {
        let directory = file.directory->0@;
        let lead = if file.directory_index != 0 && !is_rooted(directory) && unit.comp_dir is Some {
            unit.comp_dir->0@ + seq!['/']
        } else {
            Seq::empty()
        };
        lead + directory + seq!['/']
    }
}

/// The text of one file: its directory part, then its name.
pub open spec fn file_text(unit: UnitRecord, file: FileRecord) -> Seq<char> {
    directory_text(unit, file) + file.name@
}

/// Appends to `w` the text of the file that `file_index` names in `unit`.
pub fn dump_file_index(w: &mut String, file_index: u64, unit: &UnitRecord)
    ensures
        final(w)@ == old(w)@ + declared_file_text(*unit, file_index),
{
    proof {
        reveal_strlit("/");
    }
    if file_index == 0 && unit.version <= 4 {
        assert(w@ =~= old(w)@ + Seq::<char>::empty());
        return ;
    }
    let program = match &unit.line_program {
        Some(program) => program,
        None => {
            assert(w@ =~= old(w)@ + Seq::<char>::empty());
            return ;
        },
    };
    if file_index >= program.files.len() as u64 {
        assert(w@ =~= old(w)@ + Seq::<char>::empty());
        return ;
    }
    let file = match &program.files[file_index as usize] {
        Some(file) => file,
        None => {
            assert(w@ =~= old(w)@ + Seq::<char>::empty());
            return ;
        },
    };
    assert(program.file(file_index) == Some(*file));
    if let Some(directory) = &file.directory {
        let rooted = directory.as_str().unicode_len() > 0 && directory.as_str().get_char(0) == '/';
        if file.directory_index != 0 && !rooted {
            if let Some(comp_dir) = &unit.comp_dir {
                w.append(comp_dir.as_str());
                w.append("/");
            }
        }
        w.append(directory.as_str());
        w.append("/");
    }
    w.append(file.name.as_str());
    assert(w@ =~= old(w)@ + file_text(*unit, *file));
}

/// What the attributes of an entry say of a subprogram.
pub struct DieFacts {
    /// The last name given, empty if none was.
    pub name: Seq<char>,
    /// The last first address given, 0 if none was.
    pub low_addr: u64,
    /// The last code size given, 0 if none was.
    pub size: u64,
    /// The texts of the declaring files given, one behind the other.
    pub decl_file: Seq<char>,
    /// An inline attribute was seen.
    pub inlined: bool,
    /// Every attribute that was asked for could be read in the way it was
    /// asked for.
    pub readable: bool,
}

/// The facts before any attribute is read.
pub open spec fn no_facts() -> DieFacts {
    DieFacts {
        name: Seq::empty(),
        low_addr: 0,
        size: 0,
        decl_file: Seq::empty(),
        inlined: false,
        readable: true,
    }
}

/// The facts after one more attribute.
pub open spec fn facts_with(facts: DieFacts, attr: AttrRecord, unit: UnitRecord) -> DieFacts {
    if attr.name == DW_AT_LOW_PC {
        match attr.address {
            Some(addr) => DieFacts { low_addr: addr, ..facts },
            None => DieFacts { readable: false, ..facts },
        }
    } else if attr.name == DW_AT_HIGH_PC {
        match attr.unsigned {
            Some(size) => DieFacts { size: size, ..facts },
            None => DieFacts { readable: false, ..facts },
        }
    } else if attr.name == DW_AT_NAME {
        match attr.text {
            Some(text) => DieFacts { name: text@, ..facts },
            None => DieFacts { readable: false, ..facts },
        }
    } else if attr.name == DW_AT_DECL_FILE {
        match attr.unsigned {
            Some(index) => DieFacts {
                decl_file: facts.decl_file + declared_file_text(unit, index),
                ..facts
            },
            None => DieFacts { readable: false, ..facts },
        }
    } else if attr.name == DW_AT_INLINE {
        DieFacts { inlined: true, ..facts }
    } else {
        facts
    }
}

/// The facts that the first `n` attributes give.
pub open spec fn die_facts(attrs: Seq<AttrRecord>, unit: UnitRecord, n: int) -> DieFacts
    decreases n,
{
    if n <= 0 {
        no_facts()
    } else {
        facts_with(die_facts(attrs, unit, n - 1), attrs[n - 1], unit)
    }
}

/// The line of the last of the first `n` locations that lies at `low`; 0 if
/// none does.
pub open spec fn start_line_upto(locations: Seq<BreakableSrcLocation>, low: u64, n: int) -> usize
    decreases n,
{
    if n <= 0 {
        0
    } else if locations[n - 1].addr == low {
        locations[n - 1].src_line
    } else {
        start_line_upto(locations, low, n - 1)
    }
}

/// Among the first `n` locations, the index of the one with the largest
/// address in `[low, high)`, the last of them where several share it; -1 if
/// none lies in the range.
pub open spec fn last_in_range(
    locations: Seq<BreakableSrcLocation>,
    low: u64,
    high: u64,
    n: int,
) -> int
    decreases n,
{
    if n <= 0 {
        -1
    } else {
        let before = last_in_range(locations, low, high, n - 1);
        let addr = locations[n - 1].addr;
        if low <= addr < high && (before < 0 || addr >= locations[before].addr) {
            n - 1
        } else {
            before
        }
    }
}

/// The line at which a subprogram starts: that of the location at its first
/// address.
pub open spec fn start_line_of(locations: Seq<BreakableSrcLocation>, low: u64) -> usize {
    start_line_upto(locations, low, locations.len() as int)
}

/// The line at which a subprogram ends: that of the location with the
/// largest address in `[low, high)`; 0 if there is none.
pub open spec fn end_line_of(locations: Seq<BreakableSrcLocation>, low: u64, high: u64) -> usize {
    let pick = last_in_range(locations, low, high, locations.len() as int);
    if pick < 0 {
        0
    } else {
        locations[pick].src_line
    }
}

/// What `last_in_range` picks lies in the range, and no location of the
/// range has a larger address or shares its address from further behind.
pub proof fn lemma_last_in_range(
    locations: Seq<BreakableSrcLocation>,
    low: u64,
    high: u64,
    n: int,
)
    requires
        0 <= n <= locations.len(),
    ensures
        -1 <= last_in_range(locations, low, high, n) < n,
        last_in_range(locations, low, high, n) >= 0 ==> low <= locations[last_in_range(
            locations,
            low,
            high,
            n,
        )].addr < high,
        forall|j: int|
            0 <= j < n && low <= (#[trigger] locations[j]).addr < high ==> {
                let pick = last_in_range(locations, low, high, n);
                &&& pick >= 0
                &&& locations[j].addr <= locations[pick].addr
                &&& locations[j].addr == locations[pick].addr ==> j <= pick
            },
    decreases n,
{
    if n > 0 {
        lemma_last_in_range(locations, low, high, n - 1);
    }
}

/// The subprogram that an entry describes for the file `target`, if it
/// describes one: the entry is a subprogram whose attributes could be read,
/// declared in `target`, not inlined, with code that is not empty, ends
/// within the address space and spans lines that rise from its first
/// instruction to its last.
pub open spec fn die_subprogram(
    die: DieRecord,
    unit: UnitRecord,
    target: Seq<char>,
    file_hash: u64,
    locations: Seq<BreakableSrcLocation>,
) -> Option<SubprogramView> {
    let facts = die_facts(die.attrs@, unit, die.attrs@.len() as int);
    let high = facts.low_addr + facts.size;
    if die.tag != DW_TAG_SUBPROGRAM || !facts.readable || !same_path(facts.decl_file, target)
        || facts.inlined || facts.size == 0 || high > u64::MAX {
        None
    } else {
        let start = start_line_of(locations, facts.low_addr);
        let end = end_line_of(locations, facts.low_addr, high as u64);
        if start >= end {
            None
        } else {
            Some(
                SubprogramView {
                    name: facts.name,
                    low_addr: facts.low_addr,
                    high_addr: high as u64,
                    src_file_hash: file_hash,
                    start_line: start,
                    end_line: end,
                },
            )
        }
    }
}

/// The subprograms that the first `n` entries of `unit` describe, in entry
/// order.
pub open spec fn subprograms_upto(
    unit: UnitRecord,
    target: Seq<char>,
    file_hash: u64,
    locations: Seq<BreakableSrcLocation>,
    n: int,
) -> Seq<SubprogramView>
    decreases n,
{
    if n <= 0 {
        Seq::empty()
    } else {
        let earlier = subprograms_upto(unit, target, file_hash, locations, n - 1);
        match die_subprogram(unit.entries@[n - 1], unit, target, file_hash, locations) {
            Some(subprogram) => earlier.push(subprogram),
            None => earlier,
        }
    }
}

/// The line of the location at `low`.
pub fn find_start_line(locations: &Vec<BreakableSrcLocation>, low: u64) -> (line: usize)
    ensures
        line == start_line_of(locations@, low),
{
    let mut line: usize = 0;
    let mut i: usize = 0;
    while i < locations.len()
        invariant
            i <= locations@.len(),
            line == start_line_upto(locations@, low, i as int),
        decreases locations@.len() - i,
    {
        if locations[i].addr == low {
            line = locations[i].src_line;
        }
        i = i + 1;
    }
    line
}

/// The line of the location with the largest address in `[low, high)`.
pub fn find_end_line(locations: &Vec<BreakableSrcLocation>, low: u64, high: u64) -> (line: usize)
    ensures
        line == end_line_of(locations@, low, high),
{
    let mut pick: Option<usize> = None;
    let mut i: usize = 0;
    while i < locations.len()
        invariant
            i <= locations@.len(),
            match pick {
                Some(p) => p < i && p == last_in_range(locations@, low, high, i as int),
                None => last_in_range(locations@, low, high, i as int) == -1,
            },
        decreases locations@.len() - i,
    {
        let addr = locations[i].addr;
        if low <= addr && addr < high {
            let better = match pick {
                Some(p) => addr >= locations[p].addr,
                None => true,
            };
            if better {
                pick = Some(i);
            }
        }
        i = i + 1;
    }
    match pick {
        Some(p) => locations[p].src_line,
        None => 0,
    }
}

/// What the scan of an entry's attributes has gathered.
struct Gathered {
    name: String,
    low_addr: u64,
    size: u64,
    decl_file: String,
    inlined: bool,
    readable: bool,
}

impl Gathered {
    spec fn facts(&self) -> DieFacts {
        DieFacts {
            name: self.name@,
            low_addr: self.low_addr,
            size: self.size,
            decl_file: self.decl_file@,
            inlined: self.inlined,
            readable: self.readable,
        }
    }
}

/// Reads the attributes of an entry.
fn gather_facts(die: &DieRecord, unit: &UnitRecord) -> (gathered: Gathered)
    ensures
        gathered.facts() == die_facts(die.attrs@, *unit, die.attrs@.len() as int),
{
    let mut gathered = Gathered {
        name: String::new(),
        low_addr: 0,
        size: 0,
        decl_file: String::new(),
        inlined: false,
        readable: true,
    };
    let mut i: usize = 0;
    while i < die.attrs.len()
        invariant
            i <= die.attrs@.len(),
            gathered.facts() == die_facts(die.attrs@, *unit, i as int),
        decreases die.attrs@.len() - i,
    {
        let attr = &die.attrs[i];
        if attr.name == DW_AT_LOW_PC {
            match attr.address {
                Some(addr) => {
                    gathered.low_addr = addr;
                },
                None => {
                    gathered.readable = false;
                },
            }
        } else if attr.name == DW_AT_HIGH_PC {
            match attr.unsigned {
                Some(size) => {
                    gathered.size = size;
                },
                None => {
                    gathered.readable = false;
                },
            }
        } else if attr.name == DW_AT_NAME {
            match &attr.text {
                Some(text) => {
                    gathered.name = text.clone();
                },
                None => {
                    gathered.readable = false;
                },
            }
        } else if attr.name == DW_AT_DECL_FILE {
            match attr.unsigned {
                Some(index) => {
                    dump_file_index(&mut gathered.decl_file, index, unit);
                },
                None => {
                    gathered.readable = false;
                },
            }
        } else if attr.name == DW_AT_INLINE {
            gathered.inlined = true;
        }
        i = i + 1;
    }
    gathered
}

/// The subprogram that one entry describes for the file `target`.
pub fn read_subprogram(
    die: &DieRecord,
    unit: &UnitRecord,
    target: &str,
    file_hash: u64,
    locations: &Vec<BreakableSrcLocation>,
) -> (found: Option<Subprogram>)
    ensures
        match found {
            Some(subprogram) => die_subprogram(*die, *unit, target@, file_hash, locations@) == Some(
                subprogram@,
            ),
            None => die_subprogram(*die, *unit, target@, file_hash, locations@) is None,
        },
{
    if die.tag != DW_TAG_SUBPROGRAM {
        return None;
    }
    let gathered = gather_facts(die, unit);
    if !gathered.readable || gathered.inlined || gathered.size == 0 {
        return None;
    }
    if !paths_equal(gathered.decl_file.as_str(), target) {
        return None;
    }
    let high = match gathered.low_addr.checked_add(gathered.size) {
        Some(high) => high,
        None => {
            return None;
        },
    };
    let start = find_start_line(locations, gathered.low_addr);
    let end = find_end_line(locations, gathered.low_addr, high);
    if start >= end {
        return None;
    }
    Some(
        Subprogram {
            name: gathered.name,
            low_addr: gathered.low_addr,
            high_addr: high,
            src_file_hash: file_hash,
            start_line: start,
            end_line: end,
        },
    )
}

/// The subprograms that the entries of `unit` describe for the file
/// `target`, in entry order.
pub fn read_subprograms(
    unit: &UnitRecord,
    target: &str,
    file_hash: u64,
    locations: &Vec<BreakableSrcLocation>,
) -> (found: Vec<Subprogram>)
    ensures
        subprogram_views(found@) == subprograms_upto(
            *unit,
            target@,
            file_hash,
            locations@,
            unit.entries@.len() as int,
        ),
{
    let mut found: Vec<Subprogram> = Vec::new();
    let mut i: usize = 0;
    while i < unit.entries.len()
        invariant
            i <= unit.entries@.len(),
            subprogram_views(found@) == subprograms_upto(
                *unit,
                target@,
                file_hash,
                locations@,
                i as int,
            ),
        decreases unit.entries@.len() - i,
    {
        let ghost before = found@;
        match read_subprogram(&unit.entries[i], unit, target, file_hash, locations) {
            Some(subprogram) => {
                found.push(subprogram);
                assert(subprogram_views(found@) =~= subprogram_views(before).push(subprogram@));
            },
            None => {},
        }
        i = i + 1;
    }
    found
}


/// Each subprogram that is found in a unit has code that is not empty and
/// spans more than one source line, and belongs to the file it was sought
/// for.
pub proof fn lemma_found_subprograms_sound(
    unit: UnitRecord,
    target: Seq<char>,
    file_hash: u64,
    locations: Seq<BreakableSrcLocation>,
    n: int,
)
    requires
        0 <= n <= unit.entries@.len(),
    ensures
        forall|i: int|
            0 <= i < subprograms_upto(unit, target, file_hash, locations, n).len() ==> {
                let found = #[trigger] subprograms_upto(unit, target, file_hash, locations, n)[i];
                found.wf() && found.src_file_hash == file_hash
            },
    decreases n,
{
    if n > 0 {
        lemma_found_subprograms_sound(unit, target, file_hash, locations, n - 1);
        let earlier = subprograms_upto(unit, target, file_hash, locations, n - 1);
        let all = subprograms_upto(unit, target, file_hash, locations, n);
        let found = die_subprogram(unit.entries@[n - 1], unit, target, file_hash, locations);
        assert forall|i: int| 0 <= i < all.len() implies (#[trigger] all[i]).wf() && all[i].src_file_hash
            == file_hash by {
            if i < earlier.len() {
                assert(all[i] == earlier[i]);
            } else {
                assert(all[i] == found->0);
            }
        }
    }
}

/// The index of the first of the first `n` subprograms that belongs to the
/// file `file_hash` and whose lines hold `line`; -1 if there is none.
pub open spec fn first_on_line(subprograms: Seq<Subprogram>, file_hash: u64, line: usize, n: int) -> int
    decreases n,
{
    if n <= 0 {
        -1
    } else {
        let earlier = first_on_line(subprograms, file_hash, line, n - 1);
        let last = subprograms[n - 1];
        if earlier >= 0 {
            earlier
        } else if last.src_file_hash == file_hash && last.start_line <= line <= last.end_line {
            n - 1
        } else {
            -1
        }
    }
}

/// The index of the first of the first `n` subprograms whose address range
/// holds `addr`; -1 if there is none.
pub open spec fn first_at_addr(subprograms: Seq<Subprogram>, addr: u64, n: int) -> int
    decreases n,
{
    if n <= 0 {
        -1
    } else {
        let earlier = first_at_addr(subprograms, addr, n - 1);
        if earlier >= 0 {
            earlier
        } else if subprograms[n - 1]@.holds_addr(addr) {
            n - 1
        } else {
            -1
        }
    }
}

/// Once `first_on_line` has found a subprogram, it finds the same one among
/// more subprograms.
pub proof fn lemma_first_on_line_stays(
    subprograms: Seq<Subprogram>,
    file_hash: u64,
    line: usize,
    n: int,
    m: int,
)
    requires
        0 <= n <= m,
        first_on_line(subprograms, file_hash, line, n) >= 0,
    ensures
        first_on_line(subprograms, file_hash, line, m) == first_on_line(
            subprograms,
            file_hash,
            line,
            n,
        ),
    decreases m - n,
{
    if n < m {
        lemma_first_on_line_stays(subprograms, file_hash, line, n, m - 1);
    }
}

/// Once `first_at_addr` has found a subprogram, it finds the same one among
/// more subprograms.
pub proof fn lemma_first_at_addr_stays(subprograms: Seq<Subprogram>, addr: u64, n: int, m: int)
    requires
        0 <= n <= m,
        first_at_addr(subprograms, addr, n) >= 0,
    ensures
        first_at_addr(subprograms, addr, m) == first_at_addr(subprograms, addr, n),
    decreases m - n,
{
    if n < m {
        lemma_first_at_addr_stays(subprograms, addr, n, m - 1);
    }
}

/// The first subprogram of the file `file_hash` whose lines hold `line`.
pub fn find_subprogram_by_line(subprograms: &Vec<Subprogram>, file_hash: u64, line: usize) -> (found:
    Option<usize>)
    ensures
        match found {
            Some(index) => index < subprograms@.len() && index == first_on_line(
                subprograms@,
                file_hash,
                line,
                subprograms@.len() as int,
            ),
            None => first_on_line(subprograms@, file_hash, line, subprograms@.len() as int) < 0,
        },
{
    let mut i: usize = 0;
    while i < subprograms.len()
        invariant
            i <= subprograms@.len(),
            first_on_line(subprograms@, file_hash, line, i as int) < 0,
        decreases subprograms@.len() - i,
    {
        let subprogram = &subprograms[i];
        if subprogram.src_file_hash == file_hash && subprogram.start_line <= line && line
            <= subprogram.end_line {
            proof {
                lemma_first_on_line_stays(
                    subprograms@,
                    file_hash,
                    line,
                    i as int + 1,
                    subprograms@.len() as int,
                );
            }
            return Some(i);
        }
        i = i + 1;
    }
    None
}

/// The first subprogram whose address range holds `addr`.
pub fn find_subprogram_by_addr(subprograms: &Vec<Subprogram>, addr: u64) -> (found: Option<usize>)
    ensures
        match found {
            Some(index) => index < subprograms@.len() && index == first_at_addr(
                subprograms@,
                addr,
                subprograms@.len() as int,
            ),
            None => first_at_addr(subprograms@, addr, subprograms@.len() as int) < 0,
        },
{
    let mut i: usize = 0;
    while i < subprograms.len()
        invariant
            i <= subprograms@.len(),
            first_at_addr(subprograms@, addr, i as int) < 0,
        decreases subprograms@.len() - i,
    {
        if subprograms[i].holds_addr(addr) {
            proof {
                lemma_first_at_addr_stays(subprograms@, addr, i as int + 1, subprograms@.len() as int);
            }
            return Some(i);
        }
        i = i + 1;
    }
    None
}

} // verus!
