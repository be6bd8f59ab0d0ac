//! Source files of the debuggee: their text, their identity, and the table
//! that ties a source line to the address of its code.

use std::collections::HashMap;
use std::hash::BuildHasher;
use vstd::prelude::*;
use vstd::std_specs::cmp::PartialEqSpecImpl;
use crate::line_scan::BreakableSrcLocation;
use crate::subprograms::SubprogramView;

verus! {

broadcast use vstd::std_specs::hash::group_hash_axioms;

/// The 64-bit digest that identifies the file at a path: what a
/// `DefaultHasher` fresh from `DefaultHasher::new` returns once the path has
/// been hashed into it.
pub uninterp spec fn path_hash(path: Seq<char>) -> u64;

/// `BuildHasher::hash_one` of a default-built `DefaultHasher` on the path:
/// the digest depends on the path's text alone and is named by `path_hash`.
#[verifier::external_body]
fn digest_path(path: &str) -> (digest: u64)
    ensures
        digest == path_hash(path@),
{
    let builder = std::hash::BuildHasherDefault::<std::collections::hash_map::DefaultHasher>::default();
    builder.hash_one(std::path::Path::new(path))
}

/// A source file of the debuggee.
pub struct SrcFile {
    /// Where the file lies.
    pub path: String,
    /// The file's lines without their line ends, once they have been read.
    pub lines: Option<Vec<String>>,
    /// For a line, counted from 1, the address of its code.
    pub line_to_addr: HashMap<usize, u64>,
    /// For an address, the line whose code lies there.
    pub addr_to_line: HashMap<u64, usize>,
}

/// Whether two tables are inverses of each other: whatever one maps, the
/// other maps back.
pub open spec fn inverse_tables(line_to_addr: Map<usize, u64>, addr_to_line: Map<u64, usize>) -> bool {
    &&& forall|line: usize| #[trigger]
        line_to_addr.contains_key(line) ==> addr_to_line.contains_key(line_to_addr[line])
            && addr_to_line[line_to_addr[line]] == line
    &&& forall|addr: u64| #[trigger]
        addr_to_line.contains_key(addr) ==> line_to_addr.contains_key(addr_to_line[addr])
            && line_to_addr[addr_to_line[addr]] == addr
}

/// The line table after the first `n` locations were entered in turn: a
/// location is entered where neither its line nor its address is in the
/// table yet.
pub open spec fn table_upto(locations: Seq<BreakableSrcLocation>, n: int) -> Map<usize, u64>
    decreases n,
{
    if n <= 0 {
        Map::empty()
    } else {
        let earlier = table_upto(locations, n - 1);
        let location = locations[n - 1];
        if earlier.contains_key(location.src_line) || earlier.contains_value(location.addr) {
            earlier
        } else {
            earlier.insert(location.src_line, location.addr)
        }
    }
}

impl SrcFile {
    /// The two tables are inverses of each other.
    pub open spec fn wf(&self) -> bool {
        inverse_tables(self.line_to_addr@, self.addr_to_line@)
    }

    /// A file at `path` with the given text and empty tables.
    pub fn new(path: String, lines: Option<Vec<String>>) -> (file: SrcFile)
        ensures
            file.path@ == path@,
            file.lines == lines,
            file.line_to_addr@ == Map::<usize, u64>::empty(),
            file.addr_to_line@ == Map::<u64, usize>::empty(),
            file.wf(),
    {
        SrcFile { path, lines, line_to_addr: HashMap::new(), addr_to_line: HashMap::new() }
    }

    /// Takes the text of the file. The answer says whether the text held by
    /// the file was replaced, which it always is.
    pub fn load_contents(&mut self, lines: Vec<String>) -> (updated: bool)
        ensures
            updated,
            final(self).lines == Some(lines),
            final(self).path == old(self).path,
            final(self).line_to_addr == old(self).line_to_addr,
            final(self).addr_to_line == old(self).addr_to_line,
    {
        self.lines = Some(lines);
        true
    }

    /// The digest that identifies the file. It is taken from the path alone.
    pub fn simple_hash(&self) -> (digest: u64)
        ensures
            digest == path_hash(self.path@),
    {
        digest_path(self.path.as_str())
    }

    /// The address of the code of `line`, where the table knows the line.
    pub fn addr_of_line(&self, line: usize) -> (addr: Option<u64>)
        ensures
            addr == (if self.line_to_addr@.contains_key(line) {
                Some(self.line_to_addr@[line])
            } else {
                None
            }),
    {
        match self.line_to_addr.get(&line) {
            Some(addr) => Some(*addr),
            None => None,
        }
    }

    /// The line whose code lies at `addr`, where the table knows the address.
    pub fn line_of_addr(&self, addr: u64) -> (line: Option<usize>)
        ensures
            line == (if self.addr_to_line@.contains_key(addr) {
                Some(self.addr_to_line@[addr])
            } else {
                None
            }),
    {
        match self.addr_to_line.get(&addr) {
            Some(line) => Some(*line),
            None => None,
        }
    }

    /// Enters `line` and `addr` into the tables, each for the other, unless
    /// one of them is there already. The answer says whether they were
    /// entered.
    pub fn link(&mut self, line: usize, addr: u64) -> (entered: bool)
        requires
            old(self).wf(),
        ensures
            final(self).wf(),
            final(self).path == old(self).path,
            final(self).lines == old(self).lines,
            entered == (!old(self).line_to_addr@.contains_key(line) && !old(self).addr_to_line@.contains_key(addr)),
            entered ==> final(self).line_to_addr@ == old(self).line_to_addr@.insert(line, addr)
                && final(self).addr_to_line@ == old(self).addr_to_line@.insert(addr, line),
            !entered ==> final(self).line_to_addr@ == old(self).line_to_addr@ && final(self).addr_to_line@ == old(self).addr_to_line@,
    {
        if self.line_to_addr.contains_key(&line) || self.addr_to_line.contains_key(&addr) {
            return false;
        }
        self.line_to_addr.insert(line, addr);
        self.addr_to_line.insert(addr, line);
        assert forall|l: usize| #[trigger] self.line_to_addr@.contains_key(l) implies self.addr_to_line@.contains_key(
            self.line_to_addr@[l],
        ) && self.addr_to_line@[self.line_to_addr@[l]] == l by {
            if l != line {
                assert(old(self).line_to_addr@.contains_key(l));
            }
        }
        assert forall|a: u64| #[trigger] self.addr_to_line@.contains_key(a) implies self.line_to_addr@.contains_key(
            self.addr_to_line@[a],
        ) && self.line_to_addr@[self.addr_to_line@[a]] == a by {
            if a != addr {
                assert(old(self).addr_to_line@.contains_key(a));
            }
        }
        true
    }

    /// Enters the locations into the tables in turn, each unless its line or
    /// its address is there already.
    pub fn index_locations(&mut self, locations: &Vec<BreakableSrcLocation>)
        requires
            old(self).wf(),
            old(self).line_to_addr@ == Map::<usize, u64>::empty(),
            old(self).addr_to_line@ == Map::<u64, usize>::empty(),
        ensures
            final(self).wf(),
            final(self).path == old(self).path,
            final(self).lines == old(self).lines,
            final(self).line_to_addr@ == table_upto(locations@, locations@.len() as int),
    {
        let mut i: usize = 0;
        while i < locations.len()
            invariant
                i <= locations@.len(),
                self.wf(),
                self.path == old(self).path,
                self.lines == old(self).lines,
                self.line_to_addr@ == table_upto(locations@, i as int),
            decreases locations@.len() - i,
        {
            let ghost before = *self;
            let location = locations[i];
            proof {
                lemma_inverse_values(before.line_to_addr@, before.addr_to_line@, location.addr);
            }
            self.link(location.src_line, location.addr);
            i = i + 1;
        }
    }
}

/// The tables of a well-formed file are inverses of each other where they
/// are defined: the table of addresses takes the address of a line back to
/// the line, and the table of lines takes the line of an address back to the
/// address.
pub proof fn law_line_tables_inverse(file: SrcFile, line: usize, addr: u64)
    requires
        file.wf(),
    ensures
        file.line_to_addr@.contains_key(line) ==> file.addr_to_line@.contains_key(
            file.line_to_addr@[line],
        ) && file.addr_to_line@[file.line_to_addr@[line]] == line,
        file.addr_to_line@.contains_key(addr) ==> file.line_to_addr@.contains_key(
            file.addr_to_line@[addr],
        ) && file.line_to_addr@[file.addr_to_line@[addr]] == addr,
{
}

/// Of inverse tables, one maps to a value exactly when the other maps it.
pub proof fn lemma_inverse_values(
    line_to_addr: Map<usize, u64>,
    addr_to_line: Map<u64, usize>,
    addr: u64,
)
    requires
        inverse_tables(line_to_addr, addr_to_line),
    ensures
        line_to_addr.contains_value(addr) == addr_to_line.contains_key(addr),
{
    if addr_to_line.contains_key(addr) {
        assert(line_to_addr.contains_key(addr_to_line[addr]));
    }
    if line_to_addr.contains_value(addr) {
        let line = choose|line: usize| line_to_addr.contains_key(line) && line_to_addr[line] == addr;
        assert(line_to_addr.contains_key(line));
    }
}

impl PartialEq for SrcFile {
    /// Two files are the same file when their digests agree.
    fn eq(&self, other: &Self) -> (equal: bool) {
        self.simple_hash() == other.simple_hash()
    }
}

impl PartialEqSpecImpl for SrcFile {
    open spec fn obeys_eq_spec() -> bool {
        true
    }

    open spec fn eq_spec(&self, other: &Self) -> bool {
        path_hash(self.path@) == path_hash(other.path@)
    }
}

/// The executable that is debugged.
pub struct BinaryFile {
    /// Where the file lies.
    pub path: String,
    /// Its bytes, once they have been read.
    pub contents: Option<Vec<u8>>,
    /// Its disassembly, one line of text for each instruction.
    pub decompiled_src: Option<Vec<String>>,
}


/// Whether location `i` is entered into the line table: neither its line
/// nor its address was entered by a location before it.
pub open spec fn entered(locations: Seq<BreakableSrcLocation>, i: int) -> bool {
    !table_upto(locations, i).contains_key(locations[i].src_line) && !table_upto(
        locations,
        i,
    ).contains_value(locations[i].addr)
}

/// What the line table maps was entered by one of the locations.
pub proof fn lemma_table_entries(locations: Seq<BreakableSrcLocation>, n: int, line: usize)
    requires
        0 <= n <= locations.len(),
        table_upto(locations, n).contains_key(line),
    ensures
        exists|i: int|
            0 <= i < n && entered(locations, i) && (#[trigger] locations[i]).src_line == line
                && locations[i].addr == table_upto(locations, n)[line],
    decreases n,
{
    if n > 0 {
        let earlier = table_upto(locations, n - 1);
        let last = locations[n - 1];
        if earlier.contains_key(line) {
            lemma_table_entries(locations, n - 1, line);
            let i = choose|i: int|
                0 <= i < n - 1 && entered(locations, i) && (#[trigger] locations[i]).src_line
                    == line && locations[i].addr == earlier[line];
            assert(0 <= i < n && entered(locations, i) && locations[i].src_line == line
                && locations[i].addr == table_upto(locations, n)[line]);
        } else {
            assert(entered(locations, n - 1) && locations[n - 1].src_line == line
                && locations[n - 1].addr == table_upto(locations, n)[line]);
        }
    }
}

/// A subprogram holds the code of its lines: where each location that is
/// entered into the line table with a line of the subprogram lies in the
/// subprogram's address range, the table maps each line of the subprogram
/// that it maps at all to an address in that range.
pub proof fn law_subprogram_holds_its_lines(
    subprogram: SubprogramView,
    locations: Seq<BreakableSrcLocation>,
    line: usize,
)
    requires
        forall|i: int|
            0 <= i < locations.len() && entered(locations, i) && subprogram.start_line <= (
            #[trigger] locations[i]).src_line <= subprogram.end_line ==> subprogram.holds_addr(
                locations[i].addr,
            ),
        subprogram.start_line <= line <= subprogram.end_line,
        table_upto(locations, locations.len() as int).contains_key(line),
    ensures
        subprogram.holds_addr(table_upto(locations, locations.len() as int)[line]),
{
    lemma_table_entries(locations, locations.len() as int, line);
}

} // verus!
