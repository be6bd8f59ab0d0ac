//! The load bias of a run, worked out from the kernel's table of the
//! debuggee's mappings and from the address at which the executable was
//! linked.
//!
//! A line of the table begins with the first address of the mapping in hex
//! digits, followed by `-`. The first line is the lowest mapping, which is
//! where the first loadable segment of the executable went.

use vstd::prelude::*;
use crate::addresses::BIAS;
use crate::elf::{elf_segments, segment_addresses};

verus! {

/// The size of a page of memory.
pub const PAGE_SIZE: u64 = 0x1000;

/// The value of a hex digit, of either case; -1 for a byte that is none.
pub open spec fn hex_value(byte: u8) -> int {
    if 0x30 <= byte <= 0x39 {
        byte - 0x30
    } else if 0x61 <= byte <= 0x66 {
        byte - 0x61 + 10
    } else if 0x41 <= byte <= 0x46 {
        byte - 0x41 + 10
    } else {
        -1
    }
}

/// Where the hex digits that begin at `from` end: the index of the first
/// byte from there on that is no hex digit, or the length of the text.
pub open spec fn hex_run(text: Seq<u8>, from: int) -> int
    decreases text.len() - from,
{
    if from < 0 || from >= text.len() || hex_value(text[from]) < 0 {
        from
    } else {
        hex_run(text, from + 1)
    }
}

/// The number that the first `n` bytes of a text spell in hex digits, the
/// most significant first.
pub open spec fn hex_number(text: Seq<u8>, n: int) -> int
    decreases n,
{
    if n <= 0 {
        0
    } else {
        16 * hex_number(text, n - 1) + hex_value(text[n - 1])
    }
}

/// The first address of the first mapping of a table of mappings: the
/// number that the hex digits at the table's beginning spell, where there
/// is at least one, `-` follows them and the number is an address.
pub open spec fn mapping_start(table: Seq<u8>) -> Option<u64> {
    let end = hex_run(table, 0);
    if 0 < end < table.len() && table[end] == 0x2d && hex_number(table, end) <= u64::MAX {
        Some(hex_number(table, end) as u64)
    } else {
        None
    }
}

/// The load bias of a run whose mappings the table lists, for an executable
/// linked at `link_base`: how far the first mapping lies above the link
/// base. There is none where the table does not begin with an address, or
/// the address lies below the link base.
pub open spec fn bias_of(table: Seq<u8>, link_base: u64) -> Option<u64> {
    match mapping_start(table) {
        Some(start) => if start >= link_base {
            Some((start - link_base) as u64)
        } else {
            None
        },
        None => None,
    }
}

/// The page in which an address lies, by its first address.
pub open spec fn page_of(addr: u64) -> u64 {
    (addr - addr % 0x1000) as u64
}

/// The address at which an executable with these loadable segments was
/// linked: the page of its first segment; 0 where it has no segment.
pub open spec fn link_base_of(segments: Seq<u64>) -> u64 {
    if segments.len() == 0 {
        0
    } else {
        page_of(segments[0])
    }
}

/// The load bias of a run of the executable `file` whose mappings the table
/// lists; the usual bias where the table yields none.
pub open spec fn load_bias_of(table: Seq<u8>, file: Seq<u8>) -> u64 {
    match bias_of(table, link_base_of(elf_segments(file))) {
        Some(bias) => bias,
        None => BIAS,
    }
}

/// The value of a hex digit.
fn digit_value(byte: u8) -> (value: Option<u64>)
    ensures
        match value {
            Some(value) => value == hex_value(byte),
            None => hex_value(byte) < 0,
        },
{
    if 0x30 <= byte && byte <= 0x39 {
        Some((byte - 0x30) as u64)
    } else if 0x61 <= byte && byte <= 0x66 {
        Some((byte - 0x61 + 10) as u64)
    } else if 0x41 <= byte && byte <= 0x46 {
        Some((byte - 0x41 + 10) as u64)
    } else {
        None
    }
}

/// The hex digits that begin at some place end where those that begin
/// further on in the same run end.
proof fn lemma_hex_run_goes_on(text: Seq<u8>, from: int)
    requires
        0 <= from < text.len(),
        hex_value(text[from]) >= 0,
    ensures
        hex_run(text, from) == hex_run(text, from + 1),
{
}

/// A number in hex digits is not negative, and a further digit makes it no
/// smaller.
proof fn lemma_hex_number_grows(text: Seq<u8>, n: int)
    requires
        0 <= n < text.len(),
        forall|i: int| 0 <= i <= n ==> hex_value(#[trigger] text[i]) >= 0,
    ensures
        0 <= hex_number(text, n) <= hex_number(text, n + 1),
    decreases n,
{
    if n > 0 {
        lemma_hex_number_grows(text, n - 1);
    }
}

/// The load bias of a run whose mappings `table` lists, for an executable
/// linked at `link_base`.
pub fn mapped_bias(table: &[u8], link_base: u64) -> (bias: Option<u64>)
    ensures
        bias == bias_of(table@, link_base),
{
    let mut end: usize = 0;
    let mut start: u64 = 0;
    let mut fits = true;
    let mut more = true;
    while more && end < table.len()
        invariant
            end <= table@.len(),
            hex_run(table@, end as int) == hex_run(table@, 0),
            forall|i: int| 0 <= i < end ==> hex_value(#[trigger] table@[i]) >= 0,
            fits ==> start == hex_number(table@, end as int),
            !fits ==> hex_number(table@, end as int) > u64::MAX,
            !more ==> end < table@.len() && hex_value(table@[end as int]) < 0,
        decreases table@.len() - end + (if more { 1int } else { 0int }),
    {
        match digit_value(table[end]) {
            Some(digit) => {
                proof {
                    lemma_hex_run_goes_on(table@, end as int);
                    lemma_hex_number_grows(table@, end as int);
                }
                if fits && start <= (u64::MAX - digit) / 16 {
                    start = 16 * start + digit;
                } else {
                    fits = false;
                }
                end = end + 1;
            },
            None => {
                more = false;
            },
        }
    }
    assert(hex_run(table@, 0) == end);
    if end == 0 || end >= table.len() || table[end] != 0x2d || !fits || start < link_base {
        return None;
    }
    Some(start - link_base)
}

/// The address at which the executable `file` was linked.
pub fn link_base(file: &[u8]) -> (base: u64)
    ensures
        base == link_base_of(elf_segments(file@)),
{
    let segments = segment_addresses(file);
    if segments.len() == 0 {
        0
    } else {
        segments[0] - segments[0] % PAGE_SIZE
    }
}

/// The load bias of a run of the executable `file` whose mappings `table`
/// lists; the usual bias where the table yields none.
pub fn load_bias(table: &[u8], file: &[u8]) -> (bias: u64)
    ensures
        bias == load_bias_of(table@, file@),
{
    match mapped_bias(table, link_base(file)) {
        Some(bias) => bias,
        None => BIAS,
    }
}

} // verus!
