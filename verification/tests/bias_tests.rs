use degrugger::addresses::BIAS;
use degrugger::bias::link_base;
use degrugger::bias::load_bias;
use degrugger::bias::mapped_bias;
use degrugger::bias::PAGE_SIZE;

fn put16(out: &mut Vec<u8>, value: u16) {
    out.extend_from_slice(&value.to_le_bytes());
}

fn put32(out: &mut Vec<u8>, value: u32) {
    out.extend_from_slice(&value.to_le_bytes());
}

fn put64(out: &mut Vec<u8>, value: u64) {
    out.extend_from_slice(&value.to_le_bytes());
}

/// A 64-bit little-endian ELF file for x86-64 without sections, with the
/// given program headers, each by its type and its address.
fn elf_with_segments(segments: &[(u32, u64)]) -> Vec<u8> {
    let mut out: Vec<u8> = vec![0x7f, b'E', b'L', b'F', 2, 1, 1, 0, 0, 0, 0, 0, 0, 0, 0, 0];
    put16(&mut out, 2);
    put16(&mut out, 62);
    put32(&mut out, 1);
    put64(&mut out, 0);
    put64(&mut out, 64);
    put64(&mut out, 0);
    put32(&mut out, 0);
    put16(&mut out, 64);
    put16(&mut out, 56);
    put16(&mut out, segments.len() as u16);
    put16(&mut out, 64);
    put16(&mut out, 0);
    put16(&mut out, 0);
    for (kind, address) in segments {
        put32(&mut out, *kind);
        put32(&mut out, 5);
        put64(&mut out, 0);
        put64(&mut out, *address);
        put64(&mut out, *address);
        put64(&mut out, 0);
        put64(&mut out, 0x1000);
        put64(&mut out, 0x1000);
    }
    out
}

const PT_LOAD: u32 = 1;
const PT_PHDR: u32 = 6;

#[test]
fn mapped_bias_is_the_first_mapping_above_the_link_base() {
    let table = b"555555554000-555555555000 r--p 00000000 08:01 1311 /bin/hello\n\
                  555555555000-555555556000 r-xp 00001000 08:01 1311 /bin/hello\n";
    assert_eq!(mapped_bias(table, 0), Some(0x555555554000));
    assert_eq!(mapped_bias(table, 0x4000), Some(0x555555550000));
    assert_eq!(mapped_bias(b"00400000-00401000 r-xp 00000000 08:01 7 /bin/fixed\n", 0x400000), Some(0));
    assert_eq!(mapped_bias(b"00400000-00401000 r-xp", 0), Some(0x400000));
}

#[test]
fn mapped_bias_reads_hex_digits_of_either_case() {
    assert_eq!(mapped_bias(b"7FFF0000-7fff1000", 0x1000), Some(0x7ffe_f000));
    assert_eq!(mapped_bias(b"aBcDeF09-", 0), Some(0xabcd_ef09));
    assert_eq!(mapped_bias(b"0-", 0), Some(0));
    assert_eq!(mapped_bias(b"0000000000000000001f-", 0), Some(0x1f));
    assert_eq!(mapped_bias(b"ffffffffffffffff-", 0), Some(u64::MAX));
    assert_eq!(mapped_bias(b"ffffffffffffffff-", u64::MAX), Some(0));
}

#[test]
fn mapped_bias_wants_an_address_and_a_dash() {
    assert_eq!(mapped_bias(b"", 0), None);
    assert_eq!(mapped_bias(b"-1000", 0), None);
    assert_eq!(mapped_bias(b"1000", 0), None);
    assert_eq!(mapped_bias(b"1000 -2000", 0), None);
    assert_eq!(mapped_bias(b"10g0-2000", 0), None);
    assert_eq!(mapped_bias(b"+1000-2000", 0), None);
    assert_eq!(mapped_bias(b"0x1000-2000", 0), None);
    assert_eq!(mapped_bias(b"10000000000000000-", 0), None);
    assert_eq!(mapped_bias(b"fffffffffffffffff-", 0), None);
    assert_eq!(mapped_bias(b"123456789abcdef012345-", 0), None);
}

#[test]
fn mapped_bias_has_none_below_the_link_base() {
    assert_eq!(mapped_bias(b"00400000-00401000", 0x400001), None);
    assert_eq!(mapped_bias(b"00400000-00401000", 0x3fffff), Some(1));
}

#[test]
fn link_base_is_the_page_of_the_first_loadable_segment() {
    assert_eq!(PAGE_SIZE, 4096);
    assert_eq!(link_base(&elf_with_segments(&[(PT_LOAD, 0x400000), (PT_LOAD, 0x401000)])), 0x400000);
    assert_eq!(link_base(&elf_with_segments(&[(PT_PHDR, 0x7040), (PT_LOAD, 0x401234)])), 0x401000);
    assert_eq!(link_base(&elf_with_segments(&[(PT_LOAD, 0), (PT_LOAD, 0x1000)])), 0);
    assert_eq!(link_base(&elf_with_segments(&[(PT_LOAD, u64::MAX)])), u64::MAX - 0xfff);
    assert_eq!(link_base(&elf_with_segments(&[(PT_PHDR, 0x40)])), 0);
    assert_eq!(link_base(&elf_with_segments(&[])), 0);
    assert_eq!(link_base(&[1, 2, 3]), 0);
    assert_eq!(link_base(&[]), 0);
}

#[test]
fn load_bias_goes_by_the_table_and_the_executable() {
    let relocatable = elf_with_segments(&[(PT_LOAD, 0), (PT_LOAD, 0x1000)]);
    let fixed = elf_with_segments(&[(PT_LOAD, 0x400000)]);
    assert_eq!(load_bias(b"555555554000-555555555000 r--p", &relocatable), BIAS);
    assert_eq!(load_bias(b"7f0000001000-7f0000002000 r--p", &relocatable), 0x7f00_0000_1000);
    assert_eq!(load_bias(b"00400000-00401000 r-xp", &fixed), 0);
    assert_eq!(load_bias(b"00400000-00401000 r-xp", &[]), 0x400000);
}

#[test]
fn load_bias_is_the_usual_one_where_the_table_yields_none() {
    let fixed = elf_with_segments(&[(PT_LOAD, 0x400000)]);
    assert_eq!(load_bias(b"", &fixed), BIAS);
    assert_eq!(load_bias(b"not a table", &fixed), BIAS);
    assert_eq!(load_bias(b"00001000-00002000", &fixed), BIAS);
}
