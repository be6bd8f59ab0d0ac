use degrugger::disassembly::decompile;
use degrugger::disassembly::disassemble;
use degrugger::disassembly::format_hex16;

fn put16(out: &mut Vec<u8>, value: u16) {
    out.extend_from_slice(&value.to_le_bytes());
}

fn put32(out: &mut Vec<u8>, value: u32) {
    out.extend_from_slice(&value.to_le_bytes());
}

fn put64(out: &mut Vec<u8>, value: u64) {
    out.extend_from_slice(&value.to_le_bytes());
}

fn section_header(out: &mut Vec<u8>, name: u32, kind: u32, flags: u64, addr: u64, offset: u64, size: u64) {
    put32(out, name);
    put32(out, kind);
    put64(out, flags);
    put64(out, addr);
    put64(out, offset);
    put64(out, size);
    put32(out, 0);
    put32(out, 0);
    put64(out, 1);
    put64(out, 0);
}

/// A 64-bit little-endian ELF file for x86-64 with one section of code,
/// named `name`, to be loaded at `addr`.
fn elf_with_code(name: &str, code: &[u8], addr: u64) -> Vec<u8> {
    let mut names: Vec<u8> = vec![0];
    let code_name = names.len() as u32;
    names.extend_from_slice(name.as_bytes());
    names.push(0);
    let names_name = names.len() as u32;
    names.extend_from_slice(b".shstrtab");
    names.push(0);
    let code_offset = 64u64;
    let names_offset = code_offset + code.len() as u64;
    let headers_offset = names_offset + names.len() as u64;
    let mut out: Vec<u8> = vec![0x7f, b'E', b'L', b'F', 2, 1, 1, 0, 0, 0, 0, 0, 0, 0, 0, 0];
    put16(&mut out, 2);
    put16(&mut out, 62);
    put32(&mut out, 1);
    put64(&mut out, addr);
    put64(&mut out, 0);
    put64(&mut out, headers_offset);
    put32(&mut out, 0);
    put16(&mut out, 64);
    put16(&mut out, 0);
    put16(&mut out, 0);
    put16(&mut out, 64);
    put16(&mut out, 3);
    put16(&mut out, 2);
    assert_eq!(out.len(), 64);
    out.extend_from_slice(code);
    out.extend_from_slice(&names);
    section_header(&mut out, 0, 0, 0, 0, 0, 0);
    section_header(&mut out, code_name, 1, 6, addr, code_offset, code.len() as u64);
    section_header(&mut out, names_name, 3, 0, 0, names_offset, names.len() as u64);
    out
}

#[test]
fn format_hex16_pads_to_sixteen_digits() {
    assert_eq!(format_hex16(0), "0000000000000000");
    assert_eq!(format_hex16(0x1139), "0000000000001139");
    assert_eq!(format_hex16(0xdead_beef_0123_4567), "deadbeef01234567");
    assert_eq!(format_hex16(u64::MAX), "ffffffffffffffff");
    assert_eq!(format_hex16(0xabc), format!("{:016x}", 0xabcu64));
}

#[test]
fn disassemble_lists_each_instruction() {
    let code = [0x55u8, 0x48, 0x89, 0xe5, 0xb8, 0x2a, 0x00, 0x00, 0x00, 0x5d, 0xc3];
    let listing = disassemble(&code, 0x1139);
    assert_eq!(listing.addresses, vec![0x1139, 0x113a, 0x113d, 0x1142, 0x1143]);
    assert_eq!(listing.instructions.len(), 5);
    assert_eq!(
        listing.decompiled_src,
        vec![
            "0000000000001139 push rbp".to_string(),
            "000000000000113a mov rbp,rsp".to_string(),
            "000000000000113d mov eax,2Ah".to_string(),
            "0000000000001142 pop rbp".to_string(),
            "0000000000001143 ret".to_string(),
        ]
    );
    assert_eq!(listing.instructions[1].len(), 3);
    assert_eq!(listing.instructions[4].ip(), 0x1143);
    assert_eq!(listing.instructions[0].mnemonic(), iced_x86::Mnemonic::Push);
    assert_eq!(listing.instructions[2].mnemonic(), iced_x86::Mnemonic::Mov);
    assert_eq!(listing.instructions[2].immediate32(), 0x2a);
    assert_eq!(listing.instructions[4].mnemonic(), iced_x86::Mnemonic::Ret);
}

#[test]
fn disassemble_renders_targets_by_address() {
    let code = [0xe8u8, 0x05, 0x00, 0x00, 0x00, 0xc3];
    let listing = disassemble(&code, 0x2000);
    assert_eq!(listing.addresses, vec![0x2000, 0x2005]);
    assert_eq!(listing.decompiled_src[0], "0000000000002000 call 200Ah");
}

#[test]
fn disassemble_ends_before_what_it_cannot_decode() {
    let code = [0x90u8, 0x06, 0x90];
    let listing = disassemble(&code, 0x10);
    assert_eq!(listing.addresses, vec![0x10]);
    assert_eq!(listing.decompiled_src, vec!["0000000000000010 nop".to_string()]);
    let cut = [0x90u8, 0x48];
    let listing = disassemble(&cut, 0x10);
    assert_eq!(listing.addresses, vec![0x10]);
    let nothing = disassemble(&[], 0x10);
    assert_eq!(nothing.addresses.len(), 0);
    assert_eq!(nothing.decompiled_src.len(), 0);
    assert_eq!(nothing.instructions.len(), 0);
}

#[test]
fn disassemble_wraps_at_the_end_of_the_address_space() {
    let code = [0x90u8, 0x90, 0x90];
    let listing = disassemble(&code, u64::MAX - 1);
    assert_eq!(listing.addresses, vec![u64::MAX - 1, u64::MAX, 0]);
    assert_eq!(listing.decompiled_src[2], "0000000000000000 nop");
}

#[test]
fn decompile_reads_the_text_section() {
    let file = elf_with_code(".text", &[0x55, 0x48, 0x89, 0xe5, 0xc3], 0x1040);
    let listing = decompile(&file);
    assert_eq!(listing.addresses, vec![0x1040, 0x1041, 0x1044]);
    assert_eq!(listing.decompiled_src[2], "0000000000001044 ret");
}

#[test]
fn decompile_without_a_text_section_lists_nothing() {
    let other = elf_with_code(".code", &[0x55, 0xc3], 0x1040);
    assert_eq!(decompile(&other).addresses.len(), 0);
    assert_eq!(decompile(&[1, 2, 3]).addresses.len(), 0);
    assert_eq!(decompile(&[]).addresses.len(), 0);
}
