//! The disassembly listing of the executable's code.

use iced_x86::Decoder;
use iced_x86::DecoderOptions;
use iced_x86::FastFormatter;
use iced_x86::Instruction;
use vstd::prelude::*;
use vstd::string::StringExecFns;
use crate::elf::{elf_section, find_section};

verus! {

#[verifier::external_type_specification]
#[verifier::external_body]
pub struct ExInstruction(Instruction);

/// The disassembly of the executable's code: for each instruction what the
/// decoder made of it, its line of the listing, and its address.
#[derive(Debug)]
pub struct DecompiledSrc {
    /// The decoded instructions in address order.
    pub instructions: Vec<Instruction>,
    /// For each instruction its line of the listing: the address as 16 hex
    /// digits, a blank, and the instruction's text.
    pub decompiled_src: Vec<String>,
    /// For each instruction its address.
    pub addresses: Vec<u64>,
}

/// The length in bytes of the x86-64 instruction that `code` begins with
/// when it is decoded at address `ip`; 0 where `code` begins with no valid
/// instruction.
pub uninterp spec fn instruction_len(code: Seq<u8>, ip: u64) -> nat;

/// The x86-64 instruction that the decoder makes of what `code` begins with
/// when it is decoded at address `ip`.
pub uninterp spec fn decoded_instruction(code: Seq<u8>, ip: u64) -> Instruction;

/// The text that the formatter gives the instruction that `code` begins with
/// when it is decoded at address `ip`.
pub uninterp spec fn instruction_text(code: Seq<u8>, ip: u64) -> Seq<char>;

/// `Decoder::decode` of a 64-bit decoder made by `Decoder::with_ip` on the
/// bytes from `at` on: the instruction, which depends on those bytes and on
/// `ip` alone and is named by `decoded_instruction`, and its length as
/// `instruction_len` names it. A valid instruction has at least one byte,
/// at most 15, and no more than the bytes that are left. Where the bytes
/// start no valid instruction the answer is `None`.
#[verifier::external_body]
fn decode_at(text: &[u8], at: usize, ip: u64) -> (decoded: Option<(Instruction, usize)>)
    requires
        at < text@.len(),
    ensures
        match decoded {
            Some((instruction, len)) => instruction == decoded_instruction(
                text@.skip(at as int),
                ip,
            ) && len == instruction_len(text@.skip(at as int), ip) && 1 <= len <= 15 && len
                <= text@.len() - at,
            None => instruction_len(text@.skip(at as int), ip) == 0,
        },
{
    let instruction = Decoder::with_ip(64, &text[at..], ip, DecoderOptions::NONE).decode();
    if instruction.is_invalid() {
        None
    } else {
        Some((instruction, instruction.len()))
    }
}

/// `FastFormatter::format` on the instruction that a 64-bit decoder finds at
/// `at`: the text depends on the bytes from `at` on and on `ip` alone and is
/// named by `instruction_text`.
#[verifier::external_body]
fn render_at(text: &[u8], at: usize, ip: u64) -> (rendered: String)
    requires
        at < text@.len(),
    ensures
        rendered@ == instruction_text(text@.skip(at as int), ip),
{
    let instruction = Decoder::with_ip(64, &text[at..], ip, DecoderOptions::NONE).decode();
    let mut rendered = String::new();
    FastFormatter::new().format(&instruction, &mut rendered);
    rendered
}

/// The lower-case hex digit of a value below 16.
pub open spec fn hex_digit(nibble: u64) -> char {
    if nibble == 0 {
        '0'
    } else if nibble == 1 {
        '1'
    } else if nibble == 2 {
        '2'
    } else if nibble == 3 {
        '3'
    } else if nibble == 4 {
        '4'
    } else if nibble == 5 {
        '5'
    } else if nibble == 6 {
        '6'
    } else if nibble == 7 {
        '7'
    } else if nibble == 8 {
        '8'
    } else if nibble == 9 {
        '9'
    } else if nibble == 10 {
        'a'
    } else if nibble == 11 {
        'b'
    } else if nibble == 12 {
        'c'
    } else if nibble == 13 {
        'd'
    } else if nibble == 14 {
        'e'
    } else {
        'f'
    }
}

/// The digit of `value` that stands at place `i` of its 16 hex digits,
/// counted from the left.
pub open spec fn hex_digit_at(value: u64, i: int) -> char {
    hex_digit((value >> ((60 - 4 * i) as u64)) & 0xf)
}

/// A value as 16 lower-case hex digits, the most significant first.
pub open spec fn hex16(value: u64) -> Seq<char> {
    Seq::new(16, |i: int| hex_digit_at(value, i))
}

/// One line of the listing.
pub open spec fn listing_line(addr: u64, text: Seq<char>) -> Seq<char> {
    hex16(addr) + seq![' '] + text
}

fn hex_digit_text(nibble: u64) -> (text: &'static str)
    requires
        nibble < 16,
    ensures
        text@ == seq![hex_digit(nibble)],
{
    proof {
        reveal_strlit("0");
        reveal_strlit("1");
        reveal_strlit("2");
        reveal_strlit("3");
        reveal_strlit("4");
        reveal_strlit("5");
        reveal_strlit("6");
        reveal_strlit("7");
        reveal_strlit("8");
        reveal_strlit("9");
        reveal_strlit("a");
        reveal_strlit("b");
        reveal_strlit("c");
        reveal_strlit("d");
        reveal_strlit("e");
        reveal_strlit("f");
    }
    let text = if nibble == 0 {
        "0"
    } else if nibble == 1 {
        "1"
    } else if nibble == 2 {
        "2"
    } else if nibble == 3 {
        "3"
    } else if nibble == 4 {
        "4"
    } else if nibble == 5 {
        "5"
    } else if nibble == 6 {
        "6"
    } else if nibble == 7 {
        "7"
    } else if nibble == 8 {
        "8"
    } else if nibble == 9 {
        "9"
    } else if nibble == 10 {
        "a"
    } else if nibble == 11 {
        "b"
    } else if nibble == 12 {
        "c"
    } else if nibble == 13 {
        "d"
    } else if nibble == 14 {
        "e"
    } else {
        "f"
    };
    assert(text@ =~= seq![hex_digit(nibble)]);
    text
}

/// A value as 16 lower-case hex digits.
pub fn format_hex16(value: u64) -> (text: String)
    ensures
        text@ == hex16(value),
{
    let mut text = String::new();
    let mut i: u64 = 0;
    while i < 16
        invariant
            i <= 16,
            text@.len() == i,
            forall|k: int| 0 <= k < i ==> text@[k] == hex_digit_at(value, k),
        decreases 16 - i,
    {
        let shift: u64 = 60 - 4 * i;
        let nibble: u64 = (value >> shift) & 0xf;
        assert(nibble < 16) by (bit_vector)
            requires
                nibble == (value >> shift) & 0xf,
        ;
        text.append(hex_digit_text(nibble));
        i = i + 1;
    }
    assert(text@ =~= hex16(value));
    text
}

/// Where the decoding of `code` stands after `count` instructions when it
/// started at offset 0: the offset of the next instruction.
pub open spec fn offset_after(code: Seq<u8>, base: u64, count: nat) -> int
    decreases count,
{
    if count == 0 {
        0
    } else {
        let at = offset_after(code, base, (count - 1) as nat);
        at + instruction_len(code.skip(at), address_at(base, at))
    }
}

/// The address of the byte at offset `at` of code loaded at `base`; the
/// address space wraps.
pub open spec fn address_at(base: u64, at: int) -> u64 {
    ((base + at) % 0x1_0000_0000_0000_0000) as u64
}

/// Whether the decoding of `code` yields at least `count` instructions: each
/// of the first `count` starts within the code and is valid.
pub open spec fn decodes(code: Seq<u8>, base: u64, count: nat) -> bool
    decreases count,
{
    if count == 0 {
        true
    } else {
        let at = offset_after(code, base, (count - 1) as nat);
        &&& decodes(code, base, (count - 1) as nat)
        &&& at < code.len()
        &&& instruction_len(code.skip(at), address_at(base, at)) > 0
    }
}

impl DecompiledSrc {
    /// The three lists have one entry for each instruction.
    pub open spec fn wf(&self) -> bool {
        self.instructions@.len() == self.addresses@.len() && self.decompiled_src@.len()
            == self.addresses@.len()
    }

    /// Whether this is the listing of `code` loaded at `base`: the code was
    /// decoded instruction after instruction from its first byte until it
    /// ended or a byte started no valid instruction.
    pub open spec fn lists(&self, code: Seq<u8>, base: u64) -> bool {
        let count = self.addresses@.len();
        &&& self.wf()
        &&& decodes(code, base, count)
        &&& !decodes(code, base, count + 1)
        &&& forall|i: int|
            0 <= i < count ==> #[trigger] self.addresses@[i] == address_at(
                base,
                offset_after(code, base, i as nat),
            )
        &&& forall|i: int|
            0 <= i < count ==> #[trigger] self.instructions@[i] == decoded_instruction(
                code.skip(offset_after(code, base, i as nat)),
                self.addresses@[i],
            )
        &&& forall|i: int|
            0 <= i < count ==> (#[trigger] self.decompiled_src@[i])@ == listing_line(
                self.addresses@[i],
                instruction_text(
                    code.skip(offset_after(code, base, i as nat)),
                    self.addresses@[i],
                ),
            )
    }

    /// The listing without an instruction.
    pub fn empty() -> (listing: DecompiledSrc)
        ensures
            listing.wf(),
            listing.addresses@.len() == 0,
    {
        DecompiledSrc { instructions: Vec::new(), decompiled_src: Vec::new(), addresses: Vec::new() }
    }
}

/// Decodes `code`, loaded at `base`, instruction after instruction from its
/// first byte. The listing ends with the code, or before the first byte that
/// starts no valid instruction.
pub fn disassemble(code: &[u8], base: u64) -> (listing: DecompiledSrc)
    ensures
        listing.lists(code@, base),
{
    let mut listing = DecompiledSrc::empty();
    let mut at: usize = 0;
    let mut valid = true;
    while valid && at < code.len()
        invariant
            at <= code@.len(),
            listing.wf(),
            decodes(code@, base, listing.addresses@.len()),
            valid ==> at == offset_after(code@, base, listing.addresses@.len()),
            !valid ==> !decodes(code@, base, listing.addresses@.len() + 1),
            forall|i: int|
                0 <= i < listing.addresses@.len() ==> #[trigger] listing.addresses@[i] == address_at(
                    base,
                    offset_after(code@, base, i as nat),
                ),
            forall|i: int|
                0 <= i < listing.addresses@.len() ==> #[trigger] listing.instructions@[i]
                    == decoded_instruction(
                    code@.skip(offset_after(code@, base, i as nat)),
                    listing.addresses@[i],
                ),
            forall|i: int|
                0 <= i < listing.addresses@.len() ==> (#[trigger] listing.decompiled_src@[i])@
                    == listing_line(
                    listing.addresses@[i],
                    instruction_text(
                        code@.skip(offset_after(code@, base, i as nat)),
                        listing.addresses@[i],
                    ),
                ),
        decreases code@.len() - at + (if valid { 1int } else { 0int }),
    {
        let ip = base.wrapping_add(at as u64);
        assert(ip == address_at(base, at as int));
        let ghost count = listing.addresses@.len();
        match decode_at(code, at, ip) {
            Some((instruction, len)) => {
                let text = render_at(code, at, ip);
                let mut line = format_hex16(ip);
                proof {
                    reveal_strlit(" ");
                }
                line.append(" ");
                line.append(text.as_str());
                assert(line@ =~= listing_line(ip, text@));
                listing.instructions.push(instruction);
                listing.decompiled_src.push(line);
                listing.addresses.push(ip);
                at = at + len;
                assert(offset_after(code@, base, count + 1) == at);
                assert(decodes(code@, base, count + 1));
            },
            None => {
                valid = false;
                assert(!decodes(code@, base, count + 1));
            },
        }
    }
    listing
}

/// The name of the section that holds the executable's code.
pub open spec fn text_section_name() -> Seq<char> {
    ".text"@
}

/// Whether `listing` is the disassembly of the object file `file`: the
/// listing of its code section at the section's address, or the empty
/// listing where the file has no such section.
pub open spec fn is_disassembly_of(listing: DecompiledSrc, file: Seq<u8>) -> bool {
    match elf_section(file, text_section_name()) {
        Some((code, base)) => listing.lists(code, base),
        None => listing.wf() && listing.addresses@.len() == 0,
    }
}

/// Disassembles the code section of an object file.
pub fn decompile(file: &[u8]) -> (listing: DecompiledSrc)
    ensures
        is_disassembly_of(listing, file@),
{
    match find_section(file, ".text") {
        Some(section) => disassemble(section.bytes.as_slice(), section.address),
        None => DecompiledSrc::empty(),
    }
}

} // verus!
