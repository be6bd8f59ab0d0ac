use degrugger::error::DebugError;
use degrugger::patcher::LocalPatcher;
use degrugger::patcher::Patch;
use degrugger::patcher::Patcher;
use degrugger::patcher::TraceeOp;
use degrugger::patcher::TraceeWord;
use std::collections::HashMap;

/// The memory of a debuggee that is played by the test.
struct Memory {
    bytes: HashMap<u64, u8>,
}

impl Memory {
    fn with_code(base: u64, code: &[u8]) -> Memory {
        let mut bytes = HashMap::new();
        for (i, byte) in code.iter().enumerate() {
            bytes.insert(base + i as u64, *byte);
        }
        Memory { bytes }
    }

    fn peek(&self, addr: u64) -> TraceeWord {
        let mut word = [0u8; 8];
        for k in 0..8u64 {
            word[k as usize] = *self.bytes.get(&(addr + k)).unwrap_or(&0);
        }
        TraceeWord { addr, word: i64::from_le_bytes(word) }
    }

    fn apply(&mut self, ops: &[TraceeOp]) {
        for op in ops {
            if let TraceeOp::Poke { addr, word } = op {
                for (k, byte) in word.to_le_bytes().iter().enumerate() {
                    self.bytes.insert(addr + k as u64, *byte);
                }
            }
        }
    }

    fn byte(&self, addr: u64) -> u8 {
        *self.bytes.get(&addr).unwrap_or(&0)
    }
}

const CODE: [u8; 24] = [
    0x55, 0x48, 0x89, 0xe5, 0xb8, 0x2a, 0x00, 0x00, 0x00, 0x5d, 0xc3, 0x90, 0x90, 0x90, 0x90, 0x90,
    0xf3, 0x0f, 0x1e, 0xfa, 0x31, 0xc0, 0xc3, 0x90,
];

#[test]
fn inject_writes_the_trap_over_the_low_byte() {
    let mut memory = Memory::with_code(0x1000, &CODE);
    let mut patcher = LocalPatcher::new(77);
    assert_eq!(patcher.pid, 77);
    let words = vec![memory.peek(0x1000), memory.peek(0x1010)];
    let ops = patcher.inject_breakpoints(&words).unwrap();
    assert_eq!(
        ops,
        vec![
            TraceeOp::Poke { addr: 0x1000, word: 0x0000_2ab8_e589_48cc },
            TraceeOp::Poke { addr: 0x1010, word: i64::from_le_bytes([0xcc, 0x0f, 0x1e, 0xfa, 0x31, 0xc0, 0xc3, 0x90]) },
        ]
    );
    assert_eq!(
        patcher.patches,
        vec![
            Patch {
                addr: 0x1000,
                original_instruction: i64::from_le_bytes([0x55, 0x48, 0x89, 0xe5, 0xb8, 0x2a, 0x00, 0x00]),
                new_instruction: i64::from_le_bytes([0xcc, 0x48, 0x89, 0xe5, 0xb8, 0x2a, 0x00, 0x00]),
                active: true,
            },
            Patch {
                addr: 0x1010,
                original_instruction: i64::from_le_bytes([0xf3, 0x0f, 0x1e, 0xfa, 0x31, 0xc0, 0xc3, 0x90]),
                new_instruction: i64::from_le_bytes([0xcc, 0x0f, 0x1e, 0xfa, 0x31, 0xc0, 0xc3, 0x90]),
                active: true,
            },
        ]
    );
    memory.apply(&ops);
    assert_eq!(memory.byte(0x1000), 0xcc);
    assert_eq!(memory.byte(0x1001), 0x48);
    assert_eq!(memory.byte(0x1010), 0xcc);
    assert_eq!(memory.byte(0x1017), 0x90);
}

#[test]
fn inject_keeps_the_high_bits_of_a_negative_word() {
    let mut patcher = LocalPatcher::new(1);
    let ops = patcher.inject_breakpoints(&vec![TraceeWord { addr: 8, word: -2 }]).unwrap();
    assert_eq!(ops, vec![TraceeOp::Poke { addr: 8, word: -52 }]);
    assert_eq!(patcher.patches[0].original_instruction, -2);
    assert_eq!(patcher.patches[0].new_instruction, -52);
    let none = patcher.inject_breakpoints(&Vec::new()).unwrap();
    assert_eq!(none.len(), 0);
    assert_eq!(patcher.patches.len(), 1);
}

#[test]
fn disable_restores_and_enable_patches_again() {
    let mut memory = Memory::with_code(0x1000, &CODE);
    let mut patcher = LocalPatcher::new(1);
    let words = vec![memory.peek(0x1000), memory.peek(0x1010)];
    memory.apply(&patcher.inject_breakpoints(&words).unwrap());
    let ops = patcher.disable_breakpoints(&vec![0x1010, 0x2000, 0x1000]).unwrap();
    assert_eq!(
        ops,
        vec![
            TraceeOp::Poke { addr: 0x1010, word: words[1].word },
            TraceeOp::Poke { addr: 0x1000, word: words[0].word },
        ]
    );
    memory.apply(&ops);
    assert_eq!(memory.byte(0x1000), 0x55);
    assert_eq!(memory.byte(0x1010), 0xf3);
    assert!(!patcher.patches[0].active);
    assert!(!patcher.patches[1].active);
    let ops = patcher.enable_breakpoints(&vec![0x1000]).unwrap();
    assert_eq!(ops, vec![TraceeOp::Poke { addr: 0x1000, word: patcher.patches[0].new_instruction }]);
    memory.apply(&ops);
    assert_eq!(memory.byte(0x1000), 0xcc);
    assert_eq!(memory.byte(0x1010), 0xf3);
    assert!(patcher.patches[0].active);
    assert!(!patcher.patches[1].active);
}

#[test]
fn switching_nothing_fails() {
    let mut patcher = LocalPatcher::new(1);
    assert_eq!(patcher.disable_breakpoints(&vec![0x1000]), Err(DebugError::InvalidState));
    assert_eq!(patcher.enable_breakpoints(&Vec::new()), Err(DebugError::InvalidState));
    patcher.inject_breakpoints(&vec![TraceeWord { addr: 0x1000, word: 0x55 }]).unwrap();
    assert_eq!(patcher.enable_breakpoints(&vec![0x1000]), Err(DebugError::InvalidState));
    assert_eq!(patcher.disable_breakpoints(&vec![0x1001]), Err(DebugError::InvalidState));
    assert!(patcher.patches[0].active);
}

#[test]
fn enabling_twice_is_enabling_once() {
    let mut memory = Memory::with_code(0x1000, &CODE);
    let mut patcher = LocalPatcher::new(1);
    let words = vec![memory.peek(0x1000), memory.peek(0x1010)];
    memory.apply(&patcher.inject_breakpoints(&words).unwrap());
    memory.apply(&patcher.disable_breakpoints(&vec![0x1000, 0x1010]).unwrap());
    let addrs = vec![0x1010, 0x1000, 0x1010];
    memory.apply(&patcher.enable_breakpoints(&addrs).unwrap());
    let patches_once = patcher.patches.clone();
    let bytes_once = memory.bytes.clone();
    assert_eq!(patcher.enable_breakpoints(&addrs), Err(DebugError::InvalidState));
    assert_eq!(patcher.patches, patches_once);
    assert_eq!(memory.bytes, bytes_once);
    assert_eq!(memory.byte(0x1000), 0xcc);
    assert_eq!(memory.byte(0x1010), 0xcc);
}

#[test]
fn disabling_twice_is_disabling_once() {
    let mut memory = Memory::with_code(0x1000, &CODE);
    let mut patcher = LocalPatcher::new(1);
    let words = vec![memory.peek(0x1000), memory.peek(0x1010)];
    memory.apply(&patcher.inject_breakpoints(&words).unwrap());
    let addrs = vec![0x1000, 0x1010];
    memory.apply(&patcher.disable_breakpoints(&addrs).unwrap());
    let patches_once = patcher.patches.clone();
    let bytes_once = memory.bytes.clone();
    assert_eq!(patcher.disable_breakpoints(&addrs), Err(DebugError::InvalidState));
    assert_eq!(patcher.patches, patches_once);
    assert_eq!(memory.bytes, bytes_once);
    assert_eq!(memory.byte(0x1000), 0x55);
}

#[test]
fn only_the_first_breakpoint_at_an_address_is_switched() {
    let mut patcher = LocalPatcher::new(1);
    patcher
        .inject_breakpoints(&vec![TraceeWord { addr: 0x10, word: 0x11 }, TraceeWord { addr: 0x10, word: 0xcc }])
        .unwrap();
    let ops = patcher.disable_breakpoints(&vec![0x10, 0x10]).unwrap();
    assert_eq!(ops, vec![TraceeOp::Poke { addr: 0x10, word: 0x11 }]);
    assert!(!patcher.patches[0].active);
    assert!(patcher.patches[1].active);
}

#[test]
fn step_over_leaves_the_trap_in_place() {
    let mut memory = Memory::with_code(0x1000, &CODE);
    let mut patcher = LocalPatcher::new(1);
    let words = vec![memory.peek(0x1000)];
    memory.apply(&patcher.inject_breakpoints(&words).unwrap());
    let saved = patcher.patches.clone();
    let ops = patcher.cont(0x1000, 0x1001).unwrap();
    assert_eq!(
        ops,
        vec![
            TraceeOp::Poke { addr: 0x1000, word: words[0].word },
            TraceeOp::SetRip(0x1000),
            TraceeOp::Step,
            TraceeOp::WaitStop,
            TraceeOp::Poke { addr: 0x1000, word: saved[0].new_instruction },
            TraceeOp::Cont,
        ]
    );
    memory.apply(&ops[..4]);
    assert_eq!(memory.byte(0x1000), 0x55);
    memory.apply(&ops[4..]);
    assert_eq!(memory.byte(0x1000), 0xcc);
    assert_eq!(patcher.patches, saved);
    assert_eq!(patcher.patches[0].original_instruction & 0xff, 0x55);
}

#[test]
fn step_over_fails_away_from_the_trap() {
    let mut patcher = LocalPatcher::new(1);
    patcher.inject_breakpoints(&vec![TraceeWord { addr: 0x1000, word: 0x55 }]).unwrap();
    let saved = patcher.patches.clone();
    assert_eq!(patcher.cont(0x1000, 0x1000), Err(DebugError::InvalidState));
    assert_eq!(patcher.cont(0x1000, 0x1002), Err(DebugError::InvalidState));
    assert_eq!(patcher.cont(0x1000, 0), Err(DebugError::InvalidState));
    assert_eq!(patcher.patches, saved);
    assert!(patcher.cont(u64::MAX, 0).is_ok());
}

#[test]
fn step_over_without_a_breakpoint_only_steps() {
    let mut patcher = LocalPatcher::new(1);
    let ops = patcher.cont(0x1000, 0x1001).unwrap();
    assert_eq!(ops, vec![TraceeOp::SetRip(0x1000), TraceeOp::Step, TraceeOp::WaitStop, TraceeOp::Cont]);
    patcher.inject_breakpoints(&vec![TraceeWord { addr: 0x1000, word: 0x55 }]).unwrap();
    patcher.disable_breakpoints(&vec![0x1000]).unwrap();
    let ops = patcher.cont(0x1000, 0x1001).unwrap();
    assert_eq!(
        ops,
        vec![
            TraceeOp::SetRip(0x1000),
            TraceeOp::Step,
            TraceeOp::WaitStop,
            TraceeOp::Poke { addr: 0x1000, word: 0xcc },
            TraceeOp::Cont,
        ]
    );
    assert!(patcher.patches[0].active);
}
