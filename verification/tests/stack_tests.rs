use degrugger::addresses::BIAS;
use degrugger::disassembly::DecompiledSrc;
use degrugger::line_scan::BreakableSrcLocation;
use degrugger::offline_debug_info::SrcFileDebugInfo;
use degrugger::offline_debug_info::ThinOfflineDebugInfo;
use degrugger::registers::DebugeeState;
use degrugger::registers::Registers;
use degrugger::stack::find_frame;
use degrugger::stack::find_location;
use degrugger::stack::generate_stack;
use degrugger::stack::FrameWords;
use degrugger::stack::StackWalk;
use degrugger::stack::WalkStep;
use degrugger::subprograms::Subprogram;
use std::sync::Arc;

fn regs(rip: u64, rbp: u64) -> Registers {
    Registers {
        r15: 0,
        r14: 0,
        r13: 0,
        r12: 0,
        rbp,
        rbx: 0,
        r11: 0,
        r10: 0,
        r9: 0,
        r8: 0,
        rax: 0,
        rcx: 0,
        rdx: 0,
        rsi: 0,
        rdi: 0,
        orig_rax: 0,
        rip,
        cs: 0,
        eflags: 0,
        rsp: 0,
        ss: 0,
        fs_base: 0,
        gs_base: 0,
        ds: 0,
        es: 0,
        fs: 0,
        gs: 0,
    }
}

fn subprogram(name: &str, low: u64, high: u64, start: usize, end: usize) -> Subprogram {
    Subprogram {
        name: name.to_string(),
        low_addr: low,
        high_addr: high,
        src_file_hash: 7,
        start_line: start,
        end_line: end,
    }
}

fn loc(addr: u64, line: usize) -> BreakableSrcLocation {
    BreakableSrcLocation { addr, src_line: line, src_col: 1 }
}

/// The listing of a program in which `main` calls `f`, `f` calls `h`, and
/// `h` calls `g`. Each function is 0x20 bytes long; its call stands at
/// offset 0x10 and is five bytes long.
fn program() -> ThinOfflineDebugInfo {
    let mut addresses = Vec::new();
    for base in [0x1000u64, 0x1020, 0x1040, 0x1060] {
        for offset in [0u64, 1, 4, 0x10, 0x15, 0x1f] {
            addresses.push(base + offset);
        }
    }
    let listing = DecompiledSrc {
        instructions: Vec::new(),
        decompiled_src: Vec::new(),
        addresses,
    };
    let subprograms = vec![
        subprogram("g", 0x1000, 0x1020, 3, 6),
        subprogram("h", 0x1020, 0x1040, 8, 11),
        subprogram("f", 0x1040, 0x1060, 13, 16),
        subprogram("main", 0x1060, 0x1080, 18, 21),
    ];
    let file = SrcFileDebugInfo {
        src_file_hash: 7,
        breakable_locations: vec![
            loc(0x1000, 3),
            loc(0x1004, 4),
            loc(0x1010, 5),
            loc(0x1020, 8),
            loc(0x1030, 10),
            loc(0x1040, 13),
            loc(0x1050, 15),
            loc(0x1060, 18),
            loc(0x1070, 20),
            loc(0x1075, 21),
        ],
        subprograms: Vec::new(),
    };
    let other = SrcFileDebugInfo {
        src_file_hash: 9,
        breakable_locations: vec![loc(0x2000, 1), loc(0x1075, 99)],
        subprograms: Vec::new(),
    };
    ThinOfflineDebugInfo {
        decompiled_src: Some(Arc::new(listing)),
        src_file_info: vec![Arc::new(other), Arc::new(file)],
        all_subprograms: Arc::new(subprograms),
    }
}

/// The stop at the breakpoint at 0x1004 in `g`, and the memory of the
/// frames above it.
fn stop_in_g() -> (DebugeeState, Vec<Option<FrameWords>>) {
    let state = DebugeeState::at_stop(regs(0x1004 + BIAS + 1, 0x7000));
    let links = vec![
        Some(FrameWords { ret_addr: 0x1035 + BIAS, frame_base: 0x7100 }),
        Some(FrameWords { ret_addr: 0x1055 + BIAS, frame_base: 0x7200 }),
        Some(FrameWords { ret_addr: 0x1075 + BIAS, frame_base: 0x7300 }),
        Some(FrameWords { ret_addr: 0x9000 + BIAS, frame_base: 0 }),
    ];
    (state, links)
}

#[test]
fn find_location_prefers_the_first_file() {
    let info = program();
    assert_eq!(find_location(&info.src_file_info, 0x1004), Some((loc(0x1004, 4), 7)));
    assert_eq!(find_location(&info.src_file_info, 0x1075), Some((loc(0x1075, 99), 9)));
    assert_eq!(find_location(&info.src_file_info, 0x1001), None);
}

#[test]
fn find_frame_stands_at_the_call() {
    let info = program();
    let inner = find_frame(&info, 0x1004, true).unwrap();
    assert_eq!(inner.subprogram.name, "g");
    assert_eq!(inner.addr, 0x1004);
    assert_eq!(inner.color_index, 0);
    assert_eq!(inner.location, Some(loc(0x1004, 4)));
    assert_eq!(inner.file_hash, Some(7));
    assert!(!inner.selected);
    let caller = find_frame(&info, 0x1035, false).unwrap();
    assert_eq!(caller.subprogram.name, "h");
    assert_eq!(caller.addr, 0x1030);
    assert_eq!(caller.color_index, 1);
    assert_eq!(caller.location, Some(loc(0x1030, 10)));
    let between = find_frame(&info, 0x1036, false).unwrap();
    assert_eq!(between.addr, 0x1035);
    assert_eq!(between.location, None);
    assert_eq!(between.file_hash, None);
    assert!(find_frame(&info, 0x9000, false).is_none());
    let at_end = find_frame(&info, 0x1020, false).unwrap();
    assert_eq!(at_end.subprogram.name, "g");
    assert_eq!(at_end.addr, 0x101f);
    assert!(find_frame(&info, 0x1000, false).is_some());
    assert!(find_frame(&info, 0x0fff, true).is_none());
    let at_entry = find_frame(&info, 0x1020, true).unwrap();
    assert_eq!(at_entry.subprogram.name, "g");
}

#[test]
fn find_frame_without_a_listing_stands_at_the_return_address() {
    let mut info = program();
    info.decompiled_src = None;
    let caller = find_frame(&info, 0x1035, false).unwrap();
    assert_eq!(caller.addr, 0x1035);
    assert_eq!(caller.location, None);
    let many = ThinOfflineDebugInfo {
        decompiled_src: None,
        src_file_info: Vec::new(),
        all_subprograms: Arc::new(
            (0..8u64).map(|i| subprogram("s", i * 0x10, i * 0x10 + 0xf, 1, 2)).collect(),
        ),
    };
    assert_eq!(find_frame(&many, 0x75, true).unwrap().color_index, 1);
    assert_eq!(find_frame(&many, 0x55, true).unwrap().color_index, 5);
}

#[test]
fn stack_walk_depth() {
    let info = program();
    let (state, links) = stop_in_g();
    let stack = generate_stack(&state, &info, BIAS, &links);
    assert_eq!(stack.len(), 4);
    let names: Vec<&str> = stack.iter().map(|frame| frame.subprogram.name.as_str()).collect();
    assert_eq!(names, vec!["main", "f", "h", "g"]);
    let lines: Vec<usize> = stack.iter().map(|frame| frame.location.unwrap().src_line).collect();
    assert_eq!(lines, vec![20, 15, 10, 4]);
    let addrs: Vec<u64> = stack.iter().map(|frame| frame.addr).collect();
    assert_eq!(addrs, vec![0x1070, 0x1050, 0x1030, 0x1004]);
    let marks: Vec<bool> = stack.iter().map(|frame| frame.selected).collect();
    assert_eq!(marks, vec![false, false, false, true]);
    let colours: Vec<usize> = stack.iter().map(|frame| frame.color_index).collect();
    assert_eq!(colours, vec![3, 2, 1, 0]);
    assert_eq!(stack[0].file_hash, Some(7));
}

#[test]
fn stack_walk_ends_where_the_chain_ends() {
    let info = program();
    let (state, mut links) = stop_in_g();
    links[1] = Some(FrameWords { ret_addr: 0x1055 + BIAS, frame_base: 0 });
    let stack = generate_stack(&state, &info, BIAS, &links);
    assert_eq!(stack.len(), 2);
    assert_eq!(stack[0].subprogram.name, "h");
    assert_eq!(stack[1].subprogram.name, "g");
    let no_frame = DebugeeState::at_stop(regs(0x1004 + BIAS + 1, 0));
    assert_eq!(generate_stack(&no_frame, &info, BIAS, &links).len(), 0);
    let lost = DebugeeState::at_stop(regs(0x5000 + BIAS + 1, 0x7000));
    assert_eq!(generate_stack(&lost, &info, BIAS, &links).len(), 0);
}

#[test]
fn stack_walk_keeps_what_it_has_when_memory_cannot_be_read() {
    let info = program();
    let (state, mut links) = stop_in_g();
    links[1] = None;
    let stack = generate_stack(&state, &info, BIAS, &links);
    assert_eq!(stack.len(), 2);
    assert_eq!(stack[1].subprogram.name, "g");
    assert!(stack[1].selected);
    let alone = generate_stack(&state, &info, BIAS, &Vec::new());
    assert_eq!(alone.len(), 1);
    assert!(alone[0].selected);
}

#[test]
fn walk_asks_for_the_memory_of_each_frame() {
    let info = program();
    let (state, links) = stop_in_g();
    let mut walk = StackWalk::start(&state, BIAS);
    assert_eq!(walk.frame_base, 0x7000);
    assert_eq!(walk.ret_addr, 0x1004 + BIAS);
    assert_eq!(walk.advance(&info), WalkStep::Peek { ret_at: 0x7008, base_at: 0x7000 });
    assert_eq!(walk.frames.len(), 1);
    walk.supply(links[0]);
    assert_eq!(walk.advance(&info), WalkStep::Peek { ret_at: 0x7108, base_at: 0x7100 });
    walk.supply(links[1]);
    assert_eq!(walk.advance(&info), WalkStep::Peek { ret_at: 0x7208, base_at: 0x7200 });
    walk.supply(links[2]);
    assert_eq!(walk.advance(&info), WalkStep::Peek { ret_at: 0x7308, base_at: 0x7300 });
    walk.supply(links[3]);
    assert_eq!(walk.advance(&info), WalkStep::Done);
    assert!(walk.done);
    assert_eq!(walk.advance(&info), WalkStep::Done);
    let stack = walk.finish();
    assert_eq!(stack.len(), 4);
    assert_eq!(stack[0].subprogram.name, "main");
    assert_eq!(stack[3].subprogram.name, "g");
}

#[test]
fn walk_ends_when_memory_is_not_supplied() {
    let info = program();
    let (state, _) = stop_in_g();
    let mut walk = StackWalk::start(&state, BIAS);
    walk.advance(&info);
    walk.supply(None);
    assert!(walk.done);
    assert_eq!(walk.advance(&info), WalkStep::Done);
    assert_eq!(walk.finish().len(), 1);
}
