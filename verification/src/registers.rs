//! The registers of the stopped debuggee.

use vstd::prelude::*;

verus! {

/// The general registers of an x86-64 thread, as the kernel hands them out.
#[derive(Clone, Copy, Debug, PartialEq, Eq, Structural)]
pub struct Registers {
    pub r15: u64,
    pub r14: u64,
    pub r13: u64,
    pub r12: u64,
    pub rbp: u64,
    pub rbx: u64,
    pub r11: u64,
    pub r10: u64,
    pub r9: u64,
    pub r8: u64,
    pub rax: u64,
    pub rcx: u64,
    pub rdx: u64,
    pub rsi: u64,
    pub rdi: u64,
    pub orig_rax: u64,
    pub rip: u64,
    pub cs: u64,
    pub eflags: u64,
    pub rsp: u64,
    pub ss: u64,
    pub fs_base: u64,
    pub gs_base: u64,
    pub ds: u64,
    pub es: u64,
    pub fs: u64,
    pub gs: u64,
}

/// What is known of the debuggee at a stop.
#[derive(Debug)]
pub struct DebugeeState {
    /// The registers at the stop.
    pub regs: Registers,
    /// The run-time address at which the debuggee stands: its `rip`.
    pub addr: u64,
    /// The source file of the stop, empty until it is resolved.
    pub file: String,
    /// The source line of the stop, once it is resolved.
    pub line: Option<usize>,
    /// The source column of the stop, once it is resolved.
    pub col: Option<usize>,
}

impl DebugeeState {
    /// The state at a stop with the given registers; where the stop lies in
    /// the source is not resolved yet.
    pub fn at_stop(regs: Registers) -> (state: DebugeeState)
        ensures
            state.regs == regs,
            state.addr == regs.rip,
            state.file@ == Seq::<char>::empty(),
            state.line is None,
            state.col is None,
    {
        DebugeeState { regs, addr: regs.rip, file: String::new(), line: None, col: None }
    }
}


/// A register by its name.
#[derive(Clone, Copy, Debug, PartialEq, Eq)]
pub struct RegisterRow {
    /// The register's name.
    pub name: &'static str,
    /// What the register holds.
    pub value: u64,
}

/// The values of the registers in the order in which they are shown.
pub open spec fn shown_values(regs: Registers) -> Seq<u64> {
    seq![
        regs.r15,
        regs.r14,
        regs.r13,
        regs.r12,
        regs.rbp,
        regs.rbx,
        regs.r11,
        regs.r10,
        regs.r9,
        regs.r8,
        regs.rax,
        regs.rcx,
        regs.rdx,
        regs.rsi,
        regs.rdi,
        regs.orig_rax,
        regs.rip,
        regs.cs,
        regs.eflags,
        regs.rsp,
        regs.ss,
        regs.fs_base,
        regs.gs_base,
        regs.ds,
        regs.es,
        regs.fs,
        regs.gs,
    ]
}

/// The names of the registers in the order in which they are shown.
pub open spec fn shown_names() -> Seq<Seq<char>> {
    seq![
        "r15"@,
        "r14"@,
        "r13"@,
        "r12"@,
        "rbp"@,
        "rbx"@,
        "r11"@,
        "r10"@,
        "r9"@,
        "r8"@,
        "rax"@,
        "rcx"@,
        "rdx"@,
        "rsi"@,
        "rdi"@,
        "orig_rax"@,
        "rip"@,
        "cs"@,
        "eflags"@,
        "rsp"@,
        "ss"@,
        "fs_base"@,
        "gs_base"@,
        "ds"@,
        "es"@,
        "fs"@,
        "gs"@,
    ]
}

impl Registers {
    /// The registers by name, in the order in which they are shown.
    pub fn rows(&self) -> (rows: Vec<RegisterRow>)
        ensures
            rows@.len() == 27,
            forall|i: int| 0 <= i < 27 ==> (#[trigger] rows@[i]).value == shown_values(*self)[i],
            forall|i: int| 0 <= i < 27 ==> (#[trigger] rows@[i]).name@ == shown_names()[i],
    {
        let mut rows: Vec<RegisterRow> = Vec::new();
        rows.push(RegisterRow { name: "r15", value: self.r15 });
        rows.push(RegisterRow { name: "r14", value: self.r14 });
        rows.push(RegisterRow { name: "r13", value: self.r13 });
        rows.push(RegisterRow { name: "r12", value: self.r12 });
        rows.push(RegisterRow { name: "rbp", value: self.rbp });
        rows.push(RegisterRow { name: "rbx", value: self.rbx });
        rows.push(RegisterRow { name: "r11", value: self.r11 });
        rows.push(RegisterRow { name: "r10", value: self.r10 });
        rows.push(RegisterRow { name: "r9", value: self.r9 });
        rows.push(RegisterRow { name: "r8", value: self.r8 });
        rows.push(RegisterRow { name: "rax", value: self.rax });
        rows.push(RegisterRow { name: "rcx", value: self.rcx });
        rows.push(RegisterRow { name: "rdx", value: self.rdx });
        rows.push(RegisterRow { name: "rsi", value: self.rsi });
        rows.push(RegisterRow { name: "rdi", value: self.rdi });
        rows.push(RegisterRow { name: "orig_rax", value: self.orig_rax });
        rows.push(RegisterRow { name: "rip", value: self.rip });
        rows.push(RegisterRow { name: "cs", value: self.cs });
        rows.push(RegisterRow { name: "eflags", value: self.eflags });
        rows.push(RegisterRow { name: "rsp", value: self.rsp });
        rows.push(RegisterRow { name: "ss", value: self.ss });
        rows.push(RegisterRow { name: "fs_base", value: self.fs_base });
        rows.push(RegisterRow { name: "gs_base", value: self.gs_base });
        rows.push(RegisterRow { name: "ds", value: self.ds });
        rows.push(RegisterRow { name: "es", value: self.es });
        rows.push(RegisterRow { name: "fs", value: self.fs });
        rows.push(RegisterRow { name: "gs", value: self.gs });
        rows
    }
}

} // verus!
