//! Core of a source-level debugger for x86-64 Linux executables: the
//! source/address tables read from DWARF, the disassembly listing, software
//! breakpoints, the run state machine and the frame-pointer stack walk.

pub mod addresses;
pub mod bias;
pub mod disassembly;
pub mod dwarf_reader;
pub mod dwarf_records;
pub mod elf;
pub mod error;
pub mod insertpoint;
pub mod line_scan;
pub mod offline_debug_info;
pub mod patcher;
pub mod paths;
pub mod pump;
pub mod registers;
pub mod session;
pub mod src_file;
pub mod stack;
pub mod subprograms;
pub mod worker;
