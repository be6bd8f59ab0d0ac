use degrugger::dwarf_records::AttrRecord;
use degrugger::dwarf_records::DieRecord;
use degrugger::dwarf_records::FileRecord;
use degrugger::dwarf_records::LineProgramRecord;
use degrugger::dwarf_records::RowRecord;
use degrugger::dwarf_records::UnitRecord;
use degrugger::dwarf_records::DW_AT_DECL_FILE;
use degrugger::dwarf_records::DW_AT_HIGH_PC;
use degrugger::dwarf_records::DW_AT_INLINE;
use degrugger::dwarf_records::DW_AT_LOW_PC;
use degrugger::dwarf_records::DW_AT_NAME;
use degrugger::dwarf_records::DW_TAG_SUBPROGRAM;
use degrugger::line_scan::mark_target_slots;
use degrugger::line_scan::resolve_path;
use degrugger::line_scan::scan_rows;
use degrugger::line_scan::BreakableSrcLocation;
use degrugger::offline_debug_info::analyse_units;
use degrugger::offline_debug_info::discover_paths;
use degrugger::subprograms::dump_file_index;
use degrugger::subprograms::find_end_line;
use degrugger::subprograms::find_start_line;
use degrugger::subprograms::read_subprogram;
use degrugger::subprograms::read_subprograms;

fn file(directory_index: u64, directory: Option<&str>, name: &str) -> Option<FileRecord> {
    Some(FileRecord {
        directory_index,
        directory: directory.map(|d| d.to_string()),
        name: name.to_string(),
    })
}

fn row(address: u64, file_index: u64, line: u64, column: u64) -> RowRecord {
    RowRecord { address, file_index, line, column, end_sequence: false }
}

fn end(address: u64) -> RowRecord {
    RowRecord { address, file_index: 1, line: 0, column: 0, end_sequence: true }
}

fn loc(addr: u64, line: usize, col: usize) -> BreakableSrcLocation {
    BreakableSrcLocation { addr, src_line: line, src_col: col }
}

fn addr_attr(name: u16, value: u64) -> AttrRecord {
    AttrRecord { name, address: Some(value), unsigned: None, text: None }
}

fn num_attr(name: u16, value: u64) -> AttrRecord {
    AttrRecord { name, address: None, unsigned: Some(value), text: None }
}

fn text_attr(name: u16, value: &str) -> AttrRecord {
    AttrRecord { name, address: None, unsigned: None, text: Some(value.to_string()) }
}

fn subprogram_die(name: &str, low: u64, size: u64, decl_file: u64) -> DieRecord {
    DieRecord {
        tag: DW_TAG_SUBPROGRAM,
        attrs: vec![
            text_attr(DW_AT_NAME, name),
            num_attr(DW_AT_DECL_FILE, decl_file),
            addr_attr(DW_AT_LOW_PC, low),
            num_attr(DW_AT_HIGH_PC, size),
        ],
    }
}

/// A unit compiled in `/work` from `hello.c`, with `main` at 0x1139..0x1160
/// on lines 3 to 6.
fn hello_unit() -> UnitRecord {
    UnitRecord {
        version: 4,
        comp_dir: Some("/work".to_string()),
        line_program: Some(LineProgramRecord {
            files: vec![None, file(0, Some("/work"), "hello.c"), file(1, Some("/usr/include"), "stdio.h")],
            rows: vec![
                row(0x1139, 1, 3, 12),
                row(0x113d, 1, 4, 5),
                row(0x1147, 2, 80, 0),
                row(0x114c, 1, 5, 0),
                row(0x1151, 1, 6, 1),
                end(0x1160),
            ],
        }),
        entries: vec![
            DieRecord { tag: 0x11, attrs: vec![text_attr(DW_AT_NAME, "hello.c")] },
            subprogram_die("main", 0x1139, 0x27, 1),
        ],
        malformed: false,
    }
}

#[test]
fn resolve_path_joins_directory_and_name() {
    let in_comp_dir = FileRecord { directory_index: 0, directory: Some("/work".to_string()), name: "hello.c".to_string() };
    assert_eq!(resolve_path("/work", &in_comp_dir), "/work/hello.c");
    let relative_dir = FileRecord { directory_index: 2, directory: Some("src".to_string()), name: "a.c".to_string() };
    assert_eq!(resolve_path("/work", &relative_dir), "/work/src/a.c");
    let absolute_dir = FileRecord { directory_index: 1, directory: Some("/usr/include".to_string()), name: "stdio.h".to_string() };
    assert_eq!(resolve_path("/work", &absolute_dir), "/usr/include/stdio.h");
    let absolute_name = FileRecord { directory_index: 1, directory: Some("inc".to_string()), name: "/abs/x.h".to_string() };
    assert_eq!(resolve_path("/work", &absolute_name), "/abs/x.h");
    let no_directory = FileRecord { directory_index: 3, directory: None, name: "b.c".to_string() };
    assert_eq!(resolve_path("/work/", &no_directory), "/work/b.c");
    assert_eq!(resolve_path("", &no_directory), "b.c");
    let no_name = FileRecord { directory_index: 1, directory: Some("src/".to_string()), name: "".to_string() };
    assert_eq!(resolve_path("/work", &no_name), "/work/src/");
    assert_eq!(resolve_path("", &no_name), "src/");
}

#[test]
fn resolve_path_joins_as_the_path_buffer_does() {
    let parts = ["", "/", "a", "a/", "/a", "/a/", "a/b", "..", ".", "//", "a//", "d\u{e9}j\u{e0}", "/\u{e9}"];
    for comp_dir in parts {
        for directory in parts {
            for name in parts {
                let mut buffer = std::path::PathBuf::from(comp_dir);
                buffer.push(directory);
                buffer.push(name);
                let record = FileRecord {
                    directory_index: 1,
                    directory: Some(directory.to_string()),
                    name: name.to_string(),
                };
                assert_eq!(resolve_path(comp_dir, &record), buffer.to_str().unwrap());
                let mut buffer = std::path::PathBuf::from(comp_dir);
                buffer.push(name);
                let record = FileRecord { directory_index: 0, directory: None, name: name.to_string() };
                assert_eq!(resolve_path(comp_dir, &record), buffer.to_str().unwrap());
            }
        }
    }
}

#[test]
fn mark_target_slots_compares_paths_not_texts() {
    let program = LineProgramRecord {
        files: vec![
            None,
            file(0, None, "hello.c"),
            file(1, Some("sub"), "../work/hello.c"),
            file(1, Some("."), "hello.c"),
            file(0, None, "other.c"),
        ],
        rows: vec![],
    };
    let slots = mark_target_slots("/work", &program, "/work//hello.c");
    assert_eq!(slots, vec![false, true, false, true, false]);
}

#[test]
fn scan_rows_keeps_the_rows_of_the_target_file() {
    let unit = hello_unit();
    let program = unit.line_program.as_ref().unwrap();
    let slots = mark_target_slots("/work", program, "/work/hello.c");
    assert_eq!(slots, vec![false, true, false]);
    let locations = scan_rows(&program.rows, &slots);
    assert_eq!(
        locations,
        vec![loc(0x1139, 3, 12), loc(0x113d, 4, 5), loc(0x114c, 5, 1), loc(0x1151, 6, 1)]
    );
}

#[test]
fn scan_rows_holds_the_first_matching_index_for_a_sequence() {
    let slots = vec![false, true, true];
    let rows = vec![
        row(0x10, 0, 1, 1),
        row(0x14, 2, 2, 1),
        row(0x18, 1, 3, 1),
        row(0x1c, 2, 4, 1),
        end(0x20),
        row(0x30, 1, 7, 1),
        row(0x34, 2, 8, 1),
        end(0x40),
    ];
    assert_eq!(scan_rows(&rows, &slots), vec![loc(0x14, 2, 1), loc(0x1c, 4, 1), loc(0x30, 7, 1)]);
}

#[test]
fn scan_rows_ignores_rows_behind_the_last_sequence_end() {
    let slots = vec![false, true];
    let rows = vec![row(0x10, 1, 1, 1), end(0x18), row(0x20, 1, 2, 1), row(0x24, 1, 3, 1)];
    assert_eq!(scan_rows(&rows, &slots), vec![loc(0x10, 1, 1)]);
    let unterminated = vec![row(0x10, 1, 1, 1), row(0x14, 1, 2, 1)];
    assert_eq!(scan_rows(&unterminated, &slots), Vec::<BreakableSrcLocation>::new());
    assert_eq!(scan_rows(&Vec::new(), &slots), Vec::<BreakableSrcLocation>::new());
}

#[test]
fn scan_rows_skips_indices_outside_the_table() {
    let slots = vec![false, true];
    let rows = vec![row(0x10, 9, 1, 1), row(0x14, 1, 2, 0), end(0x18)];
    assert_eq!(scan_rows(&rows, &slots), vec![loc(0x14, 2, 1)]);
}

#[test]
fn dump_file_index_builds_the_declared_text() {
    let unit = UnitRecord {
        version: 4,
        comp_dir: Some("/work".to_string()),
        line_program: Some(LineProgramRecord {
            files: vec![
                file(0, None, "cu.c"),
                file(0, Some("/work"), "hello.c"),
                file(1, Some("src"), "a.c"),
                file(2, Some("/usr/include"), "stdio.h"),
                file(5, None, "lost.c"),
                None,
            ],
            rows: vec![],
        }),
        entries: vec![],
        malformed: false,
    };
    let mut w = String::new();
    dump_file_index(&mut w, 1, &unit);
    assert_eq!(w, "/work/hello.c");
    let mut w = String::new();
    dump_file_index(&mut w, 2, &unit);
    assert_eq!(w, "/work/src/a.c");
    let mut w = String::new();
    dump_file_index(&mut w, 3, &unit);
    assert_eq!(w, "/usr/include/stdio.h");
    let mut w = String::new();
    dump_file_index(&mut w, 4, &unit);
    assert_eq!(w, "lost.c");
    let mut w = "kept".to_string();
    dump_file_index(&mut w, 0, &unit);
    assert_eq!(w, "kept");
    dump_file_index(&mut w, 5, &unit);
    assert_eq!(w, "kept");
    dump_file_index(&mut w, 77, &unit);
    assert_eq!(w, "kept");
    dump_file_index(&mut w, 4, &unit);
    assert_eq!(w, "keptlost.c");
}

#[test]
fn dump_file_index_reads_index_zero_from_dwarf_five() {
    let unit = UnitRecord {
        version: 5,
        comp_dir: None,
        line_program: Some(LineProgramRecord {
            files: vec![file(0, Some("/work"), "hello.c"), file(1, Some("src"), "a.c")],
            rows: vec![],
        }),
        entries: vec![],
        malformed: false,
    };
    let mut w = String::new();
    dump_file_index(&mut w, 0, &unit);
    assert_eq!(w, "/work/hello.c");
    let mut w = String::new();
    dump_file_index(&mut w, 1, &unit);
    assert_eq!(w, "src/a.c");
    let no_program = UnitRecord { version: 5, comp_dir: None, line_program: None, entries: vec![], malformed: false };
    let mut w = String::new();
    dump_file_index(&mut w, 1, &no_program);
    assert_eq!(w, "");
}

#[test]
fn start_and_end_lines_come_from_the_locations() {
    let locations = vec![
        loc(0x1139, 3, 1),
        loc(0x113d, 4, 1),
        loc(0x1150, 9, 1),
        loc(0x1150, 6, 1),
        loc(0x1139, 2, 1),
        loc(0x1160, 20, 1),
    ];
    assert_eq!(find_start_line(&locations, 0x1139), 2);
    assert_eq!(find_start_line(&locations, 0x113d), 4);
    assert_eq!(find_start_line(&locations, 0x2000), 0);
    assert_eq!(find_end_line(&locations, 0x1139, 0x1160), 6);
    assert_eq!(find_end_line(&locations, 0x1139, 0x1161), 20);
    assert_eq!(find_end_line(&locations, 0x1139, 0x113a), 2);
    assert_eq!(find_end_line(&locations, 0x2000, 0x3000), 0);
}

#[test]
fn read_subprogram_resolves_main() {
    let unit = hello_unit();
    let locations = vec![loc(0x1139, 3, 12), loc(0x113d, 4, 5), loc(0x114c, 5, 1), loc(0x1151, 6, 1)];
    let found = read_subprogram(&unit.entries[1], &unit, "/work/hello.c", 42, &locations).unwrap();
    assert_eq!(found.name, "main");
    assert_eq!(found.low_addr, 0x1139);
    assert_eq!(found.high_addr, 0x1160);
    assert_eq!(found.src_file_hash, 42);
    assert_eq!(found.start_line, 3);
    assert_eq!(found.end_line, 6);
    assert!(read_subprogram(&unit.entries[0], &unit, "/work/hello.c", 42, &locations).is_none());
    assert!(read_subprogram(&unit.entries[1], &unit, "/work/other.c", 42, &locations).is_none());
}

#[test]
fn read_subprogram_skips_what_is_not_a_plain_function() {
    let unit = hello_unit();
    let locations = vec![loc(0x1139, 3, 12), loc(0x1151, 6, 1)];
    let mut inlined = subprogram_die("main", 0x1139, 0x27, 1);
    inlined.attrs.push(num_attr(DW_AT_INLINE, 1));
    assert!(read_subprogram(&inlined, &unit, "/work/hello.c", 1, &locations).is_none());
    let empty = subprogram_die("main", 0x1139, 0, 1);
    assert!(read_subprogram(&empty, &unit, "/work/hello.c", 1, &locations).is_none());
    let overflowing = subprogram_die("main", u64::MAX, 2, 1);
    assert!(read_subprogram(&overflowing, &unit, "/work/hello.c", 1, &locations).is_none());
    let mut unreadable = subprogram_die("main", 0x1139, 0x27, 1);
    unreadable.attrs[3] = addr_attr(DW_AT_HIGH_PC, 0x1160);
    assert!(read_subprogram(&unreadable, &unit, "/work/hello.c", 1, &locations).is_none());
    let one_line = vec![loc(0x1139, 3, 1), loc(0x1151, 3, 1)];
    let plain = subprogram_die("main", 0x1139, 0x27, 1);
    assert!(read_subprogram(&plain, &unit, "/work/hello.c", 1, &one_line).is_none());
    let falling = vec![loc(0x1139, 8, 1), loc(0x1151, 3, 1)];
    assert!(read_subprogram(&plain, &unit, "/work/hello.c", 1, &falling).is_none());
    assert!(read_subprogram(&plain, &unit, "/work/hello.c", 1, &locations).is_some());
}

#[test]
fn read_subprogram_takes_the_last_of_repeated_attributes() {
    let unit = hello_unit();
    let locations = vec![loc(0x1139, 3, 12), loc(0x1140, 4, 1), loc(0x1151, 6, 1)];
    let mut die = subprogram_die("first", 0x1000, 0x27, 1);
    die.attrs.push(text_attr(DW_AT_NAME, "second"));
    die.attrs.push(addr_attr(DW_AT_LOW_PC, 0x1139));
    die.attrs.push(num_attr(DW_AT_HIGH_PC, 0x10));
    let found = read_subprogram(&die, &unit, "/work/hello.c", 7, &locations).unwrap();
    assert_eq!(found.name, "second");
    assert_eq!(found.low_addr, 0x1139);
    assert_eq!(found.high_addr, 0x1149);
    assert_eq!(found.start_line, 3);
    assert_eq!(found.end_line, 4);
}

#[test]
fn read_subprograms_keeps_entry_order() {
    let mut unit = hello_unit();
    unit.entries.push(subprogram_die("helper", 0x113d, 0x10, 1));
    unit.entries.push(subprogram_die("elsewhere", 0x1139, 0x27, 2));
    let locations = vec![loc(0x1139, 3, 12), loc(0x113d, 4, 5), loc(0x114c, 5, 1), loc(0x1151, 6, 1)];
    let found = read_subprograms(&unit, "/work/hello.c", 9, &locations);
    assert_eq!(found.len(), 2);
    assert_eq!(found[0].name, "main");
    assert_eq!(found[1].name, "helper");
    assert_eq!(found[1].start_line, 4);
    assert_eq!(found[1].end_line, 5);
}

#[test]
fn static_hello_has_one_subprogram() {
    let units = vec![hello_unit()];
    let (locations, subprograms) = analyse_units(&units, "/work/hello.c", 11);
    assert_eq!(
        locations,
        vec![loc(0x1139, 3, 12), loc(0x113d, 4, 5), loc(0x114c, 5, 1), loc(0x1151, 6, 1)]
    );
    assert_eq!(subprograms.len(), 1);
    assert_eq!(subprograms[0].name, "main");
    assert!(subprograms[0].start_line <= subprograms[0].end_line);
    assert!(subprograms[0].low_addr < subprograms[0].high_addr);
    assert_eq!(subprograms[0].src_file_hash, 11);
}

#[test]
fn malformed_unit_is_skipped() {
    let mut broken = hello_unit();
    broken.malformed = true;
    let mut second = hello_unit();
    second.line_program.as_mut().unwrap().rows = vec![row(0x2000, 1, 10, 1), row(0x2010, 1, 14, 1), end(0x2020)];
    second.entries = vec![subprogram_die("later", 0x2000, 0x20, 1)];
    let units = vec![broken, second];
    let (locations, subprograms) = analyse_units(&units, "/work/hello.c", 5);
    assert_eq!(locations, vec![loc(0x2000, 10, 1), loc(0x2010, 14, 1)]);
    assert_eq!(subprograms.len(), 1);
    assert_eq!(subprograms[0].name, "later");
    assert_eq!(subprograms[0].start_line, 10);
    assert_eq!(subprograms[0].end_line, 14);
}

#[test]
fn units_of_other_directories_are_skipped() {
    let mut elsewhere = hello_unit();
    elsewhere.comp_dir = Some("/other".to_string());
    let mut no_program = hello_unit();
    no_program.line_program = None;
    let mut no_dir = hello_unit();
    no_dir.comp_dir = None;
    no_dir.line_program.as_mut().unwrap().files[1] = file(0, None, "/work/hello.c");
    let units = vec![elsewhere, no_program, no_dir];
    let (locations, subprograms) = analyse_units(&units, "/work/hello.c", 5);
    assert_eq!(locations.len(), 4);
    assert_eq!(subprograms.len(), 1);
    assert_eq!(subprograms[0].name, "main");
    let (none, _) = analyse_units(&units, "/nowhere/hello.c", 5);
    assert_eq!(none.len(), 0);
}

#[test]
fn discover_paths_lists_each_referenced_file_once() {
    let mut second = hello_unit();
    second.line_program.as_mut().unwrap().files.push(file(0, None, "extra.c"));
    second.line_program.as_mut().unwrap().rows.push(row(0x3000, 3, 1, 1));
    let mut broken = hello_unit();
    broken.malformed = true;
    broken.comp_dir = Some("/broken".to_string());
    let units = vec![hello_unit(), broken, second];
    let all = discover_paths(&units, &None);
    assert_eq!(all, vec!["/work/hello.c".to_string(), "/usr/include/stdio.h".to_string(), "/work/extra.c".to_string()]);
    let under = discover_paths(&units, &Some("/work".to_string()));
    assert_eq!(under, vec!["/work/hello.c".to_string(), "/work/extra.c".to_string()]);
    let by_component = discover_paths(&units, &Some("/wor".to_string()));
    assert_eq!(by_component.len(), 0);
}

#[test]
fn discover_paths_leaves_out_files_no_row_refers_to() {
    let mut unit = hello_unit();
    unit.line_program.as_mut().unwrap().rows = vec![row(0x1139, 2, 3, 1), end(0x1140)];
    let paths = discover_paths(&vec![unit], &None);
    assert_eq!(paths, vec!["/usr/include/stdio.h".to_string()]);
}
