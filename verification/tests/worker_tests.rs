use degrugger::dwarf_records::AttrRecord;
use degrugger::dwarf_records::DieRecord;
use degrugger::dwarf_records::FileRecord;
use degrugger::dwarf_records::LineProgramRecord;
use degrugger::dwarf_records::RowRecord;
use degrugger::dwarf_records::UnitRecord;
use degrugger::dwarf_records::DW_AT_DECL_FILE;
use degrugger::dwarf_records::DW_AT_HIGH_PC;
use degrugger::dwarf_records::DW_AT_LOW_PC;
use degrugger::dwarf_records::DW_AT_NAME;
use degrugger::dwarf_records::DW_TAG_SUBPROGRAM;
use degrugger::line_scan::BreakableSrcLocation;
use degrugger::offline_debug_info::DebugInfoRequest;
use degrugger::offline_debug_info::DebugInfoResponse;
use degrugger::offline_debug_info::OfflineDebugInfo;
use degrugger::offline_debug_info::ThinOfflineDebugInfo;
use degrugger::error::DebugError;
use degrugger::src_file::SrcFile;
use degrugger::subprograms::Subprogram;
use degrugger::worker::OfflineDebugInfoWorker;
use degrugger::worker::WorkInput;
use degrugger::worker::WorkNeed;
use std::sync::Arc;

fn unit(comp_dir: &str, name: &str, function: &str, low: u64) -> UnitRecord {
    let row = |address: u64, line: u64| RowRecord { address, file_index: 1, line, column: 0, end_sequence: false };
    UnitRecord {
        version: 4,
        comp_dir: Some(comp_dir.to_string()),
        line_program: Some(LineProgramRecord {
            files: vec![
                None,
                Some(FileRecord { directory_index: 0, directory: Some(comp_dir.to_string()), name: name.to_string() }),
            ],
            rows: vec![
                row(low, 3),
                row(low + 4, 4),
                row(low + 0x10, 6),
                RowRecord { address: low + 0x20, file_index: 1, line: 6, column: 0, end_sequence: true },
            ],
        }),
        entries: vec![DieRecord {
            tag: DW_TAG_SUBPROGRAM,
            attrs: vec![
                AttrRecord { name: DW_AT_NAME, address: None, unsigned: None, text: Some(function.to_string()) },
                AttrRecord { name: DW_AT_DECL_FILE, address: None, unsigned: Some(1), text: None },
                AttrRecord { name: DW_AT_LOW_PC, address: Some(low), unsigned: None, text: None },
                AttrRecord { name: DW_AT_HIGH_PC, address: None, unsigned: Some(0x20), text: None },
            ],
        }],
        malformed: false,
    }
}

fn units() -> Vec<UnitRecord> {
    vec![unit("/work", "hello.c", "main", 0x1139), unit("/work/lib", "util.c", "helper", 0x2000)]
}

/// Bytes that are no object file: the worker then has an empty listing.
fn bytes() -> Vec<u8> {
    vec![0x7f, b'E', b'L', b'F']
}

/// A worker that has taken the units of `units()` as those of its
/// executable.
fn ready_worker() -> OfflineDebugInfoWorker {
    let mut worker = OfflineDebugInfoWorker::new("/bin/hello".to_string(), None);
    worker.gather_dwarf_info(bytes(), units(), false);
    worker.debug_info.decompiled_src = Some(OfflineDebugInfoWorker::decompile_src(&bytes()));
    worker
}

fn loaded(path: &str) -> Arc<SrcFile> {
    Arc::new(SrcFile::new(path.to_string(), Some(vec!["a".to_string(), "b".to_string()])))
}

fn read_src_paths(requests: &[DebugInfoRequest]) -> Vec<String> {
    requests
        .iter()
        .map(|request| match request {
            DebugInfoRequest::ReadSrc { path, queue_debug_info } => {
                assert!(*queue_debug_info);
                path.clone()
            }
            _ => panic!("not a request to read a source file"),
        })
        .collect()
}

#[test]
fn new_worker_has_read_nothing() {
    let worker = OfflineDebugInfoWorker::new("/bin/hello".to_string(), Some("/work".to_string()));
    assert_eq!(worker.exec_path, "/bin/hello");
    assert_eq!(worker.auto_load_src_root_path, Some("/work".to_string()));
    assert!(worker.bin_data.is_empty());
    assert!(worker.units.is_empty());
    assert!(worker.debug_info.decompiled_src.is_none());
    assert!(!worker.ready());
}

#[test]
fn needs_says_what_to_read() {
    let worker = OfflineDebugInfoWorker::new("/bin/hello".to_string(), None);
    let read_exec = DebugInfoRequest::ReadExec("/ignored".to_string());
    let read_src = DebugInfoRequest::ReadSrc { path: "/work/hello.c".to_string(), queue_debug_info: false };
    let analyse = DebugInfoRequest::DebugInfo(loaded("/work/hello.c"));
    assert!(matches!(worker.needs(&read_exec), WorkNeed::Executable(path) if path == "/bin/hello"));
    assert!(matches!(worker.needs(&read_src), WorkNeed::Nothing));
    assert!(matches!(worker.needs(&analyse), WorkNeed::Nothing));
    let worker = ready_worker();
    assert!(matches!(worker.needs(&read_src), WorkNeed::SourceText(path) if path == "/work/hello.c"));
    assert!(matches!(worker.needs(&analyse), WorkNeed::Nothing));
}

#[test]
fn requests_wait_for_the_executable() {
    let mut worker = OfflineDebugInfoWorker::new("/bin/hello".to_string(), None);
    let output = worker.work(
        DebugInfoRequest::ReadSrc { path: "/work/hello.c".to_string(), queue_debug_info: true },
        WorkInput::SourceText(vec!["x".to_string()]),
    );
    assert!(output.responses.is_empty());
    assert_eq!(read_src_paths(&output.requests), vec!["/work/hello.c".to_string()]);
    let output = worker.work(DebugInfoRequest::DebugInfo(loaded("/work/hello.c")), WorkInput::Nothing);
    assert!(output.responses.is_empty());
    assert_eq!(output.requests.len(), 1);
    assert!(matches!(&output.requests[0], DebugInfoRequest::DebugInfo(file) if file.path == "/work/hello.c"));
    assert!(!worker.ready());
    assert!(worker.debug_info.src_file_info.is_empty());
}

#[test]
fn gather_dwarf_info_discovers_sources() {
    let mut worker = OfflineDebugInfoWorker::new("/bin/hello".to_string(), None);
    let requests = worker.gather_dwarf_info(bytes(), units(), true);
    assert_eq!(read_src_paths(&requests), vec!["/work/hello.c".to_string(), "/work/lib/util.c".to_string()]);
    assert_eq!(worker.bin_data, bytes());
    assert_eq!(worker.units.len(), 2);
    assert!(!worker.ready());
    assert!(ready_worker().ready());
}

#[test]
fn gather_dwarf_info_minds_the_source_root() {
    let mut worker = OfflineDebugInfoWorker::new("/bin/hello".to_string(), Some("/work/lib".to_string()));
    let requests = worker.gather_dwarf_info(bytes(), units(), true);
    assert_eq!(read_src_paths(&requests), vec!["/work/lib/util.c".to_string()]);
    let mut worker = OfflineDebugInfoWorker::new("/bin/hello".to_string(), None);
    let quiet = worker.gather_dwarf_info(bytes(), units(), false);
    assert!(quiet.is_empty());
    assert_eq!(worker.units.len(), 2);
}

#[test]
fn read_exec_of_what_is_no_object_file_publishes_an_empty_listing() {
    let mut worker = OfflineDebugInfoWorker::new("/bin/hello".to_string(), None);
    let output = worker.work(
        DebugInfoRequest::ReadExec("/bin/hello".to_string()),
        WorkInput::Executable { bytes: bytes() },
    );
    assert!(output.requests.is_empty());
    assert_eq!(output.responses.len(), 1);
    match &output.responses[0] {
        DebugInfoResponse::ThinInfo(info) => {
            assert!(info.decompiled_src.is_some());
            assert_eq!(info.decompiled_src.as_ref().unwrap().addresses.len(), 0);
            assert!(info.src_file_info.is_empty());
            assert!(info.all_subprograms.is_empty());
        }
        _ => panic!("not a state of knowledge"),
    }
    assert_eq!(output.diagnostic, None);
    assert!(worker.ready());
    assert_eq!(worker.bin_data, bytes());
    assert!(worker.units.is_empty());
}

#[test]
fn read_exec_without_the_file_does_nothing() {
    let mut worker = OfflineDebugInfoWorker::new("/bin/hello".to_string(), None);
    let output = worker.work(DebugInfoRequest::ReadExec("/bin/hello".to_string()), WorkInput::Nothing);
    assert!(output.requests.is_empty());
    assert!(output.responses.is_empty());
    assert_eq!(output.diagnostic, Some(DebugError::NotFound));
    assert!(!worker.ready());
}

#[test]
fn read_src_publishes_the_file() {
    let mut worker = ready_worker();
    let lines = vec!["int main() {".to_string(), "}".to_string()];
    let output = worker.work(
        DebugInfoRequest::ReadSrc { path: "/work/hello.c".to_string(), queue_debug_info: true },
        WorkInput::SourceText(lines.clone()),
    );
    assert_eq!(output.responses.len(), 1);
    let published = match &output.responses[0] {
        DebugInfoResponse::Src(file) => file.clone(),
        _ => panic!("not a source file"),
    };
    assert_eq!(published.path, "/work/hello.c");
    assert_eq!(published.lines, Some(lines.clone()));
    assert!(published.line_to_addr.is_empty());
    assert_eq!(output.requests.len(), 1);
    assert!(matches!(&output.requests[0], DebugInfoRequest::DebugInfo(file) if Arc::ptr_eq(file, &published)));
    let output = worker.work(
        DebugInfoRequest::ReadSrc { path: "/work/hello.c".to_string(), queue_debug_info: false },
        WorkInput::SourceText(lines),
    );
    assert_eq!(output.responses.len(), 1);
    assert!(output.requests.is_empty());
    assert_eq!(output.diagnostic, None);
    let output = worker.work(
        DebugInfoRequest::ReadSrc { path: "/work/gone.c".to_string(), queue_debug_info: true },
        WorkInput::Nothing,
    );
    assert!(output.responses.is_empty());
    assert!(output.requests.is_empty());
    assert_eq!(output.diagnostic, Some(DebugError::NotFound));
}

#[test]
fn debug_info_of_an_unread_file_asks_to_read_it() {
    let mut worker = ready_worker();
    let unread = Arc::new(SrcFile::new("/work/hello.c".to_string(), None));
    let output = worker.work(DebugInfoRequest::DebugInfo(unread), WorkInput::Nothing);
    assert!(output.responses.is_empty());
    assert_eq!(read_src_paths(&output.requests), vec!["/work/hello.c".to_string()]);
    assert!(worker.debug_info.src_file_info.is_empty());
}

#[test]
fn debug_info_analyses_and_publishes() {
    let mut worker = ready_worker();
    let src = loaded("/work/hello.c");
    let hash = src.simple_hash();
    let output = worker.work(DebugInfoRequest::DebugInfo(src), WorkInput::Nothing);
    assert!(output.requests.is_empty());
    assert_eq!(output.responses.len(), 2);
    match &output.responses[0] {
        DebugInfoResponse::DebugInfo(file) => {
            assert_eq!(file.path, "/work/hello.c");
            assert_eq!(file.lines, Some(vec!["a".to_string(), "b".to_string()]));
            assert_eq!(file.addr_of_line(3), Some(0x1139));
            assert_eq!(file.addr_of_line(4), Some(0x113d));
            assert_eq!(file.addr_of_line(6), Some(0x1149));
            assert_eq!(file.line_of_addr(0x1149), Some(6));
            assert_eq!(file.line_to_addr.len(), 3);
        }
        _ => panic!("not an analysed file"),
    }
    match &output.responses[1] {
        DebugInfoResponse::ThinInfo(info) => {
            assert_eq!(info.src_file_info.len(), 1);
            assert_eq!(info.src_file_info[0].src_file_hash, hash);
            assert_eq!(
                info.src_file_info[0].breakable_locations,
                vec![
                    BreakableSrcLocation { addr: 0x1139, src_line: 3, src_col: 1 },
                    BreakableSrcLocation { addr: 0x113d, src_line: 4, src_col: 1 },
                    BreakableSrcLocation { addr: 0x1149, src_line: 6, src_col: 1 },
                ]
            );
            assert_eq!(info.src_file_info[0].subprograms.len(), 1);
            assert_eq!(info.all_subprograms.len(), 1);
            assert_eq!(info.all_subprograms[0].name, "main");
            assert_eq!(info.all_subprograms[0].src_file_hash, hash);
            assert!(info.decompiled_src.is_some());
        }
        _ => panic!("not a state of knowledge"),
    }
}

#[test]
fn later_files_go_first_among_all_subprograms() {
    let mut worker = ready_worker();
    worker.work(DebugInfoRequest::DebugInfo(loaded("/work/hello.c")), WorkInput::Nothing);
    worker.work(DebugInfoRequest::DebugInfo(loaded("/work/lib/util.c")), WorkInput::Nothing);
    let names: Vec<&str> = worker.debug_info.all_subprograms.iter().map(|s| s.name.as_str()).collect();
    assert_eq!(names, vec!["helper", "main"]);
    assert_eq!(worker.debug_info.src_file_info.len(), 2);
    worker.work(DebugInfoRequest::DebugInfo(loaded("/work/hello.c")), WorkInput::Nothing);
    assert_eq!(worker.debug_info.src_file_info.len(), 2);
    let first = worker.debug_info.src_file_info[0].src_file_hash;
    assert_eq!(first, loaded("/work/hello.c").simple_hash());
    let names: Vec<&str> = worker.debug_info.all_subprograms.iter().map(|s| s.name.as_str()).collect();
    assert_eq!(names, vec!["main", "helper", "main"]);
}

#[test]
fn generate_locations_and_subprograms_of_a_file() {
    let worker = ready_worker();
    let file = SrcFile::new("/work/lib/util.c".to_string(), None);
    let (locations, subprograms) = worker.generate_breakable_src_locations_and_subprograms(&file);
    assert_eq!(locations.len(), 3);
    assert_eq!(locations[0].addr, 0x2000);
    assert_eq!(subprograms.len(), 1);
    assert_eq!(subprograms[0].name, "helper");
    assert_eq!(subprograms[0].src_file_hash, file.simple_hash());
    assert_eq!(subprograms[0].low_addr, 0x2000);
    assert_eq!(subprograms[0].high_addr, 0x2020);
    assert_eq!(subprograms[0].start_line, 3);
    assert_eq!(subprograms[0].end_line, 6);
}

#[test]
fn snapshot_is_one_publication() {
    let mut worker = ready_worker();
    let mut store = OfflineDebugInfo::new();
    let first = worker.work(DebugInfoRequest::DebugInfo(loaded("/work/hello.c")), WorkInput::Nothing);
    store.sync_debug_info(first.responses);
    let captured = store.snapshot();
    let second = worker.work(DebugInfoRequest::DebugInfo(loaded("/work/lib/util.c")), WorkInput::Nothing);
    store.sync_debug_info(second.responses);
    assert_eq!(captured.src_file_info.len(), 1);
    assert_eq!(captured.all_subprograms.len(), 1);
    assert_eq!(captured.src_file_info[0].subprograms[0].name, captured.all_subprograms[0].name);
    let now = store.snapshot();
    assert_eq!(now.src_file_info.len(), 2);
    assert_eq!(now.all_subprograms.len(), 2);
    assert!(Arc::ptr_eq(&now.all_subprograms, &worker.debug_info.all_subprograms));
    assert!(Arc::ptr_eq(now.decompiled_src.as_ref().unwrap(), captured.decompiled_src.as_ref().unwrap()));
}

#[test]
fn store_keeps_sources_in_the_order_they_came() {
    let mut store = OfflineDebugInfo::new();
    assert!(store.src_files.is_empty());
    store.sync_debug_info(Vec::new());
    assert!(store.src_files.is_empty());
    let mut indexed = SrcFile::new("/work/hello.c".to_string(), None);
    indexed.link(3, 0x1139);
    store.sync_debug_info(vec![
        DebugInfoResponse::Src(loaded("/work/hello.c")),
        DebugInfoResponse::Src(loaded("/work/lib/util.c")),
        DebugInfoResponse::DebugInfo(Arc::new(indexed)),
    ]);
    assert_eq!(store.src_files.len(), 2);
    assert_eq!(store.src_files[0].path, "/work/hello.c");
    assert_eq!(store.src_files[0].addr_of_line(3), Some(0x1139));
    assert_eq!(store.src_files[1].path, "/work/lib/util.c");
    assert!(store.debug_info.src_file_info.is_empty());
}

#[test]
fn store_queues_requests_for_the_worker() {
    let mut store = OfflineDebugInfo::new();
    store.load_exec("/bin/hello".to_string());
    store.load_file("/work/hello.c".to_string(), true);
    let requests = store.take_requests();
    assert_eq!(requests.len(), 2);
    assert!(matches!(&requests[0], DebugInfoRequest::ReadExec(path) if path == "/bin/hello"));
    assert!(matches!(
        &requests[1],
        DebugInfoRequest::ReadSrc { path, queue_debug_info: true } if path == "/work/hello.c"
    ));
    assert!(store.take_requests().is_empty());
}

#[test]
fn store_finds_the_debug_info_of_a_file() {
    let mut store = OfflineDebugInfo::new();
    let file = SrcFile::new("/work/hello.c".to_string(), None);
    assert!(store.get_debug_info(&file).is_none());
    let mut info = ThinOfflineDebugInfo::empty();
    info.record_file(
        file.simple_hash(),
        vec![BreakableSrcLocation { addr: 0x1139, src_line: 3, src_col: 1 }],
        vec![Subprogram {
            name: "main".to_string(),
            low_addr: 0x1139,
            high_addr: 0x1160,
            src_file_hash: file.simple_hash(),
            start_line: 3,
            end_line: 6,
        }],
    );
    store.sync_debug_info(vec![DebugInfoResponse::ThinInfo(info)]);
    let found = store.get_debug_info(&file).unwrap();
    assert_eq!(found.src_file_hash, file.simple_hash());
    assert_eq!(found.breakable_locations.len(), 1);
    assert_eq!(found.subprograms[0].name, "main");
    assert!(store.get_debug_info(&SrcFile::new("/work/other.c".to_string(), None)).is_none());
    assert!(store.debug_info.file_info(file.simple_hash()).is_some());
}

#[test]
fn has_malformed_finds_a_malformed_unit() {
    let mut list = units();
    assert!(!degrugger::worker::has_malformed(&list));
    list[1].malformed = true;
    assert!(degrugger::worker::has_malformed(&list));
    assert!(!degrugger::worker::has_malformed(&Vec::new()));
}
