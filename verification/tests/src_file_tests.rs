use std::hash::Hash;
use std::hash::Hasher;
use degrugger::line_scan::BreakableSrcLocation;
use degrugger::src_file::BinaryFile;
use degrugger::src_file::SrcFile;

fn loc(addr: u64, line: usize) -> BreakableSrcLocation {
    BreakableSrcLocation { addr, src_line: line, src_col: 1 }
}

#[test]
fn new_file_has_no_tables() {
    let file = SrcFile::new("/src/hello.c".to_string(), None);
    assert_eq!(file.path, "/src/hello.c");
    assert!(file.lines.is_none());
    assert!(file.line_to_addr.is_empty());
    assert!(file.addr_to_line.is_empty());
}

#[test]
fn load_contents_replaces_the_text() {
    let mut file = SrcFile::new("/src/hello.c".to_string(), None);
    let updated = file.load_contents(vec!["int main() {".to_string(), "}".to_string()]);
    assert!(updated);
    assert_eq!(file.lines, Some(vec!["int main() {".to_string(), "}".to_string()]));
    assert_eq!(file.path, "/src/hello.c");
}

#[test]
fn simple_hash_depends_on_the_path_alone() {
    let a = SrcFile::new("/src/hello.c".to_string(), None);
    let b = SrcFile::new("/src/hello.c".to_string(), Some(vec!["x".to_string()]));
    let c = SrcFile::new("/src/other.c".to_string(), None);
    assert_eq!(a.simple_hash(), b.simple_hash());
    assert_ne!(a.simple_hash(), c.simple_hash());
    assert!(a == b);
    assert!(a != c);
}

#[test]
fn simple_hash_is_that_of_the_path_in_a_default_hasher() {
    let file = SrcFile::new("/src/dir/hello.c".to_string(), None);
    let mut hasher = std::collections::hash_map::DefaultHasher::new();
    std::path::PathBuf::from("/src/dir/hello.c").hash(&mut hasher);
    assert_eq!(file.simple_hash(), hasher.finish());
    let same = SrcFile::new("/src/dir//hello.c".to_string(), None);
    assert_eq!(file.simple_hash(), same.simple_hash());
}

#[test]
fn link_enters_a_pair_once() {
    let mut file = SrcFile::new("/src/hello.c".to_string(), None);
    assert!(file.link(3, 0x1139));
    assert!(!file.link(3, 0x1140));
    assert!(!file.link(4, 0x1139));
    assert!(file.link(4, 0x1140));
    assert_eq!(file.addr_of_line(3), Some(0x1139));
    assert_eq!(file.addr_of_line(4), Some(0x1140));
    assert_eq!(file.addr_of_line(5), None);
    assert_eq!(file.line_of_addr(0x1139), Some(3));
    assert_eq!(file.line_of_addr(0x1140), Some(4));
    assert_eq!(file.line_of_addr(0x1141), None);
}

#[test]
fn line_tables_are_inverses() {
    let mut file = SrcFile::new("/src/hello.c".to_string(), None);
    let locations = vec![
        loc(0x1139, 3),
        loc(0x113d, 4),
        loc(0x1147, 4),
        loc(0x1139, 5),
        loc(0x1150, 6),
        loc(0x1158, 3),
    ];
    file.index_locations(&locations);
    assert_eq!(file.line_to_addr.len(), 3);
    assert_eq!(file.addr_to_line.len(), 3);
    assert_eq!(file.addr_of_line(3), Some(0x1139));
    assert_eq!(file.addr_of_line(4), Some(0x113d));
    assert_eq!(file.addr_of_line(5), None);
    assert_eq!(file.addr_of_line(6), Some(0x1150));
    for (line, addr) in file.line_to_addr.iter() {
        assert_eq!(file.addr_to_line.get(addr), Some(line));
    }
    for (addr, line) in file.addr_to_line.iter() {
        assert_eq!(file.line_to_addr.get(line), Some(addr));
    }
}

#[test]
fn lines_of_a_subprogram_map_into_its_range() {
    let mut file = SrcFile::new("/src/hello.c".to_string(), None);
    let locations = vec![loc(0x1139, 3), loc(0x113d, 4), loc(0x1150, 5), loc(0x1160, 9)];
    file.index_locations(&locations);
    let low = 0x1139u64;
    let high = 0x1158u64;
    for line in 3usize..=5 {
        let addr = file.addr_of_line(line).unwrap();
        assert!(low <= addr && addr <= high);
    }
}

#[test]
fn binary_file_holds_what_it_is_given() {
    let file = BinaryFile {
        path: "/bin/hello".to_string(),
        contents: Some(vec![0x7f, 0x45]),
        decompiled_src: None,
    };
    assert_eq!(file.path, "/bin/hello");
    assert_eq!(file.contents, Some(vec![0x7f, 0x45]));
    assert!(file.decompiled_src.is_none());
}
