use bcup::error::ArchiveError;
use bcup::walker::{EntryKind, ListedEntry, TreeWalker};
use bcup::writer::ArchiveWriter;
use std::io::Read;

fn path(parts: &[&str]) -> Vec<String> {
    parts.iter().map(|p| p.to_string()).collect()
}

fn listed(name: &str, kind: EntryKind) -> ListedEntry {
    ListedEntry { name: name.to_string(), kind }
}

fn read_back(artifact: &tempfile::TempPath) -> Vec<(String, Vec<u8>)> {
    let runtime = tokio::runtime::Builder::new_current_thread().build().unwrap();
    let bytes = runtime.block_on(tokio::fs::read(artifact.to_path_buf())).unwrap();
    let mut zip = zip::ZipArchive::new(std::io::Cursor::new(bytes)).unwrap();
    let mut out = Vec::new();
    for i in 0..zip.len() {
        let mut entry = zip.by_index(i).unwrap();
        let mut bytes = Vec::new();
        entry.read_to_end(&mut bytes).unwrap();
        out.push((entry.name().to_string(), bytes));
    }
    out
}

fn finished(mut w: ArchiveWriter) -> tempfile::TempPath {
    w.finish().unwrap();
    w.into_artifact()
}

#[test]
fn test_create_archive() {
    let mut w = ArchiveWriter::create().unwrap();
    w.begin_entry(&path(&["test.txt"])).unwrap();
    w.write_chunk(b"test content").unwrap();
    let artifact = finished(w);
    let entries = read_back(&artifact);
    assert_eq!(entries.len(), 1);
    assert_eq!(String::from_utf8(entries[0].1.clone()).unwrap(), "test content");
}

#[test]
fn single_file_input_is_stored_under_its_name() {
    let mut w = ArchiveWriter::create().unwrap();
    w.begin_entry(&path(&["notes.txt"])).unwrap();
    w.write_chunk(b"hello").unwrap();
    let entries = read_back(&finished(w));
    assert_eq!(entries, vec![("notes.txt".to_string(), b"hello".to_vec())]);
}

#[test]
fn directory_input_keeps_its_inner_structure() {
    let contents = |p: &Vec<String>| -> &'static [u8] {
        if p == &path(&["a.txt"]) {
            b"A"
        } else {
            b"B"
        }
    };
    let mut w = ArchiveWriter::create().unwrap();
    let mut walker = TreeWalker::new();
    let mut listed_dirs = Vec::new();
    while let Some(dir) = walker.next_directory() {
        let listing = if dir.is_empty() {
            vec![listed("a.txt", EntryKind::File), listed("sub", EntryKind::Directory)]
        } else {
            assert_eq!(dir, path(&["sub"]));
            vec![listed("b.txt", EntryKind::File)]
        };
        listed_dirs.push(dir.clone());
        for file in walker.expand(&dir, &listing).unwrap() {
            w.begin_entry(&file).unwrap();
            w.write_chunk(contents(&file)).unwrap();
        }
    }
    assert_eq!(listed_dirs.len(), 2);
    let mut entries = read_back(&finished(w));
    entries.sort();
    assert_eq!(
        entries,
        vec![("a.txt".to_string(), b"A".to_vec()), ("sub/b.txt".to_string(), b"B".to_vec())]
    );
}

#[test]
fn empty_input_gives_an_archive_without_entries() {
    let w = ArchiveWriter::create().unwrap();
    let artifact = finished(w);
    assert!(artifact.exists());
    assert_eq!(read_back(&artifact).len(), 0);
}

#[test]
fn contents_round_trip_byte_for_byte() {
    let all_bytes: Vec<u8> = (0..=255u8).collect();
    let big: Vec<u8> = (0..100_000u32).map(|i| (i * 7 % 251) as u8).collect();
    let mut w = ArchiveWriter::create().unwrap();
    w.begin_entry(&path(&["empty.bin"])).unwrap();
    w.begin_entry(&path(&["bytes.bin"])).unwrap();
    w.write_chunk(&all_bytes).unwrap();
    w.begin_entry(&path(&["dir", "big.bin"])).unwrap();
    for chunk in big.chunks(4096) {
        w.write_chunk(chunk).unwrap();
    }
    let entries = read_back(&finished(w));
    assert_eq!(entries.len(), 3);
    assert_eq!(entries[0], ("empty.bin".to_string(), Vec::new()));
    assert_eq!(entries[1], ("bytes.bin".to_string(), all_bytes));
    assert_eq!(entries[2], ("dir/big.bin".to_string(), big));
}

#[test]
fn same_relative_path_twice_is_rejected() {
    let mut w = ArchiveWriter::create().unwrap();
    w.begin_entry(&path(&["a", "x.txt"])).unwrap();
    w.write_chunk(b"first").unwrap();
    assert_eq!(w.begin_entry(&path(&["a", "x.txt"])), Err(ArchiveError::DuplicateEntry));
    assert_eq!(w.begin_entry(&path(&["b", "x.txt"])), Ok(()));
}

#[test]
fn malformed_entry_paths_are_rejected() {
    let mut w = ArchiveWriter::create().unwrap();
    assert_eq!(w.begin_entry(&Vec::new()), Err(ArchiveError::InvalidPath));
    assert_eq!(w.begin_entry(&path(&["..", "x"])), Err(ArchiveError::InvalidPath));
    assert_eq!(w.begin_entry(&path(&["a", "."])), Err(ArchiveError::InvalidPath));
    assert_eq!(w.begin_entry(&path(&["", "etc"])), Err(ArchiveError::InvalidPath));
    assert_eq!(w.begin_entry(&path(&["a/b"])), Err(ArchiveError::InvalidPath));
    assert_eq!(w.begin_entry(&path(&["...", ".hidden"])), Ok(()));
}

#[test]
fn writer_refuses_use_after_finish() {
    let mut w = ArchiveWriter::create().unwrap();
    assert_eq!(w.write_chunk(b"no entry yet"), Err(ArchiveError::ClosedWriter));
    w.begin_entry(&path(&["a"])).unwrap();
    assert_eq!(w.finish(), Ok(()));
    assert_eq!(w.begin_entry(&path(&["b"])), Err(ArchiveError::ClosedWriter));
    assert_eq!(w.write_chunk(b"late"), Err(ArchiveError::ClosedWriter));
    assert_eq!(w.finish(), Err(ArchiveError::ClosedWriter));
    assert!(w.into_artifact().exists());
}

#[test]
fn dropping_the_artifact_removes_the_file() {
    let mut w = ArchiveWriter::create().unwrap();
    w.begin_entry(&path(&["a"])).unwrap();
    let artifact = finished(w);
    let on_disk = artifact.to_path_buf();
    assert!(on_disk.exists());
    drop(artifact);
    assert!(!on_disk.exists());
}

#[test]
fn walker_skips_other_entries_and_refuses_bad_names() {
    let mut walker = TreeWalker::new();
    let root = walker.next_directory().unwrap();
    assert!(root.is_empty());
    let listing = vec![
        listed("link", EntryKind::Other),
        listed("..", EntryKind::Other),
        listed("f", EntryKind::File),
    ];
    let files = walker.expand(&root, &listing).unwrap();
    assert_eq!(files, vec![path(&["f"])]);
    assert!(walker.next_directory().is_none());

    let mut walker = TreeWalker::new();
    let root = walker.next_directory().unwrap();
    let bad = vec![listed("ok", EntryKind::Directory), listed("..", EntryKind::Directory)];
    assert_eq!(walker.expand(&root, &bad), Err(ArchiveError::InvalidPath));
    assert!(walker.next_directory().is_none());
}

#[test]
fn walker_visits_nested_directories_depth_first() {
    let mut walker = TreeWalker::new();
    let root = walker.next_directory().unwrap();
    let files = walker
        .expand(&root, &vec![listed("x", EntryKind::Directory), listed("y", EntryKind::Directory)])
        .unwrap();
    assert!(files.is_empty());
    let y = walker.next_directory().unwrap();
    assert_eq!(y, path(&["y"]));
    let files = walker.expand(&y, &vec![listed("deep", EntryKind::Directory), listed("f", EntryKind::File)]).unwrap();
    assert_eq!(files, vec![path(&["y", "f"])]);
    assert_eq!(walker.next_directory(), Some(path(&["y", "deep"])));
    assert_eq!(walker.next_directory(), Some(path(&["x"])));
    assert_eq!(walker.next_directory(), None);
}
